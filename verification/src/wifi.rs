//! The 802.11 MAC frame decoder.
//!
//! A frame arrives as captured, with its check sequence and without any
//! radio header. Its octets lie as follows; numbers are little-endian.
//!
//! | offset | field |
//! |---|---|
//! | 0 | frame control: version (bits 0-1), type (bits 2-3), subtype (bits 4-7) |
//! | 1 | flags: to-DS (bit 0), from-DS (bit 1) |
//! | 2 | duration |
//! | 4 | address 1 |
//! | 10 | address 2 |
//! | 16 | address 3 |
//! | 22 | sequence control |
//! | 24 | address 4 of a data frame with both DS flags; else the body |
//! | last 4 | frame check sequence |
//!
//! The body of a beacon is a timestamp of eight octets, an interval and
//! capability bits of two octets each, and from offset 36 on the tagged
//! elements of [`crate::tag`].

use vstd::prelude::*;
use vstd::slice::slice_subrange;
use crate::address::HardwareAddress;
use vstd::utf8::encode_utf8;
use crate::tag::{
    element_fits, element_len, element_rest, element_tag, element_value, first_ssid, lemma_first_ssid_skips,
    lemma_ssid_keeps_name, lemma_tags_of_concat, tag_models, tags_of, ManagementTag, TagModel,
    TAG_SSID,
};

verus! {

/// Why a buffer could not be decoded. Every failure is a value: a caller
/// drops the buffer and goes on with the next one.
#[derive(Debug, Clone, Copy, PartialEq, Eq)]
pub enum Error {
    /// The buffer ends before a field that the frame's kind requires.
    TruncatedFrame,
    /// The protocol version bits are not zero; the payload is the version.
    UnsupportedVersion(u8),
    /// The type and subtype name no frame kind at all. [`Frame::new`] does
    /// not report it: what it does not interpret it decodes as
    /// [`FrameType::Unknown`], so that no captured frame is lost for its kind.
    UnrecognizedFrameType,
    /// A management frame lacks an element that its kind must carry; the
    /// payload names the element.
    MissingMandatoryTag(&'static str),
}

/// Octets before the elements of a beacon: the MAC header and the fixed body.
pub const BEACON_ELEMENTS_START: usize = 36;

/// Octets of the frame check sequence that ends every frame.
pub const FCS_LEN: usize = 4;

/// Fewest octets of a beacon: header, fixed body, frame check sequence.
pub const BEACON_MIN_LEN: usize = 40;

/// Fewest octets of a data frame with three addresses.
pub const DATA_MIN_LEN: usize = 34;

/// Fewest octets of a data frame that carries a fourth address.
pub const DATA_FOUR_ADDRESS_MIN_LEN: usize = 40;

/// Fewest octets of any frame: frame control, duration, first address.
pub const FRAME_MIN_LEN: usize = 10;

/// A control frame.
#[derive(Debug, Clone, Copy, PartialEq, Eq)]
pub enum ControlFrame {
    /// An acknowledgement, addressed to `receiver`.
    Ack { receiver: HardwareAddress },
}

/// The body of a management frame, by subtype.
#[derive(Debug, Clone, PartialEq, Eq)]
pub enum ManagementFields {
    /// A beacon: the sender's clock, the network name (the first SSID
    /// element), and every element in wire order.
    Beacon { timestamp: u64, ssid: String, tags: Vec<ManagementTag> },
    /// A probe request. The decoder does not produce it; it stands for a
    /// probe that a caller has recognised by other means.
    ProbeRequest,
}

/// A management frame: its three addresses and its body.
#[derive(Debug, Clone, PartialEq, Eq)]
pub struct ManagementFrame {
    /// Address 1: the destination.
    pub receiver: HardwareAddress,
    /// Address 2: the source.
    pub transmitter: HardwareAddress,
    pub bssid: HardwareAddress,
    pub sequence_control: u16,
    pub fields: ManagementFields,
}

/// A data frame, its addresses resolved by the distribution-system flags.
#[derive(Debug, Clone, Copy, PartialEq, Eq)]
pub struct DataFrame {
    /// Address 1 as it stands on the wire.
    pub receiver: HardwareAddress,
    /// Address 2 as it stands on the wire.
    pub transmitter: HardwareAddress,
    pub destination: HardwareAddress,
    pub source: HardwareAddress,
    /// Absent in a frame relayed between access points.
    pub bssid: Option<HardwareAddress>,
    pub sequence_control: u16,
}

/// A frame's kind with the fields that belong to it.
#[derive(Debug, Clone, PartialEq, Eq)]
pub enum FrameType {
    Control(ControlFrame),
    Management(ManagementFrame),
    Data(DataFrame),
    /// A type and subtype that this decoder does not interpret.
    Unknown,
}

/// A decoded frame. `body` is the frame without its check sequence, `fcs`
/// the check sequence itself.
#[derive(Debug, Clone, PartialEq, Eq)]
pub struct Frame<'a> {
    pub frame_type: FrameType,
    pub duration: u16,
    pub body: &'a [u8],
    pub fcs: u32,
}

/// What a [`ControlFrame`] stands for.
pub enum ControlModel {
    Ack { receiver: Seq<u8> },
}

/// What a [`ManagementFields`] stands for.
pub enum FieldsModel {
    Beacon { timestamp: u64, ssid: Seq<char>, tags: Seq<TagModel> },
    ProbeRequest,
}

/// What a [`ManagementFrame`] stands for.
pub struct ManagementModel {
    pub receiver: Seq<u8>,
    pub transmitter: Seq<u8>,
    pub bssid: Seq<u8>,
    pub sequence_control: u16,
    pub fields: FieldsModel,
}

/// What a [`DataFrame`] stands for.
pub struct DataModel {
    pub receiver: Seq<u8>,
    pub transmitter: Seq<u8>,
    pub destination: Seq<u8>,
    pub source: Seq<u8>,
    pub bssid: Option<Seq<u8>>,
    pub sequence_control: u16,
}

/// What a [`FrameType`] stands for.
pub enum FrameTypeModel {
    Control(ControlModel),
    Management(ManagementModel),
    Data(DataModel),
    Unknown,
}

/// What a [`Frame`] stands for.
pub struct FrameModel {
    pub frame_type: FrameTypeModel,
    pub duration: u16,
    pub body: Seq<u8>,
    pub fcs: u32,
}

impl View for ControlFrame {
    type V = ControlModel;

    open spec fn view(&self) -> ControlModel {
        match self {
            ControlFrame::Ack { receiver } => ControlModel::Ack { receiver: receiver@ },
        }
    }
}

impl View for ManagementFields {
    type V = FieldsModel;

    open spec fn view(&self) -> FieldsModel {
        match self {
            ManagementFields::Beacon { timestamp, ssid, tags } => FieldsModel::Beacon {
                timestamp: *timestamp,
                ssid: ssid@,
                tags: tag_models(tags@),
            },
            ManagementFields::ProbeRequest => FieldsModel::ProbeRequest,
        }
    }
}

impl View for ManagementFrame {
    type V = ManagementModel;

    open spec fn view(&self) -> ManagementModel {
        ManagementModel {
            receiver: self.receiver@,
            transmitter: self.transmitter@,
            bssid: self.bssid@,
            sequence_control: self.sequence_control,
            fields: self.fields@,
        }
    }
}

impl View for DataFrame {
    type V = DataModel;

    open spec fn view(&self) -> DataModel {
        DataModel {
            receiver: self.receiver@,
            transmitter: self.transmitter@,
            destination: self.destination@,
            source: self.source@,
            bssid: match self.bssid {
                Some(bssid) => Some(bssid@),
                None => None,
            },
            sequence_control: self.sequence_control,
        }
    }
}

impl View for FrameType {
    type V = FrameTypeModel;

    open spec fn view(&self) -> FrameTypeModel {
        match self {
            FrameType::Control(frame) => FrameTypeModel::Control(frame@),
            FrameType::Management(frame) => FrameTypeModel::Management(frame@),
            FrameType::Data(frame) => FrameTypeModel::Data(frame@),
            FrameType::Unknown => FrameTypeModel::Unknown,
        }
    }
}

impl<'a> View for Frame<'a> {
    type V = FrameModel;

    open spec fn view(&self) -> FrameModel {
        FrameModel {
            frame_type: self.frame_type@,
            duration: self.duration,
            body: self.body@,
            fcs: self.fcs,
        }
    }
}

/// The six octets of the address that starts at `at`.
pub open spec fn octets_at(bytes: Seq<u8>, at: int) -> Seq<u8>
    recommends
        0 <= at && at + 6 <= bytes.len(),
{
    bytes.subrange(at, at + 6)
}

/// The two octets at `at` as a little-endian number.
pub open spec fn le16(bytes: Seq<u8>, at: int) -> int
    recommends
        0 <= at && at + 2 <= bytes.len(),
{
    bytes[at] as int + 0x100 * bytes[at + 1] as int
}

/// The four octets at `at` as a little-endian number.
pub open spec fn le32(bytes: Seq<u8>, at: int) -> int
    recommends
        0 <= at && at + 4 <= bytes.len(),
{
    le16(bytes, at) + 0x1_0000 * le16(bytes, at + 2)
}

/// The eight octets at `at` as a little-endian number.
pub open spec fn le64(bytes: Seq<u8>, at: int) -> int
    recommends
        0 <= at && at + 8 <= bytes.len(),
{
    le32(bytes, at) + 0x1_0000_0000 * le32(bytes, at + 4)
}

/// The protocol version: the low two bits of the first octet.
pub open spec fn version_bits(control: u8) -> u8 {
    control & 0b11
}

/// The frame type: bits two and three of the first octet.
pub open spec fn type_bits(control: u8) -> u8 {
    (control >> 2) & 0b11
}

/// The frame subtype: the high four bits of the first octet.
pub open spec fn subtype_bits(control: u8) -> u8 {
    (control >> 4) & 0b1111
}

/// Whether the flags say that the frame goes to the distribution system.
pub open spec fn to_ds(flags: u8) -> bool {
    flags & 0b1 != 0
}

/// Whether the flags say that the frame comes from the distribution system.
pub open spec fn from_ds(flags: u8) -> bool {
    flags & 0b10 != 0
}

/// The elements of a beacon: what lies between its fixed body and its
/// check sequence.
pub open spec fn beacon_elements(bytes: Seq<u8>) -> Seq<u8>
    recommends
        bytes.len() >= BEACON_MIN_LEN,
{
    bytes.subrange(BEACON_ELEMENTS_START as int, bytes.len() - FCS_LEN)
}

/// A beacon decoded from `bytes`, or why it cannot be.
pub open spec fn beacon_of(bytes: Seq<u8>) -> Result<FrameTypeModel, Error> {
    if bytes.len() < BEACON_MIN_LEN {
        Err(Error::TruncatedFrame)
    } else {
        match tags_of(beacon_elements(bytes)) {
            None => Err(Error::TruncatedFrame),
            Some(tags) => match first_ssid(tags) {
                None => Err(Error::MissingMandatoryTag("SSID")),
                Some(ssid) => Ok(
                    FrameTypeModel::Management(
                        ManagementModel {
                            receiver: octets_at(bytes, 4),
                            transmitter: octets_at(bytes, 10),
                            bssid: octets_at(bytes, 16),
                            sequence_control: le16(bytes, 22) as u16,
                            fields: FieldsModel::Beacon {
                                timestamp: le64(bytes, 24) as u64,
                                ssid,
                                tags,
                            },
                        },
                    ),
                ),
            },
        }
    }
}

/// The fewest octets of a data frame with these flags.
pub open spec fn data_min_len(flags: u8) -> int {
    if to_ds(flags) && from_ds(flags) {
        DATA_FOUR_ADDRESS_MIN_LEN as int
    } else {
        DATA_MIN_LEN as int
    }
}

/// A data frame decoded from `bytes`, or why it cannot be. The flags decide
/// which address field plays which part.
pub open spec fn data_of(bytes: Seq<u8>, flags: u8) -> Result<FrameTypeModel, Error> {
    if bytes.len() < data_min_len(flags) {
        Err(Error::TruncatedFrame)
    } else {
        let address1 = octets_at(bytes, 4);
        let address2 = octets_at(bytes, 10);
        let address3 = octets_at(bytes, 16);
        let (destination, source, bssid) = if !to_ds(flags) && !from_ds(flags) {
            (address1, address2, Some(address3))
        } else if !to_ds(flags) {
            (address1, address3, Some(address2))
        } else if !from_ds(flags) {
            (address3, address2, Some(address1))
        } else {
            (address3, octets_at(bytes, 24), None)
        };
        Ok(
            FrameTypeModel::Data(
                DataModel {
                    receiver: address1,
                    transmitter: address2,
                    destination,
                    source,
                    bssid,
                    sequence_control: le16(bytes, 22) as u16,
                },
            ),
        )
    }
}

/// The frame type value of management frames.
pub const TYPE_MANAGEMENT: u8 = 0;

/// The frame type value of control frames.
pub const TYPE_CONTROL: u8 = 1;

/// The frame type value of data frames.
pub const TYPE_DATA: u8 = 2;

/// The subtype of a beacon among management frames.
pub const SUBTYPE_BEACON: u8 = 8;

/// The subtype of an acknowledgement among control frames.
pub const SUBTYPE_ACK: u8 = 13;

/// The subtype of plain data among data frames.
pub const SUBTYPE_DATA: u8 = 0;

/// The typed part of the frame in `bytes`, chosen by type and subtype.
/// Whatever is not a beacon, an acknowledgement or plain data is unknown.
pub open spec fn frame_type_of(ty: u8, subty: u8, flags: u8, bytes: Seq<u8>) -> Result<
    FrameTypeModel,
    Error,
> {
    if ty == TYPE_MANAGEMENT && subty == SUBTYPE_BEACON {
        beacon_of(bytes)
    } else if ty == TYPE_CONTROL && subty == SUBTYPE_ACK {
        Ok(FrameTypeModel::Control(ControlModel::Ack { receiver: octets_at(bytes, 4) }))
    } else if ty == TYPE_DATA && subty == SUBTYPE_DATA {
        data_of(bytes, flags)
    } else {
        Ok(FrameTypeModel::Unknown)
    }
}

/// The frame in `bytes`, or why there is none.
pub open spec fn frame_of(bytes: Seq<u8>) -> Result<FrameModel, Error> {
    if bytes.len() < FRAME_MIN_LEN {
        Err(Error::TruncatedFrame)
    } else if version_bits(bytes[0]) != 0 {
        Err(Error::UnsupportedVersion(version_bits(bytes[0])))
    } else {
        match frame_type_of(type_bits(bytes[0]), subtype_bits(bytes[0]), bytes[1], bytes) {
            Err(error) => Err(error),
            Ok(frame_type) => Ok(
                FrameModel {
                    frame_type,
                    duration: le16(bytes, 2) as u16,
                    body: bytes.subrange(0, bytes.len() - FCS_LEN),
                    fcs: le32(bytes, bytes.len() - FCS_LEN) as u32,
                },
            ),
        }
    }
}

/// Whether `bytes` holds `width` octets from `at` on.
pub open spec fn reaches(bytes: Seq<u8>, at: usize, width: usize) -> bool {
    at + width <= bytes.len()
}

/// Tells whether `bytes` holds `width` octets from `at` on, without
/// computing a sum that could overflow.
pub fn has_octets(bytes: &[u8], at: usize, width: usize) -> (fits: bool)
    ensures
        fits == reaches(bytes@, at, width),
{
    bytes.len() >= width && at <= bytes.len() - width
}

/// Reads the little-endian number in the two octets at `at`. Where `bytes`
/// does not reach that far, the buffer is truncated.
pub fn read_le16(bytes: &[u8], at: usize) -> (result: Result<u16, Error>)
    ensures
        match result {
            Ok(value) => reaches(bytes@, at, 2) && value == le16(bytes@, at as int),
            Err(error) => !reaches(bytes@, at, 2) && error == Error::TruncatedFrame,
        },
{
    if !has_octets(bytes, at, 2) {
        return Err(Error::TruncatedFrame);
    }
    Ok(bytes[at] as u16 + 0x100 * (bytes[at + 1] as u16))
}

/// Reads the little-endian number in the four octets at `at`. Where `bytes`
/// does not reach that far, the buffer is truncated.
pub fn read_le32(bytes: &[u8], at: usize) -> (result: Result<u32, Error>)
    ensures
        match result {
            Ok(value) => reaches(bytes@, at, 4) && value == le32(bytes@, at as int),
            Err(error) => !reaches(bytes@, at, 4) && error == Error::TruncatedFrame,
        },
{
    if !has_octets(bytes, at, 4) {
        return Err(Error::TruncatedFrame);
    }
    assert(bytes@.len() == bytes.len());
    let low = read_le16(bytes, at)?;
    let high = read_le16(bytes, at + 2)?;
    Ok(low as u32 + 0x1_0000 * (high as u32))
}

/// Reads the little-endian number in the eight octets at `at`. Where `bytes`
/// does not reach that far, the buffer is truncated.
pub fn read_le64(bytes: &[u8], at: usize) -> (result: Result<u64, Error>)
    ensures
        match result {
            Ok(value) => reaches(bytes@, at, 8) && value == le64(bytes@, at as int),
            Err(error) => !reaches(bytes@, at, 8) && error == Error::TruncatedFrame,
        },
{
    if !has_octets(bytes, at, 8) {
        return Err(Error::TruncatedFrame);
    }
    assert(bytes@.len() == bytes.len());
    let low = read_le32(bytes, at)?;
    let high = read_le32(bytes, at + 4)?;
    Ok(low as u64 + 0x1_0000_0000 * (high as u64))
}

/// The name in the first SSID element among `tags`.
pub fn find_ssid(tags: &Vec<ManagementTag>) -> (found: Option<String>)
    ensures
        match found {
            Some(name) => first_ssid(tag_models(tags@)) == Some(name@),
            None => first_ssid(tag_models(tags@)).is_none(),
        },
{
    let ghost models = tag_models(tags@);
    let mut at: usize = 0;
    while at < tags.len()
        invariant
            at <= tags.len(),
            models == tag_models(tags@),
            forall|i: int| 0 <= i < at ==> !(#[trigger] models[i] is Ssid),
        decreases tags.len() - at,
    {
        if let ManagementTag::Ssid(name) = &tags[at] {
            proof {
                lemma_first_ssid_skips(models, at as int);
                assert(models.subrange(at as int, models.len() as int)[0] == models[at as int]);
            }
            return Some(name.clone());
        }
        at += 1;
    }
    proof {
        lemma_first_ssid_skips(models, at as int);
    }
    None
}

impl ControlFrame {
    /// An acknowledgement addressed to `receiver`.
    fn ack(receiver: HardwareAddress) -> (result: Result<FrameType, Error>)
        ensures
            result is Ok,
            result.unwrap()@ == FrameTypeModel::Control(ControlModel::Ack { receiver: receiver@ }),
    {
        Ok(FrameType::Control(ControlFrame::Ack { receiver }))
    }
}

impl ManagementFrame {
    /// The management frame in `frame` with the given body; `receiver` is
    /// the first address, which the caller has read already.
    fn new(frame: &[u8], receiver: HardwareAddress, fields: ManagementFields) -> (result: Result<
        Self,
        Error,
    >)
        ensures
            match result {
                Ok(made) => frame@.len() >= 24 && made@ == (ManagementModel {
                    receiver: receiver@,
                    transmitter: octets_at(frame@, 10),
                    bssid: octets_at(frame@, 16),
                    sequence_control: le16(frame@, 22) as u16,
                    fields: fields@,
                }),
                Err(error) => frame@.len() < 24 && error == Error::TruncatedFrame,
            },
    {
        if frame.len() < 24 {
            return Err(Error::TruncatedFrame);
        }
        Ok(
            ManagementFrame {
                receiver,
                transmitter: HardwareAddress::read(frame, 10)?,
                bssid: HardwareAddress::read(frame, 16)?,
                sequence_control: read_le16(frame, 22)?,
                fields,
            },
        )
    }

    /// Decodes `frame` as a beacon: [`beacon_of`].
    fn beacon(frame: &[u8], receiver: HardwareAddress) -> (result: Result<FrameType, Error>)
        requires
            frame@.len() >= FRAME_MIN_LEN,
            receiver@ == octets_at(frame@, 4),
        ensures
            match result {
                Ok(frame_type) => beacon_of(frame@) == Ok::<FrameTypeModel, Error>(frame_type@),
                Err(error) => beacon_of(frame@) == Err::<FrameTypeModel, Error>(error),
            },
    {
        if frame.len() < BEACON_MIN_LEN {
            return Err(Error::TruncatedFrame);
        }
        let elements = slice_subrange(frame, BEACON_ELEMENTS_START, frame.len() - FCS_LEN);
        let tags = match ManagementTag::parse_all(elements) {
            Ok(tags) => tags,
            Err(error) => {
                return Err(error);
            },
        };
        let ssid = match find_ssid(&tags) {
            Some(ssid) => ssid,
            None => {
                return Err(Error::MissingMandatoryTag("SSID"));
            },
        };
        let fields = ManagementFields::Beacon { timestamp: read_le64(frame, 24)?, ssid, tags };
        Ok(FrameType::Management(Self::new(frame, receiver, fields)?))
    }
}

impl DataFrame {
    /// Decodes `frame` as plain data: [`data_of`].
    fn data(frame: &[u8], flags: u8, receiver: HardwareAddress) -> (result: Result<
        FrameType,
        Error,
    >)
        requires
            frame@.len() >= FRAME_MIN_LEN,
            receiver@ == octets_at(frame@, 4),
        ensures
            match result {
                Ok(frame_type) => data_of(frame@, flags) == Ok::<FrameTypeModel, Error>(
                    frame_type@,
                ),
                Err(error) => data_of(frame@, flags) == Err::<FrameTypeModel, Error>(error),
            },
    {
        let to_ds = flags & 0b1 != 0;
        let from_ds = flags & 0b10 != 0;
        if to_ds && from_ds && frame.len() < DATA_FOUR_ADDRESS_MIN_LEN {
            return Err(Error::TruncatedFrame);
        }
        if frame.len() < DATA_MIN_LEN {
            return Err(Error::TruncatedFrame);
        }
        let transmitter = HardwareAddress::read(frame, 10)?;
        let address3 = HardwareAddress::read(frame, 16)?;
        let (destination, source, bssid) = if !to_ds && !from_ds {
            (receiver, transmitter, Some(address3))
        } else if !to_ds {
            (receiver, address3, Some(transmitter))
        } else if !from_ds {
            (address3, transmitter, Some(receiver))
        } else {
            (address3, HardwareAddress::read(frame, 24)?, None)
        };
        let sequence_control = read_le16(frame, 22)?;
        Ok(
            FrameType::Data(
                DataFrame { receiver, transmitter, destination, source, bssid, sequence_control },
            ),
        )
    }
}

impl FrameType {
    /// Decodes the typed part of `frame`: [`frame_type_of`].
    fn new(ty: u8, subty: u8, flags: u8, address1: HardwareAddress, frame: &[u8]) -> (result:
        Result<Self, Error>)
        requires
            frame@.len() >= FRAME_MIN_LEN,
            address1@ == octets_at(frame@, 4),
        ensures
            match result {
                Ok(frame_type) => frame_type_of(ty, subty, flags, frame@) == Ok::<
                    FrameTypeModel,
                    Error,
                >(frame_type@),
                Err(error) => frame_type_of(ty, subty, flags, frame@) == Err::<
                    FrameTypeModel,
                    Error,
                >(error),
            },
    {
        if ty == TYPE_MANAGEMENT && subty == SUBTYPE_BEACON {
            ManagementFrame::beacon(frame, address1)
        } else if ty == TYPE_CONTROL && subty == SUBTYPE_ACK {
            ControlFrame::ack(address1)
        } else if ty == TYPE_DATA && subty == SUBTYPE_DATA {
            DataFrame::data(frame, flags, address1)
        } else {
            Ok(FrameType::Unknown)
        }
    }
}

impl<'a> Frame<'a> {
    /// Decodes one MAC frame, as captured with its check sequence and without
    /// any radio header.
    ///
    /// The result is exactly [`frame_of`] of the octets: the decoded frame
    /// where there is one, and otherwise the reason there is none. No input
    /// makes it read outside `frame`.
    pub fn new(frame: &'a [u8]) -> (result: Result<Frame<'a>, Error>)
        ensures
            match result {
                Ok(decoded) => frame_of(frame@) == Ok::<FrameModel, Error>(decoded@),
                Err(error) => frame_of(frame@) == Err::<FrameModel, Error>(error),
            },
    {
        if frame.len() < FRAME_MIN_LEN {
            return Err(Error::TruncatedFrame);
        }
        let frame_control = frame[0];
        let flags = frame[1];
        let duration = read_le16(frame, 2)?;
        let address1 = HardwareAddress::read(frame, 4)?;
        let version = frame_control & 0b11;
        if version != 0 {
            return Err(Error::UnsupportedVersion(version));
        }
        let frame_type = match FrameType::new(
            (frame_control >> 2) & 0b11,
            (frame_control >> 4) & 0b1111,
            flags,
            address1,
            frame,
        ) {
            Ok(frame_type) => frame_type,
            Err(error) => {
                return Err(error);
            },
        };
        let fcs = read_le32(frame, frame.len() - FCS_LEN)?;
        let body = slice_subrange(frame, 0, frame.len() - FCS_LEN);
        Ok(Frame { frame_type, duration, body, fcs })
    }
}

/// Whether the first octet of `bytes` announces version zero and the given
/// type and subtype.
pub open spec fn is_kind(bytes: Seq<u8>, ty: u8, subty: u8) -> bool {
    &&& bytes.len() >= FRAME_MIN_LEN
    &&& version_bits(bytes[0]) == 0
    &&& type_bits(bytes[0]) == ty
    &&& subtype_bits(bytes[0]) == subty
}

/// The addressing of data frames. With neither flag set the three address
/// fields are destination, source and BSSID in this order; with only
/// from-DS set they are destination, BSSID, source; with only to-DS set
/// BSSID, source, destination; with both set the third field is the
/// destination, the fourth the source, and there is no BSSID.
pub proof fn lemma_data_addressing(bytes: Seq<u8>)
    requires
        is_kind(bytes, TYPE_DATA, SUBTYPE_DATA),
        bytes.len() >= data_min_len(bytes[1]),
    ensures
        frame_of(bytes) is Ok,
        frame_of(bytes).unwrap().frame_type is Data,
        ({
            let data = frame_of(bytes).unwrap().frame_type->Data_0;
            let address1 = bytes.subrange(4, 10);
            let address2 = bytes.subrange(10, 16);
            let address3 = bytes.subrange(16, 22);
            let address4 = bytes.subrange(24, 30);
            let triple = (data.destination, data.source, data.bssid);
            match (to_ds(bytes[1]), from_ds(bytes[1])) {
                (false, false) => triple == (address1, address2, Some(address3)),
                (false, true) => triple == (address1, address3, Some(address2)),
                (true, false) => triple == (address3, address2, Some(address1)),
                (true, true) => triple == (address3, address4, None::<Seq<u8>>),
            }
        }),
{
}

/// A beacon whose elements decode, one of them an SSID, is a beacon frame
/// named by its first SSID element, whatever other elements it carries and
/// whatever its check sequence holds.
pub proof fn lemma_beacon_takes_first_ssid(bytes: Seq<u8>, tags: Seq<TagModel>, at: int)
    requires
        is_kind(bytes, TYPE_MANAGEMENT, SUBTYPE_BEACON),
        bytes.len() >= BEACON_MIN_LEN,
        tags_of(beacon_elements(bytes)) == Some(tags),
        0 <= at < tags.len(),
        tags[at] is Ssid,
        forall|i: int| 0 <= i < at ==> !(#[trigger] tags[i] is Ssid),
    ensures
        frame_of(bytes) is Ok,
        frame_of(bytes).unwrap().frame_type is Management,
        frame_of(bytes).unwrap().frame_type->Management_0.fields == (FieldsModel::Beacon {
            timestamp: le64(bytes, 24) as u64,
            ssid: tags[at]->Ssid_0,
            tags,
        }),
{
    lemma_first_ssid_skips(tags, at);
    assert(tags.subrange(at, tags.len() as int)[0] == tags[at]);
}

/// A beacon keeps the name that its SSID element spells. Where the elements
/// are some that hold no SSID, then an SSID element whose value is the UTF-8
/// form of `name`, then any others, the beacon decodes and is named `name`,
/// character for character; the empty name is kept like any other.
pub proof fn lemma_beacon_keeps_name(
    bytes: Seq<u8>,
    before: Seq<u8>,
    element: Seq<u8>,
    after: Seq<u8>,
    name: Seq<char>,
)
    requires
        is_kind(bytes, TYPE_MANAGEMENT, SUBTYPE_BEACON),
        bytes.len() >= BEACON_MIN_LEN,
        beacon_elements(bytes) == before + element + after,
        tags_of(before) is Some,
        forall|i: int|
            0 <= i < tags_of(before).unwrap().len() ==> !(#[trigger] tags_of(
                before,
            ).unwrap()[i] is Ssid),
        element_fits(element),
        element_len(element) == element.len(),
        element[0] == TAG_SSID,
        element_value(element) == encode_utf8(name),
        tags_of(after) is Some,
    ensures
        frame_of(bytes) is Ok,
        frame_of(bytes).unwrap().frame_type is Management,
        frame_of(bytes).unwrap().frame_type->Management_0.fields is Beacon,
        frame_of(bytes).unwrap().frame_type->Management_0.fields->Beacon_ssid == name,
{
    let front = tags_of(before).unwrap();
    let back = tags_of(after).unwrap();
    let named = seq![TagModel::Ssid(name)];
    lemma_ssid_keeps_name(element, name);
    assert(element_rest(element).len() == 0);
    assert(tags_of(element_rest(element)) == Some(Seq::<TagModel>::empty()));
    assert(seq![element_tag(element)] + Seq::<TagModel>::empty() =~= named);
    assert(tags_of(element) == Some(named));
    lemma_tags_of_concat(element, after);
    lemma_tags_of_concat(before, element + after);
    assert(before + (element + after) =~= before + element + after);
    let tags = front + (named + back);
    assert(tags_of(beacon_elements(bytes)) == Some(tags));
    assert(tags[front.len() as int] == TagModel::Ssid(name));
    lemma_beacon_takes_first_ssid(bytes, tags, front.len() as int);
}

/// A beacon whose elements decode and hold no SSID is refused for the
/// missing SSID, whatever else it carries.
pub proof fn lemma_beacon_needs_ssid(bytes: Seq<u8>, tags: Seq<TagModel>)
    requires
        is_kind(bytes, TYPE_MANAGEMENT, SUBTYPE_BEACON),
        bytes.len() >= BEACON_MIN_LEN,
        tags_of(beacon_elements(bytes)) == Some(tags),
        forall|i: int| 0 <= i < tags.len() ==> !(#[trigger] tags[i] is Ssid),
    ensures
        frame_of(bytes) == Err::<FrameModel, Error>(Error::MissingMandatoryTag("SSID")),
{
    lemma_first_ssid_skips(tags, tags.len() as int);
    assert(tags.subrange(tags.len() as int, tags.len() as int).len() == 0);
}

} // verus!
