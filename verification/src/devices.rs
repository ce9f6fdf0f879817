//! The device registry: one record for every hardware address seen so far.
//!
//! Records are made when an address is first seen, as a sender or as a peer
//! that a sender names, and they are never removed. What a frame adds to the
//! registry is a function of the registry, the frame and the vendor database.

use std::collections::{HashMap, HashSet};
use vstd::prelude::*;
use crate::address::{number_of, HardwareAddress};
use crate::manufacturer::{
    database_entries, manufacturer_model, query_by_mac, resolve, Manufacturer, ManufacturerModel,
};
use crate::wifi::{
    frame_of, ControlFrame, ControlModel, Error, FieldsModel, Frame, FrameType, FrameTypeModel,
    ManagementFields, ManagementModel,
};

verus! {

broadcast use vstd::std_specs::hash::group_hash_axioms;

/// What is known of one device.
#[derive(Debug)]
pub struct KnownDevice {
    manufacturer: Option<Manufacturer>,
    /// The network name of the device's latest beacon.
    beacon: Option<String>,
    /// False while the device is known only because another device named it.
    sent: bool,
    /// The numbers of the addresses that the device has named.
    knows: HashSet<u64>,
}

/// What a [`KnownDevice`] stands for.
pub struct DeviceModel {
    pub manufacturer: Option<ManufacturerModel>,
    pub beacon: Option<Seq<char>>,
    pub sent: bool,
    pub knows: Set<u64>,
}

impl DeviceModel {
    /// A device that has just been seen for the first time.
    pub open spec fn fresh(manufacturer: Option<ManufacturerModel>) -> DeviceModel {
        DeviceModel { manufacturer, beacon: None, sent: false, knows: Set::empty() }
    }

    /// The device, now known to have sent a frame.
    pub open spec fn marked_sent(self) -> DeviceModel {
        DeviceModel { sent: true, ..self }
    }

    /// The device, its latest beacon naming the network `ssid`.
    pub open spec fn with_beacon(self, ssid: Seq<char>) -> DeviceModel {
        DeviceModel { beacon: Some(ssid), ..self }
    }

    /// The device, now known to have named `peer`.
    pub open spec fn with_peer(self, peer: u64) -> DeviceModel {
        DeviceModel { knows: self.knows.insert(peer), ..self }
    }
}

impl View for KnownDevice {
    type V = DeviceModel;

    closed spec fn view(&self) -> DeviceModel {
        DeviceModel {
            manufacturer: manufacturer_model(self.manufacturer),
            beacon: match self.beacon {
                Some(ssid) => Some(ssid@),
                None => None,
            },
            sent: self.sent,
            knows: self.knows@,
        }
    }
}

impl KnownDevice {
    /// The record of a device seen for the first time, made by `manufacturer`
    /// as far as that is known.
    pub fn new(manufacturer: Option<Manufacturer>) -> (device: Self)
        ensures
            device@ == DeviceModel::fresh(manufacturer_model(manufacturer)),
    {
        KnownDevice { manufacturer, beacon: None, sent: false, knows: HashSet::new() }
    }

    /// Notes that the device has sent a frame.
    pub fn sent(&mut self)
        ensures
            final(self)@ == old(self)@.marked_sent(),
    {
        self.sent = true;
    }

    /// Notes that the device has named the device at `address`.
    pub fn knows(&mut self, address: HardwareAddress)
        ensures
            final(self)@ == old(self)@.with_peer(address.number()),
    {
        self.knows.insert(address.key());
    }

    /// Notes that the device has announced the network `ssid`.
    pub fn beacon(&mut self, ssid: String)
        ensures
            final(self)@ == old(self)@.with_beacon(ssid@),
    {
        self.beacon = Some(ssid);
    }

    /// Who made the device, where the vendor database could tell.
    pub fn manufacturer(&self) -> (manufacturer: &Option<Manufacturer>)
        ensures
            manufacturer_model(*manufacturer) == self@.manufacturer,
    {
        &self.manufacturer
    }

    /// The network name of the device's latest beacon.
    pub fn beacon_ssid(&self) -> (ssid: &Option<String>)
        ensures
            match *ssid {
                Some(name) => self@.beacon == Some(name@),
                None => self@.beacon.is_none(),
            },
    {
        &self.beacon
    }

    /// Whether the device has sent a frame itself.
    pub fn has_sent(&self) -> (sent: bool)
        ensures
            sent == self@.sent,
    {
        self.sent
    }

    /// Whether the device has named the device at `address`.
    pub fn has_named(&self, address: &HardwareAddress) -> (named: bool)
        ensures
            named == self@.knows.contains(address.number()),
    {
        let key = address.key();
        self.knows.contains(&key)
    }
}

/// The number of the address that `octets` spell: its key in the registry.
pub open spec fn key_of(octets: Seq<u8>) -> u64 {
    number_of(octets) as u64
}

/// The registry after `address` was seen: a record is made for it, with the
/// given manufacturer, unless it has one already.
pub open spec fn observed(
    devices: Map<u64, DeviceModel>,
    address: u64,
    manufacturer: Option<ManufacturerModel>,
) -> Map<u64, DeviceModel> {
    if devices.contains_key(address) {
        devices
    } else {
        devices.insert(address, DeviceModel::fresh(manufacturer))
    }
}

/// The registry after the device at `address`, if it has a record, was seen
/// to send.
pub open spec fn marked_sent(devices: Map<u64, DeviceModel>, address: u64) -> Map<
    u64,
    DeviceModel,
> {
    if devices.contains_key(address) {
        devices.insert(address, devices[address].marked_sent())
    } else {
        devices
    }
}

/// The registry after the device at `address`, if it has a record, announced
/// the network `ssid`.
pub open spec fn with_beacon(devices: Map<u64, DeviceModel>, address: u64, ssid: Seq<char>) -> Map<
    u64,
    DeviceModel,
> {
    if devices.contains_key(address) {
        devices.insert(address, devices[address].with_beacon(ssid))
    } else {
        devices
    }
}

/// The registry after the device at `address`, if it has a record, named
/// `peer`.
pub open spec fn with_peer(devices: Map<u64, DeviceModel>, address: u64, peer: u64) -> Map<
    u64,
    DeviceModel,
> {
    if devices.contains_key(address) {
        devices.insert(address, devices[address].with_peer(peer))
    } else {
        devices
    }
}

/// The order of first sight after `address` was seen.
pub open spec fn observed_order(order: Seq<u64>, address: u64) -> Seq<u64> {
    if order.contains(address) {
        order
    } else {
        order.push(address)
    }
}

/// The registry after a frame from `source` to `destination` was heard, the
/// vendor database holding `entries`: the source gets a record if it has
/// none, is marked as a sender, and names the destination.
pub open spec fn after_sender(
    devices: Map<u64, DeviceModel>,
    source: Seq<u8>,
    destination: Seq<u8>,
    entries: Map<Seq<u8>, ManufacturerModel>,
) -> Map<u64, DeviceModel> {
    let seen = observed(devices, key_of(source), resolve(entries, source));
    with_peer(marked_sent(seen, key_of(source)), key_of(source), key_of(destination))
}

/// The registry after `frame` was heard, the vendor database holding
/// `entries`.
///
/// A beacon marks its source as a sender that names the destination, sets
/// the source's network name, and gives the destination a record too. A
/// probe request marks its source as a sender that names the destination.
/// An acknowledgement gives its receiver a record and marks nobody as a
/// sender: this is a choice, made because an acknowledgement shows that its
/// receiver exists and not that anybody originated traffic. Every other
/// frame leaves the registry as it is.
pub open spec fn after_frame(
    devices: Map<u64, DeviceModel>,
    frame: FrameTypeModel,
    entries: Map<Seq<u8>, ManufacturerModel>,
) -> Map<u64, DeviceModel> {
    match frame {
        FrameTypeModel::Management(management) => {
            let source = management.transmitter;
            let destination = management.receiver;
            let heard = after_sender(devices, source, destination, entries);
            match management.fields {
                FieldsModel::Beacon { ssid, .. } => observed(
                    with_beacon(heard, key_of(source), ssid),
                    key_of(destination),
                    resolve(entries, destination),
                ),
                FieldsModel::ProbeRequest => heard,
            }
        },
        FrameTypeModel::Control(ControlModel::Ack { receiver }) => observed(
            devices,
            key_of(receiver),
            resolve(entries, receiver),
        ),
        _ => devices,
    }
}

/// The order of first sight after `frame` was heard.
pub open spec fn order_after_frame(order: Seq<u64>, frame: FrameTypeModel) -> Seq<u64> {
    match frame {
        FrameTypeModel::Management(management) => {
            let heard = observed_order(order, key_of(management.transmitter));
            match management.fields {
                FieldsModel::Beacon { .. } => observed_order(heard, key_of(management.receiver)),
                FieldsModel::ProbeRequest => heard,
            }
        },
        FrameTypeModel::Control(ControlModel::Ack { receiver }) => observed_order(
            order,
            key_of(receiver),
        ),
        _ => order,
    }
}

/// The registry: a record for each address seen, and the order in which the
/// addresses were first seen.
#[derive(Debug)]
pub struct DeviceList {
    records: HashMap<u64, KnownDevice>,
    order: Vec<HardwareAddress>,
}

impl View for DeviceList {
    type V = Map<u64, DeviceModel>;

    /// The record of each address, under the address's number.
    closed spec fn view(&self) -> Map<u64, DeviceModel> {
        self.records@.map_values(|device: KnownDevice| device@)
    }
}

impl Default for DeviceList {
    /// A registry without records.
    fn default() -> (devices: Self)
        ensures
            devices.wf(),
            devices@ == Map::<u64, DeviceModel>::empty(),
            devices.order() == Seq::<u64>::empty(),
    {
        DeviceList::new()
    }
}

impl DeviceList {
    /// The numbers of the addresses with a record, in the order of first
    /// sight.
    pub closed spec fn order(&self) -> Seq<u64> {
        self.order@.map_values(|address: HardwareAddress| address.number())
    }

    /// The registry is well formed: each address with a record stands once
    /// in the order of first sight, and no other address stands there.
    pub closed spec fn wf(&self) -> bool {
        &&& self.order().no_duplicates()
        &&& forall|key: u64| self.records@.contains_key(key) <==> self.order().contains(key)
    }

    /// In a well-formed registry the order of first sight lists the addresses
    /// with a record, each once.
    pub proof fn lemma_order(&self)
        requires
            self.wf(),
        ensures
            self.order().no_duplicates(),
            forall|key: u64| self@.contains_key(key) <==> self.order().contains(key),
    {
    }

    /// A registry without records.
    pub fn new() -> (devices: Self)
        ensures
            devices.wf(),
            devices@ == Map::<u64, DeviceModel>::empty(),
            devices.order() == Seq::<u64>::empty(),
    {
        let devices = DeviceList { records: HashMap::new(), order: Vec::new() };
        assert(devices@ =~= Map::<u64, DeviceModel>::empty());
        assert(devices.order() =~= Seq::<u64>::empty());
        devices
    }

    /// How many addresses have a record.
    pub fn len(&self) -> (len: usize)
        ensures
            len == self.order().len(),
    {
        self.order.len()
    }

    /// The address that was first seen after `index` others.
    pub fn address_at(&self, index: usize) -> (address: HardwareAddress)
        requires
            index < self.order().len(),
        ensures
            address.number() == self.order()[index as int],
    {
        self.order[index]
    }

    /// Whether `address` has a record.
    pub fn contains(&self, address: &HardwareAddress) -> (known: bool)
        ensures
            known == self@.contains_key(address.number()),
    {
        let key = address.key();
        self.records.contains_key(&key)
    }

    /// The record of `address`, if it has one.
    pub fn get(&self, address: &HardwareAddress) -> (found: Option<&KnownDevice>)
        ensures
            match found {
                Some(device) => self@.contains_key(address.number()) && self@[address.number()]
                    == device@,
                None => !self@.contains_key(address.number()),
            },
    {
        let key = address.key();
        self.records.get(&key)
    }

    /// Sees `address`: makes a record for it, with `manufacturer`, unless it
    /// has one already. A record that exists is left as it is, whatever
    /// `manufacturer` holds.
    pub fn observe(&mut self, address: HardwareAddress, manufacturer: Option<Manufacturer>)
        requires
            old(self).wf(),
        ensures
            final(self).wf(),
            final(self)@ == observed(
                old(self)@,
                address.number(),
                manufacturer_model(manufacturer),
            ),
            final(self).order() == observed_order(old(self).order(), address.number()),
    {
        let key = address.key();
        if !self.records.contains_key(&key) {
            let ghost before = self.order();
            assert(before == old(self).order());
            self.records.insert(key, KnownDevice::new(manufacturer));
            self.order.push(address);
            assert(self.order() =~= before.push(key));
            assert(self@ =~= old(self)@.insert(
                key,
                DeviceModel::fresh(manufacturer_model(manufacturer)),
            ));
            assert(!before.contains(key));
            assert forall|other: u64| self.order().contains(other) implies self.records@.contains_key(
                other,
            ) by {
                let at = choose|at: int| 0 <= at < self.order().len() && self.order()[at] == other;
                if at < before.len() {
                    assert(before[at] == other);
                    assert(before.contains(other));
                }
            }
            assert forall|i: int, j: int|
                0 <= i < self.order().len() && 0 <= j < self.order().len() && i != j implies self.order()[i]
                != self.order()[j] by {
                if i < before.len() {
                    assert(before.contains(before[i]));
                }
                if j < before.len() {
                    assert(before.contains(before[j]));
                }
            }
            assert forall|other: u64| self.records@.contains_key(other) implies self.order().contains(
                other,
            ) by {
                if other == key {
                    assert(self.order()[before.len() as int] == key);
                } else {
                    assert(old(self).records@.contains_key(other));
                    assert(before.contains(other));
                    let at = choose|at: int| 0 <= at < before.len() && before[at] == other;
                    assert(self.order()[at] == other);
                }
            }
        }
    }

    /// Sees `address`, asking `database` for the manufacturer if, and only
    /// if, the address has no record yet.
    pub fn get_or_default(&mut self, address: HardwareAddress, database: &oui::OuiDatabase)
        requires
            old(self).wf(),
        ensures
            final(self).wf(),
            final(self)@ == observed(
                old(self)@,
                address.number(),
                resolve(database_entries(*database), address@),
            ),
            final(self).order() == observed_order(old(self).order(), address.number()),
    {
        if !self.contains(&address) {
            let manufacturer = query_by_mac(database, address);
            self.observe(address, manufacturer);
        }
    }

    /// Notes that the device at `address` has sent a frame. Without a record
    /// for `address` nothing changes.
    pub fn sent(&mut self, address: &HardwareAddress)
        requires
            old(self).wf(),
        ensures
            final(self).wf(),
            final(self)@ == marked_sent(old(self)@, address.number()),
            final(self).order() == old(self).order(),
    {
        let key = address.key();
        match self.records.remove(&key) {
            Some(device) => {
                let mut device = device;
                device.sent();
                self.records.insert(key, device);
                assert(self@ =~= marked_sent(old(self)@, key));
            },
            None => {
                assert(self@ =~= old(self)@);
            },
        }
    }

    /// Notes that the device at `address` has announced the network `ssid`,
    /// in place of any it announced before. Without a record for `address`
    /// nothing changes.
    pub fn beacon(&mut self, address: &HardwareAddress, ssid: String)
        requires
            old(self).wf(),
        ensures
            final(self).wf(),
            final(self)@ == with_beacon(old(self)@, address.number(), ssid@),
            final(self).order() == old(self).order(),
    {
        let key = address.key();
        match self.records.remove(&key) {
            Some(device) => {
                let mut device = device;
                device.beacon(ssid);
                self.records.insert(key, device);
                assert(self@ =~= with_beacon(old(self)@, key, ssid@));
            },
            None => {
                assert(self@ =~= old(self)@);
            },
        }
    }

    /// Notes that the device at `address` has named the device at `peer`.
    /// Without a record for `address` nothing changes.
    pub fn knows(&mut self, address: &HardwareAddress, peer: HardwareAddress)
        requires
            old(self).wf(),
        ensures
            final(self).wf(),
            final(self)@ == with_peer(old(self)@, address.number(), peer.number()),
            final(self).order() == old(self).order(),
    {
        let key = address.key();
        match self.records.remove(&key) {
            Some(device) => {
                let mut device = device;
                device.knows(peer);
                self.records.insert(key, device);
                assert(self@ =~= with_peer(old(self)@, key, peer.number()));
            },
            None => {
                assert(self@ =~= old(self)@);
            },
        }
    }

    /// Takes in one decoded frame, asking `database` for the manufacturer of
    /// each address that has no record yet. The outcome is [`after_frame`].
    pub fn observe_frame(&mut self, frame: &FrameType, database: &oui::OuiDatabase)
        requires
            old(self).wf(),
        ensures
            final(self).wf(),
            final(self)@ == after_frame(old(self)@, frame@, database_entries(*database)),
            final(self).order() == order_after_frame(old(self).order(), frame@),
    {
        match frame {
            FrameType::Management(management) => {
                let source = management.transmitter;
                let destination = management.receiver;
                self.get_or_default(source, database);
                self.sent(&source);
                match &management.fields {
                    ManagementFields::Beacon { ssid, .. } => {
                        self.beacon(&source, ssid.clone());
                        self.knows(&source, destination);
                        self.get_or_default(destination, database);
                        assert(self@ =~= after_frame(
                            old(self)@,
                            frame@,
                            database_entries(*database),
                        ));
                    },
                    ManagementFields::ProbeRequest => {
                        self.knows(&source, destination);
                    },
                }
            },
            FrameType::Control(ControlFrame::Ack { receiver }) => {
                self.get_or_default(*receiver, database);
            },
            _ => {},
        }
    }

    /// Takes in one captured frame: decodes it and, if it decodes, takes in
    /// what it decodes to. A buffer that does not decode is reported and
    /// leaves the registry untouched.
    pub fn observe_bytes(&mut self, bytes: &[u8], database: &oui::OuiDatabase) -> (result: Result<
        (),
        Error,
    >)
        requires
            old(self).wf(),
        ensures
            final(self).wf(),
            match frame_of(bytes@) {
                Ok(frame) => {
                    &&& result is Ok
                    &&& final(self)@ == after_frame(
                        old(self)@,
                        frame.frame_type,
                        database_entries(*database),
                    )
                    &&& final(self).order() == order_after_frame(
                        old(self).order(),
                        frame.frame_type,
                    )
                },
                Err(error) => {
                    &&& result == Err::<(), Error>(error)
                    &&& final(self)@ == old(self)@
                    &&& final(self).order() == old(self).order()
                },
            },
    {
        let frame = Frame::new(bytes)?;
        self.observe_frame(&frame.frame_type, database);
        Ok(())
    }
}

/// Whether `after` keeps what `before` held: every record is still there,
/// made by the same manufacturer, still a sender if it was one, and naming
/// at least the peers it named.
pub open spec fn keeps(before: Map<u64, DeviceModel>, after: Map<u64, DeviceModel>) -> bool {
    forall|address: u64| #[trigger]
        before.contains_key(address) ==> {
            &&& after.contains_key(address)
            &&& after[address].manufacturer == before[address].manufacturer
            &&& (before[address].sent ==> after[address].sent)
            &&& before[address].knows.subset_of(after[address].knows)
        }
}

/// Each step that the registry can take keeps what it held.
pub proof fn lemma_steps_keep(
    devices: Map<u64, DeviceModel>,
    address: u64,
    manufacturer: Option<ManufacturerModel>,
    ssid: Seq<char>,
    peer: u64,
)
    ensures
        keeps(devices, observed(devices, address, manufacturer)),
        keeps(devices, marked_sent(devices, address)),
        keeps(devices, with_beacon(devices, address, ssid)),
        keeps(devices, with_peer(devices, address, peer)),
{
}

/// A frame never takes a record away, never changes who made a device,
/// never unmarks a sender and never shrinks the set of peers that a device
/// has named.
pub proof fn lemma_frames_keep(
    devices: Map<u64, DeviceModel>,
    frame: FrameTypeModel,
    entries: Map<Seq<u8>, ManufacturerModel>,
)
    ensures
        keeps(devices, after_frame(devices, frame, entries)),
{
}

/// What is kept from step to step is kept over any run of steps.
pub proof fn lemma_keeps_transitive(
    first: Map<u64, DeviceModel>,
    second: Map<u64, DeviceModel>,
    third: Map<u64, DeviceModel>,
)
    requires
        keeps(first, second),
        keeps(second, third),
    ensures
        keeps(first, third),
{
    assert forall|address: u64| #[trigger] first.contains_key(address) implies {
        &&& third.contains_key(address)
        &&& third[address].manufacturer == first[address].manufacturer
        &&& (first[address].sent ==> third[address].sent)
        &&& first[address].knows.subset_of(third[address].knows)
    } by {
        assert(second.contains_key(address));
    }
}

/// An address first met as the destination of a beacon and later as the
/// source of one has one record throughout. The record is made at the first
/// beacon, with the manufacturer that the database gave then, and is not yet
/// that of a sender; the second beacon marks it as a sender and keeps the
/// manufacturer, whatever the database would say by then.
pub proof fn lemma_destination_then_source(
    devices: Map<u64, DeviceModel>,
    first: ManagementModel,
    first_entries: Map<Seq<u8>, ManufacturerModel>,
    second: ManagementModel,
    second_entries: Map<Seq<u8>, ManufacturerModel>,
)
    requires
        first.fields is Beacon,
        second.fields is Beacon,
        !devices.contains_key(key_of(first.receiver)),
        key_of(first.transmitter) != key_of(first.receiver),
        second.transmitter == first.receiver,
    ensures
        ({
            let address = key_of(first.receiver);
            let between = after_frame(devices, FrameTypeModel::Management(first), first_entries);
            let after = after_frame(between, FrameTypeModel::Management(second), second_entries);
            &&& between.contains_key(address)
            &&& !between[address].sent
            &&& between[address].manufacturer == resolve(first_entries, first.receiver)
            &&& after.contains_key(address)
            &&& after[address].sent
            &&& after[address].manufacturer == between[address].manufacturer
        }),
{
}

} // verus!
