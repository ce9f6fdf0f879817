//! The tagged elements that fill the body of a management frame.
//!
//! Each element is one octet of identifier, one octet of length, and that many
//! octets of value. Elements follow one another to the end of the region.

use vstd::prelude::*;
use vstd::slice::{slice_subrange, slice_to_vec};
use vstd::utf8::{
    decode_utf8, encode_utf8, encode_utf8_decode_utf8, encode_utf8_valid_utf8, valid_utf8,
};
use crate::wifi::Error;

verus! {

/// Identifier of the network-name element.
pub const TAG_SSID: u8 = 0x00;

/// Identifier of the supported-rates element.
pub const TAG_SUPPORTED_RATES: u8 = 0x01;

/// Identifier of the country element.
pub const TAG_COUNTRY: u8 = 0x07;

/// Identifier of the vendor-specific element.
pub const TAG_VENDOR_SPECIFIC: u8 = 0xdd;

/// One decoded element of a management frame body.
#[derive(Debug, Clone, PartialEq, Eq)]
pub enum ManagementTag {
    /// The network name, as text.
    Ssid(String),
    /// The supported rates, one code per octet.
    SupportedRates(Vec<u8>),
    /// The country the network operates in.
    Country { code: [u8; 2] },
    /// An element defined by a vendor, known by the vendor's identifier.
    VendorSpecific { vendor: [u8; 3] },
    /// An element this decoder does not interpret.
    Unknown,
}

/// What a [`ManagementTag`] stands for.
pub enum TagModel {
    Ssid(Seq<char>),
    SupportedRates(Seq<u8>),
    Country { code: Seq<u8> },
    VendorSpecific { vendor: Seq<u8> },
    Unknown,
}

impl View for ManagementTag {
    type V = TagModel;

    open spec fn view(&self) -> TagModel {
        match self {
            ManagementTag::Ssid(name) => TagModel::Ssid(name@),
            ManagementTag::SupportedRates(rates) => TagModel::SupportedRates(rates@),
            ManagementTag::Country { code } => TagModel::Country { code: code@ },
            ManagementTag::VendorSpecific { vendor } => TagModel::VendorSpecific {
                vendor: vendor@,
            },
            ManagementTag::Unknown => TagModel::Unknown,
        }
    }
}

/// The text that `String::from_utf8_lossy` makes of octets that are not valid
/// UTF-8: the valid stretches kept, each invalid one replaced by U+FFFD.
pub uninterp spec fn lossy_utf8(bytes: Seq<u8>) -> Seq<char>;

/// The best-effort text of a run of octets: the text they encode where they
/// are valid UTF-8, and the lossy reading otherwise.
pub open spec fn text_of(bytes: Seq<u8>) -> Seq<char> {
    if valid_utf8(bytes) {
        decode_utf8(bytes)
    } else {
        lossy_utf8(bytes)
    }
}

/// Calls `String::from_utf8_lossy`. Trusted: valid UTF-8 comes back as the
/// text it encodes, and anything else as the lossy reading, which depends on
/// the octets alone.
#[verifier::external_body]
fn lossy_text(bytes: &[u8]) -> (text: String)
    ensures
        text@ == text_of(bytes@),
        !valid_utf8(bytes@) ==> text@ == lossy_utf8(bytes@),
{
    String::from_utf8_lossy(bytes).into_owned()
}

/// The octets that the element at the front of `data` occupies, header
/// included.
pub open spec fn element_len(data: Seq<u8>) -> int
    recommends
        data.len() >= 2,
{
    2 + data[1] as int
}

/// The fewest value octets that an element with this identifier can have.
pub open spec fn least_value_len(id: u8) -> int {
    if id == TAG_COUNTRY {
        2
    } else if id == TAG_VENDOR_SPECIFIC {
        3
    } else {
        0
    }
}

/// Whether `data` starts with a whole element: two octets of header, the
/// declared number of value octets, and enough of them for the identifier.
pub open spec fn element_fits(data: Seq<u8>) -> bool {
    &&& data.len() >= 2
    &&& element_len(data) <= data.len()
    &&& least_value_len(data[0]) <= data[1]
}

/// The value octets of the element at the front of `data`.
pub open spec fn element_value(data: Seq<u8>) -> Seq<u8>
    recommends
        element_fits(data),
{
    data.subrange(2, element_len(data))
}

/// The element at the front of `data`, decoded.
pub open spec fn element_tag(data: Seq<u8>) -> TagModel
    recommends
        element_fits(data),
{
    let value = element_value(data);
    if data[0] == TAG_SSID {
        TagModel::Ssid(text_of(value))
    } else if data[0] == TAG_SUPPORTED_RATES {
        TagModel::SupportedRates(value)
    } else if data[0] == TAG_COUNTRY {
        TagModel::Country { code: value.subrange(0, 2) }
    } else if data[0] == TAG_VENDOR_SPECIFIC {
        TagModel::VendorSpecific { vendor: value.subrange(0, 3) }
    } else {
        TagModel::Unknown
    }
}

/// What is left of `data` behind its first element.
pub open spec fn element_rest(data: Seq<u8>) -> Seq<u8>
    recommends
        element_fits(data),
{
    data.subrange(element_len(data), data.len() as int)
}

/// `prefix` put in front of a decoded sequence, if there is one.
pub open spec fn prepend(prefix: Seq<TagModel>, rest: Option<Seq<TagModel>>) -> Option<
    Seq<TagModel>,
> {
    match rest {
        Some(tags) => Some(prefix + tags),
        None => None,
    }
}

/// Every element of `data` in wire order, or `None` where some element does
/// not fit in what is left when its turn comes.
pub open spec fn tags_of(data: Seq<u8>) -> Option<Seq<TagModel>>
    decreases data.len(),
{
    if data.len() == 0 {
        Some(Seq::empty())
    } else if !element_fits(data) {
        None
    } else {
        prepend(seq![element_tag(data)], tags_of(element_rest(data)))
    }
}

/// The models of a run of tags, in the same order.
pub open spec fn tag_models(tags: Seq<ManagementTag>) -> Seq<TagModel> {
    tags.map_values(|tag: ManagementTag| tag@)
}

/// The name in the first SSID element of `tags`, if there is one.
pub open spec fn first_ssid(tags: Seq<TagModel>) -> Option<Seq<char>>
    decreases tags.len(),
{
    if tags.len() == 0 {
        None
    } else if let TagModel::Ssid(name) = tags[0] {
        Some(name)
    } else {
        first_ssid(tags.drop_first())
    }
}

/// Elements that are no SSID do not matter to [`first_ssid`]: it may start
/// at `from` when none of the elements before is one.
pub proof fn lemma_first_ssid_skips(tags: Seq<TagModel>, from: int)
    requires
        0 <= from <= tags.len(),
        forall|i: int| 0 <= i < from ==> !(#[trigger] tags[i] is Ssid),
    ensures
        first_ssid(tags) == first_ssid(tags.subrange(from, tags.len() as int)),
    decreases from,
{
    if from == 0 {
        assert(tags.subrange(0, tags.len() as int) =~= tags);
    } else {
        let tail = tags.drop_first();
        assert forall|i: int| 0 <= i < from - 1 implies !(#[trigger] tail[i] is Ssid) by {
            assert(tail[i] == tags[i + 1]);
        }
        lemma_first_ssid_skips(tail, from - 1);
        assert(tail.subrange(from - 1, tail.len() as int) =~= tags.subrange(
            from,
            tags.len() as int,
        ));
        assert(!(tags[0] is Ssid));
    }
}

impl ManagementTag {
    /// Decodes the element at the front of `data` and moves `data` past it.
    ///
    /// Fails, leaving `data` as it was, exactly when no whole element stands
    /// at the front. An element with an unfamiliar identifier is skipped by
    /// its declared length like any other.
    pub fn parse(data: &mut &[u8]) -> (result: Result<Self, Error>)
        ensures
            match result {
                Ok(tag) => {
                    &&& element_fits(old(data)@)
                    &&& tag@ == element_tag(old(data)@)
                    &&& final(data)@ == element_rest(old(data)@)
                },
                Err(error) => {
                    &&& !element_fits(old(data)@)
                    &&& error == Error::TruncatedFrame
                    &&& final(data)@ == old(data)@
                },
            },
    {
        let whole: &[u8] = *data;
        if whole.len() < 2 {
            return Err(Error::TruncatedFrame);
        }
        let id: u8 = whole[0];
        let length: usize = whole[1] as usize;
        if whole.len() - 2 < length {
            return Err(Error::TruncatedFrame);
        }
        let value = slice_subrange(whole, 2, 2 + length);
        let tag = if id == TAG_SSID {
            ManagementTag::Ssid(lossy_text(value))
        } else if id == TAG_SUPPORTED_RATES {
            ManagementTag::SupportedRates(slice_to_vec(value))
        } else if id == TAG_COUNTRY {
            if length < 2 {
                return Err(Error::TruncatedFrame);
            }
            let code = [value[0], value[1]];
            assert(code@ =~= value@.subrange(0, 2));
            ManagementTag::Country { code }
        } else if id == TAG_VENDOR_SPECIFIC {
            if length < 3 {
                return Err(Error::TruncatedFrame);
            }
            let vendor = [value[0], value[1], value[2]];
            assert(vendor@ =~= value@.subrange(0, 3));
            ManagementTag::VendorSpecific { vendor }
        } else {
            ManagementTag::Unknown
        };
        *data = slice_subrange(whole, 2 + length, whole.len());
        Ok(tag)
    }

    /// Decodes every element of `data`, front to back.
    ///
    /// Succeeds exactly when the elements tile `data`: each one fits in what
    /// its predecessors left. Nothing outside `data` is read.
    pub fn parse_all(data: &[u8]) -> (result: Result<Vec<Self>, Error>)
        ensures
            match result {
                Ok(tags) => tags_of(data@) == Some(tag_models(tags@)),
                Err(error) => tags_of(data@).is_none() && error == Error::TruncatedFrame,
            },
    {
        let mut rest: &[u8] = data;
        let mut tags: Vec<ManagementTag> = Vec::new();
        proof {
            if let Some(all) = tags_of(rest@) {
                assert(tag_models(tags@) + all =~= all);
            }
        }
        while rest.len() > 0
            invariant
                tags_of(data@) == prepend(tag_models(tags@), tags_of(rest@)),
            decreases rest@.len(),
        {
            let ghost done = tag_models(tags@);
            match Self::parse(&mut rest) {
                Ok(tag) => {
                    tags.push(tag);
                    proof {
                        assert(tag_models(tags@) =~= done.push(tag@));
                        match tags_of(rest@) {
                            Some(tail) => {
                                assert(done + (seq![tag@] + tail) =~= done.push(tag@) + tail);
                            },
                            None => {},
                        }
                    }
                },
                Err(error) => {
                    return Err(error);
                },
            }
        }
        assert(tag_models(tags@) + Seq::<TagModel>::empty() =~= tag_models(tags@));
        Ok(tags)
    }
}

/// An SSID element whose value is the UTF-8 form of a name decodes to that
/// name, character for character. The empty name is a name like any other.
pub proof fn lemma_ssid_keeps_name(data: Seq<u8>, name: Seq<char>)
    requires
        element_fits(data),
        data[0] == TAG_SSID,
        element_value(data) == encode_utf8(name),
    ensures
        element_tag(data) == TagModel::Ssid(name),
{
    encode_utf8_valid_utf8(name);
    encode_utf8_decode_utf8(name);
}

/// Elements that tile `front` decode the same with `back` behind them, and
/// the elements of `back` follow.
pub proof fn lemma_tags_of_concat(front: Seq<u8>, back: Seq<u8>)
    requires
        tags_of(front) is Some,
    ensures
        tags_of(front + back) == prepend(tags_of(front).unwrap(), tags_of(back)),
    decreases front.len(),
{
    let whole = front + back;
    if front.len() == 0 {
        assert(whole =~= back);
        match tags_of(back) {
            Some(tags) => {
                assert(Seq::<TagModel>::empty() + tags =~= tags);
            },
            None => {},
        }
    } else {
        assert(whole[0] == front[0] && whole[1] == front[1]);
        assert(element_value(whole) =~= element_value(front));
        assert(element_rest(whole) =~= element_rest(front) + back);
        lemma_tags_of_concat(element_rest(front), back);
        let first = seq![element_tag(front)];
        let middle = tags_of(element_rest(front)).unwrap();
        match tags_of(back) {
            Some(tags) => {
                assert(first + (middle + tags) =~= (first + middle) + tags);
            },
            None => {},
        }
    }
}

/// Where whole elements fill the first `start` octets of `data` and what
/// follows is not empty and holds no whole element, for one because its
/// declared length runs past the end, `data` as a whole does not decode.
pub proof fn lemma_overrun_is_truncation(data: Seq<u8>, start: int)
    requires
        0 <= start < data.len(),
        tags_of(data.take(start)) is Some,
        !element_fits(data.skip(start)),
    ensures
        tags_of(data) is None,
{
    assert(data =~= data.take(start) + data.skip(start));
    lemma_tags_of_concat(data.take(start), data.skip(start));
}

} // verus!
