//! Hardware (MAC) addresses: six octets, read from a buffer and printed as hex.

use vstd::prelude::*;
use crate::wifi::Error;

verus! {

/// The number of octets in a hardware address.
pub const ADDRESS_LEN: usize = 6;

/// A 48-bit hardware address, held as its six octets in wire order.
#[derive(Clone, Copy, Debug, PartialEq, Eq, Hash)]
pub struct HardwareAddress {
    pub octets: [u8; 6],
}

/// The number that six octets spell when read most significant octet first.
pub open spec fn number_of(octets: Seq<u8>) -> int
    recommends
        octets.len() == 6,
{
    ((((octets[0] as int * 256 + octets[1] as int) * 256 + octets[2] as int) * 256
        + octets[3] as int) * 256 + octets[4] as int) * 256 + octets[5] as int
}

/// The lower-case hexadecimal digit for a value below sixteen: `0` to `9`,
/// which start at code 48, then `a` to `f`, which start at code 97.
pub open spec fn hex_digit(value: int) -> char
    recommends
        0 <= value < 16,
{
    if value < 10 {
        (48 + value) as u8 as char
    } else {
        (97 + value - 10) as u8 as char
    }
}

/// The two hexadecimal digits of one octet, high digit first.
pub open spec fn hex_pair(octet: u8) -> Seq<char> {
    seq![hex_digit(octet as int / 16), hex_digit(octet as int % 16)]
}

/// Six octets written as pairs of hexadecimal digits with `separator` between
/// neighbouring pairs: seventeen characters in all.
pub open spec fn hex_text(octets: Seq<u8>, separator: char) -> Seq<char>
    recommends
        octets.len() == 6,
{
    hex_pair(octets[0]) + seq![separator] + hex_pair(octets[1]) + seq![separator] + hex_pair(
        octets[2],
    ) + seq![separator] + hex_pair(octets[3]) + seq![separator] + hex_pair(octets[4])
        + seq![separator] + hex_pair(octets[5])
}

impl View for HardwareAddress {
    type V = Seq<u8>;

    open spec fn view(&self) -> Seq<u8> {
        self.octets@
    }
}

impl HardwareAddress {
    /// The address made of the given six octets.
    pub fn new(octets: [u8; 6]) -> (address: Self)
        ensures
            address.octets == octets,
            address@ == octets@,
    {
        HardwareAddress { octets }
    }

    /// Reads the six octets that start at `start` in `bytes`. Where `bytes`
    /// does not reach that far, the buffer is truncated.
    pub fn read(bytes: &[u8], start: usize) -> (result: Result<Self, Error>)
        ensures
            match result {
                Ok(address) => start + ADDRESS_LEN <= bytes@.len() && address@ == bytes@.subrange(
                    start as int,
                    start + ADDRESS_LEN,
                ),
                Err(error) => start + ADDRESS_LEN > bytes@.len() && error == Error::TruncatedFrame,
            },
    {
        if bytes.len() < ADDRESS_LEN || start > bytes.len() - ADDRESS_LEN {
            return Err(Error::TruncatedFrame);
        }
        let address = HardwareAddress {
            octets: [
                bytes[start],
                bytes[start + 1],
                bytes[start + 2],
                bytes[start + 3],
                bytes[start + 4],
                bytes[start + 5],
            ],
        };
        assert(address@ =~= bytes@.subrange(start as int, start + ADDRESS_LEN));
        Ok(address)
    }

    /// Writes the six octets at the end of `buffer`.
    pub fn write(&self, buffer: &mut Vec<u8>)
        ensures
            final(buffer)@ == old(buffer)@ + self@,
    {
        let mut at: usize = 0;
        while at < ADDRESS_LEN
            invariant
                at <= ADDRESS_LEN,
                buffer@ == old(buffer)@ + self@.take(at as int),
            decreases ADDRESS_LEN - at,
        {
            buffer.push(self.octets[at]);
            assert(self@.take(at + 1) =~= self@.take(at as int).push(self@[at as int]));
            assert(buffer@ =~= old(buffer)@ + self@.take(at + 1));
            at += 1;
        }
        assert(self@.take(ADDRESS_LEN as int) =~= self@);
    }

    /// The address as a number, the first octet most significant. It is the
    /// key under which collections hold an address.
    pub open spec fn number(&self) -> u64 {
        number_of(self@) as u64
    }

    /// Computes [`Self::number`]. Distinct addresses have distinct numbers.
    pub fn key(&self) -> (key: u64)
        ensures
            key == self.number(),
            key == number_of(self@),
    {
        let a: u64 = self.octets[0] as u64;
        let b: u64 = a * 256 + self.octets[1] as u64;
        let c: u64 = b * 256 + self.octets[2] as u64;
        let d: u64 = c * 256 + self.octets[3] as u64;
        let e: u64 = d * 256 + self.octets[4] as u64;
        e * 256 + self.octets[5] as u64
    }

    /// The address in colon notation, such as `00:1a:2b:3c:4d:5e`.
    pub fn to_hex_string(&self) -> (text: String)
        ensures
            text@ == hex_text(self@, ':'),
    {
        colon_text(self.octets)
    }

    /// The address in the canonical hyphen notation, such as
    /// `00-1a-2b-3c-4d-5e`.
    pub fn to_canonical(&self) -> (text: String)
        ensures
            text@ == hex_text(self@, '-'),
    {
        hyphen_text(self.octets)
    }
}

/// Calls `eui48::MacAddress::to_hex_string` on the address built by
/// `eui48::MacAddress::new`. Trusted: the result is each octet as two
/// lower-case hexadecimal digits, the pairs joined by colons.
#[verifier::external_body]
fn colon_text(octets: [u8; 6]) -> (text: String)
    ensures
        text@ == hex_text(octets@, ':'),
{
    eui48::MacAddress::new(octets).to_hex_string()
}

/// Calls `eui48::MacAddress::to_canonical` on the address built by
/// `eui48::MacAddress::new`. Trusted: the result is each octet as two
/// lower-case hexadecimal digits, the pairs joined by hyphens.
#[verifier::external_body]
fn hyphen_text(octets: [u8; 6]) -> (text: String)
    ensures
        text@ == hex_text(octets@, '-'),
{
    eui48::MacAddress::new(octets).to_canonical()
}

/// An address that was written to the end of a buffer is read back from
/// there.
pub proof fn lemma_read_after_write(buffer: Seq<u8>, address: HardwareAddress)
    ensures
        (buffer + address@).subrange(buffer.len() as int, buffer.len() + ADDRESS_LEN) == address@,
{
    assert((buffer + address@).subrange(buffer.len() as int, buffer.len() + ADDRESS_LEN)
        =~= address@);
}

/// Addresses are told apart by their numbers: equal numbers mean equal octets.
pub proof fn lemma_number_injective(a: HardwareAddress, b: HardwareAddress)
    requires
        a.number() == b.number(),
    ensures
        a@ == b@,
{
    assert(a@.len() == 6 && b@.len() == 6);
    assert(number_of(a@) == number_of(b@));
    assert(a@ =~= b@);
}

} // verus!
