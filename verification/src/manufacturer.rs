//! Who made a device, as a vendor database resolves its hardware address.

use vstd::prelude::*;
use crate::address::HardwareAddress;

verus! {

/// What a vendor database says of the block that an address lies in.
#[derive(Debug, Clone, PartialEq, Eq)]
pub struct Manufacturer {
    /// The vendor's short name; always present.
    pub name_short: String,
    /// The vendor's full name.
    pub name_long: Option<String>,
    /// A remark that the database carries with the entry.
    pub comment: Option<String>,
}

/// What a [`Manufacturer`] stands for.
pub struct ManufacturerModel {
    pub name_short: Seq<char>,
    pub name_long: Option<Seq<char>>,
    pub comment: Option<Seq<char>>,
}

/// The text of an optional string.
pub open spec fn optional_text(text: Option<String>) -> Option<Seq<char>> {
    match text {
        Some(text) => Some(text@),
        None => None,
    }
}

impl View for Manufacturer {
    type V = ManufacturerModel;

    open spec fn view(&self) -> ManufacturerModel {
        ManufacturerModel {
            name_short: self.name_short@,
            name_long: optional_text(self.name_long),
            comment: optional_text(self.comment),
        }
    }
}

/// The model of an optional manufacturer.
pub open spec fn manufacturer_model(manufacturer: Option<Manufacturer>) -> Option<
    ManufacturerModel,
> {
    match manufacturer {
        Some(manufacturer) => Some(manufacturer@),
        None => None,
    }
}

/// The vendor database of the `oui` crate. Nothing of its inside is known
/// here; [`database_entries`] names what it holds.
#[verifier::external_type_specification]
#[verifier::external_body]
pub struct ExOuiDatabase(oui::OuiDatabase);

/// What a database holds: for each address that it resolves, given by its six
/// octets, the entry that it resolves the address to.
pub uninterp spec fn database_entries(database: oui::OuiDatabase) -> Map<
    Seq<u8>,
    ManufacturerModel,
>;

/// The manufacturer that `entries` gives for the address `octets`.
pub open spec fn resolve(entries: Map<Seq<u8>, ManufacturerModel>, octets: Seq<u8>) -> Option<
    ManufacturerModel,
> {
    if entries.contains_key(octets) {
        Some(entries[octets])
    } else {
        None
    }
}

/// Calls `oui::OuiDatabase::query_by_mac` with the address built by
/// `eui48::MacAddress::new`. Trusted: the answer depends on the database and
/// the address alone, and is the entry that the database holds for the
/// address. An address that the database does not resolve, or fails to
/// resolve, has no entry.
#[verifier::external_body]
pub(crate) fn query_by_mac(database: &oui::OuiDatabase, address: HardwareAddress) -> (found: Option<
    Manufacturer,
>)
    ensures
        manufacturer_model(found) == resolve(database_entries(*database), address@),
{
    match database.query_by_mac(&eui48::MacAddress::new(address.octets)) {
        Ok(Some(entry)) => Some(
            Manufacturer {
                name_short: entry.name_short,
                name_long: entry.name_long,
                comment: entry.comment,
            },
        ),
        Ok(None) => None,
        Err(_) => None,
    }
}

} // verus!
