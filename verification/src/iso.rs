//! Trusted boundary to the external ISO country table.
//!
//! The country identifier table is a pre-existing capability: the crate never
//! rebuilds it, it only calls into it through the wrappers below. Their
//! contracts are stated over `iso_code_of`, the canonical identifier that the
//! table associates with each country value.

use vstd::prelude::*;
use iso_country::Country as IsoCountry;

verus! {

#[verifier::external_type_specification]
#[verifier::external_body]
pub struct ExIsoCountry(IsoCountry);

/// The canonical short identifier of a country value: the alpha-2 code for a
/// real country, the empty string for the unspecified sentinel. A function of
/// the value alone.
pub uninterp spec fn iso_code_of(c: IsoCountry) -> Seq<char>;

/// Relies on iso_country's `Display` impl: every country value prints as its
/// canonical identifier (the variant's alpha-2 name; the unspecified value
/// prints nothing), depending on the value alone.
#[verifier::external_body]
pub fn iso_code_string(c: &IsoCountry) -> (r: String)
    ensures
        r@ == iso_code_of(*c),
{
    c.to_string()
}

/// Relies on iso_country's `FromStr` impl: it searches a sorted table holding
/// exactly one entry per country value, keyed by the same identifier that
/// `Display` prints, so a hit is the unique value with that identifier and a
/// miss means no value has it.
#[verifier::external_body]
pub fn iso_lookup(s: &str) -> (r: Option<IsoCountry>)
    ensures
        match r {
            Some(c) => iso_code_of(c) == s@ && (forall|b: IsoCountry|
                iso_code_of(b) == s@ ==> b == c),
            None => forall|b: IsoCountry| iso_code_of(b) != s@,
        },
{
    <IsoCountry as std::str::FromStr>::from_str(s).ok()
}

/// Relies on iso_country's `Country::Unspecified` being the one value whose
/// canonical identifier is the empty string: its `Display` writes nothing,
/// and no other variant prints an empty name.
#[verifier::external_body]
pub fn iso_unspecified() -> (r: IsoCountry)
    ensures
        iso_code_of(r) == Seq::<char>::empty(),
        forall|b: IsoCountry| iso_code_of(b) == Seq::<char>::empty() ==> b == r,
{
    IsoCountry::Unspecified
}

} // verus!
