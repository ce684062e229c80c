//! The country newtype and its fallback-safe codec.
//!
//! A `Country` always wraps a valid member of the external table. Encoding is
//! total: every value has exactly one canonical identifier. Decoding never
//! fails: an identifier that no country carries falls back to the unspecified
//! country, whose identifier is the empty string.

use vstd::prelude::*;
use iso_country::Country as IsoCountry;
use crate::iso::{iso_code_of, iso_code_string, iso_lookup, iso_unspecified};

verus! {

pub struct Country(pub IsoCountry);

impl View for Country {
    type V = Seq<char>;

    open spec fn view(&self) -> Seq<char> {
        iso_code_of(self.0)
    }
}

/// The canonical identifier held after decoding `s`: `s` itself when some
/// country carries it, the sentinel (empty) identifier otherwise.
pub open spec fn country_decode_code(s: Seq<char>) -> Seq<char> {
    if exists|b: IsoCountry| iso_code_of(b) == s {
        s
    } else {
        Seq::<char>::empty()
    }
}

impl Country {
    /// Encode: the canonical identifier of the wrapped value. Total.
    pub fn encode(&self) -> (r: String)
        ensures
            r@ == self@,
    {
        iso_code_string(&self.0)
    }

    /// Decode: never fails. A string that is some country's identifier yields
    /// that country; anything else yields the unspecified country.
    pub fn decode(s: &str) -> (r: Country)
        ensures
            r@ == country_decode_code(s@),
            forall|b: IsoCountry| iso_code_of(b) == s@ ==> r.0 == b,
    {
        match iso_lookup(s) {
            Some(c) => Country(c),
            None => Country(iso_unspecified()),
        }
    }

    /// The unspecified country, the sentinel for "no information".
    pub fn unspecified() -> (r: Country)
        ensures
            r@ == Seq::<char>::empty(),
            forall|b: IsoCountry| iso_code_of(b) == Seq::<char>::empty() ==> b == r.0,
    {
        Country(iso_unspecified())
    }
}

impl Default for Country {
    /// The default country is the unspecified sentinel.
    fn default() -> (r: Country)
        ensures
            r@ == Seq::<char>::empty(),
    {
        Country::unspecified()
    }
}

impl PartialEq for Country {
    fn eq(&self, other: &Country) -> (r: bool) {
        let a = iso_code_string(&self.0);
        let b = iso_code_string(&other.0);
        a == b
    }
}

impl vstd::std_specs::cmp::PartialEqSpecImpl for Country {
    open spec fn obeys_eq_spec() -> bool {
        true
    }

    open spec fn eq_spec(&self, other: &Country) -> bool {
        self@ == other@
    }
}

/// Law: decoding the encoding of any country value yields that value back.
/// The hypothesis states what `Country::decode` ensures when applied to the
/// string that `Country::encode` returns for `c`.
pub proof fn lemma_country_round_trip(c: Country, d: Country)
    requires
        forall|b: IsoCountry| iso_code_of(b) == c@ ==> d.0 == b,
    ensures
        d.0 == c.0,
        d@ == c@,
{
    assert(iso_code_of(c.0) == c@);
}

/// Law: decoding is total, and every string that no country carries as its
/// identifier (the empty string included) decodes to the unspecified country.
pub proof fn lemma_country_fallback_total(s: Seq<char>, d: Country)
    requires
        (forall|b: IsoCountry| iso_code_of(b) != s) || s == Seq::<char>::empty(),
        d@ == country_decode_code(s),
    ensures
        d@ == Seq::<char>::empty(),
{
}

} // verus!
