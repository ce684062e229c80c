//! The closed set of query protocol families and its strict tag codec.

use vstd::prelude::*;
use crate::json::str_eqs;

verus! {

#[derive(Clone, Copy, Debug, PartialEq, Eq, Structural)]
pub enum Protocol {
    Unspecified,
    Q3M,
    Q3S,
    A2S,
    TEEWORLDSM,
    TEEWORLDSS,
}

impl Default for Protocol {
    /// The default protocol is the unspecified tag.
    fn default() -> (r: Protocol)
        ensures
            r == Protocol::Unspecified,
    {
        Protocol::Unspecified
    }
}

/// The literal tag of a protocol in the encoded form.
pub open spec fn protocol_tag(p: Protocol) -> Seq<char> {
    match p {
        Protocol::Unspecified => "Unspecified"@,
        Protocol::Q3M => "Q3M"@,
        Protocol::Q3S => "Q3S"@,
        Protocol::A2S => "A2S"@,
        Protocol::TEEWORLDSM => "TEEWORLDSM"@,
        Protocol::TEEWORLDSS => "TEEWORLDSS"@,
    }
}

/// The protocol whose tag is `t`, if the tag belongs to the closed set.
pub open spec fn protocol_from_tag(t: Seq<char>) -> Option<Protocol> {
    if t == protocol_tag(Protocol::Unspecified) {
        Some(Protocol::Unspecified)
    } else if t == protocol_tag(Protocol::Q3M) {
        Some(Protocol::Q3M)
    } else if t == protocol_tag(Protocol::Q3S) {
        Some(Protocol::Q3S)
    } else if t == protocol_tag(Protocol::A2S) {
        Some(Protocol::A2S)
    } else if t == protocol_tag(Protocol::TEEWORLDSM) {
        Some(Protocol::TEEWORLDSM)
    } else if t == protocol_tag(Protocol::TEEWORLDSS) {
        Some(Protocol::TEEWORLDSS)
    } else {
        None
    }
}

pub fn protocol_to_string(p: Protocol) -> (r: String)
    ensures
        r@ == protocol_tag(p),
{
    match p {
        Protocol::Unspecified => "Unspecified".to_owned(),
        Protocol::Q3M => "Q3M".to_owned(),
        Protocol::Q3S => "Q3S".to_owned(),
        Protocol::A2S => "A2S".to_owned(),
        Protocol::TEEWORLDSM => "TEEWORLDSM".to_owned(),
        Protocol::TEEWORLDSS => "TEEWORLDSS".to_owned(),
    }
}

/// Strict tag parse: `None` for anything outside the closed set.
pub fn protocol_parse(t: &str) -> (r: Option<Protocol>)
    ensures
        r == protocol_from_tag(t@),
{
    if str_eqs(t, "Unspecified") {
        Some(Protocol::Unspecified)
    } else if str_eqs(t, "Q3M") {
        Some(Protocol::Q3M)
    } else if str_eqs(t, "Q3S") {
        Some(Protocol::Q3S)
    } else if str_eqs(t, "A2S") {
        Some(Protocol::A2S)
    } else if str_eqs(t, "TEEWORLDSM") {
        Some(Protocol::TEEWORLDSM)
    } else if str_eqs(t, "TEEWORLDSS") {
        Some(Protocol::TEEWORLDSS)
    } else {
        None
    }
}

} // verus!
