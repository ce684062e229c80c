//! A typed model of a game server's discoverable state together with a
//! bidirectional mapping to a self-describing structured tree value.
//!
//! The heart of the crate is the country codec: a country serializes as its
//! short canonical identifier and decoding never fails, falling back to the
//! unspecified country for any unrecognized input. The status and protocol
//! tags, by contrast, are closed sets whose decoding is strict.

pub mod codec;
pub mod country;
pub mod iso;
pub mod json;
pub mod protocols;
pub mod schema;

pub use codec::{decode, encode, DecodeError};
pub use country::Country;
pub use json::{Json, JVal};
pub use protocols::Protocol;
pub use schema::{Identity, Player, Server, Status};
