//! HMAC-DRBG: a deterministic random bit generator whose secret state is
//! advanced by a keyed hash.
//!
//! The generator keeps a key `K`, a chaining value `V` and a cycle counter.
//! Every state transition is stated over a mathematical model of that state
//! and proved against it; only the keyed hash itself is taken on trust.

pub mod drbg;
pub mod mac;
pub mod model;

pub use drbg::{build_keying_message, filled, HmacDrbg};
pub use mac::{KeyedHash, Sha256, Sha384, Sha512};
