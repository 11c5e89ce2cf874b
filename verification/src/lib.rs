//! Construction of typed, deterministically encodable ledger calls.
//!
//! The crate builds call envelopes — a module name, a function name, and an
//! argument payload — for two generations of a ledger's dispatch schema, and
//! proves the binary encoding contract the receiving ledger relies on:
//! fields in declaration order, enum variants as a discriminant byte followed
//! by the payload, options as a presence flag, sequences with a compact
//! length prefix, integers little-endian.

pub mod asset_registry;
pub mod identity;
pub mod call;
pub mod codec;
pub mod runtimes;
pub mod system;
