//! A minimal rank-1-constraint-system proof engine together with the
//! carbon-credit ledger rules that drive it.
//!
//! The engine represents an arithmetic circuit as ordered constraints over a
//! prime field, binds a witness to a checksum-style commitment inside a
//! `Proof`, and re-verifies a `Proof` against a circuit.  Arbitrary-precision
//! integers are carried as canonical little-endian byte strings, so every
//! contract speaks about plain mathematical values.

pub mod bignum;
pub mod bytes;
pub mod codec;
pub mod commitment;
pub mod error;
pub mod field;
pub mod helpers;
pub mod msg;
pub mod proofs;
pub mod queries;
pub mod r1cs;
pub mod state;
pub mod transitions;
