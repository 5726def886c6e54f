//! A proof-of-existence claim registry.
//!
//! Fingerprints (opaque byte sequences) are mapped to ownership records and
//! moved through register, transfer and revoke transitions, applied one at a
//! time on behalf of an external sequential host that authenticates callers
//! and supplies a monotonic sequence counter.

pub mod laws;
pub mod pallet;
pub mod registry;
