//! Client-side encoding of bound values for a CQL-style binary protocol:
//! every value becomes a length-prefixed byte string, lists of values
//! become a counted buffer, and sequences of such lists become batches.

pub mod wire;
pub mod value;
pub mod serialized;
pub mod cql;
pub mod timeuuid;
pub mod batch;
pub mod dynamic;
