//! A record-management core for real-estate data: properties, lease
//! agreements, and maintenance requests, each kept in an ordered table of
//! stable storage under an id drawn from one shared monotonic allocator.
//!
//! Records are stored as bounded byte encodings with proved round-trip
//! fidelity; every operation of the registry carries a contract that pins
//! down the returned value, the error, and the new state of the tables.

pub mod codec;
pub mod errors;
pub mod laws;
pub mod ops;
pub mod records;
pub mod storage;
pub mod table;
