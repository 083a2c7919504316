//! Building blocks shared by the operations: accounts, identifiers,
//! permissions, events and their fan-out.

pub mod account;
pub mod ids;
pub mod permissions;
pub mod sse;
pub mod structs;
