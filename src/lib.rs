//! An inclusion list keyed by account address: one 256-bit flag per address,
//! kept in address-keyed storage and reached through selector-routed calls.

pub mod hash;
pub mod router;
pub mod store;
pub mod wait_list;
pub mod word;
