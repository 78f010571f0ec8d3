//! The spanning-tree bridge, from its addresses up to the switch engine.

pub mod bpdu;
pub mod eth;
pub mod frame;
pub mod iface;
pub mod mac;
pub mod model;
pub mod network;
pub mod port;
pub mod proofs;
pub mod table;
