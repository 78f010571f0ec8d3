//! A learning Ethernet bridge that runs a spanning-tree protocol across its
//! ports.
//!
//! The crate holds the decisions of one switch: the announcement record and
//! its wire form, the per-port state machine that elects a root and blocks
//! redundant links, and the learning table that steers host frames. Moving
//! bytes in and out of network interfaces is left to the caller, which feeds
//! the engine with clock readings and received frames and carries out what
//! it answers.

pub mod stp;
