//! One port of the switch: its address and its place in the spanning tree.

use crate::stp::bpdu::{Bpdu, PACKET_LEN};
use crate::stp::frame::{destination_of, get_destination, get_payload, is_frame};
use crate::stp::mac::MacAddr;
use vstd::prelude::*;

verus! {

/// The place of a port in the spanning tree.
#[derive(Debug, PartialEq, Eq, Clone, Copy, Structural)]
pub enum PortState {
    /// The initial state. Host frames are not forwarded, but their origins
    /// are added to the forwarding table.
    Learning,
    /// The port is the switch's path to the root. All traffic is served.
    Root,
    /// The port is part of a loop. Only announcements are accepted.
    Block,
    /// The port serves other switches' access to the root. All traffic is
    /// served.
    Forward,
}

impl PortState {
    /// Whether host frames pass through a port in this state.
    pub open spec fn spec_forwards(self) -> bool {
        self == PortState::Root || self == PortState::Forward
    }

    /// Whether host frames pass through a port in this state.
    #[verifier::when_used_as_spec(spec_forwards)]
    pub fn forwards(self) -> (r: bool)
        ensures
            r == self.spec_forwards(),
    {
        match self {
            PortState::Root | PortState::Forward => true,
            PortState::Block | PortState::Learning => false,
        }
    }
}

/// Why a port or a switch could not be set up.
#[derive(Debug, PartialEq, Eq, Clone, Copy, Structural)]
pub enum BuildError {
    /// An interface has no hardware address.
    MissingMac,
    /// No interface gave the switch an identifier.
    NoInterfaces,
}

/// A port of the switch.
#[derive(Debug, PartialEq, Eq, Clone, Copy, Structural)]
pub struct EthPort {
    /// The hardware address of the interface behind the port.
    pub mac: MacAddr,
    /// The port's place in the spanning tree.
    pub state: PortState,
}

impl EthPort {
    /// A port on the interface with the given hardware address, in the
    /// learning state. An interface without an address gives no port.
    pub fn build(mac: Option<MacAddr>) -> (r: Result<EthPort, BuildError>)
        ensures
            r == (match mac {
                Some(m) => Ok(EthPort { mac: m, state: PortState::Learning }),
                None => Err(BuildError::MissingMac),
            }),
    {
        match mac {
            Some(m) => Ok(EthPort { mac: m, state: PortState::Learning }),
            None => Err(BuildError::MissingMac),
        }
    }

    /// The announcement that `frame` carries, if it is addressed to the
    /// announcement group; `None` for a host frame.
    ///
    /// A frame to the announcement group must consist of the header and one
    /// record, nothing else.
    pub fn try_routing(frame: &[u8]) -> (r: Option<Bpdu>)
        requires
            is_frame(frame@),
            destination_of(frame@) == Bpdu::bpdu_mac() ==> frame@.len() == PACKET_LEN,
        ensures
            r == Bpdu::carried_by(frame@),
    {
        let dst = get_destination(frame);
        if dst != Some(Bpdu::bpdu_mac()) {
            return None;
        }
        match get_payload(frame) {
            Some(payload) => Some(Bpdu::from_bytes(payload.as_slice())),
            None => None,
        }
    }
}

} // verus!
