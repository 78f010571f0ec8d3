//! The switch as a state machine over mathematical values.
//!
//! [`SwitchState`] is what a switch knows at one moment; the spec functions
//! on it say how a clock reading, an announcement or a host frame changes
//! that, and what leaves the switch in answer. The engine in
//! [`crate::stp::eth`] is proved to follow them step by step.

use crate::stp::bpdu::{Bpdu, Verdict, PACKET_LEN};
use crate::stp::frame::{destination_of, is_frame, payload_of, source_of};
use crate::stp::mac::MacAddr;
use crate::stp::port::{EthPort, PortState};
use vstd::prelude::*;

verus! {

/// The window after engine start in which ports may stay in the learning
/// state.
#[derive(Debug, PartialEq, Eq, Clone, Copy, Structural)]
pub struct Startup {
    /// The clock reading at engine start.
    pub time_entered: u64,
    /// The length of the window.
    pub startup_duration: u64,
}

/// An input on which the engine halts instead of acting: each stands for a
/// broken assumption, not for an event of normal operation.
#[derive(Debug, PartialEq, Eq, Clone, Copy, Structural)]
pub enum Fault {
    /// A frame to the announcement group whose payload is not exactly one
    /// record.
    MalformedBpdu,
    /// An announcement of a better root at the largest cost that a record
    /// can hold: one more hop cannot be counted.
    HopLimit,
    /// The forwarding table sends a host frame to a blocked port.
    BlockedTarget,
}

/// What the event loop of a switch hands to its engine.
pub enum Event<'a> {
    /// The loop is entered at the clock reading `now`; ports may stay in
    /// the learning state for `startup_duration` from then.
    Entered { now: u64, startup_duration: u64 },
    /// The clock was read at the top of a turn of the loop.
    Clock { now: u64 },
    /// The octets `bytes` were received on port `portnum_in`.
    Frame { portnum_in: usize, bytes: &'a [u8] },
    /// Nothing arrived on a port within the poll timeout.
    TimedOut,
    /// Receiving on a port failed for another reason.
    Failed,
}

/// What leaves the switch, and what became of the frame if there was one,
/// after one event.
#[verifier::ext_equal]
pub enum Effect {
    /// Nothing is to be done.
    Idle,
    /// The event loop is to end.
    Exit,
    /// The octets are too few for an Ethernet frame; nothing happened.
    Malformed,
    /// A host frame on a blocked port; it was dropped and nothing learnt.
    Denied,
    /// A host frame on a learning port; its source was learnt and the frame
    /// dropped.
    Learned,
    /// A host frame that goes out, unchanged, on the listed ports.
    Forwarded(Seq<usize>),
    /// An announcement in answer to which the switch sends its own on every
    /// port.
    Announced,
    /// An announcement that was taken in without an answer.
    Settled,
}

/// What a switch knows at one moment.
#[verifier::ext_equal]
pub struct SwitchState {
    /// The identifier of the switch: the smallest of its ports' addresses.
    pub switch_id: MacAddr,
    /// The ports, in their fixed order.
    pub ports: Seq<EthPort>,
    /// The record that the switch announces.
    pub curr_bpdu: Bpdu,
    /// The port behind which each known host was last seen.
    pub fwd_table: Map<MacAddr, usize>,
    /// The time after which the announcement is repeated.
    pub bpdu_resend_timeout: u64,
    /// The clock reading at the last timed announcement, if there was one.
    pub last_resent_bpdu: Option<u64>,
    /// The startup window, while it is open.
    pub startup: Option<Startup>,
}

/// The time from `since` to `now` on a clock that does not run backwards.
pub open spec fn elapsed(now: u64, since: u64) -> int {
    if now >= since {
        now - since
    } else {
        0
    }
}

/// The ports to which a host frame of unknown destination goes: all that
/// forward, but the one it came in on, in rising order.
pub open spec fn flood(ports: Seq<EthPort>, ingress: usize) -> Seq<usize>
    decreases ports.len(),
{
    if ports.len() == 0 {
        Seq::empty()
    } else {
        let last = (ports.len() - 1) as usize;
        let before = flood(ports.drop_last(), ingress);
        if last != ingress && ports.last().state.forwards() {
            before.push(last)
        } else {
            before
        }
    }
}

impl SwitchState {
    /// The state of a switch that has just been set up.
    pub open spec fn initial(
        ports: Seq<EthPort>,
        switch_id: MacAddr,
        bpdu_resend_timeout: u64,
    ) -> SwitchState {
        SwitchState {
            switch_id,
            ports,
            curr_bpdu: Bpdu { root_cost: 0, root_id: switch_id, bridge_id: switch_id },
            fwd_table: Map::empty(),
            bpdu_resend_timeout,
            last_resent_bpdu: None,
            startup: None,
        }
    }

    /// Whether `port` is a port of the switch, and in the root state.
    pub open spec fn is_root_port(self, port: int) -> bool {
        0 <= port < self.ports.len() && self.ports[port].state == PortState::Root
    }

    /// Whether the switch takes itself to be the root of the tree.
    pub open spec fn is_root(self) -> bool {
        self.curr_bpdu.root_id == self.switch_id
    }

    /// What holds of a switch at all times.
    pub open spec fn inv(self) -> bool {
        // The identifier is the smallest port address, and a real one.
        &&& exists|i: int| 0 <= i < self.ports.len() && (#[trigger] self.ports[i]).mac == self.switch_id
        &&& forall|i: int|
            0 <= i < self.ports.len() ==> self.switch_id.spec_le((#[trigger] self.ports[i]).mac)
        &&& self.switch_id != MacAddr::spec_broadcast()
        // The table names ports of this switch only.
        &&& forall|mac: MacAddr| #[trigger]
            self.fwd_table.contains_key(mac) ==> self.fwd_table[mac] < self.ports.len()
        // No two ports lead to the root.
        &&& forall|i: int, j: int|
            self.is_root_port(i) && self.is_root_port(j) ==> i == j
        // The switch is the root at no cost and through no port, or it knows
        // a smaller root at some cost.
        &&& self.curr_bpdu.root_id.spec_le(self.switch_id)
        &&& self.is_root() ==> self.curr_bpdu == (Bpdu {
            root_cost: 0,
            root_id: self.switch_id,
            bridge_id: self.switch_id,
        }) && forall|i: int| !self.is_root_port(i)
        &&& !self.is_root() ==> self.curr_bpdu.root_cost > 0
    }

    /// Whether the switch has exactly one root port if it is not the root,
    /// and none if it is.
    pub open spec fn has_its_root_port(self) -> bool {
        if self.is_root() {
            forall|i: int| !self.is_root_port(i)
        } else {
            exists|i: int| #[trigger]
                self.is_root_port(i) && forall|j: int| self.is_root_port(j) ==> j == i
        }
    }

    /// The announcement frame of the switch: its record, sent from its
    /// identifier, with a zero EtherType.
    pub open spec fn announcement(self) -> Seq<u8> {
        self.curr_bpdu.packet(self.switch_id, seq![0u8, 0u8])
    }

    // Timers.
    /// The state once the startup window has been opened at `now`.
    pub open spec fn start(self, now: u64, startup_duration: u64) -> SwitchState {
        SwitchState { startup: Some(Startup { time_entered: now, startup_duration }), ..self }
    }

    /// Whether the startup window is open and has run out at `now`.
    pub open spec fn startup_expired(self, now: u64) -> bool {
        self.startup matches Some(window) && elapsed(now, window.time_entered)
            > window.startup_duration
    }

    /// Whether an announcement is due at `now`: none was made yet, or the
    /// last one is older than the resend timeout.
    pub open spec fn announce_due(self, now: u64) -> bool {
        match self.last_resent_bpdu {
            None => true,
            Some(last) => elapsed(now, last) > self.bpdu_resend_timeout,
        }
    }

    /// The state with every learning port promoted to forwarding and the
    /// startup window closed.
    pub open spec fn promote(self) -> SwitchState {
        SwitchState {
            ports: Seq::new(
                self.ports.len(),
                |i: int|
                    EthPort {
                        mac: self.ports[i].mac,
                        state: if self.ports[i].state == PortState::Learning {
                            PortState::Forward
                        } else {
                            self.ports[i].state
                        },
                    },
            ),
            startup: None,
            ..self
        }
    }

    /// The state after the clock was read as `now`: ports are promoted if
    /// the startup window has run out, and the time of the announcement is
    /// noted if one is due.
    pub open spec fn tick(self, now: u64) -> SwitchState {
        let promoted = if self.startup_expired(now) {
            self.promote()
        } else {
            self
        };
        if self.announce_due(now) {
            SwitchState { last_resent_bpdu: Some(now), ..promoted }
        } else {
            promoted
        }
    }

    // Announcements.
    /// The state with `port` in the given state.
    pub open spec fn set_port(self, port: usize, state: PortState) -> SwitchState {
        SwitchState {
            ports: self.ports.update(
                port as int,
                EthPort { mac: self.ports[port as int].mac, state },
            ),
            ..self
        }
    }

    /// The state after the switch took the path through `new_root`: that
    /// port leads to the root, a port that did so before is blocked, the
    /// others keep their state, and the record held is the neighbour's with
    /// one more hop, naming `src_mac` as the bridge.
    pub open spec fn reset_root(
        self,
        new_root: usize,
        neighbor: Bpdu,
        src_mac: MacAddr,
    ) -> SwitchState {
        SwitchState {
            ports: Seq::new(
                self.ports.len(),
                |i: int|
                    EthPort {
                        mac: self.ports[i].mac,
                        state: if i == new_root {
                            PortState::Root
                        } else if self.ports[i].state == PortState::Root {
                            PortState::Block
                        } else {
                            self.ports[i].state
                        },
                    },
            ),
            curr_bpdu: Bpdu {
                root_cost: (neighbor.root_cost + 1) as u8,
                root_id: neighbor.root_id,
                bridge_id: src_mac,
            },
            ..self
        }
    }

    /// Whether an announcement cannot be taken in: it offers a better root
    /// at a cost to which no hop can be added.
    pub open spec fn over_hop_limit(self, neighbor: Bpdu) -> bool {
        self.curr_bpdu.spec_judge(neighbor) == Verdict::BetterRoot && neighbor.root_cost
            == u8::MAX
    }

    /// The state after the announcement `neighbor` arrived on `port` in a
    /// frame sent from `src_mac`.
    pub open spec fn on_bpdu(self, port: usize, neighbor: Bpdu, src_mac: MacAddr) -> SwitchState {
        match self.curr_bpdu.spec_judge(neighbor) {
            Verdict::BetterRoot | Verdict::ShorterPath => self.reset_root(port, neighbor, src_mac),
            Verdict::WorseRoot => self,
            Verdict::TiedPath => if self.ports[port as int].state == PortState::Root {
                self
            } else {
                self.set_port(port, PortState::Block)
            },
            Verdict::Downstream => if neighbor.bridge_id == self.switch_id {
                self.set_port(port, PortState::Forward)
            } else {
                self.set_port(port, PortState::Block)
            },
        }
    }

    /// Whether the switch answers the announcement `neighbor` with its own:
    /// it does when it changed its path, and when the neighbour is wrong
    /// about the root.
    pub open spec fn announces(self, neighbor: Bpdu) -> bool {
        self.curr_bpdu.spec_judge(neighbor) != Verdict::TiedPath && self.curr_bpdu.spec_judge(
            neighbor,
        ) != Verdict::Downstream
    }

    // Host frames.
    /// The state after `src_mac` was seen behind `port`.
    pub open spec fn learn(self, src_mac: MacAddr, port: usize) -> SwitchState {
        SwitchState { fwd_table: self.fwd_table.insert(src_mac, port), ..self }
    }

    /// The state after a host frame from `src_mac` arrived on `port`: its
    /// source is learnt unless the port is blocked.
    pub open spec fn on_data(self, port: usize, src_mac: MacAddr) -> SwitchState {
        if self.ports[port as int].state == PortState::Block {
            self
        } else {
            self.learn(src_mac, port)
        }
    }

    /// The ports on which a host frame from `src_mac` to `dst_mac` that
    /// arrived on `port` goes out: none unless `port` forwards; else the one
    /// port behind which `dst_mac` is known to be, the source just learnt
    /// counted in; else every forwarding port but `port`.
    pub open spec fn targets(self, port: usize, src_mac: MacAddr, dst_mac: MacAddr) -> Seq<
        usize,
    > {
        let table = self.fwd_table.insert(src_mac, port);
        if !self.ports[port as int].state.forwards() {
            Seq::empty()
        } else if table.contains_key(dst_mac) {
            seq![table[dst_mac]]
        } else {
            flood(self.ports, port)
        }
    }

    /// Whether a host frame from `src_mac` to `dst_mac` that arrived on
    /// `port` would be sent to a blocked port.
    pub open spec fn misroutes(self, port: usize, src_mac: MacAddr, dst_mac: MacAddr) -> bool {
        let table = self.fwd_table.insert(src_mac, port);
        &&& self.ports[port as int].state.forwards()
        &&& table.contains_key(dst_mac)
        &&& self.ports[table[dst_mac] as int].state == PortState::Block
    }

    // Frames.
    /// Why the engine halts on the frame `frame` received on `port`, if it
    /// does.
    pub open spec fn fault(self, port: usize, frame: Seq<u8>) -> Option<Fault> {
        if !is_frame(frame) {
            None
        } else if destination_of(frame) == Bpdu::bpdu_mac() {
            if frame.len() != PACKET_LEN {
                Some(Fault::MalformedBpdu)
            } else if self.over_hop_limit(Bpdu::from_record(payload_of(frame))) {
                Some(Fault::HopLimit)
            } else {
                None
            }
        } else if self.misroutes(port, source_of(frame), destination_of(frame)) {
            Some(Fault::BlockedTarget)
        } else {
            None
        }
    }

    /// The state after the frame `frame` was received on `port`.
    pub open spec fn receive(self, port: usize, frame: Seq<u8>) -> SwitchState {
        if !is_frame(frame) {
            self
        } else if destination_of(frame) == Bpdu::bpdu_mac() {
            self.on_bpdu(port, Bpdu::from_record(payload_of(frame)), source_of(frame))
        } else {
            self.on_data(port, source_of(frame))
        }
    }

    /// Why the engine halts on `event`, if it does.
    pub open spec fn fault_on(self, event: Event) -> Option<Fault> {
        match event {
            Event::Frame { portnum_in, bytes } => self.fault(portnum_in, bytes@),
            _ => None,
        }
    }

    /// The state after `event`: the startup window is opened when the loop
    /// is entered, a clock reading and a frame are handled as
    /// [`SwitchState::tick`] and [`SwitchState::receive`] say, and a receive
    /// that brought nothing changes nothing.
    pub open spec fn run(self, event: Event) -> SwitchState {
        match event {
            Event::Entered { now, startup_duration } => self.start(now, startup_duration),
            Event::Clock { now } => self.tick(now),
            Event::Frame { portnum_in, bytes } => self.receive(portnum_in, bytes@),
            Event::TimedOut => self,
            Event::Failed => self,
        }
    }

    /// What leaves the switch after `event`: the announcement when one is
    /// due at a clock reading, what [`SwitchState::effect`] says for a
    /// frame, nothing after a timeout, and the end of the loop after a
    /// failed receive.
    pub open spec fn effect_of(self, event: Event) -> Effect {
        match event {
            Event::Entered { now, startup_duration } => Effect::Idle,
            Event::Clock { now } => if self.announce_due(now) {
                Effect::Announced
            } else {
                Effect::Idle
            },
            Event::Frame { portnum_in, bytes } => self.effect(portnum_in, bytes@),
            Event::TimedOut => Effect::Idle,
            Event::Failed => Effect::Exit,
        }
    }

    /// What leaves the switch after the frame `frame` was received on
    /// `port`.
    pub open spec fn effect(self, port: usize, frame: Seq<u8>) -> Effect {
        if !is_frame(frame) {
            Effect::Malformed
        } else if destination_of(frame) == Bpdu::bpdu_mac() {
            if self.announces(Bpdu::from_record(payload_of(frame))) {
                Effect::Announced
            } else {
                Effect::Settled
            }
        } else if self.ports[port as int].state == PortState::Block {
            Effect::Denied
        } else if self.ports[port as int].state == PortState::Learning {
            Effect::Learned
        } else {
            Effect::Forwarded(self.targets(port, source_of(frame), destination_of(frame)))
        }
    }
}

} // verus!
