//! The switch engine: the state of one switch and the steps that change it.
//!
//! The engine does no input or output. Its caller runs the event loop: it
//! reads the clock and the ports, hands each reading and each received frame
//! to [`EthRouter::run`], and sends what that answers: the frame of
//! [`EthRouter::announcement`] on every port, or the received frame on the
//! ports listed.
//!
//! Clock readings and spans of time are `u64` counts of one unit, which the
//! caller chooses; the clock is expected not to run backwards.

use crate::stp::bpdu::{Bpdu, BpduBuf, Verdict, PACKET_LEN};
use crate::stp::frame::{
    destination_of, ethertype_of, get_destination, get_source, is_frame, source_of,
};
use crate::stp::mac::MacAddr;
use crate::stp::model::{elapsed, flood, Effect, Event, Fault, Startup, SwitchState};
use crate::stp::port::{BuildError, EthPort, PortState};
use crate::stp::proofs::{lemma_on_bpdu_inv, lemma_on_data_inv, lemma_start_inv, lemma_tick_inv};
use crate::stp::table::FwdTable;
use vstd::prelude::*;

verus! {

/// What the caller is to do after one event.
#[derive(Debug, PartialEq, Eq)]
pub enum Outcome {
    /// Nothing.
    Idle,
    /// End the event loop: a port can no longer be read.
    Exit,
    /// The octets are too few for an Ethernet frame: nothing to send.
    Malformed,
    /// A host frame arrived on a blocked port and was dropped.
    Denied,
    /// A host frame arrived on a learning port: its source was learnt and
    /// the frame dropped.
    Learned,
    /// The received frame is to be sent, unchanged, on the listed ports.
    Forwarded(Vec<usize>),
    /// The announcement frame is to be sent on every port.
    Announced,
    /// An announcement was taken in: nothing to send.
    Settled,
}

impl View for Outcome {
    type V = Effect;

    open spec fn view(&self) -> Effect {
        match self {
            Outcome::Idle => Effect::Idle,
            Outcome::Exit => Effect::Exit,
            Outcome::Malformed => Effect::Malformed,
            Outcome::Denied => Effect::Denied,
            Outcome::Learned => Effect::Learned,
            Outcome::Forwarded(ports) => Effect::Forwarded(ports@),
            Outcome::Announced => Effect::Announced,
            Outcome::Settled => Effect::Settled,
        }
    }
}

/// One switch of the bridged network.
pub struct EthRouter {
    ports: Vec<EthPort>,
    switch_id: MacAddr,
    curr_bpdu: Bpdu,
    bpdu_buf: BpduBuf,
    bpdu_resend_timeout: u64,
    last_resent_bpdu: Option<u64>,
    startup: Option<Startup>,
    fwd_table: FwdTable,
}

impl View for EthRouter {
    type V = SwitchState;

    closed spec fn view(&self) -> SwitchState {
        SwitchState {
            switch_id: self.switch_id,
            ports: self.ports@,
            curr_bpdu: self.curr_bpdu,
            fwd_table: self.fwd_table@,
            bpdu_resend_timeout: self.bpdu_resend_timeout,
            last_resent_bpdu: self.last_resent_bpdu,
            startup: self.startup,
        }
    }
}

/// The time from `since` to `now`, zero if the clock ran backwards.
fn time_since(now: u64, since: u64) -> (span: u64)
    ensures
        span == elapsed(now, since),
{
    if now >= since {
        now - since
    } else {
        0
    }
}

impl EthRouter {
    /// Whether the switch is in order: its state meets the invariant of the
    /// state machine, and its announcement buffer has the size of an
    /// announcement frame and a zero EtherType.
    pub closed spec fn wf(&self) -> bool {
        &&& self@.inv()
        &&& self.ports@.len() <= usize::MAX
        &&& self.bpdu_buf.0@.len() == PACKET_LEN
        &&& ethertype_of(self.bpdu_buf.0@) == seq![0u8, 0u8]
    }

    /// The octets that [`EthRouter::announcement`] returns.
    pub closed spec fn spec_announcement(&self) -> Seq<u8> {
        self.bpdu_buf.0@
    }

    /// A switch in order meets the invariant of the state machine.
    pub proof fn lemma_wf(&self)
        requires
            self.wf(),
        ensures
            self@.inv(),
            self@.ports.len() <= usize::MAX,
            self.spec_announcement().len() == PACKET_LEN,
    {
    }

    /// Sets up a switch with the given ports. Its identifier is the
    /// smallest of their addresses; it takes itself for the root, knows no
    /// host and has made no announcement. Ports whose addresses give no
    /// identifier (none at all, or the broadcast address only) give no
    /// switch.
    pub fn build(ports: Vec<EthPort>, bpdu_resend_timeout: u64) -> (r: Result<
        EthRouter,
        BuildError,
    >)
        requires
            forall|i: int|
                0 <= i < ports@.len() ==> (#[trigger] ports@[i]).state == PortState::Learning,
        ensures
            match r {
                Ok(router) => {
                    &&& router.wf()
                    &&& router@.inv()
                    &&& router@ == SwitchState::initial(
                        ports@,
                        router@.switch_id,
                        bpdu_resend_timeout,
                    )
                    &&& router.spec_announcement() == Seq::new(PACKET_LEN as nat, |i: int| 0u8)
                },
                Err(e) => {
                    &&& e == BuildError::NoInterfaces
                    &&& forall|i: int|
                        0 <= i < ports@.len() ==> (#[trigger] ports@[i]).mac
                            == MacAddr::spec_broadcast()
                },
            },
    {
        let mut switch_id = MacAddr::broadcast();
        let mut i: usize = 0;
        while i < ports.len()
            invariant
                i <= ports@.len(),
                forall|k: int| 0 <= k < i ==> switch_id.spec_le((#[trigger] ports@[k]).mac),
                switch_id == MacAddr::spec_broadcast() || exists|k: int|
                    0 <= k < i && (#[trigger] ports@[k]).mac == switch_id,
                switch_id == MacAddr::spec_broadcast() ==> forall|k: int|
                    0 <= k < i ==> (#[trigger] ports@[k]).mac == MacAddr::spec_broadcast(),
            decreases ports@.len() - i,
        {
            switch_id = switch_id.min(ports[i].mac);
            i += 1;
        }
        if switch_id == MacAddr::broadcast() {
            return Err(BuildError::NoInterfaces);
        }
        let router = EthRouter {
            ports,
            switch_id,
            curr_bpdu: Bpdu::new(0, switch_id, switch_id),
            bpdu_buf: Bpdu::make_buf(),
            bpdu_resend_timeout,
            last_resent_bpdu: None,
            startup: None,
            fwd_table: FwdTable::new(),
        };
        proof {
            assert(ethertype_of(router.bpdu_buf.0@) =~= seq![0u8, 0u8]);
        }
        Ok(router)
    }

    /// Opens the startup window at the clock reading `now`: once more than
    /// `startup_duration` has passed since, [`EthRouter::tick`] promotes the
    /// ports that are still learning.
    pub fn start(&mut self, now: u64, startup_duration: u64)
        requires
            old(self).wf(),
        ensures
            final(self).wf(),
            final(self)@ == old(self)@.start(now, startup_duration),
            final(self).spec_announcement() == old(self).spec_announcement(),
    {
        proof {
            lemma_start_inv(self@, now, startup_duration);
        }
        self.startup = Some(Startup { time_entered: now, startup_duration });
    }

    /// Takes the clock reading `now`. If the startup window has run out,
    /// every port still learning starts to forward, once and for all. If an
    /// announcement is due, the announcement frame is made ready and the
    /// result is `true`: the caller sends it on every port.
    pub fn tick(&mut self, now: u64) -> (announce: bool)
        requires
            old(self).wf(),
        ensures
            final(self).wf(),
            final(self)@ == old(self)@.tick(now),
            announce == old(self)@.announce_due(now),
            announce ==> final(self).spec_announcement() == final(self)@.announcement(),
            !announce ==> final(self).spec_announcement() == old(self).spec_announcement(),
    {
        proof {
            lemma_tick_inv(self@, now);
        }
        let expired = match self.startup {
            Some(window) => time_since(now, window.time_entered) > window.startup_duration,
            None => false,
        };
        if expired {
            let ghost before = self.ports@;
            let mut i: usize = 0;
            while i < self.ports.len()
                invariant
                    i <= self.ports@.len(),
                    self.ports@.len() == before.len(),
                    forall|k: int|
                        0 <= k < i ==> #[trigger] self.ports@[k] == old(self)@.promote().ports[k],
                    forall|k: int| i <= k < before.len() ==> #[trigger] self.ports@[k] == before[k],
                    before == old(self)@.ports,
                    self.switch_id == old(self).switch_id,
                    self.curr_bpdu == old(self).curr_bpdu,
                    self.bpdu_buf == old(self).bpdu_buf,
                    self.bpdu_resend_timeout == old(self).bpdu_resend_timeout,
                    self.last_resent_bpdu == old(self).last_resent_bpdu,
                    self.startup == old(self).startup,
                    self.fwd_table == old(self).fwd_table,
                decreases self.ports@.len() - i,
            {
                let port = self.ports[i];
                if port.state == PortState::Learning {
                    self.ports.set(i, EthPort { mac: port.mac, state: PortState::Forward });
                }
                i += 1;
            }
            self.startup = None;
            assert(self.ports@ =~= old(self)@.promote().ports);
        }
        let due = match self.last_resent_bpdu {
            Some(last) => time_since(now, last) > self.bpdu_resend_timeout,
            None => true,
        };
        if due {
            self.last_resent_bpdu = Some(now);
            self.broadcast_bpdu();
        }
        due
    }

    /// Makes the announcement frame for the record held ready in the
    /// buffer, from where the caller sends it to all neighbours, blocked
    /// ones included.
    fn broadcast_bpdu(&mut self)
        requires
            old(self)@.inv(),
            old(self)@.ports.len() <= usize::MAX,
            old(self).bpdu_buf.0@.len() == PACKET_LEN,
            ethertype_of(old(self).bpdu_buf.0@) == seq![0u8, 0u8],
        ensures
            final(self).wf(),
            final(self)@ == old(self)@,
            final(self).spec_announcement() == old(self)@.announcement(),
    {
        self.curr_bpdu.make_packet(&mut self.bpdu_buf, self.switch_id);
        assert(ethertype_of(self.bpdu_buf.0@) =~= seq![0u8, 0u8]);
    }

    /// Makes `new_root` the root port and blocks the port that was the root
    /// port before; the record held becomes the neighbour's with one more
    /// hop, with `src_mac` as the bridge.
    fn reset_root(&mut self, new_root: usize, neighbor: &Bpdu, src_mac: MacAddr)
        requires
            new_root < old(self)@.ports.len(),
            neighbor.root_cost < u8::MAX,
        ensures
            final(self)@ == old(self)@.reset_root(new_root, *neighbor, src_mac),
            final(self).bpdu_buf == old(self).bpdu_buf,
    {
        let ghost before = self.ports@;
        let mut port_num: usize = 0;
        while port_num < self.ports.len()
            invariant
                port_num <= self.ports@.len(),
                self.ports@.len() == before.len(),
                forall|k: int|
                    0 <= k < port_num ==> #[trigger] self.ports@[k] == old(self)@.reset_root(
                        new_root,
                        *neighbor,
                        src_mac,
                    ).ports[k],
                forall|k: int|
                    port_num <= k < before.len() ==> #[trigger] self.ports@[k] == before[k],
                before == old(self)@.ports,
                self.switch_id == old(self).switch_id,
                self.curr_bpdu == old(self).curr_bpdu,
                self.bpdu_buf == old(self).bpdu_buf,
                self.bpdu_resend_timeout == old(self).bpdu_resend_timeout,
                self.last_resent_bpdu == old(self).last_resent_bpdu,
                self.startup == old(self).startup,
                self.fwd_table == old(self).fwd_table,
            decreases self.ports@.len() - port_num,
        {
            let port = self.ports[port_num];
            if port_num == new_root {
                self.ports.set(port_num, EthPort { mac: port.mac, state: PortState::Root });
            } else if port.state == PortState::Root {
                self.ports.set(port_num, EthPort { mac: port.mac, state: PortState::Block });
            }
            port_num += 1;
        }
        self.curr_bpdu = Bpdu::new(neighbor.cost() + 1, neighbor.root_id(), src_mac);
    }

    /// Puts `port` in the given state.
    fn set_port(&mut self, port: usize, state: PortState)
        requires
            port < old(self)@.ports.len(),
        ensures
            final(self)@ == old(self)@.set_port(port, state),
            final(self).bpdu_buf == old(self).bpdu_buf,
    {
        let mac = self.ports[port].mac;
        self.ports.set(port, EthPort { mac, state });
    }

    /// Takes in the announcement `neighbor`, which arrived on `portnum_in`
    /// in a frame sent from `src_mac`.
    ///
    /// A better root, or a shorter path to the root held, moves the root
    /// port to `portnum_in`. A worse root changes nothing. A path as long
    /// as the one held blocks `portnum_in` unless it is the root port. A
    /// longer one makes `portnum_in` forward if the neighbour names this
    /// switch as its bridge, and blocks it if not. In the first three cases
    /// the result is `true` and the announcement frame is ready: the caller
    /// sends it on every port.
    pub fn handle_bpdu(&mut self, portnum_in: usize, neighbor: &Bpdu, src_mac: MacAddr) -> (announce:
        bool)
        requires
            old(self).wf(),
            portnum_in < old(self)@.ports.len(),
            !old(self)@.over_hop_limit(*neighbor),
        ensures
            final(self).wf(),
            final(self)@ == old(self)@.on_bpdu(portnum_in, *neighbor, src_mac),
            announce == old(self)@.announces(*neighbor),
            announce ==> final(self).spec_announcement() == final(self)@.announcement(),
            !announce ==> final(self).spec_announcement() == old(self).spec_announcement(),
    {
        proof {
            lemma_on_bpdu_inv(self@, portnum_in, *neighbor, src_mac);
        }
        // First the smaller root, then the shorter path to it.
        match self.curr_bpdu.judge(neighbor) {
            Verdict::BetterRoot | Verdict::ShorterPath => {
                self.reset_root(portnum_in, neighbor, src_mac);
                self.broadcast_bpdu();
                true
            },
            Verdict::WorseRoot => {
                self.broadcast_bpdu();
                true
            },
            Verdict::TiedPath => {
                if self.ports[portnum_in].state != PortState::Root {
                    self.set_port(portnum_in, PortState::Block);
                }
                false
            },
            Verdict::Downstream => {
                if neighbor.bridge_id() == self.switch_id {
                    self.set_port(portnum_in, PortState::Forward);
                } else {
                    self.set_port(portnum_in, PortState::Block);
                }
                false
            },
        }
    }

    /// Whether the table would send a host frame from `src_mac` to
    /// `dst_mac`, arrived on `portnum_in`, to a blocked port.
    pub fn misroutes(&self, portnum_in: usize, src_mac: MacAddr, dst_mac: MacAddr) -> (r: bool)
        requires
            self.wf(),
            portnum_in < self@.ports.len(),
        ensures
            r == self@.misroutes(portnum_in, src_mac, dst_mac),
    {
        if !self.ports[portnum_in].state.forwards() {
            return false;
        }
        let next_hop = if dst_mac == src_mac {
            Some(portnum_in)
        } else {
            self.fwd_table.lookup(dst_mac)
        };
        match next_hop {
            Some(port) => {
                assert(dst_mac != src_mac ==> self@.fwd_table.contains_key(dst_mac));
                self.ports[port].state == PortState::Block
            },
            None => false,
        }
    }

    /// Handles the host frame `frame`, which arrived on `portnum_in`, and
    /// returns the ports on which it is to be sent.
    ///
    /// On a blocked port the frame is dropped. Otherwise its source is
    /// learnt. From a learning port nothing is sent on. From a forwarding
    /// port the frame goes to the port of its destination if the table
    /// knows it, and to every other forwarding port if not.
    pub fn fwd_client(&mut self, portnum_in: usize, frame: &[u8]) -> (out: Vec<usize>)
        requires
            old(self).wf(),
            portnum_in < old(self)@.ports.len(),
            is_frame(frame@),
            destination_of(frame@) != Bpdu::bpdu_mac(),
            !old(self)@.misroutes(portnum_in, source_of(frame@), destination_of(frame@)),
        ensures
            final(self).wf(),
            final(self)@ == old(self)@.on_data(portnum_in, source_of(frame@)),
            out@ == old(self)@.targets(portnum_in, source_of(frame@), destination_of(frame@)),
            final(self).spec_announcement() == old(self).spec_announcement(),
    {
        proof {
            lemma_on_data_inv(self@, portnum_in, source_of(frame@));
        }
        let mut out: Vec<usize> = Vec::new();
        let (src_mac, dst_mac) = match (get_source(frame), get_destination(frame)) {
            (Some(src_mac), Some(dst_mac)) => (src_mac, dst_mac),
            _ => {
                return out;
            },
        };
        let inbound_state = self.ports[portnum_in].state;

        // Host frames from blocked ports are denied.
        if inbound_state == PortState::Block {
            return out;
        }
        // Self learning.
        self.fwd_table.learn(src_mac, portnum_in);
        // No forwarding during learning.
        if inbound_state == PortState::Learning {
            return out;
        }
        // Forward to a known destination.
        if let Some(next_hop) = self.fwd_table.lookup(dst_mac) {
            out.push(next_hop);
            return out;
        }
        // Flood to an unknown destination.
        let mut portnum_out: usize = 0;
        while portnum_out < self.ports.len()
            invariant
                portnum_out <= self.ports@.len(),
                out@ == flood(self.ports@.take(portnum_out as int), portnum_in),
            decreases self.ports@.len() - portnum_out,
        {
            proof {
                let upto = self.ports@.take(portnum_out + 1);
                assert(upto.drop_last() =~= self.ports@.take(portnum_out as int));
            }
            if portnum_out != portnum_in && self.ports[portnum_out].state.forwards() {
                out.push(portnum_out);
            }
            portnum_out += 1;
        }
        assert(self.ports@.take(portnum_out as int) =~= self.ports@);
        out
    }

    /// Handles the octets `frame` received on `portnum_in`: an announcement
    /// goes to [`EthRouter::handle_bpdu`], a host frame to
    /// [`EthRouter::fwd_client`], and octets too few for a frame are
    /// dropped. The result says what the caller is to send.
    ///
    /// On a frame that breaks an assumption of the engine nothing is done
    /// and the result names the [`Fault`].
    pub fn receive(&mut self, portnum_in: usize, frame: &[u8]) -> (r: Result<Outcome, Fault>)
        requires
            old(self).wf(),
            portnum_in < old(self)@.ports.len(),
        ensures
            final(self).wf(),
            match r {
                Ok(outcome) => {
                    &&& old(self)@.fault(portnum_in, frame@) is None
                    &&& final(self)@ == old(self)@.receive(portnum_in, frame@)
                    &&& outcome@ == old(self)@.effect(portnum_in, frame@)
                },
                Err(fault) => {
                    &&& old(self)@.fault(portnum_in, frame@) == Some(fault)
                    &&& final(self)@ == old(self)@
                },
            },
            r matches Ok(Outcome::Announced) ==> final(self).spec_announcement()
                == final(self)@.announcement(),
            !(r matches Ok(Outcome::Announced)) ==> final(self).spec_announcement()
                == old(self).spec_announcement(),
    {
        let (src_mac, dst_mac) = match (get_source(frame), get_destination(frame)) {
            (Some(src_mac), Some(dst_mac)) => (src_mac, dst_mac),
            _ => {
                return Ok(Outcome::Malformed);
            },
        };
        if dst_mac == Bpdu::bpdu_mac() {
            if frame.len() != PACKET_LEN {
                return Err(Fault::MalformedBpdu);
            }
            let neighbor = match EthPort::try_routing(frame) {
                Some(neighbor) => neighbor,
                None => {
                    return Err(Fault::MalformedBpdu);
                },
            };
            match self.curr_bpdu.judge(&neighbor) {
                Verdict::BetterRoot => {
                    if neighbor.cost() == u8::MAX {
                        return Err(Fault::HopLimit);
                    }
                },
                _ => {},
            }
            if self.handle_bpdu(portnum_in, &neighbor, src_mac) {
                Ok(Outcome::Announced)
            } else {
                Ok(Outcome::Settled)
            }
        } else {
            if self.misroutes(portnum_in, src_mac, dst_mac) {
                return Err(Fault::BlockedTarget);
            }
            let inbound_state = self.ports[portnum_in].state;
            let out = self.fwd_client(portnum_in, frame);
            match inbound_state {
                PortState::Block => Ok(Outcome::Denied),
                PortState::Learning => Ok(Outcome::Learned),
                PortState::Root | PortState::Forward => Ok(Outcome::Forwarded(out)),
            }
        }
    }

    /// Runs packet control and forwarding for one event of the loop that
    /// polls the ports, and says what the loop is to do next.
    ///
    /// When the loop is entered the startup window opens. A clock reading
    /// goes to [`EthRouter::tick`] and a received frame to
    /// [`EthRouter::receive`]. A receive that timed out needs nothing; one
    /// that failed ends the loop. On a frame that breaks an assumption of
    /// the engine nothing is done and the result names the [`Fault`].
    pub fn run(&mut self, event: Event) -> (r: Result<Outcome, Fault>)
        requires
            old(self).wf(),
            event matches Event::Frame { portnum_in, bytes } ==> portnum_in
                < old(self)@.ports.len(),
        ensures
            final(self).wf(),
            match r {
                Ok(outcome) => {
                    &&& old(self)@.fault_on(event) is None
                    &&& final(self)@ == old(self)@.run(event)
                    &&& outcome@ == old(self)@.effect_of(event)
                },
                Err(fault) => {
                    &&& old(self)@.fault_on(event) == Some(fault)
                    &&& final(self)@ == old(self)@
                },
            },
            r matches Ok(Outcome::Announced) ==> final(self).spec_announcement()
                == final(self)@.announcement(),
            !(r matches Ok(Outcome::Announced)) ==> final(self).spec_announcement()
                == old(self).spec_announcement(),
    {
        match event {
            Event::Entered { now, startup_duration } => {
                self.start(now, startup_duration);
                Ok(Outcome::Idle)
            },
            Event::Clock { now } => {
                if self.tick(now) {
                    Ok(Outcome::Announced)
                } else {
                    Ok(Outcome::Idle)
                }
            },
            Event::Frame { portnum_in, bytes } => self.receive(portnum_in, bytes),
            Event::TimedOut => Ok(Outcome::Idle),
            Event::Failed => Ok(Outcome::Exit),
        }
    }

    /// The announcement frame as it was last made ready.
    pub fn announcement(&self) -> (frame: &[u8])
        ensures
            frame@ == self.spec_announcement(),
    {
        self.bpdu_buf.0.as_slice()
    }

    /// The identifier of the switch.
    pub fn switch_id(&self) -> (id: MacAddr)
        ensures
            id == self@.switch_id,
    {
        self.switch_id
    }

    /// The record that the switch announces.
    pub fn curr_bpdu(&self) -> (bpdu: Bpdu)
        ensures
            bpdu == self@.curr_bpdu,
    {
        self.curr_bpdu
    }

    /// The number of ports.
    pub fn port_count(&self) -> (n: usize)
        ensures
            n == self@.ports.len(),
    {
        self.ports.len()
    }

    /// The port with the given number.
    pub fn port(&self, portnum: usize) -> (port: EthPort)
        requires
            portnum < self@.ports.len(),
        ensures
            port == self@.ports[portnum as int],
    {
        self.ports[portnum]
    }

    /// The port behind which `mac` was last seen, if it was seen at all.
    pub fn next_hop(&self, mac: MacAddr) -> (port: Option<usize>)
        ensures
            port == (if self@.fwd_table.contains_key(mac) {
                Some(self@.fwd_table[mac])
            } else {
                None
            }),
    {
        self.fwd_table.lookup(mac)
    }
}

} // verus!
