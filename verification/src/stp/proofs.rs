//! What holds of every switch, proved over the state machine of
//! [`crate::stp::model`].

use crate::stp::bpdu::{Bpdu, Verdict};
use crate::stp::frame::{destination_of, is_frame, payload_of, source_of};
use crate::stp::mac::MacAddr;
use crate::stp::model::{flood, Effect, Event, SwitchState};
use crate::stp::port::{EthPort, PortState};
use vstd::prelude::*;

verus! {

/// A switch starts well: with its identifier the smallest port address, not
/// the broadcast address, and no port leading to a root yet, the initial
/// state meets the invariant, and the switch is the root with no root port.
pub proof fn lemma_initial_inv(ports: Seq<EthPort>, switch_id: MacAddr, bpdu_resend_timeout: u64)
    requires
        exists|i: int| 0 <= i < ports.len() && (#[trigger] ports[i]).mac == switch_id,
        forall|i: int| 0 <= i < ports.len() ==> switch_id.spec_le((#[trigger] ports[i]).mac),
        switch_id != MacAddr::spec_broadcast(),
        forall|i: int| 0 <= i < ports.len() ==> (#[trigger] ports[i]).state != PortState::Root,
    ensures
        SwitchState::initial(ports, switch_id, bpdu_resend_timeout).inv(),
        SwitchState::initial(ports, switch_id, bpdu_resend_timeout).has_its_root_port(),
{
}

/// Reading the clock keeps the invariant, keeps the record held and the
/// table, and moves no port into or out of the root state.
pub proof fn lemma_tick_inv(s: SwitchState, now: u64)
    requires
        s.inv(),
    ensures
        s.tick(now).inv(),
        s.tick(now).curr_bpdu == s.curr_bpdu,
        s.tick(now).switch_id == s.switch_id,
        s.tick(now).fwd_table == s.fwd_table,
        s.tick(now).ports.len() == s.ports.len(),
        forall|i: int| s.tick(now).is_root_port(i) == s.is_root_port(i),
        s.has_its_root_port() ==> s.tick(now).has_its_root_port(),
{
    let t = s.tick(now);
    assert forall|i: int| 0 <= i < s.ports.len() implies (#[trigger] t.ports[i]).mac
        == s.ports[i].mac && (t.ports[i].state == PortState::Root) == (s.ports[i].state
        == PortState::Root) by {}
    assert forall|i: int| t.is_root_port(i) == s.is_root_port(i) by {}
    let w = choose|i: int| 0 <= i < s.ports.len() && (#[trigger] s.ports[i]).mac == s.switch_id;
    assert(t.ports[w].mac == t.switch_id);
}

/// Opening the startup window changes nothing but the window.
pub proof fn lemma_start_inv(s: SwitchState, now: u64, startup_duration: u64)
    requires
        s.inv(),
    ensures
        s.start(now, startup_duration).inv(),
        s.has_its_root_port() ==> s.start(now, startup_duration).has_its_root_port(),
{
    let t = s.start(now, startup_duration);
    assert forall|i: int| t.is_root_port(i) == s.is_root_port(i) by {}
}

/// Taking a better path keeps the invariant and leaves the switch with
/// exactly one root port, the one the announcement came in on.
pub proof fn lemma_reset_root_inv(s: SwitchState, port: usize, neighbor: Bpdu, src_mac: MacAddr)
    requires
        s.inv(),
        port < s.ports.len(),
        s.curr_bpdu.spec_judge(neighbor) == Verdict::BetterRoot || s.curr_bpdu.spec_judge(
            neighbor,
        ) == Verdict::ShorterPath,
        !s.over_hop_limit(neighbor),
    ensures
        s.reset_root(port, neighbor, src_mac).inv(),
        s.reset_root(port, neighbor, src_mac).is_root_port(port as int),
        forall|i: int| s.reset_root(port, neighbor, src_mac).is_root_port(i) ==> i == port,
        !s.reset_root(port, neighbor, src_mac).is_root(),
        s.reset_root(port, neighbor, src_mac).has_its_root_port(),
{
    let t = s.reset_root(port, neighbor, src_mac);
    let w = choose|i: int| 0 <= i < s.ports.len() && (#[trigger] s.ports[i]).mac == s.switch_id;
    assert(t.ports[w].mac == t.switch_id);
    assert(t.is_root_port(port as int));
}

/// An announcement that can be taken in keeps the invariant, whichever port
/// it arrives on and whatever it says.
pub proof fn lemma_on_bpdu_inv(s: SwitchState, port: usize, neighbor: Bpdu, src_mac: MacAddr)
    requires
        s.inv(),
        port < s.ports.len(),
        !s.over_hop_limit(neighbor),
    ensures
        s.on_bpdu(port, neighbor, src_mac).inv(),
        s.on_bpdu(port, neighbor, src_mac).fwd_table == s.fwd_table,
        s.on_bpdu(port, neighbor, src_mac).switch_id == s.switch_id,
        s.on_bpdu(port, neighbor, src_mac).ports.len() == s.ports.len(),
{
    let t = s.on_bpdu(port, neighbor, src_mac);
    match s.curr_bpdu.spec_judge(neighbor) {
        Verdict::BetterRoot | Verdict::ShorterPath => {
            lemma_reset_root_inv(s, port, neighbor, src_mac);
        },
        Verdict::WorseRoot => {},
        Verdict::TiedPath | Verdict::Downstream => {
            let w = choose|i: int|
                0 <= i < s.ports.len() && (#[trigger] s.ports[i]).mac == s.switch_id;
            assert(t.ports[w].mac == t.switch_id);
            assert forall|i: int| t.is_root_port(i) implies s.is_root_port(i) by {}
        },
    }
}

/// A switch that has its root port keeps it through every announcement but
/// one: an announcement from further downstream that arrives on the root
/// port itself takes that port out of the root state.
pub proof fn lemma_on_bpdu_keeps_root_port(
    s: SwitchState,
    port: usize,
    neighbor: Bpdu,
    src_mac: MacAddr,
)
    requires
        s.inv(),
        s.has_its_root_port(),
        port < s.ports.len(),
        !s.over_hop_limit(neighbor),
        !(s.curr_bpdu.spec_judge(neighbor) == Verdict::Downstream && s.is_root_port(port as int)),
    ensures
        s.on_bpdu(port, neighbor, src_mac).has_its_root_port(),
{
    let t = s.on_bpdu(port, neighbor, src_mac);
    match s.curr_bpdu.spec_judge(neighbor) {
        Verdict::BetterRoot | Verdict::ShorterPath => {
            lemma_reset_root_inv(s, port, neighbor, src_mac);
        },
        Verdict::WorseRoot => {},
        Verdict::TiedPath | Verdict::Downstream => {
            assert forall|i: int| t.is_root_port(i) == s.is_root_port(i) by {}
        },
    }
}

/// The root that a switch holds never gets worse, and after an announcement
/// it is at least as good as the one announced: it is the smaller of the
/// root held before and the root announced. Where both name the same root,
/// the cost held afterwards is the smaller of the cost held before and the
/// cost of the path through the neighbour.
pub proof fn lemma_on_bpdu_takes_the_better(
    s: SwitchState,
    port: usize,
    neighbor: Bpdu,
    src_mac: MacAddr,
)
    requires
        !s.over_hop_limit(neighbor),
    ensures
        s.on_bpdu(port, neighbor, src_mac).curr_bpdu.root_id == s.curr_bpdu.root_id.spec_min(
            neighbor.root_id,
        ),
        s.on_bpdu(port, neighbor, src_mac).curr_bpdu.root_id.spec_le(s.curr_bpdu.root_id),
        s.on_bpdu(port, neighbor, src_mac).curr_bpdu.root_id.spec_le(neighbor.root_id),
        neighbor.root_id == s.curr_bpdu.root_id ==> s.on_bpdu(
            port,
            neighbor,
            src_mac,
        ).curr_bpdu.root_cost == if neighbor.root_cost + 1 < s.curr_bpdu.root_cost {
            neighbor.root_cost + 1
        } else {
            s.curr_bpdu.root_cost as int
        },
{
}

/// The record a switch holds never gets worse in the order of preference: an
/// announcement leaves it with a smaller root, or with the same root at a
/// cost that is not larger.
pub proof fn lemma_on_bpdu_never_worsens(
    s: SwitchState,
    port: usize,
    neighbor: Bpdu,
    src_mac: MacAddr,
)
    requires
        !s.over_hop_limit(neighbor),
    ensures
        ({
            let held = s.on_bpdu(port, neighbor, src_mac).curr_bpdu;
            held.root_id.spec_lt(s.curr_bpdu.root_id) || (held.root_id == s.curr_bpdu.root_id
                && held.root_cost <= s.curr_bpdu.root_cost)
        }),
{
}

/// An announcement of a worse root is answered and changes nothing.
pub proof fn lemma_worse_root_changes_nothing(
    s: SwitchState,
    port: usize,
    neighbor: Bpdu,
    src_mac: MacAddr,
)
    requires
        s.curr_bpdu.root_id.spec_lt(neighbor.root_id),
    ensures
        s.on_bpdu(port, neighbor, src_mac) == s,
        s.announces(neighbor),
{
}

/// A host frame keeps the invariant; it changes no port and not the record
/// held.
pub proof fn lemma_on_data_inv(s: SwitchState, port: usize, src_mac: MacAddr)
    requires
        s.inv(),
        port < s.ports.len(),
    ensures
        s.on_data(port, src_mac).inv(),
        s.on_data(port, src_mac).ports == s.ports,
        s.on_data(port, src_mac).curr_bpdu == s.curr_bpdu,
        s.has_its_root_port() ==> s.on_data(port, src_mac).has_its_root_port(),
{
    let t = s.on_data(port, src_mac);
    assert forall|i: int| t.is_root_port(i) == s.is_root_port(i) by {}
}

/// Every frame on which the engine does not halt keeps the invariant.
pub proof fn lemma_receive_inv(s: SwitchState, port: usize, frame: Seq<u8>)
    requires
        s.inv(),
        port < s.ports.len(),
        s.fault(port, frame) is None,
    ensures
        s.receive(port, frame).inv(),
{
    if is_frame(frame) {
        if destination_of(frame) == Bpdu::bpdu_mac() {
            lemma_on_bpdu_inv(s, port, Bpdu::from_record(payload_of(frame)), source_of(frame));
        } else {
            lemma_on_data_inv(s, port, source_of(frame));
        }
    }
}

/// Every event on which the engine does not halt keeps the invariant.
pub proof fn lemma_run_inv(s: SwitchState, event: Event)
    requires
        s.inv(),
        event matches Event::Frame { portnum_in, bytes } ==> portnum_in < s.ports.len(),
        s.fault_on(event) is None,
    ensures
        s.run(event).inv(),
{
    match event {
        Event::Entered { now, startup_duration } => {
            lemma_start_inv(s, now, startup_duration);
        },
        Event::Clock { now } => {
            lemma_tick_inv(s, now);
        },
        Event::Frame { portnum_in, bytes } => {
            lemma_receive_inv(s, portnum_in, bytes@);
        },
        Event::TimedOut => {},
        Event::Failed => {},
    }
}

/// Frames to the announcement group never reach the forwarding path: they
/// leave the table alone and send no host frame on. Host frames, in turn,
/// leave the ports and the record alone and cause no announcement.
pub proof fn lemma_control_and_data_apart(s: SwitchState, port: usize, frame: Seq<u8>)
    requires
        is_frame(frame),
    ensures
        destination_of(frame) == Bpdu::bpdu_mac() ==> s.receive(port, frame).fwd_table
            == s.fwd_table && (s.effect(port, frame) == Effect::Announced || s.effect(port, frame)
            == Effect::Settled),
        destination_of(frame) != Bpdu::bpdu_mac() ==> s.receive(port, frame).ports == s.ports
            && s.receive(port, frame).curr_bpdu == s.curr_bpdu && s.effect(port, frame)
            != Effect::Announced && s.effect(port, frame) != Effect::Settled,
{
}

/// Ports leave the learning state and never come back: when the startup
/// window runs out no port is left learning, and no step puts a port that
/// was not learning into the learning state.
pub proof fn lemma_learning_ends(
    s: SwitchState,
    now: u64,
    port: usize,
    neighbor: Bpdu,
    src_mac: MacAddr,
    i: int,
)
    requires
        0 <= i < s.ports.len(),
        port < s.ports.len(),
    ensures
        s.startup_expired(now) ==> s.tick(now).ports[i].state != PortState::Learning,
        s.ports[i].state != PortState::Learning ==> {
            &&& s.tick(now).ports[i].state != PortState::Learning
            &&& s.on_bpdu(port, neighbor, src_mac).ports[i].state != PortState::Learning
            &&& s.on_data(port, src_mac).ports[i].state != PortState::Learning
        },
{
}

/// A blocked port carries no host frame: one that arrives on it is dropped
/// and teaches the table nothing, and none is sent out on it, unless the
/// table misroutes the frame.
pub proof fn lemma_blocked_ports_carry_no_host_frames(
    s: SwitchState,
    port: usize,
    src_mac: MacAddr,
    dst_mac: MacAddr,
)
    requires
        port < s.ports.len(),
        s.ports.len() <= usize::MAX,
    ensures
        s.ports[port as int].state == PortState::Block ==> s.on_data(port, src_mac) == s
            && s.targets(port, src_mac, dst_mac).len() == 0,
        !s.misroutes(port, src_mac, dst_mac) ==> forall|k: int|
            0 <= k < s.targets(port, src_mac, dst_mac).len() ==> s.ports[(#[trigger] s.targets(
                port,
                src_mac,
                dst_mac,
            )[k]) as int].state != PortState::Block,
{
    lemma_flood(s.ports, port);
}

/// Learning is idempotent and overwrites: seeing a source on the same port
/// again changes nothing, and seeing it on another port leaves the state as
/// if it had been seen there only.
pub proof fn lemma_learning(s: SwitchState, src_mac: MacAddr, port: usize, other: usize)
    ensures
        s.learn(src_mac, port).learn(src_mac, port) == s.learn(src_mac, port),
        s.learn(src_mac, port).learn(src_mac, other) == s.learn(src_mac, other),
        s.learn(src_mac, port).fwd_table.contains_key(src_mac),
        s.learn(src_mac, port).fwd_table[src_mac] == port,
        forall|mac: MacAddr|
            mac != src_mac ==> s.learn(src_mac, port).fwd_table.contains_key(mac)
                == s.fwd_table.contains_key(mac) && s.learn(src_mac, port).fwd_table[mac]
                == s.fwd_table[mac],
{
}

/// The flood list holds, in strictly rising order, exactly the forwarding
/// ports other than the ingress.
pub proof fn lemma_flood(ports: Seq<EthPort>, ingress: usize)
    requires
        ports.len() <= usize::MAX,
    ensures
        forall|k: int|
            0 <= k < flood(ports, ingress).len() ==> {
                let q = #[trigger] flood(ports, ingress)[k];
                q < ports.len() && q != ingress && ports[q as int].state.forwards()
            },
        forall|q: usize|
            q < ports.len() && q != ingress && (#[trigger] ports[q as int]).state.forwards()
                ==> flood(ports, ingress).contains(q),
        forall|j: int, k: int|
            0 <= j < k < flood(ports, ingress).len() ==> flood(ports, ingress)[j] < flood(
                ports,
                ingress,
            )[k],
    decreases ports.len(),
{
    if ports.len() > 0 {
        let init = ports.drop_last();
        let last = (ports.len() - 1) as usize;
        let before = flood(init, ingress);
        let all = flood(ports, ingress);
        lemma_flood(init, ingress);
        assert forall|k: int| 0 <= k < before.len() implies (#[trigger] before[k]) < last by {}
        assert forall|q: usize|
            q < ports.len() && q != ingress && (#[trigger] ports[q as int]).state.forwards()
            implies all.contains(q) by {
            if q == last {
                assert(all[all.len() - 1] == q);
            } else {
                assert(init[q as int] == ports[q as int]);
                let k = choose|k: int| 0 <= k < before.len() && before[k] == q;
                assert(all[k] == q);
            }
        }
        assert forall|k: int| 0 <= k < all.len() implies {
            let q = #[trigger] all[k];
            q < ports.len() && q != ingress && ports[q as int].state.forwards()
        } by {}
    }
}

/// Where a host frame goes: from a port that forwards, a frame to a known
/// address leaves on exactly one port, the one the table names, and a frame
/// to an unknown address leaves on every forwarding port but its ingress;
/// from a port that does not forward, nothing leaves. The ingress itself
/// never gets a frame of unknown destination back.
pub proof fn lemma_targets(s: SwitchState, port: usize, src_mac: MacAddr, dst_mac: MacAddr)
    requires
        port < s.ports.len(),
        s.ports.len() <= usize::MAX,
    ensures
        !s.ports[port as int].state.forwards() ==> s.targets(port, src_mac, dst_mac).len() == 0,
        s.ports[port as int].state.forwards() && s.learn(src_mac, port).fwd_table.contains_key(
            dst_mac,
        ) ==> s.targets(port, src_mac, dst_mac) == seq![
            s.learn(src_mac, port).fwd_table[dst_mac],
        ],
        s.ports[port as int].state.forwards() && !s.learn(src_mac, port).fwd_table.contains_key(
            dst_mac,
        ) ==> forall|q: usize|
            s.targets(port, src_mac, dst_mac).contains(q) <==> (q < s.ports.len() && q != port
                && (#[trigger] s.ports[q as int]).state.forwards()),
{
    lemma_flood(s.ports, port);
    if s.ports[port as int].state.forwards() && !s.learn(src_mac, port).fwd_table.contains_key(
        dst_mac,
    ) {
        let out = s.targets(port, src_mac, dst_mac);
        assert forall|q: usize| out.contains(q) implies (q < s.ports.len() && q != port && (
        #[trigger] s.ports[q as int]).state.forwards()) by {}
    }
}

} // verus!
