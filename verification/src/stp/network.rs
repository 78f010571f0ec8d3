//! Several switches cabled together, and what rounds of announcements
//! achieve among them.
//!
//! The network here is a model: every switch is a [`SwitchState`], and a
//! cable hands the record that the switch at one end holds at that moment
//! to the port at the other end. In a round every cabled port hears its
//! neighbour at least once; clock readings and host frames may fall in
//! between in any order.

use crate::stp::bpdu::Verdict;
use crate::stp::mac::{lemma_lt_strict_total, MacAddr};
use crate::stp::model::SwitchState;
use crate::stp::proofs::{
    lemma_on_bpdu_inv, lemma_on_bpdu_keeps_root_port, lemma_on_data_inv, lemma_reset_root_inv,
    lemma_tick_inv,
};
use vstd::prelude::*;

verus! {

/// One end of a cable: a port of a switch.
pub struct End {
    /// The number of the switch in the network.
    pub switch: int,
    /// The number of the port on that switch.
    pub port: usize,
}

/// One thing that happens in the network.
pub enum Step {
    /// The port hears the announcement of the switch at the other end of
    /// its cable.
    Hear(End),
    /// The switch reads its clock.
    Tick(int, u64),
    /// A host frame from the given address arrives on the port.
    Data(End, MacAddr),
}

/// Switches and the cables between their ports.
#[verifier::ext_equal]
pub struct Network {
    /// The switches.
    pub switches: Seq<SwitchState>,
    /// For each cabled port, the port it hears. Ports without a cable lead
    /// to hosts.
    pub cables: Map<End, End>,
}

impl Network {
    /// Whether `end` names a port of a switch of the network.
    pub open spec fn has_port(self, end: End) -> bool {
        0 <= end.switch < self.switches.len() && end.port < self.switches[end.switch].ports.len()
    }

    /// Whether every switch meets its invariant and every cable joins two
    /// ports of the network.
    pub open spec fn wf(self) -> bool {
        &&& forall|i: int| 0 <= i < self.switches.len() ==> (#[trigger] self.switches[i]).inv()
        &&& forall|end: End| #[trigger]
            self.cables.contains_key(end) ==> self.has_port(end) && self.has_port(
                self.cables[end],
            )
    }

    /// Whether no switch has a smaller identifier than switch `least`.
    pub open spec fn is_least(self, least: int) -> bool {
        &&& 0 <= least < self.switches.len()
        &&& forall|i: int|
            0 <= i < self.switches.len() ==> self.switches[least].switch_id.spec_le(
                (#[trigger] self.switches[i]).switch_id,
            )
    }

    /// Whether no switch holds a root smaller than `id`.
    pub open spec fn no_root_below(self, id: MacAddr) -> bool {
        forall|i: int|
            0 <= i < self.switches.len() ==> id.spec_le(
                (#[trigger] self.switches[i]).curr_bpdu.root_id,
            )
    }

    /// Whether every switch takes itself for the root, as a switch that was
    /// just set up does.
    pub open spec fn is_fresh(self) -> bool {
        forall|i: int| 0 <= i < self.switches.len() ==> (#[trigger] self.switches[i]).is_root()
    }

    /// Whether word from switch `from` gets to switch `to` over at most
    /// `hops` cables.
    pub open spec fn reaches(self, from: int, to: int, hops: nat) -> bool
        decreases hops,
    {
        if hops == 0 {
            to == from
        } else {
            self.reaches(from, to, (hops - 1) as nat) || exists|end: End| #[trigger]
                self.cables.contains_key(end) && end.switch == to && self.reaches(
                    from,
                    self.cables[end].switch,
                    (hops - 1) as nat,
                )
        }
    }

    /// Whether `step` can happen: a port hears only over a cable, and only
    /// an announcement that it can take in.
    pub open spec fn allows(self, step: Step) -> bool {
        match step {
            Step::Hear(end) => self.cables.contains_key(end)
                && !self.switches[end.switch].over_hop_limit(
                self.switches[self.cables[end].switch].curr_bpdu,
            ),
            Step::Tick(switch, now) => 0 <= switch < self.switches.len(),
            Step::Data(end, src_mac) => self.has_port(end),
        }
    }

    /// The network after `step`.
    pub open spec fn step(self, step: Step) -> Network {
        match step {
            Step::Hear(end) => {
                let sender = self.switches[self.cables[end].switch];
                Network {
                    switches: self.switches.update(
                        end.switch,
                        self.switches[end.switch].on_bpdu(
                            end.port,
                            sender.curr_bpdu,
                            sender.switch_id,
                        ),
                    ),
                    ..self
                }
            },
            Step::Tick(switch, now) => Network {
                switches: self.switches.update(switch, self.switches[switch].tick(now)),
                ..self
            },
            Step::Data(end, src_mac) => Network {
                switches: self.switches.update(
                    end.switch,
                    self.switches[end.switch].on_data(end.port, src_mac),
                ),
                ..self
            },
        }
    }

    /// Whether the steps can happen one after the other.
    pub open spec fn allows_all(self, steps: Seq<Step>) -> bool
        decreases steps.len(),
    {
        steps.len() == 0 || (self.allows(steps[0]) && self.step(steps[0]).allows_all(
            steps.drop_first(),
        ))
    }

    /// The network after the steps have happened one after the other.
    pub open spec fn run(self, steps: Seq<Step>) -> Network
        decreases steps.len(),
    {
        if steps.len() == 0 {
            self
        } else {
            self.step(steps[0]).run(steps.drop_first())
        }
    }

    /// Whether `steps` is a full round: every cabled port hears its
    /// neighbour at least once.
    pub open spec fn is_round(self, steps: Seq<Step>) -> bool {
        forall|end: End| #[trigger]
            self.cables.contains_key(end) ==> steps.contains(Step::Hear(end))
    }

    /// Whether the rounds are full and can happen one after the other.
    pub open spec fn allows_rounds(self, rounds: Seq<Seq<Step>>) -> bool
        decreases rounds.len(),
    {
        rounds.len() == 0 || {
            let before = self.run_rounds(rounds.drop_last());
            &&& self.allows_rounds(rounds.drop_last())
            &&& before.is_round(rounds.last())
            &&& before.allows_all(rounds.last())
        }
    }

    /// The network after the rounds have happened one after the other.
    pub open spec fn run_rounds(self, rounds: Seq<Seq<Step>>) -> Network
        decreases rounds.len(),
    {
        if rounds.len() == 0 {
            self
        } else {
            self.run_rounds(rounds.drop_last()).run(rounds.last())
        }
    }

    /// Whether port `port` of switch `i` has a cable, and the neighbour it
    /// hears there offers a path that is no worse than the one that the
    /// switch holds: a smaller root, or the same root at no more than the
    /// cost held once the hop is counted.
    pub open spec fn hears_its_upstream(self, i: int, port: int) -> bool {
        let end = End { switch: i, port: port as usize };
        let offered = self.switches[self.cables[end].switch].curr_bpdu;
        let held = self.switches[i].curr_bpdu;
        &&& self.cables.contains_key(end)
        &&& (offered.root_id.spec_lt(held.root_id) || (offered.root_id == held.root_id
            && offered.root_cost + 1 <= held.root_cost))
    }

    /// Whether switch `i` has its root port, and hears its upstream there.
    pub open spec fn rooted_at(self, i: int) -> bool {
        &&& self.switches[i].has_its_root_port()
        &&& forall|port: int| #[trigger]
            self.switches[i].is_root_port(port) ==> self.hears_its_upstream(i, port)
    }

    /// Whether every switch has its root port and hears its upstream there.
    pub open spec fn rooted(self) -> bool {
        forall|i: int| 0 <= i < self.switches.len() ==> #[trigger] self.rooted_at(i)
    }

    /// Whether switch `i` holds `id` as its root.
    pub open spec fn agrees_on(self, i: int, id: MacAddr) -> bool {
        0 <= i < self.switches.len() && self.switches[i].curr_bpdu.root_id == id
    }
}

/// A fresh network holds no root below its least identifier.
pub proof fn lemma_fresh_network(net: Network, least: int)
    requires
        net.is_least(least),
        net.is_fresh(),
    ensures
        net.no_root_below(net.switches[least].switch_id),
{
}

/// A fresh network in order is rooted: no switch has or needs a root port.
pub proof fn lemma_fresh_network_rooted(net: Network)
    requires
        net.wf(),
        net.is_fresh(),
    ensures
        net.rooted(),
{
    assert forall|i: int| 0 <= i < net.switches.len() implies #[trigger] net.rooted_at(i) by {
    }
}

/// One step keeps a rooted network rooted: every switch keeps exactly one
/// root port unless it is the root, and the neighbour behind a root port
/// always offers a path no worse than the one held. An announcement from
/// further downstream, the one input that could take a port out of the root
/// state, never arrives on a root port.
pub proof fn lemma_step_rooted(net: Network, step: Step)
    requires
        net.wf(),
        net.allows(step),
        net.rooted(),
    ensures
        net.step(step).rooted(),
{
    let after = net.step(step);
    match step {
        Step::Hear(end) => {
            let from = net.cables[end];
            let sender = net.switches[from.switch];
            let hearer = net.switches[end.switch];
            let heard = hearer.on_bpdu(end.port, sender.curr_bpdu, sender.switch_id);
            assert(net.rooted_at(end.switch));
            lemma_lt_strict_total(
                sender.curr_bpdu.root_id,
                hearer.curr_bpdu.root_id,
                sender.curr_bpdu.root_id,
            );
            let verdict = hearer.curr_bpdu.spec_judge(sender.curr_bpdu);
            if verdict == Verdict::BetterRoot || verdict == Verdict::ShorterPath {
                // The port that heard is the one root port, and the sender,
                // another switch, holds the record just taken over.
                lemma_reset_root_inv(hearer, end.port, sender.curr_bpdu, sender.switch_id);
                assert forall|port: int| #[trigger]
                    heard.is_root_port(port) implies after.hears_its_upstream(end.switch, port) by {}
            } else {
                // The record held stays; a root port cannot have heard from
                // further downstream, so the root port stays too.
                lemma_on_bpdu_keeps_root_port(
                    hearer,
                    end.port,
                    sender.curr_bpdu,
                    sender.switch_id,
                );
                assert forall|port: int| #[trigger]
                    heard.is_root_port(port) implies after.hears_its_upstream(end.switch, port) by {
                    assert(hearer.is_root_port(port));
                }
            }
            assert forall|i: int| 0 <= i < after.switches.len() implies #[trigger] after.rooted_at(
                i,
            ) by {
                if i != end.switch {
                    // Where the upstream of `i` is the switch that heard,
                    // its offer has not got worse.
                    assert(net.rooted_at(i));
                    assert forall|port: int| #[trigger]
                        after.switches[i].is_root_port(port) implies after.hears_its_upstream(
                        i,
                        port,
                    ) by {
                        lemma_lt_strict_total(
                            heard.curr_bpdu.root_id,
                            hearer.curr_bpdu.root_id,
                            net.switches[i].curr_bpdu.root_id,
                        );
                    }
                }
            }
        },
        Step::Tick(switch, now) => {
            lemma_tick_inv(net.switches[switch], now);
            assert forall|i: int| 0 <= i < after.switches.len() implies #[trigger] after.rooted_at(
                i,
            ) by {
                assert(net.rooted_at(i));
                assert forall|port: int| #[trigger]
                    after.switches[i].is_root_port(port) implies after.hears_its_upstream(
                    i,
                    port,
                ) by {}
            }
        },
        Step::Data(end, src_mac) => {
            lemma_on_data_inv(net.switches[end.switch], end.port, src_mac);
            assert forall|i: int| 0 <= i < after.switches.len() implies #[trigger] after.rooted_at(
                i,
            ) by {
                assert(net.rooted_at(i));
                assert forall|port: int| #[trigger]
                    after.switches[i].is_root_port(port) implies after.hears_its_upstream(
                    i,
                    port,
                ) by {
                    assert(net.hears_its_upstream(i, port));
                }
            }
        },
    }
}

/// One step keeps the network in order and its cables, identifiers and port
/// counts as they are; no switch's root gets worse, none gets below the
/// least identifier, and a port that hears its neighbour ends up with a root
/// at least as good as the neighbour's.
pub proof fn lemma_step(net: Network, step: Step, least: int)
    requires
        net.wf(),
        net.is_least(least),
        net.no_root_below(net.switches[least].switch_id),
        net.allows(step),
    ensures
        net.step(step).wf(),
        net.step(step).cables == net.cables,
        net.step(step).switches.len() == net.switches.len(),
        net.step(step).is_least(least),
        forall|i: int|
            0 <= i < net.switches.len() ==> (#[trigger] net.step(step).switches[i]).switch_id
                == net.switches[i].switch_id,
        net.step(step).no_root_below(net.switches[least].switch_id),
        forall|i: int|
            net.agrees_on(i, net.switches[least].switch_id) ==> net.step(step).agrees_on(
                i,
                net.switches[least].switch_id,
            ),
        step matches Step::Hear(end) ==> (net.agrees_on(
            net.cables[end].switch,
            net.switches[least].switch_id,
        ) ==> net.step(step).agrees_on(end.switch, net.switches[least].switch_id)),
        net.rooted() ==> net.step(step).rooted(),
{
    let id = net.switches[least].switch_id;
    let after = net.step(step);
    if net.rooted() {
        lemma_step_rooted(net, step);
    }
    match step {
        Step::Hear(end) => {
            let sender = net.switches[net.cables[end].switch];
            let hearer = net.switches[end.switch];
            lemma_on_bpdu_inv(hearer, end.port, sender.curr_bpdu, sender.switch_id);
            assert forall|i: int| 0 <= i < after.switches.len() implies (
            #[trigger] after.switches[i]).inv() && after.switches[i].switch_id
                == net.switches[i].switch_id && after.switches[i].ports.len()
                == net.switches[i].ports.len() && id.spec_le(after.switches[i].curr_bpdu.root_id)
                && (net.switches[i].curr_bpdu.root_id == id ==> after.switches[i].curr_bpdu.root_id
                == id) by {}
        },
        Step::Tick(switch, now) => {
            lemma_tick_inv(net.switches[switch], now);
            assert forall|i: int| 0 <= i < after.switches.len() implies (
            #[trigger] after.switches[i]).inv() && after.switches[i].switch_id
                == net.switches[i].switch_id && after.switches[i].ports.len()
                == net.switches[i].ports.len() && after.switches[i].curr_bpdu
                == net.switches[i].curr_bpdu by {}
        },
        Step::Data(end, src_mac) => {
            lemma_on_data_inv(net.switches[end.switch], end.port, src_mac);
            assert forall|i: int| 0 <= i < after.switches.len() implies (
            #[trigger] after.switches[i]).inv() && after.switches[i].switch_id
                == net.switches[i].switch_id && after.switches[i].ports.len()
                == net.switches[i].ports.len() && after.switches[i].curr_bpdu
                == net.switches[i].curr_bpdu by {}
        },
    }
    assert forall|end: End| #[trigger] after.cables.contains_key(end) implies after.has_port(end)
        && after.has_port(after.cables[end]) by {}
}

/// Any run of steps keeps what one step keeps. If one of the steps lets a
/// port hear a neighbour that agreed on the least identifier from the
/// start, the hearing switch agrees on it in the end.
pub proof fn lemma_run(net: Network, steps: Seq<Step>, least: int)
    requires
        net.wf(),
        net.is_least(least),
        net.no_root_below(net.switches[least].switch_id),
        net.allows_all(steps),
    ensures
        net.run(steps).wf(),
        net.run(steps).cables == net.cables,
        net.run(steps).switches.len() == net.switches.len(),
        net.run(steps).is_least(least),
        forall|i: int|
            0 <= i < net.switches.len() ==> (#[trigger] net.run(steps).switches[i]).switch_id
                == net.switches[i].switch_id,
        net.run(steps).no_root_below(net.switches[least].switch_id),
        forall|i: int|
            net.agrees_on(i, net.switches[least].switch_id) ==> net.run(steps).agrees_on(
                i,
                net.switches[least].switch_id,
            ),
        forall|end: End|
            steps.contains(Step::Hear(end)) && net.agrees_on(
                net.cables[end].switch,
                net.switches[least].switch_id,
            ) ==> #[trigger] net.run(steps).agrees_on(end.switch, net.switches[least].switch_id),
        net.rooted() ==> net.run(steps).rooted(),
    decreases steps.len(),
{
    let id = net.switches[least].switch_id;
    if steps.len() > 0 {
        let next = net.step(steps[0]);
        let rest = steps.drop_first();
        lemma_step(net, steps[0], least);
        lemma_run(next, rest, least);
        assert forall|end: End|
            steps.contains(Step::Hear(end)) && net.agrees_on(
                net.cables[end].switch,
                id,
            ) implies #[trigger] net.run(steps).agrees_on(end.switch, id) by {
            // The step is the first one, or it is among the rest.
            let at = choose|at: int| 0 <= at < steps.len() && steps[at] == Step::Hear(end);
            if at > 0 {
                assert(rest[at - 1] == steps[at]);
            }
        }
    }
}

/// Root election: in a network in which no switch holds a root below the
/// least identifier, as in a fresh one, every switch that word from the
/// least switch reaches over at most as many cables as there were full
/// rounds holds the least identifier as its root. What else happened in the
/// rounds, and in which order, plays no part.
pub proof fn lemma_root_election(net: Network, rounds: Seq<Seq<Step>>, least: int, i: int)
    requires
        net.wf(),
        net.is_least(least),
        net.no_root_below(net.switches[least].switch_id),
        net.allows_rounds(rounds),
        net.reaches(least, i, rounds.len()),
    ensures
        net.run_rounds(rounds).agrees_on(i, net.switches[least].switch_id),
    decreases rounds.len(),
{
    lemma_rounds(net, rounds, least);
}

/// Word that gets somewhere over some number of cables gets there over any
/// larger number too.
pub proof fn lemma_reaches_further(net: Network, from: int, to: int, hops: nat, more: nat)
    requires
        net.reaches(from, to, hops),
        hops <= more,
    ensures
        net.reaches(from, to, more),
    decreases more,
{
    if hops < more {
        lemma_reaches_further(net, from, to, hops, (more - 1) as nat);
    }
}

/// In a network in which word from the least switch reaches every switch
/// over at most `hops` cables, `hops` full rounds or more bring all
/// switches to hold the least identifier as their root.
pub proof fn lemma_connected_network_agrees(
    net: Network,
    rounds: Seq<Seq<Step>>,
    least: int,
    hops: nat,
)
    requires
        net.wf(),
        net.is_least(least),
        net.no_root_below(net.switches[least].switch_id),
        net.allows_rounds(rounds),
        forall|i: int| 0 <= i < net.switches.len() ==> net.reaches(least, i, hops),
        hops <= rounds.len(),
    ensures
        forall|i: int|
            0 <= i < net.switches.len() ==> net.run_rounds(rounds).switches[i].curr_bpdu.root_id
                == net.switches[least].switch_id,
{
    lemma_rounds(net, rounds, least);
    assert forall|i: int| 0 <= i < net.switches.len() implies net.run_rounds(
        rounds,
    ).switches[i].curr_bpdu.root_id == net.switches[least].switch_id by {
        lemma_reaches_further(net, least, i, hops, rounds.len());
    }
}

/// After any number of full rounds the network is in order, the switches
/// within that many cables of the least one agree on its identifier, and no
/// switch holds a smaller root.
pub proof fn lemma_rounds(net: Network, rounds: Seq<Seq<Step>>, least: int)
    requires
        net.wf(),
        net.is_least(least),
        net.no_root_below(net.switches[least].switch_id),
        net.allows_rounds(rounds),
    ensures
        net.run_rounds(rounds).wf(),
        net.run_rounds(rounds).cables == net.cables,
        net.run_rounds(rounds).switches.len() == net.switches.len(),
        net.run_rounds(rounds).is_least(least),
        forall|i: int|
            0 <= i < net.switches.len() ==> (#[trigger] net.run_rounds(rounds).switches[i]).switch_id
                == net.switches[i].switch_id,
        net.run_rounds(rounds).no_root_below(net.switches[least].switch_id),
        forall|i: int|
            net.agrees_on(i, net.switches[least].switch_id) ==> net.run_rounds(rounds).agrees_on(
                i,
                net.switches[least].switch_id,
            ),
        forall|i: int| #[trigger]
            net.reaches(least, i, rounds.len()) ==> net.run_rounds(rounds).agrees_on(
                i,
                net.switches[least].switch_id,
            ),
        net.rooted() ==> net.run_rounds(rounds).rooted(),
    decreases rounds.len(),
{
    let id = net.switches[least].switch_id;
    if rounds.len() > 0 {
        // The claim for one hop less holds before the last round, which
        // spreads it over one more cable.
        let before = rounds.drop_last();
        lemma_rounds(net, before, least);
        lemma_run(net.run_rounds(before), rounds.last(), least);
        assert forall|i: int| #[trigger]
            net.reaches(least, i, rounds.len()) implies net.run_rounds(rounds).agrees_on(
            i,
            id,
        ) by {
            if !net.reaches(least, i, before.len()) {
                // Word gets to `i` over a cable from a switch that is one
                // hop nearer; the last round lets `i` hear it.
                let end = choose|end: End| #[trigger]
                    net.cables.contains_key(end) && end.switch == i && net.reaches(
                        least,
                        net.cables[end].switch,
                        before.len(),
                    );
                assert(rounds.last().contains(Step::Hear(end)));
            }
        }
    }
}

/// The root ports of a rooted network whose switches agree on the root make
/// up a tree that spans it: the one switch with the least identifier is the
/// root, at no cost and with no root port, and every other switch has
/// exactly one root port, behind which it hears a neighbour that is
/// strictly nearer to the root.
pub proof fn lemma_root_ports_span(net: Network, least: int, i: int)
    requires
        net.wf(),
        net.rooted(),
        net.is_least(least),
        0 <= i < net.switches.len(),
        forall|j: int|
            0 <= j < net.switches.len() ==> (#[trigger] net.switches[j]).curr_bpdu.root_id
                == net.switches[least].switch_id,
        forall|j: int|
            0 <= j < net.switches.len() && j != least ==> (#[trigger] net.switches[j]).switch_id
                != net.switches[least].switch_id,
    ensures
        i == least ==> net.switches[i].curr_bpdu.root_cost == 0 && forall|port: int|
            !net.switches[i].is_root_port(port),
        i != least ==> exists|port: int| #[trigger]
            net.switches[i].is_root_port(port) && {
                let up = net.cables[End { switch: i, port: port as usize }];
                &&& forall|other: int| net.switches[i].is_root_port(other) ==> other == port
                &&& net.cables.contains_key(End { switch: i, port: port as usize })
                &&& 0 <= up.switch < net.switches.len()
                &&& net.switches[up.switch].curr_bpdu.root_cost
                    < net.switches[i].curr_bpdu.root_cost
            },
{
    assert(net.rooted_at(i));
    if i != least {
        // The neighbour behind the root port holds the same root, so its
        // offer is no worse only if it is nearer.
        let port = choose|port: int| #[trigger]
            net.switches[i].is_root_port(port) && forall|other: int|
                net.switches[i].is_root_port(other) ==> other == port;
        let end = End { switch: i, port: port as usize };
        lemma_lt_strict_total(
            net.switches[net.cables[end].switch].curr_bpdu.root_id,
            net.switches[i].curr_bpdu.root_id,
            net.switches[i].curr_bpdu.root_id,
        );
    }
}

/// From a fresh network to a spanning tree: in a network of freshly set up
/// switches with one least identifier, in which word from the least switch
/// reaches every switch over at most `hops` cables, `hops` full rounds or
/// more leave every switch with the least identifier as its root and the
/// root ports as a tree that spans the network.
pub proof fn lemma_fresh_network_converges(
    net: Network,
    rounds: Seq<Seq<Step>>,
    least: int,
    hops: nat,
    i: int,
)
    requires
        net.wf(),
        net.is_fresh(),
        net.is_least(least),
        forall|j: int|
            0 <= j < net.switches.len() && j != least ==> (#[trigger] net.switches[j]).switch_id
                != net.switches[least].switch_id,
        forall|j: int| 0 <= j < net.switches.len() ==> net.reaches(least, j, hops),
        hops <= rounds.len(),
        net.allows_rounds(rounds),
        0 <= i < net.switches.len(),
    ensures
        ({
            let end = net.run_rounds(rounds);
            &&& end.switches.len() == net.switches.len()
            &&& end.cables == net.cables
            &&& end.switches[i].curr_bpdu.root_id == net.switches[least].switch_id
            &&& i == least ==> end.switches[i].curr_bpdu.root_cost == 0 && forall|port: int|
                !end.switches[i].is_root_port(port)
            &&& i != least ==> exists|port: int| #[trigger]
                end.switches[i].is_root_port(port) && {
                    let up = end.cables[End { switch: i, port: port as usize }];
                    &&& forall|other: int| end.switches[i].is_root_port(other) ==> other == port
                    &&& end.cables.contains_key(End { switch: i, port: port as usize })
                    &&& 0 <= up.switch < end.switches.len()
                    &&& end.switches[up.switch].curr_bpdu.root_cost
                        < end.switches[i].curr_bpdu.root_cost
                }
        }),
{
    lemma_rounds(net, rounds, least);
    lemma_connected_network_agrees(net, rounds, least, hops);
    lemma_root_ports_span(net.run_rounds(rounds), least, i);
}

} // verus!
