//! The announcement record that switches exchange, and its wire form.

use crate::stp::frame::{
    ethertype_of, mac_at, minimum_packet_size, set_destination, set_payload, set_source,
    HEADER_LEN,
};
use crate::stp::mac::MacAddr;
use vstd::prelude::*;

verus! {

/// Octets of an announcement record on the wire.
pub const RECORD_LEN: usize = 13;

/// Octets of an Ethernet frame that carries one announcement record.
pub const PACKET_LEN: usize = HEADER_LEN + RECORD_LEN;

/// A bridge protocol data unit: what one switch tells its neighbours about
/// the root it knows.
///
/// This is a small subset of the standard's fields. On the wire the record
/// is the cost octet, then the six octets of the root's identifier, then the
/// six octets of the announcing bridge's identifier.
#[derive(Clone, Copy, Debug, PartialEq, Eq, Structural)]
pub struct Bpdu {
    /// Hops from the announcing switch to the root.
    pub root_cost: u8,
    /// Identifier of the switch taken to be the root.
    pub root_id: MacAddr,
    /// Identifier of the switch through which the announcer reaches the root.
    pub bridge_id: MacAddr,
}

/// How a neighbour's announcement stands against what a switch holds.
#[derive(Clone, Copy, Debug, PartialEq, Eq, Structural)]
pub enum Verdict {
    /// The neighbour knows a root with a smaller identifier.
    BetterRoot,
    /// The neighbour's root has a larger identifier than the one held.
    WorseRoot,
    /// Same root, and the path through the neighbour is shorter than the
    /// one held.
    ShorterPath,
    /// Same root, and the path through the neighbour is as long as the one
    /// held.
    TiedPath,
    /// Same root, and the path through the neighbour is longer than the one
    /// held: the neighbour is further from the root.
    Downstream,
}

/// The buffer in which announcement frames are built. Every such frame has
/// the same size and they are sent one at a time, so one allocation serves
/// them all.
pub struct BpduBuf(pub Vec<u8>);

impl Bpdu {
    /// The reserved group address `01:80:c2:00:00:00`, to which announcements
    /// are sent.
    pub open spec fn spec_bpdu_mac() -> MacAddr {
        MacAddr(0x01, 0x80, 0xc2, 0x00, 0x00, 0x00)
    }

    /// The reserved group address `01:80:c2:00:00:00`, to which announcements
    /// are sent.
    #[verifier::when_used_as_spec(spec_bpdu_mac)]
    pub fn bpdu_mac() -> (mac: MacAddr)
        ensures
            mac == Bpdu::spec_bpdu_mac(),
    {
        MacAddr(0x01, 0x80, 0xc2, 0x00, 0x00, 0x00)
    }

    /// The record as it stands on the wire.
    pub open spec fn record(self) -> Seq<u8> {
        seq![self.root_cost] + self.root_id@ + self.bridge_id@
    }

    /// The record that thirteen octets of the wire stand for.
    pub open spec fn from_record(bytes: Seq<u8>) -> Bpdu {
        Bpdu { root_cost: bytes[0], root_id: mac_at(bytes, 1), bridge_id: mac_at(bytes, 7) }
    }

    /// The announcement frame for this record, sent from `src_mac`, with the
    /// given two EtherType octets.
    pub open spec fn packet(self, src_mac: MacAddr, ethertype: Seq<u8>) -> Seq<u8> {
        Bpdu::bpdu_mac()@ + src_mac@ + ethertype + self.record()
    }

    /// The record that a received frame carries: a frame addressed to the
    /// announcement group carries one, any other frame none.
    pub open spec fn carried_by(frame: Seq<u8>) -> Option<Bpdu> {
        if mac_at(frame, 0) == Bpdu::bpdu_mac() {
            Some(Bpdu::from_record(frame.subrange(HEADER_LEN as int, frame.len() as int)))
        } else {
            None
        }
    }

    /// The order in which paths to a root are preferred: the smaller root
    /// identifier first and, for one root, the smaller cost.
    pub open spec fn preferred(root_a: MacAddr, cost_a: int, root_b: MacAddr, cost_b: int) -> bool {
        root_a.spec_lt(root_b) || (root_a == root_b && cost_a < cost_b)
    }

    /// Whether this record is strictly preferred to `other`: smaller root
    /// identifier or, for one root, smaller cost.
    pub open spec fn spec_lt(self, other: Bpdu) -> bool {
        Bpdu::preferred(
            self.root_id,
            self.root_cost as int,
            other.root_id,
            other.root_cost as int,
        )
    }

    /// How the announcement `neighbor` stands against `self`, the record
    /// that the receiving switch holds. A path through the neighbour costs
    /// one hop more than the neighbour's own.
    pub open spec fn spec_judge(self, neighbor: Bpdu) -> Verdict {
        if neighbor.root_id.spec_lt(self.root_id) {
            Verdict::BetterRoot
        } else if self.root_id.spec_lt(neighbor.root_id) {
            Verdict::WorseRoot
        } else if neighbor.root_cost + 1 < self.root_cost {
            Verdict::ShorterPath
        } else if neighbor.root_cost + 1 == self.root_cost {
            Verdict::TiedPath
        } else {
            Verdict::Downstream
        }
    }

    /// Builds a record from its three fields.
    pub fn new(root_cost: u8, root_id: MacAddr, bridge_id: MacAddr) -> (bpdu: Bpdu)
        ensures
            bpdu == (Bpdu { root_cost, root_id, bridge_id }),
    {
        Bpdu { root_cost, root_id, bridge_id }
    }

    /// A zeroed buffer of exactly the size of an announcement frame.
    pub fn make_buf() -> (buf: BpduBuf)
        ensures
            buf.0@ == Seq::new(PACKET_LEN as nat, |i: int| 0u8),
    {
        BpduBuf(vec![0u8; minimum_packet_size() + RECORD_LEN])
    }

    /// Hops to the root.
    #[inline]
    pub fn cost(&self) -> (cost: u8)
        ensures
            cost == self.root_cost,
    {
        self.root_cost
    }

    /// Identifier of the root.
    #[inline]
    pub fn root_id(&self) -> (id: MacAddr)
        ensures
            id == self.root_id,
    {
        self.root_id
    }

    /// Identifier of the announcer's upstream bridge.
    #[inline]
    pub fn bridge_id(&self) -> (id: MacAddr)
        ensures
            id == self.bridge_id,
    {
        self.bridge_id
    }

    /// Whether this record is strictly preferred to `other`.
    pub fn lt(&self, other: &Bpdu) -> (r: bool)
        ensures
            r == self.spec_lt(*other),
    {
        self.root_id.lt(&other.root_id) || (self.root_id == other.root_id && self.root_cost
            < other.root_cost)
    }

    /// How the announcement `neighbor` stands against `self`, the record
    /// that the receiving switch holds.
    pub fn judge(&self, neighbor: &Bpdu) -> (verdict: Verdict)
        ensures
            verdict == self.spec_judge(*neighbor),
    {
        if neighbor.root_id.lt(&self.root_id) {
            Verdict::BetterRoot
        } else if self.root_id.lt(&neighbor.root_id) {
            Verdict::WorseRoot
        } else {
            let offered: u16 = neighbor.root_cost as u16 + 1;
            let held: u16 = self.root_cost as u16;
            if offered < held {
                Verdict::ShorterPath
            } else if offered == held {
                Verdict::TiedPath
            } else {
                Verdict::Downstream
            }
        }
    }

    /// The thirteen octets of the record in wire order.
    pub fn to_bytes(&self) -> (out: [u8; 13])
        ensures
            out@ == self.record(),
    {
        let out: [u8; 13] = [
            self.root_cost,
            self.root_id.0,
            self.root_id.1,
            self.root_id.2,
            self.root_id.3,
            self.root_id.4,
            self.root_id.5,
            self.bridge_id.0,
            self.bridge_id.1,
            self.bridge_id.2,
            self.bridge_id.3,
            self.bridge_id.4,
            self.bridge_id.5,
        ];
        out
    }

    /// Reads a record back from its thirteen octets.
    pub fn from_bytes(bytes: &[u8]) -> (bpdu: Bpdu)
        requires
            bytes@.len() == RECORD_LEN,
        ensures
            bpdu == Bpdu::from_record(bytes@),
    {
        Bpdu {
            root_cost: bytes[0],
            root_id: MacAddr(bytes[1], bytes[2], bytes[3], bytes[4], bytes[5], bytes[6]),
            bridge_id: MacAddr(bytes[7], bytes[8], bytes[9], bytes[10], bytes[11], bytes[12]),
        }
    }

    /// Writes the announcement frame for this record into `bpdu_buf`:
    /// destination the announcement group, source `src_mac`, payload the
    /// record. The EtherType octets of the buffer are left as they are.
    pub fn make_packet(&self, bpdu_buf: &mut BpduBuf, src_mac: MacAddr)
        requires
            old(bpdu_buf).0@.len() == PACKET_LEN,
        ensures
            final(bpdu_buf).0@ == self.packet(src_mac, ethertype_of(old(bpdu_buf).0@)),
    {
        let record = self.to_bytes();
        set_payload(&mut bpdu_buf.0, record.as_slice());
        set_source(&mut bpdu_buf.0, src_mac);
        set_destination(&mut bpdu_buf.0, Bpdu::bpdu_mac());
    }
}

/// Decoding undoes encoding: the frame built for a record carries that record,
/// whatever the source address and the EtherType octets.
pub proof fn lemma_packet_round_trip(bpdu: Bpdu, src_mac: MacAddr, ethertype: Seq<u8>)
    requires
        ethertype.len() == 2,
    ensures
        bpdu.packet(src_mac, ethertype).len() == PACKET_LEN,
        Bpdu::carried_by(bpdu.packet(src_mac, ethertype)) == Some(bpdu),
        Bpdu::from_record(bpdu.record()) == bpdu,
{
}

/// The preference order is a strict total order on pairs of root identifier
/// and cost: nothing is preferred to itself, of two different pairs exactly
/// one is preferred to the other, and preference is transitive.
pub proof fn lemma_preferred_strict_total(
    root_a: MacAddr,
    cost_a: int,
    root_b: MacAddr,
    cost_b: int,
    root_c: MacAddr,
    cost_c: int,
)
    ensures
        !Bpdu::preferred(root_a, cost_a, root_a, cost_a),
        Bpdu::preferred(root_a, cost_a, root_b, cost_b) ==> !Bpdu::preferred(
            root_b,
            cost_b,
            root_a,
            cost_a,
        ),
        (root_a != root_b || cost_a != cost_b) ==> (Bpdu::preferred(root_a, cost_a, root_b, cost_b)
            || Bpdu::preferred(root_b, cost_b, root_a, cost_a)),
        Bpdu::preferred(root_a, cost_a, root_b, cost_b) && Bpdu::preferred(
            root_b,
            cost_b,
            root_c,
            cost_c,
        ) ==> Bpdu::preferred(root_a, cost_a, root_c, cost_c),
{
}

/// The verdicts split all pairs of records three ways along the preference
/// order, taken between the path through the neighbour (its root, its cost
/// and one hop) and the path held: the neighbour's path is preferred
/// (`BetterRoot`, `ShorterPath`), the two are level (`TiedPath`), or the
/// path held is preferred (`WorseRoot`, `Downstream`).
pub proof fn lemma_judge_partitions(held: Bpdu, neighbor: Bpdu)
    ensures
        (held.spec_judge(neighbor) == Verdict::BetterRoot || held.spec_judge(neighbor)
            == Verdict::ShorterPath) <==> Bpdu::preferred(
            neighbor.root_id,
            neighbor.root_cost + 1,
            held.root_id,
            held.root_cost as int,
        ),
        held.spec_judge(neighbor) == Verdict::TiedPath <==> (neighbor.root_id == held.root_id
            && neighbor.root_cost + 1 == held.root_cost),
        (held.spec_judge(neighbor) == Verdict::WorseRoot || held.spec_judge(neighbor)
            == Verdict::Downstream) <==> Bpdu::preferred(
            held.root_id,
            held.root_cost as int,
            neighbor.root_id,
            neighbor.root_cost + 1,
        ),
        held.spec_judge(neighbor) == Verdict::BetterRoot <==> neighbor.root_id.spec_lt(
            held.root_id,
        ),
        held.spec_judge(neighbor) == Verdict::WorseRoot <==> held.root_id.spec_lt(
            neighbor.root_id,
        ),
{
}

} // verus!
