//! Ethernet hardware addresses and their order.

use vstd::prelude::*;

verus! {

/// A 48-bit Ethernet hardware address, first transmitted octet first.
#[derive(Clone, Copy, Debug, PartialEq, Eq, Hash, Structural)]
pub struct MacAddr(pub u8, pub u8, pub u8, pub u8, pub u8, pub u8);

impl View for MacAddr {
    type V = Seq<u8>;

    /// The six octets in transmission order.
    open spec fn view(&self) -> Seq<u8> {
        seq![self.0, self.1, self.2, self.3, self.4, self.5]
    }
}

impl MacAddr {
    /// The address read as one big-endian number.
    pub open spec fn value(self) -> nat {
        (self.0 as nat) * 0x100_0000_0000 + (self.1 as nat) * 0x1_0000_0000 + (self.2 as nat)
            * 0x100_0000 + (self.3 as nat) * 0x1_0000 + (self.4 as nat) * 0x100 + (self.5 as nat)
    }

    /// Strict lexicographic order on the octets: the first octet in which the
    /// two addresses differ decides.
    pub open spec fn spec_lt(self, other: MacAddr) -> bool {
        self.0 < other.0 || (self.0 == other.0 && (self.1 < other.1 || (self.1 == other.1 && (
        self.2 < other.2 || (self.2 == other.2 && (self.3 < other.3 || (self.3 == other.3 && (
        self.4 < other.4 || (self.4 == other.4 && self.5 < other.5)))))))))
    }

    /// Non-strict companion of [`MacAddr::spec_lt`].
    pub open spec fn spec_le(self, other: MacAddr) -> bool {
        self == other || self.spec_lt(other)
    }

    /// The address all of whose bits are set.
    pub open spec fn spec_broadcast() -> MacAddr {
        MacAddr(0xff, 0xff, 0xff, 0xff, 0xff, 0xff)
    }

    /// The smaller of two addresses.
    pub open spec fn spec_min(self, other: MacAddr) -> MacAddr {
        if other.spec_lt(self) {
            other
        } else {
            self
        }
    }

    /// Builds an address from its six octets.
    pub fn new(a: u8, b: u8, c: u8, d: u8, e: u8, f: u8) -> (mac: MacAddr)
        ensures
            mac == MacAddr(a, b, c, d, e, f),
    {
        MacAddr(a, b, c, d, e, f)
    }

    /// The broadcast address `ff:ff:ff:ff:ff:ff`.
    pub fn broadcast() -> (mac: MacAddr)
        ensures
            mac == MacAddr::spec_broadcast(),
    {
        MacAddr(0xff, 0xff, 0xff, 0xff, 0xff, 0xff)
    }

    /// The six octets that make up the address.
    pub fn octets(&self) -> (out: [u8; 6])
        ensures
            out@ == self@,
    {
        let out: [u8; 6] = [self.0, self.1, self.2, self.3, self.4, self.5];
        out
    }

    /// The address made of the given octets.
    pub fn from_octets(octets: [u8; 6]) -> (mac: MacAddr)
        ensures
            mac@ == octets@,
    {
        let mac = MacAddr(octets[0], octets[1], octets[2], octets[3], octets[4], octets[5]);
        mac
    }

    /// The address as a number below 2^48, equal for equal addresses only.
    pub fn to_u64(&self) -> (v: u64)
        ensures
            v == self.value(),
    {
        let hi: u64 = (self.0 as u64) * 0x1_0000 + (self.1 as u64) * 0x100 + (self.2 as u64);
        let lo: u64 = (self.3 as u64) * 0x1_0000 + (self.4 as u64) * 0x100 + (self.5 as u64);
        hi * 0x100_0000 + lo
    }

    /// Whether `self` comes strictly before `other`.
    pub fn lt(&self, other: &MacAddr) -> (r: bool)
        ensures
            r == self.spec_lt(*other),
    {
        if self.0 != other.0 {
            self.0 < other.0
        } else if self.1 != other.1 {
            self.1 < other.1
        } else if self.2 != other.2 {
            self.2 < other.2
        } else if self.3 != other.3 {
            self.3 < other.3
        } else if self.4 != other.4 {
            self.4 < other.4
        } else {
            self.5 < other.5
        }
    }

    /// The smaller of the two addresses.
    pub fn min(self, other: MacAddr) -> (m: MacAddr)
        ensures
            m == self.spec_min(other),
    {
        if other.lt(&self) {
            other
        } else {
            self
        }
    }
}

/// The order is the lexicographic one: `a` precedes `b` exactly when some
/// octet of `a` is smaller than that of `b` and all octets before it agree.
pub proof fn lemma_lt_is_lexicographic(a: MacAddr, b: MacAddr)
    ensures
        a.spec_lt(b) <==> exists|i: int|
            0 <= i < 6 && #[trigger] a@[i] < b@[i] && forall|j: int|
                0 <= j < i ==> #[trigger] a@[j] == b@[j],
{
    if a.spec_lt(b) {
        let i: int = if a.0 != b.0 {
            0
        } else if a.1 != b.1 {
            1
        } else if a.2 != b.2 {
            2
        } else if a.3 != b.3 {
            3
        } else if a.4 != b.4 {
            4
        } else {
            5
        };
        assert(a@[i] < b@[i]);
    }
}

/// The order is the numeric one on the big-endian values, and equal values
/// belong to equal addresses.
pub proof fn lemma_lt_is_numeric(a: MacAddr, b: MacAddr)
    ensures
        a.spec_lt(b) <==> a.value() < b.value(),
        a == b <==> a.value() == b.value(),
        a.value() < 0x1_0000_0000_0000,
{
}

/// The order is strict and total: no address precedes itself, of two
/// different addresses exactly one precedes the other, and the order is
/// transitive.
pub proof fn lemma_lt_strict_total(a: MacAddr, b: MacAddr, c: MacAddr)
    ensures
        !a.spec_lt(a),
        a != b ==> (a.spec_lt(b) <==> !b.spec_lt(a)),
        a.spec_lt(b) ==> !b.spec_lt(a),
        a.spec_lt(b) && b.spec_lt(c) ==> a.spec_lt(c),
{
}

} // verus!
