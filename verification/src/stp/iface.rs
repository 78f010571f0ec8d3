//! Which network interfaces belong to a switch.
//!
//! The interfaces of the switch called `br7` are those whose names hold
//! `br7-eth`: `br7-eth0`, `br7-eth1` and so on.

use vstd::prelude::*;
use vstd::string::*;

verus! {

/// Whether `needle` stands somewhere in `haystack`, character for character.
pub open spec fn occurs_in(needle: Seq<char>, haystack: Seq<char>) -> bool {
    exists|at: int| #[trigger] occurs_at(needle, haystack, at)
}

/// Whether `needle` stands in `haystack` from position `at` on.
pub open spec fn occurs_at(needle: Seq<char>, haystack: Seq<char>, at: int) -> bool {
    0 <= at && at + needle.len() <= haystack.len() && haystack.subrange(at, at + needle.len())
        == needle
}

/// Whether the interface called `intf_name` belongs to the switch called
/// `switch_name`: its name holds the switch's name followed by `-eth`.
pub open spec fn spec_owns_interface(switch_name: Seq<char>, intf_name: Seq<char>) -> bool {
    occurs_in(switch_name + "-eth"@, intf_name)
}

/// Whether `needle` stands in `haystack` from position `at` on.
fn matches_at(haystack: &str, needle: &str, at: usize) -> (r: bool)
    requires
        at + needle@.len() <= haystack@.len(),
        haystack@.len() <= usize::MAX,
    ensures
        r == occurs_at(needle@, haystack@, at as int),
{
    let len: usize = needle.unicode_len();
    let mut i: usize = 0;
    while i < len
        invariant
            i <= len,
            len == needle@.len(),
            at + len <= haystack@.len() <= usize::MAX,
            forall|k: int| 0 <= k < i ==> haystack@[at + k] == needle@[k],
        decreases len - i,
    {
        if haystack.get_char(at + i) != needle.get_char(i) {
            return false;
        }
        i += 1;
    }
    assert(haystack@.subrange(at as int, at + len) =~= needle@);
    true
}

/// Whether `needle` stands somewhere in `haystack`.
pub fn contains(haystack: &str, needle: &str) -> (found: bool)
    ensures
        found == occurs_in(needle@, haystack@),
{
    let len: usize = needle.unicode_len();
    let total: usize = haystack.unicode_len();
    if len > total {
        return false;
    }
    if len == 0 {
        assert(haystack@.subrange(0, 0) =~= needle@);
        assert(occurs_at(needle@, haystack@, 0));
        return true;
    }
    let mut at: usize = 0;
    while at <= total - len
        invariant
            len == needle@.len(),
            total == haystack@.len(),
            0 < len <= total,
            at <= total - len + 1,
            forall|k: int| 0 <= k < at ==> !occurs_at(needle@, haystack@, k),
        decreases total - len + 1 - at,
    {
        if matches_at(haystack, needle, at) {
            return true;
        }
        at += 1;
    }
    false
}

/// Whether the interface called `intf_name` belongs to the switch called
/// `switch_name`.
pub fn owns_interface(switch_name: &str, intf_name: &str) -> (owns: bool)
    ensures
        owns == spec_owns_interface(switch_name@, intf_name@),
{
    let mn_name = String::from_str(switch_name).concat("-eth");
    contains(intf_name, mn_name.as_str())
}

} // verus!
