//! The forwarding table: which port leads to which host.

use crate::stp::mac::{lemma_lt_is_numeric, MacAddr};
use std::collections::HashMap;
use vstd::prelude::*;

verus! {

broadcast use vstd::std_specs::hash::group_hash_axioms;

/// A map from hardware addresses to port numbers. An address has at most
/// one port; entries are never removed.
pub struct FwdTable {
    entries: HashMap<u64, usize>,
}

impl View for FwdTable {
    type V = Map<MacAddr, usize>;

    closed spec fn view(&self) -> Map<MacAddr, usize> {
        Map::new(
            |mac: MacAddr| self.entries@.contains_key(mac.value() as u64),
            |mac: MacAddr| self.entries@[mac.value() as u64],
        )
    }
}

impl FwdTable {
    /// The empty table.
    pub fn new() -> (table: FwdTable)
        ensures
            table@ == Map::<MacAddr, usize>::empty(),
    {
        FwdTable { entries: HashMap::new() }
    }

    /// Records that `mac` was seen behind `port`, in place of what was
    /// known of `mac` before.
    pub fn learn(&mut self, mac: MacAddr, port: usize)
        ensures
            final(self)@ == old(self)@.insert(mac, port),
    {
        let key: u64 = mac.to_u64();
        self.entries.insert(key, port);
        proof {
            assert forall|other: MacAddr| other != mac implies other.value() as u64 != key by {
                lemma_lt_is_numeric(other, mac);
            }
        }
    }

    /// The port behind which `mac` was last seen, if it was seen at all.
    pub fn lookup(&self, mac: MacAddr) -> (port: Option<usize>)
        ensures
            port == (if self@.contains_key(mac) {
                Some(self@[mac])
            } else {
                None
            }),
    {
        let key: u64 = mac.to_u64();
        match self.entries.get(&key) {
            Some(port) => Some(*port),
            None => None,
        }
    }
}

} // verus!
