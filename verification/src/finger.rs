//! The finger table: m routing pointers, entry i responsible for the
//! identifier `(self_id + 2^i) mod R`.

use vstd::prelude::*;

use crate::chord;
use crate::node::OtherNode;

verus! {

/// One routing pointer: its fixed interval start and the peer currently
/// believed responsible for it.
pub struct FingerEntry {
    pub start: u64,
    pub node: OtherNode,
}

impl Clone for FingerEntry {
    fn clone(&self) -> (r: FingerEntry)
        ensures
            r == *self,
    {
        FingerEntry { start: self.start, node: self.node.clone() }
    }
}

/// Ordered table of exactly m routing pointers.  The `start` values are
/// fixed at construction; only the `node` pointers are ever replaced.
pub struct FingerTable {
    pub entries: Vec<FingerEntry>,
}

impl FingerTable {
    /// Well-formed for a node with identifier `self_id` on the `bits`-bit
    /// ring of size `ring`.
    pub open spec fn wf(self, self_id: u64, bits: nat, ring: int) -> bool {
        &&& self.entries@.len() == bits
        &&& forall|i: int|
            0 <= i < bits ==> (#[trigger] self.entries@[i]).start == (self_id
                + chord::pow2(i as nat)) % ring
        &&& forall|i: int| 0 <= i < bits ==> (#[trigger] self.entries@[i]).node.id < ring
    }

    /// Construct the table with every pointer aimed at `node`.
    pub fn new(self_id: u64, node: &OtherNode, bits: usize, ring: u64) -> (r: FingerTable)
        requires
            1 <= bits <= 63,
            ring == chord::pow2(bits as nat),
            self_id < ring,
            node.id < ring,
        ensures
            r.wf(self_id, bits as nat, ring as int),
            forall|i: int| 0 <= i < bits ==> (#[trigger] r.entries@[i]).node == *node,
    {
        proof {
            chord::lemma_pow2_increases(bits as nat, 63);
            chord::lemma_pow2_63();
        }
        let mut entries: Vec<FingerEntry> = Vec::new();
        let mut p: u64 = 1;
        let mut i: usize = 0;
        while i < bits
            invariant
                i <= bits,
                1 <= bits <= 63,
                ring == chord::pow2(bits as nat),
                ring <= 0x8000000000000000,
                self_id < ring,
                node.id < ring,
                i < bits ==> p == chord::pow2(i as nat),
                entries@.len() == i,
                forall|j: int|
                    0 <= j < i ==> (#[trigger] entries@[j]).start == (self_id + chord::pow2(
                        j as nat,
                    )) % (ring as int),
                forall|j: int| 0 <= j < i ==> (#[trigger] entries@[j]).node == *node,
            decreases bits - i,
        {
            proof {
                chord::lemma_pow2_increases(i as nat, bits as nat);
            }
            let start = (self_id + p) % ring;
            entries.push(FingerEntry { start, node: node.clone() });
            if i + 1 < bits {
                proof {
                    chord::lemma_pow2_strictly_increases((i + 1) as nat, bits as nat);
                }
                p = p * 2;
            } else {
                p = 1;
            }
            i = i + 1;
        }
        FingerTable { entries }
    }

    /// Replace pointer `index`, keeping its fixed start.
    pub fn put(&mut self, index: usize, node: OtherNode)
        requires
            index < old(self).entries@.len(),
        ensures
            final(self).entries@ == old(self).entries@.update(
                index as int,
                (FingerEntry { start: old(self).entries@[index as int].start, node: node }),
            ),
    {
        let start = self.entries[index].start;
        self.entries[index] = FingerEntry { start, node };
    }

    /// The peer the scan from entry `from` downward settles on: the first
    /// pointer lying strictly inside `(self_node.id, target)`, or
    /// `self_node` when none qualifies.
    pub open spec fn closest_preceding_from(
        entries: Seq<FingerEntry>,
        self_node: OtherNode,
        target: u64,
        ring: int,
        from: int,
    ) -> OtherNode
        decreases from + 1,
    {
        if from < 0 || from >= entries.len() {
            self_node
        } else if chord::spec_in_open_interval(
            self_node.id as int,
            target as int,
            entries[from].node.id as int,
            ring,
        ) {
            entries[from].node
        } else {
            Self::closest_preceding_from(entries, self_node, target, ring, from - 1)
        }
    }

    /// Scan the table from the top entry down and return the pointer whose
    /// identifier is closest to `target` while still lying strictly inside
    /// `(self_node.id, target)`; `self_node` when no entry qualifies.
    pub fn closest_preceding(&self, self_node: &OtherNode, target: u64, ring: u64) -> (r: OtherNode)
        requires
            self_node.id < ring,
            target < ring,
            forall|i: int| 0 <= i < self.entries@.len() ==> (#[trigger] self.entries@[i]).node.id < ring,
        ensures
            r == Self::closest_preceding_from(
                self.entries@,
                *self_node,
                target,
                ring as int,
                self.entries@.len() - 1,
            ),
            r.id < ring,
    {
        let n = self.entries.len();
        let mut j = n;
        while j > 0
            invariant
                j <= n,
                n == self.entries@.len(),
                self_node.id < ring,
                target < ring,
                forall|i: int|
                    0 <= i < self.entries@.len() ==> (#[trigger] self.entries@[i]).node.id < ring,
                Self::closest_preceding_from(
                    self.entries@,
                    *self_node,
                    target,
                    ring as int,
                    n as int - 1,
                ) == Self::closest_preceding_from(
                    self.entries@,
                    *self_node,
                    target,
                    ring as int,
                    j as int - 1,
                ),
            decreases j,
        {
            j = j - 1;
            let candidate = &self.entries[j].node;
            if chord::in_open_interval(self_node.id, target, candidate.id, ring) {
                return candidate.clone();
            }
        }
        self_node.clone()
    }
}

} // verus!
