//! The local DHT key store: a mapping from key identifier to payload, with
//! range extraction for key hand-off.

use vstd::prelude::*;

use crate::chord;

verus! {

/// One stored payload: the plain key string and its value.
pub struct DHTEntry {
    pub key: String,
    pub value: String,
}

impl Clone for DHTEntry {
    fn clone(&self) -> (r: DHTEntry)
        ensures
            r == *self,
    {
        DHTEntry { key: self.key.clone(), value: self.value.clone() }
    }
}

/// The first payload stored under `k`, scanning from the front.
pub open spec fn lookup(s: Seq<(u64, DHTEntry)>, k: u64) -> Option<DHTEntry>
    decreases s.len(),
{
    if s.len() == 0 {
        None
    } else {
        let r = lookup(s.drop_last(), k);
        if r is Some {
            r
        } else if s.last().0 == k {
            Some(s.last().1)
        } else {
            None
        }
    }
}

/// The store with every entry under `k` removed, order otherwise kept.
pub open spec fn remove_key(s: Seq<(u64, DHTEntry)>, k: u64) -> Seq<(u64, DHTEntry)>
    decreases s.len(),
{
    if s.len() == 0 {
        s
    } else if s.last().0 == k {
        remove_key(s.drop_last(), k)
    } else {
        remove_key(s.drop_last(), k).push(s.last())
    }
}

/// The entries whose keys the ownership rule `(pre_id, self_id]` keeps.
pub open spec fn keep_owned(s: Seq<(u64, DHTEntry)>, pre_id: u64, self_id: u64, ring: int) -> Seq<
    (u64, DHTEntry),
>
    decreases s.len(),
{
    if s.len() == 0 {
        s
    } else if chord::spec_in_half_open(pre_id as int, self_id as int, s.last().0 as int, ring) {
        keep_owned(s.drop_last(), pre_id, self_id, ring).push(s.last())
    } else {
        keep_owned(s.drop_last(), pre_id, self_id, ring)
    }
}

/// The entries whose keys fall outside `(pre_id, self_id]` and are handed
/// off.
pub open spec fn take_unowned(s: Seq<(u64, DHTEntry)>, pre_id: u64, self_id: u64, ring: int) -> Seq<
    (u64, DHTEntry),
>
    decreases s.len(),
{
    if s.len() == 0 {
        s
    } else if chord::spec_in_half_open(pre_id as int, self_id as int, s.last().0 as int, ring) {
        take_unowned(s.drop_last(), pre_id, self_id, ring)
    } else {
        take_unowned(s.drop_last(), pre_id, self_id, ring).push(s.last())
    }
}

/// Every stored key lies on the ring.
pub open spec fn keys_bounded(s: Seq<(u64, DHTEntry)>, ring: int) -> bool {
    forall|i: int| 0 <= i < s.len() ==> (#[trigger] s[i]).0 < ring
}

/// Every stored key lies in `(pre_id, self_id]`: the ownership rule.
pub open spec fn entries_owned(s: Seq<(u64, DHTEntry)>, pre_id: u64, self_id: u64, ring: int) -> bool {
    forall|i: int|
        0 <= i < s.len() ==> chord::spec_in_half_open(
            pre_id as int,
            self_id as int,
            (#[trigger] s[i]).0 as int,
            ring,
        )
}

/// A batch of handed-over entries stored one after the other, keys reduced
/// into the ring.
pub open spec fn put_all(s: Seq<(u64, DHTEntry)>, data: Seq<(u64, DHTEntry)>, ring: u64) -> Seq<
    (u64, DHTEntry),
>
    decreases data.len(),
{
    if data.len() == 0 {
        s
    } else {
        put_all(
            remove_key(s, data[0].0 % ring).push((data[0].0 % ring, data[0].1)),
            data.drop_first(),
            ring,
        )
    }
}

/// Removing a key keeps every remaining key on the ring.
pub proof fn lemma_remove_key_bounded(s: Seq<(u64, DHTEntry)>, k: u64, ring: int)
    ensures
        keys_bounded(s, ring) ==> keys_bounded(remove_key(s, k), ring),
    decreases s.len(),
{
    if s.len() > 0 {
        lemma_remove_key_bounded(s.drop_last(), k, ring);
    }
}

/// Removing a key cannot break the ownership rule.
pub proof fn lemma_remove_key_owned(
    s: Seq<(u64, DHTEntry)>,
    k: u64,
    pre_id: u64,
    self_id: u64,
    ring: int,
)
    ensures
        entries_owned(s, pre_id, self_id, ring) ==> entries_owned(
            remove_key(s, k),
            pre_id,
            self_id,
            ring,
        ),
    decreases s.len(),
{
    if s.len() > 0 {
        lemma_remove_key_owned(s.drop_last(), k, pre_id, self_id, ring);
    }
}

/// What the hand-off keeps is exactly what the ownership rule admits.
pub proof fn lemma_keep_owned_owned(s: Seq<(u64, DHTEntry)>, pre_id: u64, self_id: u64, ring: int)
    ensures
        entries_owned(keep_owned(s, pre_id, self_id, ring), pre_id, self_id, ring),
    decreases s.len(),
{
    if s.len() > 0 {
        lemma_keep_owned_owned(s.drop_last(), pre_id, self_id, ring);
    }
}

/// The hand-off keeps every kept key on the ring.
pub proof fn lemma_keep_owned_bounded(
    s: Seq<(u64, DHTEntry)>,
    pre_id: u64,
    self_id: u64,
    ring: int,
    bound: int,
)
    ensures
        keys_bounded(s, bound) ==> keys_bounded(keep_owned(s, pre_id, self_id, ring), bound),
    decreases s.len(),
{
    if s.len() > 0 {
        lemma_keep_owned_bounded(s.drop_last(), pre_id, self_id, ring, bound);
    }
}

/// Storing a handed-over batch keeps every key on the ring.
pub proof fn lemma_put_all_bounded(s: Seq<(u64, DHTEntry)>, data: Seq<(u64, DHTEntry)>, ring: u64)
    requires
        ring >= 1,
    ensures
        keys_bounded(s, ring as int) ==> keys_bounded(put_all(s, data, ring), ring as int),
    decreases data.len(),
{
    if data.len() > 0 {
        let k = data[0].0 % ring;
        let s2 = remove_key(s, k).push((k, data[0].1));
        lemma_remove_key_bounded(s, k, ring as int);
        lemma_put_all_bounded(s2, data.drop_first(), ring);
    }
}

/// After removing `k`, a lookup of `k` finds nothing and every other key
/// is untouched.
pub proof fn lemma_remove_then_lookup(s: Seq<(u64, DHTEntry)>, k: u64, k2: u64)
    ensures
        lookup(remove_key(s, k), k2) == (if k2 == k {
            Option::<DHTEntry>::None
        } else {
            lookup(s, k2)
        }),
    decreases s.len(),
{
    if s.len() > 0 {
        lemma_remove_then_lookup(s.drop_last(), k, k2);
        if s.last().0 != k {
            assert(remove_key(s, k).drop_last() =~= remove_key(s.drop_last(), k));
        }
    }
}

/// Storing a payload under `k` makes a subsequent lookup of `k` return
/// exactly that payload, and leaves every other key untouched.
pub proof fn lemma_put_then_lookup(s: Seq<(u64, DHTEntry)>, k: u64, e: DHTEntry, k2: u64)
    ensures
        lookup(remove_key(s, k).push((k, e)), k2) == (if k2 == k {
            Some(e)
        } else {
            lookup(s, k2)
        }),
{
    let t = remove_key(s, k).push((k, e));
    assert(t.drop_last() =~= remove_key(s, k));
    lemma_remove_then_lookup(s, k, k2);
}

/// The local key store.  Entries are kept in insertion order; `put`
/// replaces any previous payload under the same key.
pub struct Storage {
    pub entries: Vec<(u64, DHTEntry)>,
}

impl Storage {
    pub fn new() -> (r: Storage)
        ensures
            r.entries@ =~= Seq::<(u64, DHTEntry)>::empty(),
    {
        Storage { entries: Vec::new() }
    }

    /// The payload stored under `k`, if any.
    pub fn get(&self, k: u64) -> (r: Option<DHTEntry>)
        ensures
            r == lookup(self.entries@, k),
    {
        let n = self.entries.len();
        let mut i: usize = 0;
        let mut found: Option<DHTEntry> = None;
        proof {
            assert(self.entries@.take(0) =~= Seq::<(u64, DHTEntry)>::empty());
        }
        while i < n
            invariant
                i <= n,
                n == self.entries@.len(),
                found == lookup(self.entries@.take(i as int), k),
            decreases n - i,
        {
            proof {
                assert(self.entries@.take(i + 1).drop_last() =~= self.entries@.take(i as int));
            }
            if found.is_none() {
                let pair = &self.entries[i];
                if pair.0 == k {
                    found = Some(pair.1.clone());
                }
            }
            i = i + 1;
        }
        proof {
            assert(self.entries@.take(n as int) =~= self.entries@);
        }
        found
    }

    /// Remove every entry under `k`; report whether one existed.
    pub fn remove(&mut self, k: u64) -> (existed: bool)
        ensures
            final(self).entries@ == remove_key(old(self).entries@, k),
            existed == (lookup(old(self).entries@, k) is Some),
    {
        let n = self.entries.len();
        let mut kept: Vec<(u64, DHTEntry)> = Vec::new();
        let mut existed = false;
        let mut i: usize = 0;
        proof {
            assert(self.entries@.take(0) =~= Seq::<(u64, DHTEntry)>::empty());
        }
        while i < n
            invariant
                i <= n,
                n == self.entries@.len(),
                kept@ == remove_key(self.entries@.take(i as int), k),
                existed == (lookup(self.entries@.take(i as int), k) is Some),
            decreases n - i,
        {
            proof {
                assert(self.entries@.take(i + 1).drop_last() =~= self.entries@.take(i as int));
            }
            let pair = &self.entries[i];
            if pair.0 == k {
                existed = true;
            } else {
                let copied = (pair.0, pair.1.clone());
                kept.push(copied);
            }
            i = i + 1;
        }
        proof {
            assert(self.entries@.take(n as int) =~= self.entries@);
        }
        self.entries = kept;
        existed
    }

    /// Store `e` under `k`, replacing any previous payload for `k`.
    pub fn put(&mut self, k: u64, e: DHTEntry)
        ensures
            final(self).entries@ == remove_key(old(self).entries@, k).push((k, e)),
    {
        self.remove(k);
        self.entries.push((k, e));
    }

    /// Remove and return every entry whose key falls outside
    /// `(pre_id, self_id]`; the owned entries stay.
    pub fn extract_not_owned(&mut self, pre_id: u64, self_id: u64, ring: u64) -> (r: Vec<
        (u64, DHTEntry),
    >)
        requires
            pre_id < ring,
            self_id < ring,
            keys_bounded(old(self).entries@, ring as int),
        ensures
            final(self).entries@ == keep_owned(old(self).entries@, pre_id, self_id, ring as int),
            r@ == take_unowned(old(self).entries@, pre_id, self_id, ring as int),
    {
        let n = self.entries.len();
        let mut kept: Vec<(u64, DHTEntry)> = Vec::new();
        let mut taken: Vec<(u64, DHTEntry)> = Vec::new();
        let mut i: usize = 0;
        proof {
            assert(self.entries@.take(0) =~= Seq::<(u64, DHTEntry)>::empty());
        }
        while i < n
            invariant
                i <= n,
                n == self.entries@.len(),
                pre_id < ring,
                self_id < ring,
                keys_bounded(self.entries@, ring as int),
                kept@ == keep_owned(self.entries@.take(i as int), pre_id, self_id, ring as int),
                taken@ == take_unowned(self.entries@.take(i as int), pre_id, self_id, ring as int),
            decreases n - i,
        {
            proof {
                assert(self.entries@.take(i + 1).drop_last() =~= self.entries@.take(i as int));
            }
            let pair = &self.entries[i];
            let copied = (pair.0, pair.1.clone());
            if chord::in_half_open(pre_id, self_id, pair.0, ring) {
                kept.push(copied);
            } else {
                taken.push(copied);
            }
            i = i + 1;
        }
        proof {
            assert(self.entries@.take(n as int) =~= self.entries@);
        }
        self.entries = kept;
        taken
    }

    /// Remove and return every entry, leaving the store empty.
    pub fn take_all(&mut self) -> (r: Vec<(u64, DHTEntry)>)
        ensures
            final(self).entries@ =~= Seq::<(u64, DHTEntry)>::empty(),
            r@ == old(self).entries@,
    {
        let mut out: Vec<(u64, DHTEntry)> = Vec::new();
        core::mem::swap(&mut self.entries, &mut out);
        out
    }

    pub fn len(&self) -> (r: usize)
        ensures
            r == self.entries@.len(),
    {
        self.entries.len()
    }
}

} // verus!
