//! The successor backup list: an ordered list of live successors whose
//! head is the current successor.  Order encodes failover priority.

use vstd::prelude::*;

use crate::node::OtherNode;

verus! {

/// Some entry of `s` carries the identifier `id`.
pub open spec fn has_id(s: Seq<OtherNode>, id: u64) -> bool {
    exists|i: int| 0 <= i < s.len() && s[i].id == id
}

/// No two entries share an identifier.
pub open spec fn no_dup_ids(s: Seq<OtherNode>) -> bool {
    forall|i: int, j: int| 0 <= i < j < s.len() ==> s[i].id != s[j].id
}

/// Every identifier lies on the ring.
pub open spec fn ids_bounded(s: Seq<OtherNode>, ring: int) -> bool {
    forall|i: int| 0 <= i < s.len() ==> (#[trigger] s[i]).id < ring
}

/// `s` with every entry carrying `id` removed, order otherwise kept.
pub open spec fn without_id(s: Seq<OtherNode>, id: u64) -> Seq<OtherNode>
    decreases s.len(),
{
    if s.len() == 0 {
        s
    } else if s.last().id == id {
        without_id(s.drop_last(), id)
    } else {
        without_id(s.drop_last(), id).push(s.last())
    }
}

/// `s` truncated to at most `n` entries.
pub open spec fn take_up_to(s: Seq<OtherNode>, n: int) -> Seq<OtherNode> {
    if s.len() <= n {
        s
    } else {
        s.take(n)
    }
}

/// `rest` merged onto `acc` left to right: each identifier is reduced into
/// the ring, entries equal to `self_id` or already present are skipped,
/// and the merge stops once `cap` entries stand.
pub open spec fn merge_extend(
    acc: Seq<OtherNode>,
    rest: Seq<OtherNode>,
    self_id: u64,
    cap: int,
    ring: u64,
) -> Seq<OtherNode>
    decreases rest.len(),
{
    if rest.len() == 0 || acc.len() >= cap {
        acc
    } else {
        let e = (OtherNode { id: rest[0].id % ring, ip_addr: rest[0].ip_addr });
        if e.id == self_id || has_id(acc, e.id) {
            merge_extend(acc, rest.drop_first(), self_id, cap, ring)
        } else {
            merge_extend(acc.push(e), rest.drop_first(), self_id, cap, ring)
        }
    }
}

/// Removing an identifier keeps the list duplicate-free, drops that
/// identifier entirely, and invents no entries.
pub proof fn lemma_without_id_props(s: Seq<OtherNode>, id: u64)
    ensures
        without_id(s, id).len() <= s.len(),
        !has_id(without_id(s, id), id),
        forall|j: int|
            0 <= j < without_id(s, id).len() ==> has_id(s, #[trigger] without_id(s, id)[j].id),
        no_dup_ids(s) ==> no_dup_ids(without_id(s, id)),
        forall|r: int| ids_bounded(s, r) ==> ids_bounded(without_id(s, id), r),
    decreases s.len(),
{
    if s.len() > 0 {
        let t = s.drop_last();
        lemma_without_id_props(t, id);
        assert(forall|j: int| 0 <= j < t.len() ==> t[j] == s[j]);
        assert(forall|j: int| has_id(t, (#[trigger] without_id(t, id)[j]).id) ==> has_id(
            s,
            without_id(t, id)[j].id,
        ));
        if s.last().id != id {
            let r = without_id(t, id).push(s.last());
            assert(forall|j: int|
                0 <= j < r.len() - 1 ==> r[j] == without_id(t, id)[j]);
            assert(has_id(s, s.last().id)) by {
                assert(s[s.len() - 1].id == s.last().id);
            }
            if no_dup_ids(s) {
                assert(no_dup_ids(t));
                assert(!has_id(t, s.last().id)) by {
                    assert(forall|i: int|
                        0 <= i < t.len() ==> (#[trigger] s[i]).id != s[s.len() - 1].id);
                }
                assert(no_dup_ids(r)) by {
                    assert(forall|i: int|
                        0 <= i < r.len() - 1 ==> r[i].id != s.last().id) by {
                        assert(forall|i: int|
                            0 <= i < without_id(t, id).len() ==> has_id(
                                t,
                                #[trigger] without_id(t, id)[i].id,
                            ));
                    }
                }
            }
        }
    }
}

/// The merge keeps the accumulated prefix, stays duplicate-free and on the
/// ring, respects the capacity, and never admits `self_id`.
pub proof fn lemma_merge_extend_props(
    acc: Seq<OtherNode>,
    rest: Seq<OtherNode>,
    self_id: u64,
    cap: int,
    ring: u64,
)
    requires
        ring >= 1,
        no_dup_ids(acc),
        ids_bounded(acc, ring as int),
        acc.len() <= cap,
    ensures
        ({
            let r = merge_extend(acc, rest, self_id, cap, ring);
            &&& no_dup_ids(r)
            &&& ids_bounded(r, ring as int)
            &&& acc.len() <= r.len() <= cap
            &&& r.take(acc.len() as int) == acc
        }),
    decreases rest.len(),
{
    let r = merge_extend(acc, rest, self_id, cap, ring);
    if rest.len() == 0 || acc.len() >= cap {
        assert(r.take(acc.len() as int) =~= acc);
    } else {
        let e = (OtherNode { id: rest[0].id % ring, ip_addr: rest[0].ip_addr });
        if e.id == self_id || has_id(acc, e.id) {
            lemma_merge_extend_props(acc, rest.drop_first(), self_id, cap, ring);
        } else {
            let acc2 = acc.push(e);
            assert(no_dup_ids(acc2)) by {
                assert(forall|i: int| 0 <= i < acc.len() ==> acc2[i] == acc[i]);
                assert(forall|i: int| 0 <= i < acc.len() ==> acc[i].id != e.id) by {
                    assert(!has_id(acc, e.id));
                }
            }
            assert(ids_bounded(acc2, ring as int));
            lemma_merge_extend_props(acc2, rest.drop_first(), self_id, cap, ring);
            assert(r.take(acc2.len() as int) == acc2);
            assert(r.take(acc.len() as int) =~= acc) by {
                assert(forall|i: int|
                    0 <= i < acc.len() ==> r.take(acc2.len() as int)[i] == r[i]);
            }
        }
    }
}

/// Ordered list of backup successors; element 0 is the current successor.
pub struct SuccessorList {
    pub entries: Vec<OtherNode>,
    pub cap: usize,
}

impl SuccessorList {
    /// Well-formed on a ring of size `ring`: non-empty, within capacity,
    /// duplicate-free and with every identifier on the ring.
    pub open spec fn wf(self, ring: int) -> bool {
        &&& 1 <= self.entries@.len() <= self.cap
        &&& no_dup_ids(self.entries@)
        &&& ids_bounded(self.entries@, ring)
    }

    pub fn new(head: OtherNode, cap: usize) -> (r: SuccessorList)
        requires
            cap >= 1,
        ensures
            r.entries@ =~= seq![head],
            r.cap == cap,
    {
        let mut entries: Vec<OtherNode> = Vec::new();
        entries.push(head);
        SuccessorList { entries, cap }
    }

    /// The current successor.
    pub fn head(&self) -> (r: &OtherNode)
        requires
            self.entries@.len() >= 1,
        ensures
            *r == self.entries@[0],
    {
        &self.entries[0]
    }

    pub fn len(&self) -> (r: usize)
        ensures
            r == self.entries@.len(),
    {
        self.entries.len()
    }

    /// A copy of the whole list, head first.
    pub fn clone_entries(&self) -> (r: Vec<OtherNode>)
        ensures
            r@ == self.entries@,
    {
        let n = self.entries.len();
        let mut out: Vec<OtherNode> = Vec::new();
        let mut i: usize = 0;
        while i < n
            invariant
                i <= n,
                n == self.entries@.len(),
                out@ =~= self.entries@.take(i as int),
            decreases n - i,
        {
            out.push(self.entries[i].clone());
            i = i + 1;
        }
        proof {
            assert(self.entries@.take(n as int) =~= self.entries@);
        }
        out
    }

    /// Replace the head with `x`, dropping any deeper duplicate of `x`.
    pub fn set_head(&mut self, x: OtherNode)
        requires
            old(self).entries@.len() >= 1,
        ensures
            final(self).entries@ == seq![x] + without_id(
                old(self).entries@.subrange(1, old(self).entries@.len() as int),
                x.id,
            ),
            final(self).cap == old(self).cap,
    {
        let ghost tail = self.entries@.subrange(1, self.entries@.len() as int);
        let n = self.entries.len();
        let x_id = x.id;
        let mut out: Vec<OtherNode> = Vec::new();
        out.push(x.clone());
        let mut i: usize = 1;
        proof {
            assert(tail.subrange(0, 0) =~= Seq::<OtherNode>::empty());
            assert(out@ =~= seq![x] + without_id(tail.subrange(0, 0), x.id));
        }
        while i < n
            invariant
                1 <= i <= n,
                n == self.entries@.len(),
                x_id == x.id,
                tail == self.entries@.subrange(1, self.entries@.len() as int),
                out@ == seq![x] + without_id(tail.subrange(0, i - 1), x.id),
            decreases n - i,
        {
            proof {
                assert(tail.subrange(0, i as int).drop_last() =~= tail.subrange(0, i - 1));
                assert(tail.subrange(0, i as int).last() == self.entries@[i as int]);
            }
            let ghost prev = seq![x] + without_id(tail.subrange(0, i - 1), x.id);
            let ghost next = seq![x] + without_id(tail.subrange(0, i as int), x.id);
            let e = &self.entries[i];
            if e.id != x_id {
                out.push(e.clone());
                proof {
                    assert(without_id(tail.subrange(0, i as int), x.id) == without_id(
                        tail.subrange(0, i - 1),
                        x.id,
                    ).push(self.entries@[i as int]));
                    assert(next =~= prev.push(self.entries@[i as int]));
                }
            } else {
                proof {
                    assert(next =~= prev);
                }
            }
            i = i + 1;
        }
        proof {
            assert(tail.subrange(0, n - 1) =~= tail);
        }
        self.entries = out;
    }

    /// Prepend a freshly learned successor `x`, keeping the old entries as
    /// backups, dropping any duplicate of `x` and truncating to capacity.
    pub fn advance_to(&mut self, x: OtherNode)
        requires
            old(self).cap >= 1,
        ensures
            final(self).entries@ == take_up_to(
                seq![x] + without_id(old(self).entries@, x.id),
                old(self).cap as int,
            ),
            final(self).cap == old(self).cap,
    {
        let n = self.entries.len();
        let cap = self.cap;
        let x_id = x.id;
        let mut out: Vec<OtherNode> = Vec::new();
        out.push(x.clone());
        let mut i: usize = 0;
        proof {
            assert(self.entries@.take(0) =~= Seq::<OtherNode>::empty());
            assert(out@ =~= seq![x] + without_id(self.entries@.take(0), x.id));
        }
        while i < n
            invariant
                i <= n,
                n == self.entries@.len(),
                cap == self.cap,
                cap >= 1,
                x_id == x.id,
                out@ == take_up_to(
                    seq![x] + without_id(self.entries@.take(i as int), x.id),
                    cap as int,
                ),
                1 <= out@.len() <= cap,
            decreases n - i,
        {
            proof {
                assert(self.entries@.take(i + 1).drop_last() =~= self.entries@.take(i as int));
                assert(self.entries@.take(i + 1).last() == self.entries@[i as int]);
            }
            let ghost prev = seq![x] + without_id(self.entries@.take(i as int), x.id);
            let ghost next = seq![x] + without_id(self.entries@.take(i + 1), x.id);
            let e = &self.entries[i];
            if e.id != x_id {
                proof {
                    assert(without_id(self.entries@.take(i + 1), x.id) == without_id(
                        self.entries@.take(i as int),
                        x.id,
                    ).push(self.entries@[i as int]));
                    assert(next =~= prev.push(self.entries@[i as int]));
                }
                if out.len() < cap {
                    out.push(e.clone());
                    proof {
                        assert(prev.len() < cap);
                        assert(take_up_to(next, cap as int) =~= out@);
                    }
                } else {
                    proof {
                        assert(prev.len() >= cap);
                        assert(take_up_to(next, cap as int) =~= take_up_to(prev, cap as int));
                    }
                }
            } else {
                proof {
                    assert(next =~= prev);
                }
            }
            i = i + 1;
        }
        proof {
            assert(self.entries@.take(n as int) =~= self.entries@);
        }
        self.entries = out;
    }

    /// Rebuild the list as the current head followed by `rest`, reduced
    /// into the ring, skipping `self_id` and duplicates, truncated to
    /// capacity.
    pub fn update_from(&mut self, rest: &Vec<OtherNode>, self_id: u64, ring: u64)
        requires
            old(self).entries@.len() >= 1,
            old(self).cap >= 1,
            ring >= 1,
        ensures
            final(self).entries@ == merge_extend(
                seq![old(self).entries@[0]],
                rest@,
                self_id,
                old(self).cap as int,
                ring,
            ),
            final(self).cap == old(self).cap,
    {
        let n = rest.len();
        let cap = self.cap;
        let mut out: Vec<OtherNode> = Vec::new();
        out.push(self.entries[0].clone());
        let mut i: usize = 0;
        proof {
            assert(out@ =~= seq![self.entries@[0]]);
            assert(rest@.skip(0) =~= rest@);
        }
        while i < n
            invariant
                i <= n,
                n == rest@.len(),
                cap >= 1,
                ring >= 1,
                out@.len() >= 1,
                merge_extend(seq![self.entries@[0]], rest@, self_id, cap as int, ring)
                    == merge_extend(out@, rest@.skip(i as int), self_id, cap as int, ring),
                cap == self.cap,
                self.entries@.len() >= 1,
            decreases n - i,
        {
            proof {
                assert(rest@.skip(i as int)[0] == rest@[i as int]);
                assert(rest@.skip(i as int).drop_first() =~= rest@.skip(i + 1));
            }
            let e = &rest[i];
            let nid = e.id % ring;
            if out.len() < cap && nid != self_id && !contains_id(&out, nid) {
                out.push(OtherNode { id: nid, ip_addr: e.ip_addr.clone() });
            } else {
                proof {
                    if out@.len() < cap {
                        let ghost norm = (OtherNode { id: rest@[i as int].id % ring, ip_addr: rest@[i as int].ip_addr });
                        assert(norm.id == self_id || has_id(out@, norm.id));
                    }
                }
            }
            i = i + 1;
        }
        proof {
            assert(rest@.skip(n as int) =~= Seq::<OtherNode>::empty());
        }
        self.entries = out;
    }

    /// Drop the first `k` entries: the leading dead successors.
    pub fn drop_prefix(&mut self, k: usize)
        requires
            k < old(self).entries@.len(),
        ensures
            final(self).entries@ == old(self).entries@.skip(k as int),
            final(self).cap == old(self).cap,
    {
        let n = self.entries.len();
        let mut out: Vec<OtherNode> = Vec::new();
        let mut i: usize = k;
        while i < n
            invariant
                k <= i <= n,
                n == self.entries@.len(),
                out@ =~= self.entries@.subrange(k as int, i as int),
            decreases n - i,
        {
            out.push(self.entries[i].clone());
            i = i + 1;
        }
        proof {
            assert(self.entries@.subrange(k as int, n as int) =~= self.entries@.skip(k as int));
        }
        self.entries = out;
    }
}

/// Linear scan for an identifier.
pub fn contains_id(v: &Vec<OtherNode>, id: u64) -> (r: bool)
    ensures
        r == has_id(v@, id),
{
    let n = v.len();
    let mut i: usize = 0;
    while i < n
        invariant
            i <= n,
            n == v@.len(),
            forall|j: int| 0 <= j < i ==> v@[j].id != id,
        decreases n - i,
    {
        if v[i].id == id {
            return true;
        }
        i = i + 1;
    }
    false
}

} // verus!
