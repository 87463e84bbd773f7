//! A short list of key positions, kept inline for as many keys as the board has.

use smallvec::SmallVec;
use vstd::prelude::*;

verus! {

/// Key positions in a `SmallVec` with room for all twelve keys.
#[verifier::external_body]
pub struct KeyList {
    keys: SmallVec<[usize; 12]>,
}

/// What a key list holds, in order.
pub uninterp spec fn key_list_contents(list: KeyList) -> Seq<usize>;

impl View for KeyList {
    type V = Seq<usize>;

    open spec fn view(&self) -> Seq<usize> {
        key_list_contents(*self)
    }
}

/// Every element is larger than the one before it.
pub open spec fn ascending(q: Seq<usize>) -> bool {
    forall|i: int, j: int| 0 <= i < j < q.len() ==> q[i] < q[j]
}

/// No element is smaller than the one before it.
pub open spec fn sorted(q: Seq<usize>) -> bool {
    forall|i: int, j: int| 0 <= i < j < q.len() ==> q[i] <= q[j]
}

/// `q` with every run of equal elements cut to one.
pub open spec fn deduped(q: Seq<usize>) -> Seq<usize>
    decreases q.len(),
{
    if q.len() <= 1 {
        q
    } else if q[q.len() - 1] == q[q.len() - 2] {
        deduped(q.drop_last())
    } else {
        deduped(q.drop_last()).push(q.last())
    }
}

impl KeyList {
    /// `SmallVec::new`: an empty list.
    #[verifier::external_body]
    pub(crate) fn new() -> (r: Self)
        ensures
            key_list_contents(r) == Seq::<usize>::empty(),
    {
        KeyList { keys: SmallVec::new() }
    }

    /// `SmallVec::push`: one more element at the end.
    #[verifier::external_body]
    pub(crate) fn push(&mut self, key: usize)
        ensures
            key_list_contents(*final(self)) == key_list_contents(*old(self)).push(key),
    {
        self.keys.push(key)
    }

    /// `SmallVec::len`: the number of elements.
    #[verifier::external_body]
    pub(crate) fn len(&self) -> (r: usize)
        ensures
            r == key_list_contents(*self).len(),
    {
        self.keys.len()
    }

    /// Indexing a `SmallVec` through its `Deref` to a slice: the element at a position.
    #[verifier::external_body]
    pub(crate) fn at(&self, i: usize) -> (r: usize)
        requires
            i < key_list_contents(*self).len(),
        ensures
            r == key_list_contents(*self)[i as int],
    {
        self.keys[i]
    }

    /// `sort` of the slice that a `SmallVec` derefs to: the same elements in ascending order.
    #[verifier::external_body]
    pub(crate) fn sort(&mut self)
        ensures
            sorted(key_list_contents(*final(self))),
            key_list_contents(*final(self)).to_multiset() == key_list_contents(
                *old(self),
            ).to_multiset(),
    {
        self.keys.sort()
    }

    /// `SmallVec::dedup`: every run of equal elements is cut to one.
    #[verifier::external_body]
    pub(crate) fn dedup(&mut self)
        ensures
            key_list_contents(*final(self)) == deduped(key_list_contents(*old(self))),
    {
        self.keys.dedup()
    }

    /// Tells whether a position is in the list.
    pub fn contains(&self, key: usize) -> (r: bool)
        ensures
            r == self@.contains(key),
    {
        let mut i: usize = 0;
        while i < self.len()
            invariant
                i <= self@.len(),
                forall|k: int| 0 <= k < i ==> self@[k] != key,
            decreases self@.len() - i,
        {
            if self.at(i) == key {
                assert(self@[i as int] == key);
                return true;
            }
            i = i + 1;
        }
        false
    }

    /// The elements as a vector.
    pub fn to_vec(&self) -> (r: Vec<usize>)
        ensures
            r@ == self@,
    {
        let mut out: Vec<usize> = Vec::with_capacity(self.len());
        let mut i: usize = 0;
        while i < self.len()
            invariant
                i <= self@.len(),
                out@ == self@.subrange(0, i as int),
            decreases self@.len() - i,
        {
            out.push(self.at(i));
            assert(self@.subrange(0, i + 1) =~= self@.subrange(0, i as int).push(self@[i as int]));
            i = i + 1;
        }
        assert(self@.subrange(0, self@.len() as int) =~= self@);
        out
    }

    /// Sorts the list and removes repeated elements.
    pub fn sort_and_dedup(&mut self)
        ensures
            ascending(final(self)@),
            forall|k: usize| final(self)@.contains(k) <==> old(self)@.contains(k),
    {
        let ghost before = self@;
        self.sort();
        let ghost mid = self@;
        self.dedup();
        proof {
            before.to_multiset_ensures();
            mid.to_multiset_ensures();
            lemma_deduped(mid);
            assert forall|k: usize| self@.contains(k) <==> before.contains(k) by {
                assert(mid.to_multiset().count(k) == before.to_multiset().count(k));
            }
        }
    }
}

/// Cutting the runs of a sorted list makes it ascending and keeps its elements.
pub proof fn lemma_deduped(q: Seq<usize>)
    requires
        sorted(q),
    ensures
        ascending(deduped(q)),
        forall|k: usize| deduped(q).contains(k) <==> q.contains(k),
        q.len() > 0 ==> deduped(q).len() > 0 && deduped(q).last() == q.last(),
    decreases q.len(),
{
    if q.len() > 1 {
        let p = q.drop_last();
        lemma_deduped(p);
        assert(p.last() == q[q.len() - 2]);
        let d = deduped(q);
        if q[q.len() - 1] == q[q.len() - 2] {
            assert forall|k: usize| d.contains(k) <==> q.contains(k) by {
                if q.contains(k) {
                    let i = choose|i: int| 0 <= i < q.len() && q[i] == k;
                    if i == q.len() - 1 {
                        assert(p[q.len() - 2] == k);
                    } else {
                        assert(p[i] == k);
                    }
                }
                if p.contains(k) {
                    let i = choose|i: int| 0 <= i < p.len() && p[i] == k;
                    assert(q[i] == k);
                }
            }
        } else {
            let e = deduped(p);
            assert forall|i: int, j: int| 0 <= i < j < d.len() implies d[i] < d[j] by {
                if j == d.len() - 1 {
                    assert(e[i] <= e.last());
                }
            }
            assert forall|k: usize| d.contains(k) <==> q.contains(k) by {
                if d.contains(k) {
                    let i = choose|i: int| 0 <= i < d.len() && d[i] == k;
                    if i == d.len() - 1 {
                        assert(q[q.len() - 1] == k);
                    } else {
                        assert(e[i] == k);
                        assert(p.contains(k));
                        let j = choose|j: int| 0 <= j < p.len() && p[j] == k;
                        assert(q[j] == k);
                    }
                }
                if q.contains(k) {
                    let i = choose|i: int| 0 <= i < q.len() && q[i] == k;
                    if i == q.len() - 1 {
                        assert(d[d.len() - 1] == k);
                    } else {
                        assert(p[i] == k);
                        assert(p.contains(k));
                        assert(e.contains(k));
                        let j = choose|j: int| 0 <= j < e.len() && e[j] == k;
                        assert(d[j] == k);
                    }
                }
            }
        }
    }
}

/// An ascending list is determined by its elements.
pub proof fn law_ascending_lists_are_determined(a: Seq<usize>, b: Seq<usize>)
    requires
        ascending(a),
        ascending(b),
        forall|k: usize| a.contains(k) <==> b.contains(k),
    ensures
        a == b,
    decreases a.len(),
{
    if a.len() == 0 {
        if b.len() > 0 {
            assert(b.contains(b[0]));
        }
        assert(a =~= b);
    } else {
        assert(a.contains(a.last()));
        assert(b.len() > 0);
        assert(b.contains(b.last()));
        let i = choose|i: int| 0 <= i < b.len() && b[i] == a.last();
        let j = choose|j: int| 0 <= j < a.len() && a[j] == b.last();
        assert(b[i] <= b.last());
        assert(a[j] <= a.last());
        assert(a.last() == b.last());
        let p = a.drop_last();
        let q = b.drop_last();
        assert forall|k: usize| p.contains(k) <==> q.contains(k) by {
            if p.contains(k) {
                let m = choose|m: int| 0 <= m < p.len() && p[m] == k;
                assert(a[m] == k);
                assert(b.contains(k));
                let n = choose|n: int| 0 <= n < b.len() && b[n] == k;
                assert(a[m] < a.last());
                assert(q[n] == k);
            }
            if q.contains(k) {
                let m = choose|m: int| 0 <= m < q.len() && q[m] == k;
                assert(b[m] == k);
                assert(a.contains(k));
                let n = choose|n: int| 0 <= n < a.len() && a[n] == k;
                assert(b[m] < b.last());
                assert(p[n] == k);
            }
        }
        law_ascending_lists_are_determined(p, q);
        assert(a =~= p.push(a.last()));
        assert(b =~= q.push(b.last()));
    }
}

} // verus!
