//! Stable ordering by a numeric key, largest first: leaderboards, rankings
//! and support tickets (newest first) are shown this way.
use vstd::prelude::*;
use vstd::multiset::Multiset;

verus! {

/// A value ordered by an integer key.
pub trait Ranked {
    /// The key, as an integer.
    spec fn rank_key(&self) -> int;

    /// The key.
    fn key(&self) -> (k: i128)
        ensures
            k == self.rank_key(),
    ;
}

/// Number of leading elements of `s` whose key is at least `k`, up to the
/// first one whose key is below `k`.
pub open spec fn insert_pos<T: Ranked>(s: Seq<T>, k: int) -> nat
    decreases s.len(),
{
    if s.len() == 0 {
        0
    } else if s[0].rank_key() < k {
        0
    } else {
        1 + insert_pos(s.drop_first(), k)
    }
}

/// `x` inserted into `s` after every leading element whose key is at least
/// `x`'s.
pub open spec fn insert_desc<T: Ranked>(s: Seq<T>, x: T) -> Seq<T> {
    s.insert(insert_pos(s, x.rank_key()) as int, x)
}

/// The stable sort of `s` by key, largest first: equal keys keep their
/// order.
pub open spec fn sort_desc<T: Ranked>(s: Seq<T>) -> Seq<T>
    decreases s.len(),
{
    if s.len() == 0 {
        s
    } else {
        insert_desc(sort_desc(s.drop_last()), s.last())
    }
}

/// Keys never increase along `s`.
pub open spec fn is_sorted_desc<T: Ranked>(s: Seq<T>) -> bool {
    forall|i: int, j: int| 0 <= i < j < s.len() ==> s[i].rank_key() >= s[j].rank_key()
}

proof fn lemma_insert_pos_bound<T: Ranked>(s: Seq<T>, k: int)
    ensures
        insert_pos(s, k) <= s.len(),
        forall|i: int| 0 <= i < insert_pos(s, k) ==> s[i].rank_key() >= k,
        insert_pos(s, k) < s.len() ==> s[insert_pos(s, k) as int].rank_key() < k,
    decreases s.len(),
{
    if s.len() > 0 && s[0].rank_key() >= k {
        lemma_insert_pos_bound(s.drop_first(), k);
        assert forall|i: int| 0 <= i < insert_pos(s, k) implies s[i].rank_key() >= k by {
            if i > 0 {
                assert(s[i] == s.drop_first()[i - 1]);
            }
        }
    }
}

proof fn lemma_insert_desc_sorted<T: Ranked>(s: Seq<T>, x: T)
    requires
        is_sorted_desc(s),
    ensures
        is_sorted_desc(insert_desc(s, x)),
        insert_desc(s, x).to_multiset() == s.to_multiset().insert(x),
        insert_desc(s, x).len() == s.len() + 1,
{
    lemma_insert_pos_bound(s, x.rank_key());
    let p = insert_pos(s, x.rank_key()) as int;
    let r = insert_desc(s, x);
    assert forall|i: int, j: int| 0 <= i < j < r.len() implies r[i].rank_key() >= r[j].rank_key() by {
        if i < p && j < p {
        } else if i < p && j == p {
        } else if i < p && j > p {
            assert(r[j] == s[j - 1]);
        } else if i == p {
            assert(r[j] == s[j - 1]);
        } else {
            assert(r[i] == s[i - 1]);
            assert(r[j] == s[j - 1]);
        }
    }
    s.to_multiset_ensures();
    vstd::seq_lib::lemma_seq_union_to_multiset_commutative(s, seq![x]);
    assert(r =~= s.subrange(0, p) + seq![x] + s.subrange(p, s.len() as int));
    vstd::seq_lib::lemma_multiset_commutative(s.subrange(0, p) + seq![x], s.subrange(p, s.len() as int));
    vstd::seq_lib::lemma_multiset_commutative(s.subrange(0, p), seq![x]);
    vstd::seq_lib::lemma_multiset_commutative(s.subrange(0, p), s.subrange(p, s.len() as int));
    assert(s =~= s.subrange(0, p) + s.subrange(p, s.len() as int));
    assert(seq![x].to_multiset() =~= Multiset::empty().insert(x)) by {
        seq![x].to_multiset_ensures();
        assert(seq![x] =~= Seq::<T>::empty().push(x));
        Seq::<T>::empty().to_multiset_ensures();
    }
}

/// The sort is ordered by key, largest first, and holds exactly the
/// elements it was given.
pub proof fn lemma_sort_desc_sorted_permutation<T: Ranked>(s: Seq<T>)
    ensures
        is_sorted_desc(sort_desc(s)),
        sort_desc(s).to_multiset() == s.to_multiset(),
        sort_desc(s).len() == s.len(),
    decreases s.len(),
{
    if s.len() == 0 {
        s.to_multiset_ensures();
        assert(sort_desc(s).to_multiset() =~= s.to_multiset());
    } else {
        lemma_sort_desc_sorted_permutation(s.drop_last());
        lemma_insert_desc_sorted(sort_desc(s.drop_last()), s.last());
        s.drop_last().to_multiset_ensures();
        assert(s =~= s.drop_last().push(s.last()));
    }
}

/// Sorts by key, largest first, keeping the order of equal keys (as
/// `sort_by(|a, b| b.key.cmp(&a.key))` does).
pub fn sort_by_key_desc<T: Ranked>(v: Vec<T>) -> (r: Vec<T>)
    ensures
        r@ == sort_desc(v@),
{
    let ghost orig = v@;
    let mut rest = v;
    let mut out: Vec<T> = Vec::new();
    let n = rest.len();
    let mut done: usize = 0;
    while rest.len() > 0
        invariant
            n == orig.len(),
            done + rest@.len() == n,
            rest@ == orig.subrange(done as int, n as int),
            out@ == sort_desc(orig.take(done as int)),
        decreases rest@.len(),
    {
        let x = rest.remove(0);
        let k = x.key();
        let ghost sorted = out@;
        proof { lemma_insert_pos_bound(sorted, k as int); }
        let mut p: usize = 0;
        assert(sorted.subrange(0, sorted.len() as int) =~= sorted);
        while p < out.len() && out[p].key() >= k
            invariant
                out@ == sorted,
                p <= sorted.len(),
                insert_pos(sorted, k as int) == p + insert_pos(sorted.subrange(p as int, sorted.len() as int), k as int),
            decreases sorted.len() - p,
        {
            assert(sorted.subrange(p as int, sorted.len() as int).drop_first() =~= sorted.subrange(p + 1, sorted.len() as int));
            p = p + 1;
        }
        assert(insert_pos(sorted.subrange(p as int, sorted.len() as int), k as int) == 0);
        out.insert(p, x);
        assert(orig.take(done + 1).drop_last() =~= orig.take(done as int));
        assert(orig.take(done + 1).last() == x);
        done = done + 1;
        assert(rest@ =~= orig.subrange(done as int, n as int));
    }
    assert(orig.take(n as int) =~= orig);
    out
}

} // verus!
