use vstd::prelude::*;

use crate::collections::other_than;

verus! {

/// The IEEE-754 bits of a double-precision number.
pub type F64Bits = u64;

/// Whether the bits are those of a NaN: all exponent bits set and a nonzero
/// mantissa.
pub open spec fn is_nan(b: F64Bits) -> bool {
    b % 0x8000_0000_0000_0000u64 > 0x7FF0_0000_0000_0000u64
}

/// A number whose order is that of the double the bits hold, for every
/// double that is not a NaN: `-0.0` and `+0.0` get the same number, as they
/// compare equal.
pub open spec fn order_key(b: F64Bits) -> int {
    let magnitude = (b % 0x8000_0000_0000_0000u64) as int;
    if b >= 0x8000_0000_0000_0000u64 {
        -magnitude
    } else {
        magnitude
    }
}

pub fn is_nan_bits(b: F64Bits) -> (r: bool)
    ensures
        r == is_nan(b),
{
    b % 0x8000_0000_0000_0000u64 > 0x7FF0_0000_0000_0000u64
}

pub fn order_key_of(b: F64Bits) -> (r: i128)
    ensures
        r == order_key(b),
{
    let magnitude = (b % 0x8000_0000_0000_0000u64) as i128;
    if b >= 0x8000_0000_0000_0000u64 {
        -magnitude
    } else {
        magnitude
    }
}

/// `s` with `x` put after every element whose key is at most `x`'s, as a
/// stable insertion sort does.
pub open spec fn insert_sorted(s: Seq<u128>, x: u128, k: spec_fn(u128) -> int) -> Seq<u128>
    decreases s.len(),
{
    if s.len() == 0 {
        seq![x]
    } else if k(s.last()) <= k(x) {
        s.push(x)
    } else {
        insert_sorted(s.drop_last(), x, k).push(s.last())
    }
}

/// The stable sort of `s` by key `k`: elements with equal keys keep their
/// order.
pub open spec fn sort_by_key(s: Seq<u128>, k: spec_fn(u128) -> int) -> Seq<u128>
    decreases s.len(),
{
    if s.len() == 0 {
        s
    } else {
        insert_sorted(sort_by_key(s.drop_last(), k), s.last(), k)
    }
}

pub open spec fn sorted_by(s: Seq<u128>, k: spec_fn(u128) -> int) -> bool {
    forall|i: int, j: int| 0 <= i <= j < s.len() ==> k(s[i]) <= k(s[j])
}

proof fn lemma_insert_at(s: Seq<u128>, x: u128, k: spec_fn(u128) -> int, j: int)
    requires
        0 <= j <= s.len(),
        forall|t: int| j <= t < s.len() ==> k(#[trigger] s[t]) > k(x),
        j > 0 ==> k(s[j - 1]) <= k(x),
    ensures
        insert_sorted(s, x, k) == s.subrange(0, j).push(x) + s.subrange(j, s.len() as int),
    decreases s.len() - j,
{
    if j == s.len() {
        assert(s.subrange(0, j) =~= s);
        assert(s.subrange(j, s.len() as int) =~= Seq::<u128>::empty());
        if s.len() > 0 {
            assert(s.last() == s[j - 1]);
        }
        assert(s.subrange(0, j).push(x) + s.subrange(j, s.len() as int) =~= s.push(x));
    } else {
        let p = s.drop_last();
        assert(k(s.last()) > k(x)) by {
            assert(s.last() == s[s.len() - 1]);
        }
        assert forall|t: int| j <= t < p.len() implies k(#[trigger] p[t]) > k(x) by {
            assert(p[t] == s[t]);
        }
        if j > 0 {
            assert(p[j - 1] == s[j - 1]);
        }
        lemma_insert_at(p, x, k, j);
        assert(p.subrange(0, j) =~= s.subrange(0, j));
        assert((p.subrange(0, j).push(x) + p.subrange(j, p.len() as int)).push(s.last())
            =~= s.subrange(0, j).push(x) + s.subrange(j, s.len() as int));
    }
}

pub proof fn lemma_insert_sorted_sorted(s: Seq<u128>, x: u128, k: spec_fn(u128) -> int)
    requires
        sorted_by(s, k),
    ensures
        sorted_by(insert_sorted(s, x, k), k),
        insert_sorted(s, x, k).to_multiset() == s.to_multiset().insert(x),
    decreases s.len(),
{
    broadcast use vstd::seq_lib::group_to_multiset_ensures;

    if s.len() == 0 {
        assert(seq![x] =~= Seq::<u128>::empty().push(x));
    } else if k(s.last()) <= k(x) {
    } else {
        let p = s.drop_last();
        lemma_insert_sorted_sorted(p, x, k);
        let q = insert_sorted(p, x, k);
        assert(s =~= p.push(s.last()));
        assert forall|i: int, j: int| 0 <= i <= j < q.push(s.last()).len() implies k(
            q.push(s.last())[i],
        ) <= k(q.push(s.last())[j]) by {
            if j == q.len() && i < q.len() {
                // every element of q is x or an element of p, all at most s.last()
                assert(q.contains(q[i]));
                assert(q.to_multiset().count(q[i]) > 0);
                assert(p.to_multiset().insert(x).count(q[i]) > 0);
                if q[i] != x {
                    assert(p.to_multiset().count(q[i]) > 0);
                    assert(p.contains(q[i]));
                    let t = choose|t: int| 0 <= t < p.len() && p[t] == q[i];
                    assert(k(p[t]) <= k(s[s.len() - 1]));
                }
            }
        }
    }
}

pub proof fn lemma_sort_by_key(s: Seq<u128>, k: spec_fn(u128) -> int)
    ensures
        sorted_by(sort_by_key(s, k), k),
        sort_by_key(s, k).to_multiset() == s.to_multiset(),
    decreases s.len(),
{
    broadcast use vstd::seq_lib::group_to_multiset_ensures;

    if s.len() > 0 {
        lemma_sort_by_key(s.drop_last(), k);
        lemma_insert_sorted_sorted(sort_by_key(s.drop_last(), k), s.last(), k);
        assert(s =~= s.drop_last().push(s.last()));
    }
}

/// A sequence of at most one element is its own sort.
pub proof fn lemma_sort_short(s: Seq<u128>, k: spec_fn(u128) -> int)
    requires
        s.len() <= 1,
    ensures
        sort_by_key(s, k) == s,
{
    if s.len() == 1 {
        assert(s.drop_last() =~= Seq::<u128>::empty());
        assert(sort_by_key(s.drop_last(), k) == s.drop_last());
        assert(seq![s.last()] =~= s);
    }
}

/// Sorting a sequence that is already sorted leaves it as it is.
pub proof fn lemma_sort_sorted(s: Seq<u128>, k: spec_fn(u128) -> int)
    requires
        sorted_by(s, k),
    ensures
        sort_by_key(s, k) == s,
    decreases s.len(),
{
    if s.len() > 0 {
        let p = s.drop_last();
        assert(sorted_by(p, k)) by {
            assert forall|i: int, j: int| 0 <= i <= j < p.len() implies k(p[i]) <= k(p[j]) by {
                assert(p[i] == s[i] && p[j] == s[j]);
            }
        }
        lemma_sort_sorted(p, k);
        if p.len() == 0 {
            assert(s =~= seq![s.last()]);
        } else {
            assert(k(p.last()) <= k(s.last())) by {
                assert(p.last() == s[s.len() - 2]);
            }
            assert(p.push(s.last()) =~= s);
        }
    }
}

/// Taking out every occurrence of an element that was not there before it
/// was inserted gives back the sequence.
pub proof fn lemma_insert_sorted_filter(s: Seq<u128>, x: u128, k: spec_fn(u128) -> int)
    requires
        !s.contains(x),
    ensures
        insert_sorted(s, x, k).filter(other_than(x)) == s,
    decreases s.len(),
{
    reveal(Seq::filter);
    let f = other_than(x);
    if s.len() == 0 {
        let r = seq![x];
        assert(r.drop_last() =~= Seq::<u128>::empty());
        assert(r.last() == x);
        assert(!f(x));
        assert(Seq::<u128>::empty().filter(f) =~= Seq::<u128>::empty());
        assert(r.filter(f) == r.drop_last().filter(f));
        assert(s =~= Seq::<u128>::empty());
    } else if k(s.last()) <= k(x) {
        let r = s.push(x);
        assert(r.drop_last() =~= s);
        assert(r.last() == x);
        assert(!f(x));
        assert(s.filter(f) == s) by {
            lemma_filter_all(s, x);
        }
        assert(r.filter(f) == r.drop_last().filter(f));
    } else {
        let p = s.drop_last();
        assert(!p.contains(x)) by {
            if p.contains(x) {
                let i = choose|i: int| 0 <= i < p.len() && p[i] == x;
                assert(s[i] == x);
            }
        }
        lemma_insert_sorted_filter(p, x, k);
        let r = insert_sorted(p, x, k).push(s.last());
        assert(r.drop_last() =~= insert_sorted(p, x, k));
        assert(r.last() == s.last());
        assert(s.last() != x) by {
            assert(s[s.len() - 1] == s.last());
        }
        assert(f(s.last()));
        assert(r.filter(f) == r.drop_last().filter(f).push(r.last()));
        assert(p.push(s.last()) =~= s);
    }
}

proof fn lemma_filter_all(s: Seq<u128>, x: u128)
    requires
        !s.contains(x),
    ensures
        s.filter(other_than(x)) == s,
    decreases s.len(),
{
    reveal(Seq::filter);
    if s.len() > 0 {
        let p = s.drop_last();
        assert(!p.contains(x)) by {
            if p.contains(x) {
                let i = choose|i: int| 0 <= i < p.len() && p[i] == x;
                assert(s[i] == x);
            }
        }
        lemma_filter_all(p, x);
        assert(s.last() != x) by {
            assert(s[s.len() - 1] == s.last());
        }
        assert(other_than(x)(s.last()));
        assert(s.filter(other_than(x)) == p.filter(other_than(x)).push(s.last()));
        assert(p.push(s.last()) =~= s);
    }
}

/// Sorts ids stably by their keys, `keys[t]` being the key of `ids[t]`.
pub(crate) fn stable_sort_ids(ids: &Vec<u128>, keys: &Vec<i128>, Ghost(k): Ghost<spec_fn(u128) -> int>) -> (r: Vec<u128>)
    requires
        keys@.len() == ids@.len(),
        forall|t: int| 0 <= t < ids@.len() ==> keys@[t] == k(#[trigger] ids@[t]),
    ensures
        r@ == sort_by_key(ids@, k),
{
    let mut sorted: Vec<u128> = Vec::new();
    let mut sorted_keys: Vec<i128> = Vec::new();
    let n = ids.len();
    let mut i: usize = 0;
    while i < n
        invariant
            n == ids@.len(),
            keys@.len() == n,
            i <= n,
            forall|t: int| 0 <= t < ids@.len() ==> keys@[t] == k(#[trigger] ids@[t]),
            sorted_keys@.len() == sorted@.len(),
            forall|t: int| 0 <= t < sorted@.len() ==> sorted_keys@[t] == k(#[trigger] sorted@[t]),
            sorted@ == sort_by_key(ids@.subrange(0, i as int), k),
        decreases n - i,
    {
        let x = ids[i];
        let kx = keys[i];
        let mut j = sorted.len();
        while j > 0 && sorted_keys[j - 1] > kx
            invariant
                j <= sorted@.len(),
                sorted_keys@.len() == sorted@.len(),
                forall|t: int| j <= t < sorted@.len() ==> k(#[trigger] sorted@[t]) > kx,
                kx == k(x),
                forall|t: int| 0 <= t < sorted@.len() ==> sorted_keys@[t] == k(#[trigger] sorted@[t]),
            decreases j,
        {
            j = j - 1;
        }
        proof {
            lemma_insert_at(sorted@, x, k, j as int);
            let s = ids@.subrange(0, i + 1);
            assert(s.drop_last() =~= ids@.subrange(0, i as int));
            assert(s.last() == x);
        }
        sorted.insert(j, x);
        sorted_keys.insert(j, kx);
        assert(sorted@ =~= sort_by_key(ids@.subrange(0, i + 1), k));
        i = i + 1;
    }
    assert(ids@.subrange(0, n as int) =~= ids@);
    sorted
}

} // verus!
