use std::collections::{HashMap, HashSet};
use vstd::prelude::*;
use vstd::std_specs::iter::IteratorSpec;

verus! {

broadcast use vstd::std_specs::hash::group_hash_axioms;

/// The keys of a map, each once.
pub fn map_keys<V>(m: &HashMap<u128, V>) -> (r: Vec<u128>)
    ensures
        r@.to_set() == m@.dom(),
        r@.no_duplicates(),
        r@.len() == m@.dom().len(),
{
    let mut r: Vec<u128> = Vec::new();
    let ghost all = m.keys().remaining().unref();
    for k in it: m.keys()
        invariant
            all == it.seq().unref(),
            r@ == all.take(it.index() as int),
    {
        r.push(*k);
        assert(r@ =~= all.take(it.index() + 1));
    }
    proof {
        assert(r@ =~= all);
    }
    r
}

/// The elements of a set, each once.
pub fn set_elements(s: &HashSet<u128>) -> (r: Vec<u128>)
    ensures
        r@.to_set() == s@,
        r@.no_duplicates(),
        r@.len() == s@.len(),
{
    let mut r: Vec<u128> = Vec::new();
    let ghost all = s.iter().remaining().unref();
    for k in it: s.iter()
        invariant
            all == it.seq().unref(),
            r@ == all.take(it.index() as int),
    {
        r.push(*k);
        assert(r@ =~= all.take(it.index() + 1));
    }
    proof {
        assert(r@ =~= all);
    }
    r
}

/// A set with the same elements.
pub fn clone_set(s: &HashSet<u128>) -> (r: HashSet<u128>)
    ensures
        r@ == s@,
{
    let elements = set_elements(s);
    let mut r: HashSet<u128> = HashSet::new();
    let n = elements.len();
    let mut i: usize = 0;
    while i < n
        invariant
            n == elements@.len(),
            i <= n,
            r@ == elements@.take(i as int).to_set(),
        decreases n - i,
    {
        r.insert(elements[i]);
        i = i + 1;
        assert(r@ =~= elements@.take(i as int).to_set()) by {
            assert(elements@.take(i as int) =~= elements@.take(i - 1).push(elements@[i - 1]));
            elements@.take(i - 1).lemma_push_to_set_commute(elements@[i - 1]);
        }
    }
    assert(elements@.take(n as int) =~= elements@);
    r
}

/// A copy of a sequence of ids.
pub fn clone_ids(v: &Vec<u128>) -> (r: Vec<u128>)
    ensures
        r@ == v@,
{
    let mut r: Vec<u128> = Vec::new();
    let n = v.len();
    let mut i: usize = 0;
    while i < n
        invariant
            n == v@.len(),
            i <= n,
            r@ == v@.take(i as int),
        decreases n - i,
    {
        r.push(v[i]);
        i = i + 1;
        assert(r@ =~= v@.take(i as int));
    }
    assert(v@.take(n as int) =~= v@);
    r
}

/// Values that carry a name.
pub trait HasName {
    spec fn name_of(&self) -> Seq<char>;

    fn name_string(&self) -> (r: &String)
        ensures
            r@ == self.name_of(),
    ;
}

/// The id of an entry with the given name, if there is one. When several
/// entries share the name, which of them is found depends on the map's
/// iteration order.
pub fn find_named<'a, V: HasName>(m: &'a HashMap<u128, V>, name: &str) -> (r: Option<&'a u128>)
    ensures
        r matches Some(id) ==> m@.contains_key(*id) && m@[*id].name_of() == name@,
        r is None ==> forall|id: u128| #[trigger] m@.contains_key(id) ==> m@[id].name_of() != name@,
{
    let target = String::from_str(name);
    let ghost all = m.iter().remaining();
    for entry in it: m.iter()
        invariant
            all == it.seq(),
            target@ == name@,
            forall|j: int| 0 <= j < it.index() ==> (#[trigger] all[j]).1.name_of() != name@,
    {
        let (id, v) = entry;
        if *v.name_string() == target {
            return Some(id);
        }
    }
    proof {
        assert forall|id: u128| #[trigger] m@.contains_key(id) implies m@[id].name_of() != name@ by {
            assert(all.contains((&id, &m@[id])));
            let j = choose|j: int| 0 <= j < all.len() && all[j] == (&id, &m@[id]);
            assert(all[j].1.name_of() != name@);
        }
    }
    None
}

/// The elements of a concatenation are those of its two parts.
pub proof fn lemma_concat_to_set<A>(a: Seq<A>, b: Seq<A>)
    ensures
        (a + b).to_set() == a.to_set().union(b.to_set()),
{
    assert forall|x: A| #[trigger] (a + b).to_set().contains(x) <==> a.to_set().union(
        b.to_set(),
    ).contains(x) by {
        if (a + b).contains(x) {
            let j = choose|j: int| 0 <= j < (a + b).len() && (a + b)[j] == x;
            if j < a.len() {
                assert(a[j] == x);
            } else {
                assert(b[j - a.len()] == x);
            }
        }
        if a.contains(x) {
            let j = choose|j: int| 0 <= j < a.len() && a[j] == x;
            assert((a + b)[j] == x);
        }
        if b.contains(x) {
            let j = choose|j: int| 0 <= j < b.len() && b[j] == x;
            assert((a + b)[j + a.len()] == x);
        }
    }
    assert((a + b).to_set() =~= a.to_set().union(b.to_set()));
}

/// What the values of a map give together: the union of `f` over its values.
pub open spec fn union_over<V, R>(m: Map<u128, V>, f: spec_fn(V) -> Set<R>) -> Set<R> {
    Set::new(|r: R| exists|id: u128| #[trigger] m.contains_key(id) && f(m[id]).contains(r))
}

/// The union of `f` over the values at the listed keys.
pub open spec fn union_over_ids<V, R>(m: Map<u128, V>, ids: Seq<u128>, f: spec_fn(V) -> Set<R>) -> Set<R> {
    Set::new(|r: R| exists|j: int| 0 <= j < ids.len() && f(m[#[trigger] ids[j]]).contains(r))
}

/// Taking one more key adds what its value gives.
pub proof fn lemma_union_over_ids_step<V, R>(m: Map<u128, V>, ids: Seq<u128>, i: int, f: spec_fn(V) -> Set<R>)
    requires
        0 <= i < ids.len(),
    ensures
        union_over_ids(m, ids.take(i + 1), f) == union_over_ids(m, ids.take(i), f).union(f(m[ids[i]])),
{
    let a = union_over_ids(m, ids.take(i + 1), f);
    let b = union_over_ids(m, ids.take(i), f).union(f(m[ids[i]]));
    assert forall|r: R| a.contains(r) <==> b.contains(r) by {
        if a.contains(r) {
            let j = choose|j: int| 0 <= j < ids.take(i + 1).len() && f(m[#[trigger] ids.take(i + 1)[j]]).contains(r);
            if j < i {
                assert(ids.take(i)[j] == ids.take(i + 1)[j]);
            }
        }
        if union_over_ids(m, ids.take(i), f).contains(r) {
            let j = choose|j: int| 0 <= j < ids.take(i).len() && f(m[#[trigger] ids.take(i)[j]]).contains(r);
            assert(ids.take(i + 1)[j] == ids.take(i)[j]);
        }
        if f(m[ids[i]]).contains(r) {
            assert(ids.take(i + 1)[i] == ids[i]);
        }
    }
    assert(a =~= b);
}

/// Listing every key of the map, each at least once, gives the union over the map.
pub proof fn lemma_union_over_ids_all<V, R>(m: Map<u128, V>, ids: Seq<u128>, f: spec_fn(V) -> Set<R>)
    requires
        ids.to_set() == m.dom(),
    ensures
        union_over_ids(m, ids, f) == union_over(m, f),
{
    let a = union_over_ids(m, ids, f);
    let b = union_over(m, f);
    assert forall|r: R| a.contains(r) <==> b.contains(r) by {
        if a.contains(r) {
            let j = choose|j: int| 0 <= j < ids.len() && f(m[#[trigger] ids[j]]).contains(r);
            assert(ids.to_set().contains(ids[j]));
            assert(m.contains_key(ids[j]));
        }
        if b.contains(r) {
            let id = choose|id: u128| #[trigger] m.contains_key(id) && f(m[id]).contains(r);
            assert(ids.to_set().contains(id));
            let j = choose|j: int| 0 <= j < ids.len() && ids[j] == id;
            assert(f(m[ids[j]]).contains(r));
        }
    }
    assert(a =~= b);
}

/// The ids other than `id`.
pub open spec fn other_than(id: u128) -> spec_fn(u128) -> bool {
    |k: u128| k != id
}

} // verus!
