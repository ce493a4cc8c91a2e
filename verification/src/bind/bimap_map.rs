use vstd::prelude::*;

use bimap::BiHashMap;

verus! {

#[verifier::external_type_specification]
#[verifier::external_body]
#[verifier::reject_recursive_types(L)]
#[verifier::reject_recursive_types(R)]
#[verifier::reject_recursive_types(LS)]
#[verifier::reject_recursive_types(RS)]
pub struct ExBiHashMap<L, R, LS, RS>(BiHashMap<L, R, LS, RS>);

/// The left-to-right pairs a bimap of strings holds.
pub uninterp spec fn bimap_pairs(m: BiHashMap<String, String>) -> Map<Seq<char>, Seq<char>>;

/// The pairs of an empty bimap.
pub open spec fn no_pairs() -> Map<Seq<char>, Seq<char>> {
    Map::empty()
}

/// No right value is paired with two left values.
pub open spec fn one_to_one(m: Map<Seq<char>, Seq<char>>) -> bool {
    forall|a: Seq<char>, b: Seq<char>|
        #[trigger] m.contains_key(a) && #[trigger] m.contains_key(b) && m[a] == m[b] ==> a == b
}

/// The pairs after `insert(left, right)`: any pair with the same left or the
/// same right value is taken out, then the new pair is put in.
pub open spec fn bimap_inserted(m: Map<Seq<char>, Seq<char>>, left: Seq<char>, right: Seq<char>) -> Map<Seq<char>, Seq<char>> {
    Map::new(
        |k: Seq<char>| k == left || (m.contains_key(k) && m[k] != right),
        |k: Seq<char>| if k == left { right } else { m[k] },
    )
}

/// Calls `BiHashMap::new`: the bimap holds no pair.
#[verifier::external_body]
pub(crate) fn bimap_new() -> (r: BiHashMap<String, String>)
    ensures
        bimap_pairs(r) == no_pairs(),
{
    BiHashMap::new()
}

/// Calls `BiHashMap::get_by_left`: the right value paired with `left`.
#[verifier::external_body]
pub(crate) fn bimap_get_by_left<'a>(m: &'a BiHashMap<String, String>, left: &str) -> (r: Option<&'a String>)
    ensures
        match r {
            Some(v) => bimap_pairs(*m).contains_key(left@) && bimap_pairs(*m)[left@] == v@,
            None => !bimap_pairs(*m).contains_key(left@),
        },
{
    m.get_by_left(left)
}

/// Calls `BiHashMap::get_by_right`: the left value paired with `right`.
#[verifier::external_body]
pub(crate) fn bimap_get_by_right<'a>(m: &'a BiHashMap<String, String>, right: &str) -> (r: Option<&'a String>)
    ensures
        match r {
            Some(l) => bimap_pairs(*m).contains_key(l@) && bimap_pairs(*m)[l@] == right@,
            None => forall|l: Seq<char>|
                #[trigger] bimap_pairs(*m).contains_key(l) ==> bimap_pairs(*m)[l] != right@,
        },
{
    m.get_by_right(right)
}

/// Calls `BiHashMap::contains_left`.
#[verifier::external_body]
pub(crate) fn bimap_contains_left(m: &BiHashMap<String, String>, left: &str) -> (r: bool)
    ensures
        r == bimap_pairs(*m).contains_key(left@),
{
    m.contains_left(left)
}

/// Calls `BiHashMap::insert`; what it returns of the pairs it overwrote is
/// dropped.
#[verifier::external_body]
pub(crate) fn bimap_insert(m: &mut BiHashMap<String, String>, left: String, right: String)
    ensures
        bimap_pairs(*final(m)) == bimap_inserted(bimap_pairs(*old(m)), left@, right@),
{
    m.insert(left, right);
}

/// Calls `BiHashMap::iter` and copies out each pair, in the order of the
/// iteration (the order of the underlying hash map, which nothing fixes):
/// every pair once.
#[verifier::external_body]
pub(crate) fn bimap_entries(m: &BiHashMap<String, String>) -> (r: Vec<(String, String)>)
    ensures
        forall|i: int|
            0 <= i < r@.len() ==> bimap_pairs(*m).contains_key((#[trigger] r@[i]).0@)
                && bimap_pairs(*m)[r@[i].0@] == r@[i].1@,
        forall|i: int, j: int| 0 <= i < j < r@.len() ==> (#[trigger] r@[i]).0@ != (#[trigger] r@[j]).0@,
        forall|l: Seq<char>|
            #[trigger] bimap_pairs(*m).contains_key(l) ==> exists|i: int|
                0 <= i < r@.len() && (#[trigger] r@[i]).0@ == l,
{
    m.iter().map(|(l, r)| (l.clone(), r.clone())).collect()
}

} // verus!
