use vstd::prelude::*;

use super::generate::{lemma_split_nonempty, split_underscores, split_underscores_of};
use super::schema::Schema;
use crate::text::join;

verus! {

/// Definitions grouped by the pieces of their names: `a_b_c` stands in the
/// scope `a`, then its child `b`, under the name `c`.
pub struct Scope {
    pub definitions: Vec<(String, Schema)>,
    pub children: Vec<(String, Scope)>,
}

/// What a scope holds: its definitions and its child scopes, each under its
/// name.
pub struct ScopeView {
    pub definitions: Seq<(Seq<char>, Schema)>,
    pub children: Seq<(Seq<char>, ScopeView)>,
}

/// The view of a scope.
pub open spec fn scope_view(s: Scope) -> ScopeView
    decreases s,
{
    ScopeView {
        definitions: s.definitions@.map_values(|e: (String, Schema)| (e.0@, e.1)),
        children: children_view(s.children@),
    }
}

/// The view of a list of child scopes.
pub open spec fn children_view(cs: Seq<(String, Scope)>) -> Seq<(Seq<char>, ScopeView)>
    decreases cs,
{
    if cs.len() == 0 {
        Seq::empty()
    } else {
        children_view(cs.drop_last()).push((cs.last().0@, scope_view(cs.last().1)))
    }
}


/// Whether some entry has the key.
pub open spec fn has_key<V>(es: Seq<(Seq<char>, V)>, k: Seq<char>) -> bool {
    exists|i: int| 0 <= i < es.len() && (#[trigger] es[i]).0 == k
}

/// The position of the first entry with the key.
pub open spec fn key_position<V>(es: Seq<(Seq<char>, V)>, k: Seq<char>) -> int {
    choose|i: int|
        0 <= i < es.len() && (#[trigger] es[i]).0 == k && forall|j: int|
            0 <= j < i ==> es[j].0 != k
}

/// The value of the first entry with the key, if any.
pub open spec fn lookup_entry<V>(es: Seq<(Seq<char>, V)>, k: Seq<char>) -> Option<V> {
    if has_key(es, k) {
        Some(es[key_position(es, k)].1)
    } else {
        None
    }
}

/// The entries with the value put in: over the first entry with the key, or
/// at the end.
pub open spec fn set_entry<V>(es: Seq<(Seq<char>, V)>, k: Seq<char>, v: V) -> Seq<(Seq<char>, V)> {
    if has_key(es, k) {
        es.update(key_position(es, k), (k, v))
    } else {
        es.push((k, v))
    }
}

/// A scope with nothing in it.
pub open spec fn empty_scope() -> ScopeView {
    ScopeView { definitions: Seq::empty(), children: Seq::empty() }
}

/// The child scope with the name, or an empty scope where there is none.
pub open spec fn child_or_empty(s: ScopeView, k: Seq<char>) -> ScopeView {
    match lookup_entry(s.children, k) {
        Some(c) => c,
        None => empty_scope(),
    }
}

/// The scope reached from `s` by following the child names of `path`.
pub open spec fn scope_at(s: ScopeView, path: Seq<Seq<char>>) -> Option<ScopeView>
    decreases path.len(),
{
    if path.len() == 0 {
        Some(s)
    } else {
        match lookup_entry(s.children, path[0]) {
            Some(c) => scope_at(c, path.drop_first()),
            None => None,
        }
    }
}

/// The scope at `path`, or an empty scope where there is none.
pub open spec fn scope_or_empty(s: ScopeView, path: Seq<Seq<char>>) -> ScopeView {
    match scope_at(s, path) {
        Some(c) => c,
        None => empty_scope(),
    }
}

/// The definition named `leaf` in the scope at `path`, if any.
pub open spec fn defined_at(s: ScopeView, path: Seq<Seq<char>>, leaf: Seq<char>) -> Option<Schema> {
    match scope_at(s, path) {
        Some(c) => lookup_entry(c.definitions, leaf),
        None => None,
    }
}

/// `s` with the scope at `path` replaced by `t`, the scopes on the way
/// made where they are missing.
pub open spec fn put_scope(s: ScopeView, path: Seq<Seq<char>>, t: ScopeView) -> ScopeView
    decreases path.len(),
{
    if path.len() == 0 {
        t
    } else {
        ScopeView {
            definitions: s.definitions,
            children: set_entry(
                s.children,
                path[0],
                put_scope(child_or_empty(s, path[0]), path.drop_first(), t),
            ),
        }
    }
}

/// `s` with the definition `d` put under `leaf` in the scope at `path`.
pub open spec fn with_definition(s: ScopeView, path: Seq<Seq<char>>, leaf: Seq<char>, d: Schema) -> ScopeView {
    let inner = scope_or_empty(s, path);
    put_scope(
        s,
        path,
        ScopeView { definitions: set_entry(inner.definitions, leaf, d), children: inner.children },
    )
}

/// The views of a list of strings.
pub open spec fn pieces(parts: Seq<String>) -> Seq<Seq<char>> {
    parts.map_values(|p: String| p@)
}

/// The schema of the last definition whose name splits at its underscores
/// into `parts`, if any.
pub open spec fn last_defined(defs: Seq<(String, Schema)>, parts: Seq<Seq<char>>) -> Option<Schema>
    decreases defs.len(),
{
    if defs.len() == 0 {
        None
    } else if split_underscores(defs.last().0@) == parts {
        Some(defs.last().1)
    } else {
        last_defined(defs.drop_last(), parts)
    }
}

/// Whether `a` is a prefix of `b`.
pub open spec fn is_prefix(a: Seq<Seq<char>>, b: Seq<Seq<char>>) -> bool {
    a.len() <= b.len() && forall|i: int| 0 <= i < a.len() ==> a[i] == b[i]
}

proof fn lemma_first_key<V>(es: Seq<(Seq<char>, V)>, k: Seq<char>)
    requires
        has_key(es, k),
    ensures
        0 <= key_position(es, k) < es.len(),
        es[key_position(es, k)].0 == k,
        forall|j: int| 0 <= j < key_position(es, k) ==> es[j].0 != k,
    decreases es.len(),
{
    let init = es.drop_last();
    let p: int;
    if has_key(init, k) {
        lemma_first_key(init, k);
        p = key_position(init, k);
        assert forall|j: int| 0 <= j < p implies es[j].0 != k by {
            assert(init[j] == es[j]);
        }
    } else {
        p = es.len() - 1;
        assert forall|j: int| 0 <= j < p implies es[j].0 != k by {
            assert(init[j] == es[j]);
        }
    }
    assert(0 <= p < es.len() && es[p].0 == k && forall|j: int| 0 <= j < p ==> es[j].0 != k);
}

proof fn lemma_set_entry<V>(es: Seq<(Seq<char>, V)>, k: Seq<char>, v: V, k2: Seq<char>)
    ensures
        lookup_entry(set_entry(es, k, v), k2) == if k2 == k {
            Some(v)
        } else {
            lookup_entry(es, k2)
        },
{
    let r = set_entry(es, k, v);
    if has_key(es, k) {
        lemma_first_key(es, k);
        let p = key_position(es, k);
        assert(r[p].0 == k);
        if has_key(r, k2) {
            lemma_first_key(r, k2);
        }
        if has_key(es, k2) {
            lemma_first_key(es, k2);
        }
        if k2 != k {
            if has_key(es, k2) {
                let q = key_position(es, k2);
                assert(r[q].0 == k2);
            }
            if has_key(r, k2) {
                let q = key_position(r, k2);
                assert(es[q].0 == k2);
            }
        }
    } else {
        assert(r[es.len() as int].0 == k);
        if has_key(r, k2) {
            lemma_first_key(r, k2);
        }
        if has_key(es, k2) {
            lemma_first_key(es, k2);
            let q = key_position(es, k2);
            assert(r[q].0 == k2);
        }
        if k2 != k && has_key(r, k2) {
            let q = key_position(r, k2);
            assert(es[q].0 == k2);
        }
    }
}

proof fn lemma_empty_defines_nothing(p: Seq<Seq<char>>, l: Seq<char>)
    ensures
        defined_at(empty_scope(), p, l) is None,
{
    if p.len() > 0 {
        assert(!has_key(empty_scope().children, p[0]));
    }
    assert(!has_key(empty_scope().definitions, l));
}

proof fn lemma_scope_at_concat(s: ScopeView, a: Seq<Seq<char>>, b: Seq<Seq<char>>)
    ensures
        scope_at(s, a + b) == match scope_at(s, a) {
            Some(c) => scope_at(c, b),
            None => None,
        },
    decreases a.len(),
{
    if a.len() == 0 {
        assert(a + b =~= b);
    } else {
        assert((a + b)[0] == a[0]);
        assert((a + b).drop_first() =~= a.drop_first() + b);
        match lookup_entry(s.children, a[0]) {
            Some(c) => lemma_scope_at_concat(c, a.drop_first(), b),
            None => {},
        }
    }
}

proof fn lemma_put_scope(s: ScopeView, path: Seq<Seq<char>>, t: ScopeView, p: Seq<Seq<char>>, l: Seq<char>)
    ensures
        defined_at(put_scope(s, path, t), p, l) == if is_prefix(path, p) {
            defined_at(t, p.skip(path.len() as int), l)
        } else {
            defined_at(s, p, l)
        },
    decreases path.len(),
{
    if path.len() == 0 {
        assert(p.skip(0) =~= p);
    } else if p.len() == 0 {
    } else {
        let h = path[0];
        let rest = path.drop_first();
        let c0 = child_or_empty(s, h);
        let x = put_scope(c0, rest, t);
        let q = p[0];
        let prest = p.drop_first();
        lemma_set_entry(s.children, h, x, q);
        if q == h {
            lemma_put_scope(c0, rest, t, prest, l);
            assert(is_prefix(path, p) <==> is_prefix(rest, prest)) by {
                if is_prefix(rest, prest) {
                    assert forall|i: int| 0 <= i < path.len() implies path[i] == p[i] by {
                        if i > 0 {
                            assert(path[i] == rest[i - 1]);
                            assert(p[i] == prest[i - 1]);
                        }
                    }
                }
                if is_prefix(path, p) {
                    assert forall|i: int| 0 <= i < rest.len() implies rest[i] == prest[i] by {
                        assert(path[i + 1] == p[i + 1]);
                    }
                }
            }
            if is_prefix(path, p) {
                assert(p.skip(path.len() as int) =~= prest.skip(rest.len() as int));
            }
            if lookup_entry(s.children, h) is None {
                lemma_empty_defines_nothing(prest, l);
            }
        } else {
            assert(!is_prefix(path, p));
        }
    }
}

proof fn lemma_prefix_step(a: Seq<Seq<char>>, b: Seq<Seq<char>>)
    requires
        a.len() > 0,
        b.len() > 0,
        a[0] == b[0],
    ensures
        is_prefix(a, b) <==> is_prefix(a.drop_first(), b.drop_first()),
        is_prefix(b, a) <==> is_prefix(b.drop_first(), a.drop_first()),
        b.len() <= a.len() ==> a.skip(b.len() as int) == a.drop_first().skip(b.len() - 1),
{
    let a1 = a.drop_first();
    let b1 = b.drop_first();
    if b.len() <= a.len() {
        assert(a.skip(b.len() as int) =~= a1.skip(b.len() - 1));
    }
    if is_prefix(a1, b1) {
        assert forall|i: int| 0 <= i < a.len() implies a[i] == b[i] by {
            if i > 0 {
                assert(a[i] == a1[i - 1] && b[i] == b1[i - 1]);
            }
        }
    }
    if is_prefix(a, b) {
        assert forall|i: int| 0 <= i < a1.len() implies a1[i] == b1[i] by {
            assert(a[i + 1] == b[i + 1]);
        }
    }
    if is_prefix(b1, a1) {
        assert forall|i: int| 0 <= i < b.len() implies b[i] == a[i] by {
            if i > 0 {
                assert(a[i] == a1[i - 1] && b[i] == b1[i - 1]);
            }
        }
    }
    if is_prefix(b, a) {
        assert forall|i: int| 0 <= i < b1.len() implies b1[i] == a1[i] by {
            assert(a[i + 1] == b[i + 1]);
        }
    }
}

proof fn lemma_put_scope_at(s: ScopeView, path: Seq<Seq<char>>, t: ScopeView, p: Seq<Seq<char>>)
    ensures
        scope_at(put_scope(s, path, t), p) is Some ==> scope_at(s, p) is Some || is_prefix(p, path) || (
        is_prefix(path, p) && scope_at(t, p.skip(path.len() as int)) is Some),
    decreases path.len(),
{
    if path.len() == 0 {
        assert(p.skip(0) =~= p);
    } else if p.len() == 0 {
    } else {
        let h = path[0];
        let rest = path.drop_first();
        let c0 = child_or_empty(s, h);
        let x = put_scope(c0, rest, t);
        let prest = p.drop_first();
        lemma_set_entry(s.children, h, x, p[0]);
        if p[0] == h {
            lemma_put_scope_at(c0, rest, t, prest);
            lemma_prefix_step(p, path);
            if lookup_entry(s.children, h) is None && prest.len() > 0 {
                assert(!has_key(empty_scope().children, prest[0]));
            }
        }
    }
}

/// Whether no two entries have the same key.
pub open spec fn keys_unique<V>(es: Seq<(Seq<char>, V)>) -> bool {
    forall|i: int, j: int| 0 <= i < j < es.len() ==> es[i].0 != es[j].0
}

/// Whether no name occurs twice among the definitions, nor among the child
/// scopes, of the scope or of any scope under it.
pub open spec fn scope_wf(s: ScopeView) -> bool
    decreases s,
{
    keys_unique(s.definitions) && keys_unique(s.children) && children_wf(s.children)
}

/// Whether every child scope in the list is well formed.
pub open spec fn children_wf(cs: Seq<(Seq<char>, ScopeView)>) -> bool
    decreases cs,
{
    cs.len() == 0 || (children_wf(cs.drop_last()) && scope_wf(cs.last().1))
}

proof fn lemma_children_wf(cs: Seq<(Seq<char>, ScopeView)>)
    ensures
        children_wf(cs) <==> forall|i: int| 0 <= i < cs.len() ==> scope_wf(#[trigger] cs[i].1),
    decreases cs.len(),
{
    if cs.len() > 0 {
        let init = cs.drop_last();
        lemma_children_wf(init);
        if forall|i: int| 0 <= i < cs.len() ==> scope_wf(#[trigger] cs[i].1) {
            assert forall|i: int| 0 <= i < init.len() implies scope_wf(#[trigger] init[i].1) by {
                assert(init[i] == cs[i]);
            }
            assert(scope_wf(cs[cs.len() - 1].1));
        }
        if children_wf(cs) {
            assert forall|i: int| 0 <= i < cs.len() implies scope_wf(#[trigger] cs[i].1) by {
                if i < cs.len() - 1 {
                    assert(init[i] == cs[i]);
                }
            }
        }
    }
}

proof fn lemma_set_entry_unique<V>(es: Seq<(Seq<char>, V)>, k: Seq<char>, v: V)
    requires
        keys_unique(es),
    ensures
        keys_unique(set_entry(es, k, v)),
{
    let r = set_entry(es, k, v);
    if has_key(es, k) {
        lemma_first_key(es, k);
        assert forall|i: int, j: int| 0 <= i < j < r.len() implies r[i].0 != r[j].0 by {
            assert(r[i].0 == es[i].0 && r[j].0 == es[j].0);
        }
    } else {
        assert forall|i: int, j: int| 0 <= i < j < r.len() implies r[i].0 != r[j].0 by {
            if j == es.len() {
                assert(r[i] == es[i]);
            }
        }
    }
}

proof fn lemma_lookup_wf(cs: Seq<(Seq<char>, ScopeView)>, k: Seq<char>)
    requires
        children_wf(cs),
    ensures
        lookup_entry(cs, k) matches Some(c) ==> scope_wf(c),
{
    lemma_children_wf(cs);
    if has_key(cs, k) {
        lemma_first_key(cs, k);
    }
}

proof fn lemma_scope_at_wf(s: ScopeView, path: Seq<Seq<char>>)
    requires
        scope_wf(s),
    ensures
        scope_at(s, path) matches Some(c) ==> scope_wf(c),
    decreases path.len(),
{
    if path.len() > 0 {
        lemma_lookup_wf(s.children, path[0]);
        match lookup_entry(s.children, path[0]) {
            Some(c) => lemma_scope_at_wf(c, path.drop_first()),
            None => {},
        }
    }
}

proof fn lemma_empty_wf()
    ensures
        scope_wf(empty_scope()),
{
    assert(children_wf(empty_scope().children));
}

proof fn lemma_put_scope_wf(s: ScopeView, path: Seq<Seq<char>>, t: ScopeView)
    requires
        scope_wf(s),
        scope_wf(t),
    ensures
        scope_wf(put_scope(s, path, t)),
    decreases path.len(),
{
    if path.len() > 0 {
        let h = path[0];
        let c0 = child_or_empty(s, h);
        lemma_lookup_wf(s.children, h);
        lemma_empty_wf();
        lemma_put_scope_wf(c0, path.drop_first(), t);
        let x = put_scope(c0, path.drop_first(), t);
        let cs = set_entry(s.children, h, x);
        lemma_set_entry_unique(s.children, h, x);
        lemma_children_wf(s.children);
        assert forall|i: int| 0 <= i < cs.len() implies scope_wf(#[trigger] cs[i].1) by {
            if has_key(s.children, h) {
                lemma_first_key(s.children, h);
                if i != key_position(s.children, h) {
                    assert(cs[i] == s.children[i]);
                }
            } else if i < s.children.len() {
                assert(cs[i] == s.children[i]);
            }
        }
        lemma_children_wf(cs);
    }
}

/// Putting a definition into a well formed scope tree keeps it well formed.
pub proof fn lemma_with_definition_wf(s: ScopeView, path: Seq<Seq<char>>, leaf: Seq<char>, d: Schema)
    requires
        scope_wf(s),
    ensures
        scope_wf(with_definition(s, path, leaf, d)),
{
    let inner = scope_or_empty(s, path);
    lemma_scope_at_wf(s, path);
    lemma_empty_wf();
    let t = ScopeView { definitions: set_entry(inner.definitions, leaf, d), children: inner.children };
    lemma_set_entry_unique(inner.definitions, leaf, d);
    lemma_put_scope_wf(s, path, t);
}

/// Putting a definition into a scope tree adds no scope but those on the
/// way to it.
pub proof fn lemma_with_definition_scopes(
    s: ScopeView,
    path: Seq<Seq<char>>,
    leaf: Seq<char>,
    d: Schema,
    p: Seq<Seq<char>>,
)
    ensures
        scope_at(with_definition(s, path, leaf, d), p) is Some ==> scope_at(s, p) is Some || is_prefix(
            p,
            path,
        ),
{
    let inner = scope_or_empty(s, path);
    let t = ScopeView { definitions: set_entry(inner.definitions, leaf, d), children: inner.children };
    lemma_put_scope_at(s, path, t, p);
    if is_prefix(path, p) {
        let q = p.skip(path.len() as int);
        assert(p =~= path + q);
        lemma_scope_at_concat(s, path, q);
        if q.len() == 0 {
            assert(p =~= path);
        } else {
            assert(scope_at(t, q) == scope_at(inner, q));
            if scope_at(s, path) is None {
                assert(!has_key(empty_scope().children, q[0]));
            }
        }
    }
}

/// Putting a definition into a scope tree changes what is defined at that
/// place and nowhere else.
pub proof fn lemma_with_definition(
    s: ScopeView,
    path: Seq<Seq<char>>,
    leaf: Seq<char>,
    d: Schema,
    p: Seq<Seq<char>>,
    l: Seq<char>,
)
    ensures
        defined_at(with_definition(s, path, leaf, d), p, l) == if p == path && l == leaf {
            Some(d)
        } else {
            defined_at(s, p, l)
        },
{
    let inner = scope_or_empty(s, path);
    let t = ScopeView { definitions: set_entry(inner.definitions, leaf, d), children: inner.children };
    lemma_put_scope(s, path, t, p, l);
    if is_prefix(path, p) {
        let p2 = p.skip(path.len() as int);
        assert(p =~= path + p2);
        lemma_scope_at_concat(s, path, p2);
        lemma_set_entry(inner.definitions, leaf, d, l);
        if p2.len() > 0 {
            assert(scope_at(t, p2) == scope_at(inner, p2));
        }
        if scope_at(s, path) is None {
            lemma_empty_defines_nothing(p2, l);
        }
        if p2.len() == 0 {
            assert(p =~= path);
        }
    } else {
        assert(p != path);
    }
}

proof fn lemma_children_view(cs: Seq<(String, Scope)>)
    ensures
        children_view(cs).len() == cs.len(),
        forall|j: int|
            0 <= j < cs.len() ==> #[trigger] children_view(cs)[j] == (cs[j].0@, scope_view(cs[j].1)),
    decreases cs.len(),
{
    if cs.len() > 0 {
        lemma_children_view(cs.drop_last());
    }
}

/// The view of a list of child scopes has, at each place, the child's name
/// and the view of its scope.
pub proof fn lemma_children_view_facts(cs: Seq<(String, Scope)>)
    ensures
        children_view(cs).len() == cs.len(),
        forall|j: int|
            0 <= j < cs.len() ==> #[trigger] children_view(cs)[j] == (cs[j].0@, scope_view(cs[j].1)),
{
    lemma_children_view(cs);
}

proof fn lemma_children_view_eq(a: Seq<(String, Scope)>, b: Seq<(Seq<char>, ScopeView)>)
    requires
        a.len() == b.len(),
        forall|j: int| 0 <= j < a.len() ==> #[trigger] b[j] == (a[j].0@, scope_view(a[j].1)),
    ensures
        children_view(a) == b,
{
    lemma_children_view(a);
    assert(children_view(a) =~= b);
}

/// An empty scope.
fn new_scope() -> (r: Scope)
    ensures
        scope_view(r) == empty_scope(),
{
    let r = Scope { definitions: Vec::new(), children: Vec::new() };
    proof {
        assert(scope_view(r).definitions =~= Seq::<(Seq<char>, Schema)>::empty());
        assert(scope_view(r).children =~= Seq::<(Seq<char>, ScopeView)>::empty());
    }
    r
}

/// The position of the first definition named `name`, if any.
fn find_definition(defs: &Vec<(String, Schema)>, name: &String) -> (r: Option<usize>)
    ensures
        ({
            let v = defs@.map_values(|e: (String, Schema)| (e.0@, e.1));
            match r {
                Some(i) => has_key(v, name@) && i == key_position(v, name@),
                None => !has_key(v, name@),
            }
        }),
{
    let ghost v = defs@.map_values(|e: (String, Schema)| (e.0@, e.1));
    let n = defs.len();
    let mut i: usize = 0;
    while i < n
        invariant
            n == defs@.len(),
            v == defs@.map_values(|e: (String, Schema)| (e.0@, e.1)),
            i <= n,
            forall|j: int| 0 <= j < i ==> (#[trigger] v[j]).0 != name@,
        decreases n - i,
    {
        if defs[i].0 == *name {
            proof {
                assert(v[i as int].0 == name@);
                lemma_first_key(v, name@);
                let k = key_position(v, name@);
                if k < i {
                    assert(v[k].0 != name@);
                }
            }
            return Some(i);
        }
        i = i + 1;
    }
    proof {
        assert forall|j: int| 0 <= j < v.len() implies (#[trigger] v[j]).0 != name@ by {}
    }
    None
}

/// The position of the first child scope named `name`, if any.
fn find_child(children: &Vec<(String, Scope)>, name: &String) -> (r: Option<usize>)
    ensures
        ({
            let v = children_view(children@);
            match r {
                Some(i) => has_key(v, name@) && i == key_position(v, name@),
                None => !has_key(v, name@),
            }
        }),
{
    let ghost v = children_view(children@);
    proof {
        lemma_children_view(children@);
    }
    let n = children.len();
    let mut i: usize = 0;
    while i < n
        invariant
            n == children@.len(),
            v == children_view(children@),
            v.len() == n,
            forall|j: int| 0 <= j < n ==> #[trigger] v[j] == (children@[j].0@, scope_view(children@[j].1)),
            i <= n,
            forall|j: int| 0 <= j < i ==> (#[trigger] v[j]).0 != name@,
        decreases n - i,
    {
        if children[i].0 == *name {
            proof {
                assert(v[i as int].0 == name@);
                lemma_first_key(v, name@);
                let k = key_position(v, name@);
                if k < i {
                    assert(v[k].0 != name@);
                }
            }
            return Some(i);
        }
        i = i + 1;
    }
    proof {
        assert forall|j: int| 0 <= j < v.len() implies (#[trigger] v[j]).0 != name@ by {}
    }
    None
}

/// Puts `definition` under `leaf` in the scope reached by the names
/// `parts[from..]`, making the scopes on the way where they are missing.
fn define_in_scope(root: &mut Scope, parts: &Vec<String>, from: usize, leaf: String, definition: Schema)
    requires
        from <= parts@.len(),
    ensures
        scope_view(*final(root)) == with_definition(
            scope_view(*old(root)),
            pieces(parts@).skip(from as int),
            leaf@,
            definition,
        ),
    decreases parts@.len() - from,
{
    let ghost s = scope_view(*root);
    let ghost path = pieces(parts@).skip(from as int);
    if from == parts.len() {
        proof {
            assert(path =~= Seq::<Seq<char>>::empty());
        }
        let ghost v = root.definitions@.map_values(|e: (String, Schema)| (e.0@, e.1));
        match find_definition(&root.definitions, &leaf) {
            Some(i) => {
                proof {
                    lemma_first_key(v, leaf@);
                }
                root.definitions.set(i, (leaf, definition));
            },
            None => {
                root.definitions.push((leaf, definition));
            },
        }
        proof {
            assert(root.definitions@.map_values(|e: (String, Schema)| (e.0@, e.1)) =~= set_entry(
                v,
                leaf@,
                definition,
            ));
        }
    } else {
        let name = parts[from].clone();
        let ghost k = name@;
        proof {
            assert(path[0] == k);
            assert(path.drop_first() =~= pieces(parts@).skip(from + 1));
            lemma_children_view(root.children@);
        }
        let ghost cs0 = root.children@;
        let idx = match find_child(&root.children, &name) {
            Some(i) => i,
            None => {
                let e = new_scope();
                root.children.push((name, e));
                root.children.len() - 1
            },
        };
        let ghost cs1 = root.children@;
        proof {
            lemma_children_view(cs1);
            if has_key(s.children, k) {
                lemma_first_key(s.children, k);
            }
            assert(scope_view(cs1[idx as int].1) == child_or_empty(s, k));
        }
        let (child_name, mut child) = root.children.remove(idx);
        define_in_scope(&mut child, parts, from + 1, leaf, definition);
        root.children.insert(idx, (child_name, child));
        proof {
            let inner = scope_or_empty(s, path);
            let c0 = child_or_empty(s, k);
            let rest = path.drop_first();
            assert(scope_or_empty(s, path) == scope_or_empty(c0, rest)) by {
                if lookup_entry(s.children, k) is None && rest.len() > 0 {
                    assert(!has_key(empty_scope().children, rest[0]));
                }
            }
            let x = with_definition(c0, rest, leaf@, definition);
            assert(root.children@ =~= cs1.update(idx as int, (cs1[idx as int].0, child)));
            let target = set_entry(s.children, k, x);
            assert forall|j: int| 0 <= j < root.children@.len() implies #[trigger] target[j] == (
                root.children@[j].0@,
                scope_view(root.children@[j].1),
            ) by {
                if has_key(s.children, k) {
                    if j != idx {
                        assert(target[j] == s.children[j]);
                    }
                }
            }
            lemma_children_view_eq(root.children@, target);
        }
    }
}

/// Joining the pieces of a name gives the name back, so two names with the
/// same pieces are the same name.
pub proof fn lemma_join_split(s: Seq<char>)
    ensures
        join(split_underscores(s), seq!['_']) == s,
    decreases s.len(),
{
    if s.len() > 0 {
        let t = s.drop_last();
        let r = split_underscores(t);
        lemma_join_split(t);
        lemma_split_nonempty(t);
        let u = split_underscores(s);
        if s.last() == '_' {
            assert(u.drop_last() =~= r);
            assert(u.last() =~= Seq::<char>::empty());
            assert(s =~= t + seq!['_'] + Seq::<char>::empty());
        } else {
            if r.len() == 1 {
                assert(s =~= t.push(s.last()));
            } else {
                assert(u.drop_last() =~= r.drop_last());
                assert(join(r, seq!['_']) == join(r.drop_last(), seq!['_']) + seq!['_'] + r.last());
                let a = join(r.drop_last(), seq!['_']) + seq!['_'];
                assert(s =~= t.push(s.last()));
                assert((a + r.last()).push(s.last()) =~= a + r.last().push(s.last()));
                assert(u.last() == r.last().push(s.last()));
            }
        }
    }
}

/// Whether `p` leads to, or along the way to, the scope of some
/// definition.
pub open spec fn on_some_path(defs: Seq<(String, Schema)>, p: Seq<Seq<char>>) -> bool {
    exists|j: int| 0 <= j < defs.len() && is_prefix(p, (#[trigger] split_underscores(defs[j].0@)).drop_last())
}

/// Whether no two definitions have the same name.
pub open spec fn names_unique(defs: Seq<(String, Schema)>) -> bool {
    forall|i: int, j: int| 0 <= i < j < defs.len() ==> defs[i].0@ != defs[j].0@
}

proof fn lemma_last_defined_unique(defs: Seq<(String, Schema)>, i: int)
    requires
        names_unique(defs),
        0 <= i < defs.len(),
    ensures
        last_defined(defs, split_underscores(defs[i].0@)) == Some(defs[i].1),
    decreases defs.len(),
{
    let last = defs.len() - 1;
    if i < last {
        lemma_join_split(defs[i].0@);
        lemma_join_split(defs[last].0@);
        assert(split_underscores(defs[last].0@) != split_underscores(defs[i].0@));
        assert(defs.drop_last()[i] == defs[i]);
        lemma_last_defined_unique(defs.drop_last(), i);
    }
}

/// Groups definitions into scopes by the pieces of their names between
/// underscores: all but the last piece lead to the scope, the last names the
/// definition in it. A later definition whose name splits the same way
/// takes the place of an earlier one.
pub fn rescope(definitions: Vec<(String, Schema)>) -> (r: Scope)
    ensures
        forall|p: Seq<Seq<char>>, l: Seq<char>|
            #[trigger] defined_at(scope_view(r), p, l) == last_defined(definitions@, p.push(l)),
        forall|p: Seq<Seq<char>>|
            p.len() > 0 && (#[trigger] scope_at(scope_view(r), p)) is Some ==> on_some_path(definitions@, p),
        scope_wf(scope_view(r)),
        names_unique(definitions@) ==> forall|i: int|
            0 <= i < definitions@.len() ==> defined_at(
                scope_view(r),
                split_underscores(#[trigger] definitions@[i].0@).drop_last(),
                split_underscores(definitions@[i].0@).last(),
            ) == Some(definitions@[i].1),
{
    let ghost all = definitions@;
    let mut root = new_scope();
    let mut rest = definitions;
    let n = rest.len();
    let mut taken: usize = 0;
    proof {
        assert forall|p: Seq<Seq<char>>, l: Seq<char>|
            #[trigger] defined_at(scope_view(root), p, l) == last_defined(all.take(0), p.push(l)) by {
            lemma_empty_defines_nothing(p, l);
        }
        assert forall|p: Seq<Seq<char>>|
            p.len() > 0 && (#[trigger] scope_at(scope_view(root), p)) is Some implies on_some_path(
                all.take(0),
                p,
            ) by {
            assert(!has_key(empty_scope().children, p[0]));
        }
        lemma_empty_wf();
    }
    while rest.len() > 0
        invariant
            taken + rest@.len() == n,
            n == all.len(),
            rest@ == all.subrange(taken as int, n as int),
            forall|p: Seq<Seq<char>>, l: Seq<char>|
                #[trigger] defined_at(scope_view(root), p, l) == last_defined(all.take(taken as int), p.push(l)),
            forall|p: Seq<Seq<char>>|
                p.len() > 0 && (#[trigger] scope_at(scope_view(root), p)) is Some ==> on_some_path(
                    all.take(taken as int),
                    p,
                ),
            scope_wf(scope_view(root)),
        decreases rest@.len(),
    {
        let (name, schema) = rest.remove(0);
        let mut parts = split_underscores_of(name.as_str());
        proof {
            lemma_split_nonempty(name@);
        }
        let ghost whole = pieces(parts@);
        let leaf = parts.pop().unwrap();
        let ghost leaf_v = leaf@;
        let ghost schema_v = schema;
        let ghost path = pieces(parts@);
        let ghost before = scope_view(root);
        proof {
            assert(path =~= whole.drop_last());
            assert(whole =~= path.push(leaf_v));
            assert(pieces(parts@).skip(0) =~= path);
            assert(rest@ =~= all.subrange(taken + 1, n as int));
        }
        define_in_scope(&mut root, &parts, 0, leaf, schema);
        proof {
            lemma_with_definition_wf(before, path, leaf_v, schema_v);
            let done = all.take(taken + 1);
            assert(done.drop_last() =~= all.take(taken as int));
            assert(done.last() == (name, schema_v));
            assert(whole == split_underscores(name@));
            assert forall|p: Seq<Seq<char>>, l: Seq<char>|
                #[trigger] defined_at(scope_view(root), p, l) == last_defined(done, p.push(l)) by {
                lemma_with_definition(before, path, leaf_v, schema_v, p, l);
                assert(defined_at(before, p, l) == last_defined(all.take(taken as int), p.push(l)));
                if split_underscores(name@) == p.push(l) {
                    assert(p =~= p.push(l).drop_last());
                    assert(path =~= whole.drop_last());
                    assert(p == path);
                    assert(l == p.push(l).last());
                    assert(l == leaf_v);
                }
            }
            assert forall|p: Seq<Seq<char>>|
                p.len() > 0 && (#[trigger] scope_at(scope_view(root), p)) is Some implies on_some_path(
                    done,
                    p,
                ) by {
                lemma_with_definition_scopes(before, path, leaf_v, schema_v, p);
                if scope_at(before, p) is Some {
                    let j = choose|j: int|
                        0 <= j < all.take(taken as int).len() && is_prefix(
                            p,
                            (#[trigger] split_underscores(all.take(taken as int)[j].0@)).drop_last(),
                        );
                    assert(done[j] == all.take(taken as int)[j]);
                    assert(split_underscores(done[j].0@) == split_underscores(all.take(taken as int)[j].0@));
                } else {
                    assert(done[taken as int].0@ == name@);
                    assert(split_underscores(done[taken as int].0@).drop_last() == path);
                }
            }
        }
        taken = taken + 1;
    }
    assert(all.take(n as int) =~= all);
    proof {
        if names_unique(all) {
            assert forall|i: int| 0 <= i < all.len() implies defined_at(
                scope_view(root),
                split_underscores(#[trigger] all[i].0@).drop_last(),
                split_underscores(all[i].0@).last(),
            ) == Some(all[i].1) by {
                let sp = split_underscores(all[i].0@);
                lemma_split_nonempty(all[i].0@);
                assert(sp.drop_last().push(sp.last()) =~= sp);
                lemma_last_defined_unique(all, i);
            }
        }
    }
    root
}

} // verus!
