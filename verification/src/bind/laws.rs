use vstd::prelude::*;

use super::bimap_map::one_to_one;
use super::merge::{def_position, has_def, merged, put, with_root};
use super::schema::{RootSchema, Schema};
use super::scope::names_unique;
use super::imports::{
    add_terminates, added, first_free, importer, name_free, path_imported, suffix_name, ImportsView,
};

verus! {

proof fn lemma_least_free(v: ImportsView, path: Seq<char>, w: int)
    requires
        1 <= w,
        name_free(v, suffix_name(path, w)),
    ensures
        1 <= first_free(v, path),
        name_free(v, suffix_name(path, first_free(v, path))),
    decreases w,
{
    if exists|j: int| 1 <= j < w && name_free(v, #[trigger] suffix_name(path, j)) {
        let j = choose|j: int| 1 <= j < w && name_free(v, #[trigger] suffix_name(path, j));
        lemma_least_free(v, path, j);
    } else {
        assert(1 <= w && name_free(v, suffix_name(path, w)) && forall|j: int|
            1 <= j < w ==> !name_free(v, #[trigger] suffix_name(path, j)));
    }
}

proof fn lemma_added_one_to_one(v: ImportsView, name: Seq<char>, path: Seq<char>)
    requires
        one_to_one(v.pairs),
    ensures
        one_to_one(added(v, name, path).0.pairs),
        added(v, name, path).0.pairs.contains_key(added(v, name, path).1),
        added(v, name, path).0.pairs[added(v, name, path).1] == path,
{
    let (w, n) = added(v, name, path);
    if path_imported(v, path) {
        let k = importer(v, path);
        assert(v.pairs.contains_key(k) && v.pairs[k] == path);
    } else {
        assert forall|a: Seq<char>, b: Seq<char>|
            #[trigger] w.pairs.contains_key(a) && #[trigger] w.pairs.contains_key(b) && w.pairs[a]
                == w.pairs[b] implies a == b by {
            if a != n && b != n {
                assert(v.pairs.contains_key(a) && v.pairs.contains_key(b));
            } else if a == n && b != n {
                assert(v.pairs.contains_key(b) && v.pairs[b] == path);
            } else if a != n && b == n {
                assert(v.pairs.contains_key(a) && v.pairs[a] == path);
            }
        }
    }
}

/// Adding a path that was just added gives back the name it was imported
/// under, whatever name is asked for, and changes nothing.
pub proof fn law_add_same_path_again(v: ImportsView, name: Seq<char>, path: Seq<char>, other_name: Seq<char>)
    requires
        one_to_one(v.pairs),
        add_terminates(v, name, path),
    ensures
        added(added(v, name, path).0, other_name, path) == added(v, name, path),
{
    let (w, n) = added(v, name, path);
    lemma_added_one_to_one(v, name, path);
    assert(path_imported(w, path));
    let k = importer(w, path);
    assert(w.pairs.contains_key(k) && w.pairs[k] == path);
}

/// Adding an import keeps every import there was: each name still imports
/// the path it imported.
pub proof fn law_add_keeps_imports(v: ImportsView, name: Seq<char>, path: Seq<char>, l: Seq<char>)
    requires
        one_to_one(v.pairs),
        add_terminates(v, name, path),
        v.pairs.contains_key(l),
    ensures
        added(v, name, path).0.pairs.contains_key(l),
        added(v, name, path).0.pairs[l] == v.pairs[l],
        added(v, name, path).0.name == v.name,
        added(v, name, path).0.path == v.path,
{
    let (w, n) = added(v, name, path);
    if !path_imported(v, path) {
        if !name_free(v, name) {
            let w = choose|i: int| 1 <= i && name_free(v, #[trigger] suffix_name(path, i));
            lemma_least_free(v, path, w);
        }
        assert(n != l);
    }
}

proof fn lemma_def_position(res: Seq<(String, Schema)>, name: Seq<char>)
    requires
        has_def(res, name),
    ensures
        0 <= def_position(res, name) < res.len(),
        res[def_position(res, name)].0@ == name,
        forall|j: int| 0 <= j < def_position(res, name) ==> res[j].0@ != name,
    decreases res.len(),
{
    let init = res.drop_last();
    let p: int;
    if has_def(init, name) {
        lemma_def_position(init, name);
        p = def_position(init, name);
        assert forall|j: int| 0 <= j < p implies res[j].0@ != name by {
            assert(init[j] == res[j]);
        }
    } else {
        p = res.len() - 1;
        assert forall|j: int| 0 <= j < p implies res[j].0@ != name by {
            assert(init[j] == res[j]);
        }
    }
    assert(0 <= p < res.len() && res[p].0@ == name && forall|j: int| 0 <= j < p ==> res[j].0@ != name);
}

proof fn lemma_put_unique(res: Seq<(String, Schema)>, name: String, s: Schema)
    requires
        names_unique(res),
    ensures
        names_unique(put(res, name, s)),
{
    let r = put(res, name, s);
    if has_def(res, name@) {
        lemma_def_position(res, name@);
        assert forall|i: int, j: int| 0 <= i < j < r.len() implies r[i].0@ != r[j].0@ by {
            assert(r[i].0@ == res[i].0@ && r[j].0@ == res[j].0@);
        }
    } else {
        assert forall|i: int, j: int| 0 <= i < j < r.len() implies r[i].0@ != r[j].0@ by {
            if j == res.len() {
                assert(r[i] == res[i]);
            }
        }
    }
}

proof fn lemma_merged_unique(res: Seq<(String, Schema)>, defs: Seq<(String, Schema)>)
    requires
        names_unique(res),
    ensures
        names_unique(merged(res, defs)),
    decreases defs.len(),
{
    if defs.len() > 0 {
        lemma_merged_unique(res, defs.drop_last());
        let r = merged(res, defs.drop_last());
        if !has_def(r, defs.last().0@) {
            let m = r.push(defs.last());
            assert forall|i: int, j: int| 0 <= i < j < m.len() implies m[i].0@ != m[j].0@ by {
                if j == r.len() {
                    assert(m[i] == r[i]);
                }
            }
        }
    }
}

/// Merging a root schema into definitions that have distinct names gives
/// definitions that have distinct names.
pub proof fn law_merge_keeps_names_unique(res: Seq<(String, Schema)>, root: RootSchema)
    requires
        names_unique(res),
    ensures
        names_unique(with_root(res, root)),
{
    let r = match root.schema.title {
        Some(t) => put(res, t, Schema::Object(root.schema)),
        None => res,
    };
    match root.schema.title {
        Some(t) => lemma_put_unique(res, t, Schema::Object(root.schema)),
        None => {},
    }
    lemma_merged_unique(r, root.definitions@);
}

} // verus!
