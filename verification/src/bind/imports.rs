use vstd::prelude::*;

use bimap::BiHashMap;

use super::bimap_map::{
    bimap_contains_left, bimap_entries, bimap_get_by_left, bimap_get_by_right, bimap_insert,
    bimap_inserted, bimap_new, bimap_pairs, no_pairs, one_to_one,
};
use super::paths::{normal_path, normalize_path, components, diff_paths, path_components, relative_path};
use crate::ast::{Decl, ImportDecl};

verus! {

/// The imports of one generated file: each imported path under a name, no
/// path and no name twice, and no name equal to the file's own.
pub struct Imports {
    name: String,
    path: String,
    imports: BiHashMap<String, String>,
}

pub struct ImportsView {
    /// The name of the file the imports are for.
    pub name: Seq<char>,
    /// The logical path of the directory the file is in.
    pub path: Seq<char>,
    /// Each import name, and the path it imports, in its normal text.
    pub pairs: Map<Seq<char>, Seq<char>>,
}

impl View for Imports {
    type V = ImportsView;

    closed spec fn view(&self) -> ImportsView {
        ImportsView { name: self.name@, path: self.path@, pairs: bimap_pairs(self.imports) }
    }
}

/// The texts of a sequence of pieces, one after another.
pub open spec fn concat_all(pieces: Seq<Seq<char>>) -> Seq<char>
    decreases pieces.len(),
{
    if pieces.len() == 0 {
        Seq::empty()
    } else {
        concat_all(pieces.drop_last()) + pieces.last()
    }
}

/// The last `i` components of `path` (all of them, if it has fewer), joined
/// with nothing between them.
pub open spec fn suffix_name(path: Seq<char>, i: int) -> Seq<char> {
    let comps = path_components(path);
    let m = if i < comps.len() {
        i
    } else {
        comps.len() as int
    };
    concat_all(comps.subrange(comps.len() - m, comps.len() as int))
}

/// Whether `path` is already imported, under some name.
pub open spec fn path_imported(v: ImportsView, path: Seq<char>) -> bool {
    exists|l: Seq<char>| #[trigger] v.pairs.contains_key(l) && v.pairs[l] == path
}

/// The name `path` is imported under.
pub open spec fn importer(v: ImportsView, path: Seq<char>) -> Seq<char> {
    choose|l: Seq<char>| #[trigger] v.pairs.contains_key(l) && v.pairs[l] == path
}

/// Whether `n` can name a new import: no import has it, nor the file.
pub open spec fn name_free(v: ImportsView, n: Seq<char>) -> bool {
    !v.pairs.contains_key(n) && n != v.name
}

/// The least `i` from 1 up whose suffix name is free.
pub open spec fn first_free(v: ImportsView, path: Seq<char>) -> int {
    choose|i: int|
        1 <= i && name_free(v, #[trigger] suffix_name(path, i)) && forall|j: int|
            1 <= j < i ==> !name_free(v, #[trigger] suffix_name(path, j))
}

/// Whether adding an import comes to an end: the path is imported, or the
/// name is free, or some suffix of the path's components gives a free name.
pub open spec fn add_terminates(v: ImportsView, name: Seq<char>, path: Seq<char>) -> bool {
    path_imported(v, path) || name_free(v, name) || exists|i: int|
        1 <= i && name_free(v, #[trigger] suffix_name(path, i))
}

/// The imports after adding `path` under `name`, and the name it is
/// imported under: the name it already has; else `name` if that is free;
/// else the shortest free suffix of the path's components.
pub open spec fn added(v: ImportsView, name: Seq<char>, path: Seq<char>) -> (ImportsView, Seq<char>) {
    if path_imported(v, path) {
        (v, importer(v, path))
    } else if !name_free(v, name) {
        let c = suffix_name(path, first_free(v, path));
        (ImportsView { pairs: v.pairs.insert(c, path), ..v }, c)
    } else {
        (ImportsView { pairs: v.pairs.insert(name, path), ..v }, name)
    }
}

/// Every imported path has a path relative to the file's directory.
pub open spec fn imports_resolvable(v: ImportsView) -> bool {
    forall|l: Seq<char>| #[trigger] v.pairs.contains_key(l) ==> relative_path(v.pairs[l], v.path) is Some
}

/// The import path of an imported path: `./` and its path relative to the
/// file's directory.
pub open spec fn import_path(v: ImportsView, path: Seq<char>) -> Seq<char> {
    "./"@ + relative_path(path, v.path).unwrap()
}

/// `ds` lists every import once, in some order, each with its import path.
pub open spec fn lists_imports(ds: Seq<ImportDecl>, v: ImportsView) -> bool {
    &&& forall|i: int|
        0 <= i < ds.len() ==> v.pairs.contains_key((#[trigger] ds[i]).name@) && ds[i].path@
            == import_path(v, v.pairs[ds[i].name@])
    &&& forall|i: int, j: int| 0 <= i < j < ds.len() ==> (#[trigger] ds[i]).name@ != (#[trigger] ds[j]).name@
    &&& forall|l: Seq<char>|
        #[trigger] v.pairs.contains_key(l) ==> exists|i: int| 0 <= i < ds.len() && (#[trigger] ds[i]).name@ == l
}

/// A suffix longer than the path takes the whole path.
proof fn lemma_suffix_saturates(path: Seq<char>, i: int)
    requires
        i >= path_components(path).len(),
        i >= 1,
    ensures
        suffix_name(path, i) == suffix_name(
            path,
            if path_components(path).len() > 0 {
                path_components(path).len() as int
            } else {
                1
            },
        ),
{
}

/// Where some suffix name is free, one is among the first `max(n, 1)`.
proof fn lemma_free_within(v: ImportsView, path: Seq<char>) -> (t: int)
    requires
        exists|i: int| 1 <= i && name_free(v, #[trigger] suffix_name(path, i)),
    ensures
        1 <= t <= (if path_components(path).len() > 0 { path_components(path).len() as int } else { 1 }),
        name_free(v, suffix_name(path, t)),
{
    let top = if path_components(path).len() > 0 { path_components(path).len() as int } else { 1 };
    let w = choose|i: int| 1 <= i && name_free(v, #[trigger] suffix_name(path, i));
    if w > top {
        lemma_suffix_saturates(path, w);
        top
    } else {
        w
    }
}

/// The suffix name of the last `m` pieces, built piece by piece.
fn suffix_of(comps: &Vec<String>, m: usize) -> (r: String)
    requires
        m <= comps@.len(),
    ensures
        r@ == concat_all(
            comps@.map_values(|c: String| c@).subrange(comps@.len() - m, comps@.len() as int),
        ),
{
    let ghost cs = comps@.map_values(|c: String| c@);
    let n = comps.len();
    let start = n - m;
    let mut r = String::new();
    let mut k: usize = start;
    while k < n
        invariant
            n == comps@.len(),
            cs == comps@.map_values(|c: String| c@),
            start <= k <= n,
            r@ == concat_all(cs.subrange(start as int, k as int)),
        decreases n - k,
    {
        r.append(comps[k].as_str());
        proof {
            assert(cs.subrange(start as int, k + 1).drop_last() =~= cs.subrange(start as int, k as int));
            assert(cs.subrange(start as int, k + 1).last() == comps@[k as int]@);
        }
        k = k + 1;
    }
    r
}

impl Imports {
    /// No imports yet, for the file `name` in the directory `path`.
    pub fn new(name: &str, path: &str) -> (r: Imports)
        ensures
            r@ == (ImportsView { name: name@, path: path@, pairs: no_pairs() }),
            one_to_one(r@.pairs),
    {
        Imports { name: String::from_str(name), path: String::from_str(path), imports: bimap_new() }
    }

    /// The name of the file the imports are for.
    pub fn name(&self) -> (r: &String)
        ensures
            r@ == self@.name,
    {
        &self.name
    }

    /// The logical path of the directory the file is in.
    pub fn path(&self) -> (r: &String)
        ensures
            r@ == self@.path,
    {
        &self.path
    }

    /// The suffix name of the last `i` components (all of them, if there
    /// are fewer).
    fn suffix_at(comps: &Vec<String>, path: &str, i: usize) -> (r: String)
        requires
            comps@.map_values(|c: String| c@) == path_components(path@),
        ensures
            r@ == suffix_name(path@, i as int),
    {
        let n = comps.len();
        let m = if i < n { i } else { n };
        suffix_of(comps, m)
    }

    /// Whether some suffix of the components gives a free name.
    fn has_free_suffix(&self, comps: &Vec<String>, path: &str) -> (r: bool)
        requires
            comps@.map_values(|c: String| c@) == path_components(path@),
        ensures
            r == exists|i: int| 1 <= i && name_free(self@, #[trigger] suffix_name(path@, i)),
    {
        let n = comps.len();
        let top: usize = if n > 0 { n } else { 1 };
        let mut i: usize = 1;
        while i < top
            invariant
                comps@.map_values(|c: String| c@) == path_components(path@),
                n == comps@.len(),
                top == (if n > 0 { n } else { 1 }),
                1 <= i <= top,
                forall|j: int| 1 <= j < i ==> !name_free(self@, #[trigger] suffix_name(path@, j)),
            decreases top - i,
        {
            let candidate = Self::suffix_at(comps, path, i);
            let taken = bimap_get_by_left(&self.imports, candidate.as_str()).is_some() || candidate == self.name;
            if !taken {
                assert(name_free(self@, suffix_name(path@, i as int)));
                return true;
            }
            i = i + 1;
        }
        let candidate = Self::suffix_at(comps, path, top);
        let taken = bimap_get_by_left(&self.imports, candidate.as_str()).is_some() || candidate == self.name;
        if !taken {
            assert(name_free(self@, suffix_name(path@, top as int)));
            return true;
        }
        proof {
            assert forall|i: int| 1 <= i implies !name_free(self@, #[trigger] suffix_name(path@, i)) by {
                if i > top {
                    lemma_suffix_saturates(path@, i);
                }
            }
        }
        false
    }

    /// The first `i` from 1 up whose suffix name is free, and that name.
    fn first_free_suffix(&self, comps: &Vec<String>, path: &str, Ghost(target): Ghost<int>) -> (r: (usize, String))
        requires
            comps@.map_values(|c: String| c@) == path_components(path@),
            1 <= target <= (if comps@.len() > 0 { comps@.len() as int } else { 1 }),
            name_free(self@, suffix_name(path@, target)),
        ensures
            r.0 == first_free(self@, path@),
            r.1@ == suffix_name(path@, r.0 as int),
            name_free(self@, r.1@),
    {
        let n = comps.len();
        let mut i: usize = 1;
        loop
            invariant
                comps@.map_values(|c: String| c@) == path_components(path@),
                n == comps@.len(),
                target <= (if n > 0 { n as int } else { 1 }),
                1 <= i <= target,
                name_free(self@, suffix_name(path@, target)),
                forall|j: int| 1 <= j < i ==> !name_free(self@, #[trigger] suffix_name(path@, j)),
            decreases target - i,
        {
            let candidate = Self::suffix_at(comps, path, i);
            let taken = bimap_get_by_left(&self.imports, candidate.as_str()).is_some() || candidate == self.name;
            if !taken {
                proof {
                    let f = first_free(self@, path@);
                    assert(name_free(self@, suffix_name(path@, i as int)));
                    if f < i {
                        assert(!name_free(self@, suffix_name(path@, f)));
                    }
                    assert(f == i);
                }
                return (i, candidate);
            }
            i = i + 1;
        }
    }

    /// Imports the path text `path` as it stands, as `add` does.
    #[verifier::rlimit(50)]
    #[verifier::spinoff_prover]
    fn add_text(&mut self, name: &str, path: &str) -> (r: String)
        requires
            one_to_one(old(self)@.pairs),
            add_terminates(old(self)@, name@, path@),
        ensures
            one_to_one(final(self)@.pairs),
            (final(self)@, r@) == added(old(self)@, name@, path@),
    {
        let ghost v = self@;
        if let Some(l) = bimap_get_by_right(&self.imports, path) {
            proof {
                assert(path_imported(v, path@));
                let k = importer(v, path@);
                assert(v.pairs.contains_key(k) && v.pairs[k] == path@);
                assert(k == l@);
            }
            return l.clone();
        }
        proof {
            assert(!path_imported(v, path@));
        }
        let name_s = String::from_str(name);
        if bimap_contains_left(&self.imports, name) || name_s == self.name {
            let comps = components(path);
            let ghost target = lemma_free_within(v, path@);
            let (_i, candidate) = self.first_free_suffix(&comps, path, Ghost(target));
            bimap_insert(&mut self.imports, candidate.clone(), String::from_str(path));
            proof {
                assert(bimap_inserted(v.pairs, candidate@, path@) =~= v.pairs.insert(candidate@, path@));
            }
            return candidate;
        }
        bimap_insert(&mut self.imports, name_s.clone(), String::from_str(path));
        proof {
            assert(bimap_inserted(v.pairs, name@, path@) =~= v.pairs.insert(name@, path@));
        }
        name_s
    }

    /// Imports the path text `path` as it stands, as `try_add` does.
    fn try_add_text(&mut self, name: &str, path: &str) -> (r: Option<String>)
        requires
            one_to_one(old(self)@.pairs),
        ensures
            one_to_one(final(self)@.pairs),
            r is Some <==> add_terminates(old(self)@, name@, path@),
            match r {
                Some(n) => (final(self)@, n@) == added(old(self)@, name@, path@),
                None => final(self)@ == old(self)@,
            },
    {
        let ghost v = self@;
        let imported = bimap_get_by_right(&self.imports, path).is_some();
        let name_s = String::from_str(name);
        let free = !bimap_contains_left(&self.imports, name) && name_s != self.name;
        if imported || free {
            proof {
                if imported {
                    assert(path_imported(v, path@));
                }
            }
            return Some(self.add_text(name, path));
        }
        let comps = components(path);
        if self.has_free_suffix(&comps, path) {
            Some(self.add_text(name, path))
        } else {
            Option::None
        }
    }

    /// Imports `path` under a name, and gives that name: the name the path
    /// already has; else `name` if no import has it and it is not the file's
    /// own; else the shortest run of the path's last components, joined, that
    /// is free. Paths are held in their normal text (rebuilt from their
    /// components), so two paths with the same components are one path.
    pub fn add(&mut self, name: &str, path: &str) -> (r: String)
        requires
            one_to_one(old(self)@.pairs),
            add_terminates(old(self)@, name@, normal_path(path@)),
        ensures
            one_to_one(final(self)@.pairs),
            (final(self)@, r@) == added(old(self)@, name@, normal_path(path@)),
    {
        let normal = normalize_path(path);
        self.add_text(name, normal.as_str())
    }

    /// Imports `path` as `add` does, where that comes to an end; otherwise
    /// (every name it would try is taken) changes nothing and gives `None`.
    pub fn try_add(&mut self, name: &str, path: &str) -> (r: Option<String>)
        requires
            one_to_one(old(self)@.pairs),
        ensures
            one_to_one(final(self)@.pairs),
            r is Some <==> add_terminates(old(self)@, name@, normal_path(path@)),
            match r {
                Some(n) => (final(self)@, n@) == added(old(self)@, name@, normal_path(path@)),
                None => final(self)@ == old(self)@,
            },
    {
        let normal = normalize_path(path);
        self.try_add_text(name, normal.as_str())
    }

    /// The path imported under `name`.
    pub fn get(&self, name: &str) -> (r: Option<&String>)
        ensures
            match r {
                Some(p) => self@.pairs.contains_key(name@) && self@.pairs[name@] == p@,
                None => !self@.pairs.contains_key(name@),
            },
    {
        bimap_get_by_left(&self.imports, name)
    }

    /// Each import name with the path it imports, every one once, in an
    /// order that nothing fixes.
    pub fn entries(&self) -> (r: Vec<(String, String)>)
        ensures
            forall|i: int|
                0 <= i < r@.len() ==> self@.pairs.contains_key((#[trigger] r@[i]).0@)
                    && self@.pairs[r@[i].0@] == r@[i].1@,
            forall|i: int, j: int| 0 <= i < j < r@.len() ==> (#[trigger] r@[i]).0@ != (#[trigger] r@[j]).0@,
            forall|l: Seq<char>|
                #[trigger] self@.pairs.contains_key(l) ==> exists|i: int|
                    0 <= i < r@.len() && (#[trigger] r@[i]).0@ == l,
    {
        bimap_entries(&self.imports)
    }

    /// An import declaration for each import, in an order that nothing
    /// fixes; its path is `./` and the imported path relative to the file's
    /// directory.
    pub fn import_decls(&self) -> (r: Vec<ImportDecl>)
        requires
            imports_resolvable(self@),
        ensures
            lists_imports(r@, self@),
    {
        let entries = bimap_entries(&self.imports);
        let mut ret: Vec<ImportDecl> = Vec::new();
        let n = entries.len();
        let mut i: usize = 0;
        while i < n
            invariant
                n == entries@.len(),
                i <= n,
                imports_resolvable(self@),
                ret@.len() == i,
                forall|k: int|
                    0 <= k < n ==> self@.pairs.contains_key((#[trigger] entries@[k]).0@)
                        && self@.pairs[entries@[k].0@] == entries@[k].1@,
                forall|k: int| 0 <= k < i ==> (#[trigger] ret@[k]).name@ == entries@[k].0@,
                forall|k: int|
                    0 <= k < i ==> (#[trigger] ret@[k]).path@ == import_path(self@, entries@[k].1@),
            decreases n - i,
        {
            let (name, path) = &entries[i];
            proof {
                assert(self@.pairs.contains_key(entries@[i as int].0@));
            }
            let relative = diff_paths(path.as_str(), self.path.as_str());
            let mut p = String::from_str("./");
            p.append(relative.unwrap().as_str());
            proof {
                reveal_strlit("./");
            }
            ret.push(ImportDecl { name: name.clone(), path: p });
            i = i + 1;
        }
        proof {
            assert forall|l: Seq<char>| #[trigger] self@.pairs.contains_key(l) implies exists|k: int|
                0 <= k < ret@.len() && (#[trigger] ret@[k]).name@ == l by {
                let k = choose|k: int| 0 <= k < entries@.len() && (#[trigger] entries@[k]).0@ == l;
                assert(ret@[k].name@ == l);
            }
            assert forall|a: int, b: int| 0 <= a < b < ret@.len() implies (#[trigger] ret@[a]).name@
                != (#[trigger] ret@[b]).name@ by {
                assert(entries@[a].0@ != entries@[b].0@);
            }
        }
        ret
    }

    /// The import declarations, where every imported path has a path
    /// relative to the file's directory; `None` otherwise.
    pub fn try_import_decls(&self) -> (r: Option<Vec<ImportDecl>>)
        ensures
            r is Some <==> imports_resolvable(self@),
            r matches Some(ds) ==> lists_imports(ds@, self@),
    {
        let entries = bimap_entries(&self.imports);
        let n = entries.len();
        let mut i: usize = 0;
        while i < n
            invariant
                n == entries@.len(),
                i <= n,
                forall|k: int|
                    0 <= k < n ==> self@.pairs.contains_key((#[trigger] entries@[k]).0@)
                        && self@.pairs[entries@[k].0@] == entries@[k].1@,
                forall|k: int| 0 <= k < i ==> relative_path((#[trigger] entries@[k]).1@, self@.path) is Some,
            decreases n - i,
        {
            if diff_paths(entries[i].1.as_str(), self.path.as_str()).is_none() {
                return Option::None;
            }
            i = i + 1;
        }
        proof {
            assert forall|l: Seq<char>| #[trigger] self@.pairs.contains_key(l) implies relative_path(
                self@.pairs[l],
                self@.path,
            ) is Some by {
                let k = choose|k: int| 0 <= k < entries@.len() && (#[trigger] entries@[k]).0@ == l;
                assert(relative_path(entries@[k].1@, self@.path) is Some);
            }
        }
        Some(self.import_decls())
    }

    /// The import declarations as file declarations.
    pub fn decls(&self) -> (r: Vec<Decl>)
        requires
            imports_resolvable(self@),
        ensures
            forall|i: int| 0 <= i < r@.len() ==> (#[trigger] r@[i]) is Import,
            lists_imports(r@.map_values(|d: Decl| d->Import_0), self@),
    {
        let ds = self.import_decls();
        let ghost listed = ds@;
        let mut r: Vec<Decl> = Vec::new();
        let mut rest = ds;
        let n = rest.len();
        let mut i: usize = 0;
        while rest.len() > 0
            invariant
                i + rest@.len() == n,
                n == listed.len(),
                rest@ == listed.subrange(i as int, n as int),
                r@.len() == i,
                forall|k: int| 0 <= k < i ==> (#[trigger] r@[k]) == Decl::Import(listed[k]),
            decreases rest@.len(),
        {
            let d = rest.remove(0);
            r.push(Decl::Import(d));
            proof {
                assert(rest@ =~= listed.subrange(i + 1, n as int));
            }
            i = i + 1;
        }
        assert(r@.map_values(|d: Decl| d->Import_0) =~= listed);
        r
    }

    /// The import declarations as file declarations, where every imported
    /// path has a path relative to the file's directory; `None` otherwise.
    pub fn try_decls(&self) -> (r: Option<Vec<Decl>>)
        ensures
            r is Some <==> imports_resolvable(self@),
            r matches Some(ds) ==> lists_imports(ds@.map_values(|d: Decl| d->Import_0), self@),
    {
        if self.try_import_decls().is_some() {
            Some(self.decls())
        } else {
            Option::None
        }
    }
}

} // verus!
