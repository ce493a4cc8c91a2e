use std::collections::{HashMap, HashSet};
use vstd::prelude::*;

use crate::acl::Acl;
use crate::collections::{
    find_named, lemma_concat_to_set, lemma_union_over_ids_all, lemma_union_over_ids_step,
    map_keys, union_over, union_over_ids, HasName,
};
use crate::record::{BlobDependencies, FrozenReference, RecordView, Uuid};
use crate::ty::{frozen_ty_deps, FrozenTy};

verus! {

broadcast use vstd::std_specs::hash::group_hash_axioms;

/// A parameter of a function whose types are pinned.
pub struct Parameter {
    pub name: String,
    pub ty: FrozenTy,
    pub mutable: bool,
}

pub struct ParameterView {
    pub name: Seq<char>,
    pub ty: FrozenTy,
    pub mutable: bool,
}

impl View for Parameter {
    type V = ParameterView;

    open spec fn view(&self) -> ParameterView {
        ParameterView { name: self.name@, ty: self.ty, mutable: self.mutable }
    }
}

impl HasName for Parameter {
    open spec fn name_of(&self) -> Seq<char> {
        self.name@
    }

    fn name_string(&self) -> (r: &String) {
        &self.name
    }
}

/// The records a parameter's type refers to.
pub open spec fn parameter_deps(p: ParameterView) -> Set<FrozenReference> {
    frozen_ty_deps(p.ty).to_set()
}

impl Parameter {
    /// Adds the records the parameter's type refers to.
    pub fn dependencies(&self, set: &mut Vec<FrozenReference>)
        ensures
            final(set)@ == old(set)@ + frozen_ty_deps(self.ty),
    {
        self.ty.dependencies(set);
    }
}

pub open spec fn parameters_view(m: Map<Uuid, Parameter>) -> Map<Uuid, ParameterView> {
    m.map_values(|p: Parameter| p@)
}

pub struct Function {
    pub parameters: HashMap<Uuid, Parameter>,
    pub parameter_ordering: Vec<Uuid>,
    pub return_ty: FrozenTy,
}

pub struct FunctionView {
    pub parameters: Map<Uuid, ParameterView>,
    pub parameter_ordering: Seq<Uuid>,
    pub return_ty: FrozenTy,
}

impl View for Function {
    type V = FunctionView;

    open spec fn view(&self) -> FunctionView {
        FunctionView {
            parameters: parameters_view(self.parameters@),
            parameter_ordering: self.parameter_ordering@,
            return_ty: self.return_ty,
        }
    }
}

impl FunctionView {
    /// Whether some parameter has the name.
    pub open spec fn has_parameter_named(self, name: Seq<char>) -> bool {
        exists|id: Uuid| #[trigger] self.parameters.contains_key(id) && self.parameters[id].name == name
    }

    /// The records the function's parameter and return types refer to.
    pub open spec fn deps(self) -> Set<FrozenReference> {
        union_over(self.parameters, |p: ParameterView| parameter_deps(p)).union(
            frozen_ty_deps(self.return_ty).to_set(),
        )
    }
}

impl Function {
    /// The id of a parameter with the given name, if there is one.
    pub fn parameter_id(&self, name: &str) -> (r: Option<&Uuid>)
        ensures
            r matches Some(id) ==> self@.parameters.contains_key(*id)
                && self@.parameters[*id].name == name@,
            r is None <==> !self@.has_parameter_named(name@),
    {
        let r = find_named(&self.parameters, name);
        proof {
            if r is None {
                if self@.has_parameter_named(name@) {
                    let id = choose|id: Uuid| #[trigger] self@.parameters.contains_key(id) && self@.parameters[id].name == name@;
                    assert(self.parameters@.contains_key(id));
                }
            }
        }
        r
    }

    pub fn has_parameter(&self, id: &Uuid) -> (r: bool)
        ensures
            r == self@.parameters.contains_key(*id),
    {
        self.parameters.contains_key(id)
    }

    pub fn has_parameter_named(&self, name: &str) -> (r: bool)
        ensures
            r == self@.has_parameter_named(name@),
    {
        self.parameter_id(name).is_some()
    }

    pub fn parameter(&self, id: &Uuid) -> (r: Option<&Parameter>)
        ensures
            r matches Some(p) ==> self@.parameters.contains_key(*id) && p@ == self@.parameters[*id],
            r is None <==> !self@.parameters.contains_key(*id),
    {
        self.parameters.get(id)
    }

    pub fn parameter_named(&self, name: &str) -> (r: Option<&Parameter>)
        ensures
            r matches Some(p) ==> p.name@ == name@ && (exists|id: Uuid|
                #[trigger] self@.parameters.contains_key(id) && self@.parameters[id] == p@),
            r is None <==> !self@.has_parameter_named(name@),
    {
        match self.parameter_id(name) {
            Some(id) => self.parameter(id),
            Option::None => Option::None,
        }
    }

    /// Adds the records that the parameter and return types refer to. What
    /// was there stays in front; the order of what is added follows the
    /// parameter map's iteration order.
    pub fn dependencies(&self, set: &mut Vec<FrozenReference>)
        ensures
            old(set)@.is_prefix_of(final(set)@),
            final(set)@.to_set() == old(set)@.to_set().union(self@.deps()),
    {
        let ghost start = set@;
        let ghost f = |p: ParameterView| parameter_deps(p);
        let ghost params = self@.parameters;
        let ids = map_keys(&self.parameters);
        let n = ids.len();
        let mut i: usize = 0;
        while i < n
            invariant
                n == ids@.len(),
                i <= n,
                ids@.to_set() == self.parameters@.dom(),
                params == self@.parameters,
                f == (|p: ParameterView| parameter_deps(p)),
                start.is_prefix_of(set@),
                set@.to_set() == start.to_set().union(union_over_ids(params, ids@.take(i as int), f)),
            decreases n - i,
        {
            let id = ids[i];
            proof {
                assert(ids@.to_set().contains(id));
            }
            let p = self.parameters.get(&id).unwrap();
            let ghost before = set@;
            p.dependencies(set);
            proof {
                lemma_concat_to_set(before, frozen_ty_deps(p.ty));
                lemma_union_over_ids_step(params, ids@, i as int, f);
                assert(f(params[ids@[i as int]]) == frozen_ty_deps(p.ty).to_set());
                assert(set@.to_set() =~= start.to_set().union(
                    union_over_ids(params, ids@.take(i + 1), f),
                ));
                assert(start.is_prefix_of(set@)) by {
                    assert forall|j: int| 0 <= j < start.len() implies set@[j] == start[j] by {
                        assert(before[j] == start[j]);
                    }
                }
            }
            i = i + 1;
        }
        let ghost before_ret = set@;
        self.return_ty.dependencies(set);
        proof {
            assert(ids@.take(n as int) =~= ids@);
            assert(params.dom() == ids@.to_set());
            lemma_union_over_ids_all(params, ids@, f);
            lemma_concat_to_set(before_ret, frozen_ty_deps(self.return_ty));
            assert(set@.to_set() =~= start.to_set().union(self@.deps()));
            assert(start.is_prefix_of(set@)) by {
                assert forall|j: int| 0 <= j < start.len() implies set@[j] == start[j] by {
                    assert(before_ret[j] == start[j]);
                }
            }
        }
    }
}

pub enum ExportKind {
    Function(Function),
}

pub enum ExportKindView {
    Function(FunctionView),
}

impl View for ExportKind {
    type V = ExportKindView;

    open spec fn view(&self) -> ExportKindView {
        match self {
            ExportKind::Function(f) => ExportKindView::Function(f@),
        }
    }
}

impl ExportKindView {
    pub open spec fn deps(self) -> Set<FrozenReference> {
        match self {
            ExportKindView::Function(f) => f.deps(),
        }
    }
}

impl ExportKind {
    pub fn as_function(&self) -> (r: Option<&Function>)
        ensures
            match *self {
                ExportKind::Function(f) => r == Some(&f),
            },
    {
        match self {
            ExportKind::Function(function) => Some(function),
        }
    }

    /// Adds the records the export refers to.
    pub fn dependencies(&self, set: &mut Vec<FrozenReference>)
        ensures
            old(set)@.is_prefix_of(final(set)@),
            final(set)@.to_set() == old(set)@.to_set().union(self@.deps()),
    {
        match self {
            ExportKind::Function(function) => function.dependencies(set),
        }
    }
}

pub struct Export {
    pub name: String,
    pub kind: ExportKind,
}

pub struct ExportView {
    pub name: Seq<char>,
    pub kind: ExportKindView,
}

impl View for Export {
    type V = ExportView;

    open spec fn view(&self) -> ExportView {
        ExportView { name: self.name@, kind: self.kind@ }
    }
}

impl HasName for Export {
    open spec fn name_of(&self) -> Seq<char> {
        self.name@
    }

    fn name_string(&self) -> (r: &String) {
        &self.name
    }
}

/// The records an export refers to.
pub open spec fn export_deps(e: ExportView) -> Set<FrozenReference> {
    e.kind.deps()
}

impl Export {
    /// Adds the records the export refers to.
    pub fn dependencies(&self, set: &mut Vec<FrozenReference>)
        ensures
            old(set)@.is_prefix_of(final(set)@),
            final(set)@.to_set() == old(set)@.to_set().union(export_deps(self@)),
    {
        self.kind.dependencies(set)
    }
}

pub open spec fn exports_view(m: Map<Uuid, Export>) -> Map<Uuid, ExportView> {
    m.map_values(|e: Export| e@)
}

/// A module whose references are all pinned to versions.
pub struct Module {
    pub parent: Uuid,
    pub name: String,
    pub exports: HashMap<Uuid, Export>,
    pub executable: Option<Uuid>,
    pub dependencies: Vec<FrozenReference>,
}

pub struct ModuleView {
    pub parent: Uuid,
    pub name: Seq<char>,
    pub exports: Map<Uuid, ExportView>,
    pub executable: Option<Uuid>,
    pub dependencies: Seq<FrozenReference>,
}

impl View for Module {
    type V = ModuleView;

    open spec fn view(&self) -> ModuleView {
        ModuleView {
            parent: self.parent,
            name: self.name@,
            exports: exports_view(self.exports@),
            executable: self.executable,
            dependencies: self.dependencies@,
        }
    }
}

impl ModuleView {
    /// Whether some export has the name.
    pub open spec fn has_export_named(self, name: Seq<char>) -> bool {
        exists|id: Uuid| #[trigger] self.exports.contains_key(id) && self.exports[id].name == name
    }

    /// Every record the module refers to: through its exports' types, and
    /// as a declared dependency.
    pub open spec fn deps(self) -> Set<FrozenReference> {
        union_over(self.exports, |e: ExportView| export_deps(e)).union(self.dependencies.to_set())
    }
}

impl Module {
    /// The id of an export with the given name, if there is one.
    pub fn export_id(&self, name: &str) -> (r: Option<&Uuid>)
        ensures
            r matches Some(id) ==> self@.exports.contains_key(*id) && self@.exports[*id].name
                == name@,
            r is None <==> !self@.has_export_named(name@),
    {
        let r = find_named(&self.exports, name);
        proof {
            if r is None {
                if self@.has_export_named(name@) {
                    let id = choose|id: Uuid| #[trigger] self@.exports.contains_key(id) && self@.exports[id].name == name@;
                    assert(self.exports@.contains_key(id));
                }
            }
        }
        r
    }

    pub fn has_export(&self, id: &Uuid) -> (r: bool)
        ensures
            r == self@.exports.contains_key(*id),
    {
        self.exports.contains_key(id)
    }

    pub fn has_export_named(&self, name: &str) -> (r: bool)
        ensures
            r == self@.has_export_named(name@),
    {
        self.export_id(name).is_some()
    }

    pub fn export(&self, id: &Uuid) -> (r: Option<&Export>)
        ensures
            r matches Some(e) ==> self@.exports.contains_key(*id) && e@ == self@.exports[*id],
            r is None <==> !self@.exports.contains_key(*id),
    {
        self.exports.get(id)
    }

    pub fn export_named(&self, name: &str) -> (r: Option<&Export>)
        ensures
            r matches Some(e) ==> e.name@ == name@ && (exists|id: Uuid|
                #[trigger] self@.exports.contains_key(id) && self@.exports[id] == e@),
            r is None <==> !self@.has_export_named(name@),
    {
        match self.export_id(name) {
            Some(id) => self.export(id),
            Option::None => Option::None,
        }
    }

    /// Adds every record the module refers to. What was there stays in
    /// front.
    pub fn dependencies(&self, set: &mut Vec<FrozenReference>)
        ensures
            old(set)@.is_prefix_of(final(set)@),
            final(set)@.to_set() == old(set)@.to_set().union(self@.deps()),
    {
        let ghost start = set@;
        let ghost f = |e: ExportView| export_deps(e);
        let ghost exports = self@.exports;
        let ids = map_keys(&self.exports);
        let n = ids.len();
        let mut i: usize = 0;
        while i < n
            invariant
                n == ids@.len(),
                i <= n,
                ids@.to_set() == self.exports@.dom(),
                exports == self@.exports,
                f == (|e: ExportView| export_deps(e)),
                start.is_prefix_of(set@),
                set@.to_set() == start.to_set().union(union_over_ids(exports, ids@.take(i as int), f)),
            decreases n - i,
        {
            let id = ids[i];
            proof {
                assert(ids@.to_set().contains(id));
            }
            let e = self.exports.get(&id).unwrap();
            let ghost before = set@;
            e.dependencies(set);
            proof {
                lemma_union_over_ids_step(exports, ids@, i as int, f);
                assert(f(exports[ids@[i as int]]) == export_deps(e@));
                assert(set@.to_set() =~= start.to_set().union(
                    union_over_ids(exports, ids@.take(i + 1), f),
                ));
                assert(start.is_prefix_of(set@)) by {
                    assert forall|j: int| 0 <= j < start.len() implies set@[j] == start[j] by {
                        assert(before[j] == start[j]);
                    }
                }
            }
            i = i + 1;
        }
        proof {
            assert(ids@.take(n as int) =~= ids@);
            assert(exports.dom() =~= ids@.to_set());
            lemma_union_over_ids_all(exports, ids@, f);
        }
        let ghost middle = set@;
        let m = self.dependencies.len();
        let mut k: usize = 0;
        while k < m
            invariant
                m == self.dependencies@.len(),
                k <= m,
                set@ == middle + self.dependencies@.take(k as int),
            decreases m - k,
        {
            set.push(self.dependencies[k].clone());
            k = k + 1;
            assert(set@ =~= middle + self.dependencies@.take(k as int));
        }
        proof {
            assert(self.dependencies@.take(m as int) =~= self.dependencies@);
            lemma_concat_to_set(middle, self.dependencies@);
            assert(set@.to_set() =~= start.to_set().union(self@.deps()));
            assert(start.is_prefix_of(set@)) by {
                assert forall|j: int| 0 <= j < start.len() implies set@[j] == start[j] by {
                    assert(middle[j] == start[j]);
                }
            }
        }
    }
}

impl RecordView for Module {
    open spec fn name_of(&self) -> Option<Seq<char>> {
        Some(self.name@)
    }

    open spec fn parent_of(&self) -> Option<Uuid> {
        Some(self.parent)
    }

    open spec fn acl_view_of(&self) -> Option<Acl> {
        None
    }

    fn name(&self) -> (r: Option<&str>) {
        Some(self.name.as_str())
    }

    fn parent(&self) -> (r: Option<&Uuid>) {
        Some(&self.parent)
    }

    fn acl(&self) -> (r: Option<&Acl>) {
        Option::None
    }
}

impl BlobDependencies for Module {
    open spec fn blobs(&self) -> Set<Uuid> {
        match self.executable {
            Some(e) => set![e],
            None => Set::empty(),
        }
    }

    fn blob_dependencies(&self, set: &mut HashSet<Uuid>) {
        if let Some(executable) = &self.executable {
            set.insert(*executable);
        }
        assert(set@ =~= old(set)@.union(self.blobs()));
    }
}

} // verus!
