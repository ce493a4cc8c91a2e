use std::collections::{HashMap, HashSet};
use vstd::prelude::*;

use crate::acl::action::WithAcl;
use crate::acl::{Acl, AclView};
use crate::collections::{clone_ids, find_named, map_keys, other_than, HasName};
use crate::record::{BlobDependencies, RecordView, UnfrozenReference, Uuid};
use crate::ty::UnfrozenTy;

verus! {

broadcast use vstd::std_specs::hash::group_hash_axioms;

impl Clone for UnfrozenTy {
    fn clone(&self) -> (r: Self)
        ensures
            r == *self,
        decreases self,
    {
        match self {
            UnfrozenTy::Primitive(p) => UnfrozenTy::Primitive(*p),
            UnfrozenTy::UnfrozenScalar(s) => UnfrozenTy::UnfrozenScalar(
                crate::ty::UnfrozenScalar { reference: s.reference.clone() },
            ),
            UnfrozenTy::UnfrozenArray(a) => UnfrozenTy::UnfrozenArray(
                crate::ty::UnfrozenArray { reference: a.reference.clone() },
            ),
            UnfrozenTy::UnfrozenOption(o) => {
                proof {
                    assert(decreases_to!(*self => (*self)->UnfrozenOption_0));
                }
                let element = (*o.element).clone();
                UnfrozenTy::UnfrozenOption(crate::ty::UnfrozenOption { element: Box::new(element) })
            },
        }
    }
}

pub struct Parameter {
    pub name: String,
    pub ty: UnfrozenTy,
    pub mutable: bool,
}

pub struct ParameterView {
    pub name: Seq<char>,
    pub ty: UnfrozenTy,
    pub mutable: bool,
}

impl View for Parameter {
    type V = ParameterView;

    open spec fn view(&self) -> ParameterView {
        ParameterView { name: self.name@, ty: self.ty, mutable: self.mutable }
    }
}

impl Clone for Parameter {
    fn clone(&self) -> (r: Self)
        ensures
            r@ == self@,
    {
        Parameter { name: self.name.clone(), ty: self.ty.clone(), mutable: self.mutable }
    }
}

impl HasName for Parameter {
    open spec fn name_of(&self) -> Seq<char> {
        self.name@
    }

    fn name_string(&self) -> (r: &String) {
        &self.name
    }
}

pub open spec fn parameters_view(m: Map<Uuid, Parameter>) -> Map<Uuid, ParameterView> {
    m.map_values(|p: Parameter| p@)
}

pub struct Function {
    pub parameters: HashMap<Uuid, Parameter>,
    pub parameter_ordering: Vec<Uuid>,
    pub return_ty: UnfrozenTy,
}

pub struct FunctionView {
    pub parameters: Map<Uuid, ParameterView>,
    pub parameter_ordering: Seq<Uuid>,
    pub return_ty: UnfrozenTy,
}

impl View for Function {
    type V = FunctionView;

    open spec fn view(&self) -> FunctionView {
        FunctionView {
            parameters: parameters_view(self.parameters@),
            parameter_ordering: self.parameter_ordering@,
            return_ty: self.return_ty,
        }
    }
}

impl FunctionView {
    /// Whether some parameter has the name.
    pub open spec fn has_parameter_named(self, name: Seq<char>) -> bool {
        exists|id: Uuid| #[trigger] self.parameters.contains_key(id) && self.parameters[id].name == name
    }
}

impl Function {
    /// The id of a parameter with the given name, if there is one.
    pub fn parameter_id(&self, name: &str) -> (r: Option<&Uuid>)
        ensures
            r matches Some(id) ==> self@.parameters.contains_key(*id)
                && self@.parameters[*id].name == name@,
            r is None <==> !self@.has_parameter_named(name@),
    {
        let r = find_named(&self.parameters, name);
        proof {
            if r is None {
                if self@.has_parameter_named(name@) {
                    let id = choose|id: Uuid| #[trigger] self@.parameters.contains_key(id) && self@.parameters[id].name == name@;
                    assert(self.parameters@.contains_key(id));
                }
            }
        }
        r
    }

    pub fn has_parameter(&self, id: &Uuid) -> (r: bool)
        ensures
            r == self@.parameters.contains_key(*id),
    {
        self.parameters.contains_key(id)
    }

    pub fn has_parameter_named(&self, name: &str) -> (r: bool)
        ensures
            r == self@.has_parameter_named(name@),
    {
        self.parameter_id(name).is_some()
    }

    pub fn parameter(&self, id: &Uuid) -> (r: Option<&Parameter>)
        ensures
            r matches Some(p) ==> self@.parameters.contains_key(*id) && p@ == self@.parameters[*id],
            r is None <==> !self@.parameters.contains_key(*id),
    {
        self.parameters.get(id)
    }

    pub fn parameter_named(&self, name: &str) -> (r: Option<&Parameter>)
        ensures
            r matches Some(p) ==> p.name@ == name@ && (exists|id: Uuid|
                #[trigger] self@.parameters.contains_key(id) && self@.parameters[id] == p@),
            r is None <==> !self@.has_parameter_named(name@),
    {
        match self.parameter_id(name) {
            Some(id) => self.parameter(id),
            Option::None => Option::None,
        }
    }

    /// Adds a parameter at the end of the ordering.
    pub fn append_parameter(&mut self, id: Uuid, parameter: Parameter)
        ensures
            final(self)@ == (FunctionView {
                parameters: old(self)@.parameters.insert(id, parameter@),
                parameter_ordering: old(self)@.parameter_ordering.push(id),
                ..old(self)@
            }),
    {
        proof {
            assert(parameters_view(self.parameters@.insert(id, parameter)) =~= parameters_view(
                self.parameters@,
            ).insert(id, parameter@));
        }
        self.parameters.insert(id, parameter);
        self.parameter_ordering.push(id);
    }

    /// Removes a parameter and its place in the ordering; `None` if there is
    /// no such parameter.
    pub fn remove_parameter(&mut self, id: &Uuid) -> (r: Option<Parameter>)
        ensures
            r is Some <==> old(self)@.parameters.contains_key(*id),
            r matches Some(p) ==> p@ == old(self)@.parameters[*id] && final(self)@ == (FunctionView {
                parameters: old(self)@.parameters.remove(*id),
                parameter_ordering: old(self)@.parameter_ordering.filter(other_than(*id)),
                ..old(self)@
            }),
            r is None ==> final(self)@ == old(self)@,
    {
        proof {
            assert(parameters_view(self.parameters@.remove(*id)) =~= parameters_view(
                self.parameters@,
            ).remove(*id));
        }
        let ghost old_params = self.parameters@;
        match self.parameters.remove(id) {
            Option::None => {
                assert(self.parameters@ =~= old_params);
                Option::None
            },
            Some(p) => {
                let target = *id;
                let ghost old_ordering = self.parameter_ordering@;
                let mut kept: Vec<Uuid> = Vec::new();
                let n = self.parameter_ordering.len();
                let mut i: usize = 0;
                while i < n
                    invariant
                        n == self.parameter_ordering@.len(),
                        self.parameter_ordering@ == old_ordering,
                        i <= n,
                        kept@ == old_ordering.take(i as int).filter(other_than(target)),
                    decreases n - i,
                {
                    let k = self.parameter_ordering[i];
                    proof {
                        assert(old_ordering.take(i + 1).drop_last() =~= old_ordering.take(i as int));
                        assert(old_ordering.take(i + 1).last() == k);
                        reveal_with_fuel(Seq::<_>::filter, 1);
                    }
                    if k != target {
                        kept.push(k);
                    }
                    i = i + 1;
                }
                assert(old_ordering.take(n as int) =~= old_ordering);
                self.parameter_ordering = kept;
                Some(p)
            },
        }
    }
}

pub enum ExportKind {
    Function(Function),
}

pub enum ExportKindView {
    Function(FunctionView),
}

impl View for ExportKind {
    type V = ExportKindView;

    open spec fn view(&self) -> ExportKindView {
        match self {
            ExportKind::Function(f) => ExportKindView::Function(f@),
        }
    }
}

impl ExportKind {
    pub fn as_function(&self) -> (r: Option<&Function>)
        ensures
            match *self {
                ExportKind::Function(f) => r == Some(&f),
            },
    {
        match self {
            ExportKind::Function(function) => Some(function),
        }
    }
}

pub struct Export {
    pub name: String,
    pub kind: ExportKind,
}

pub struct ExportView {
    pub name: Seq<char>,
    pub kind: ExportKindView,
}

impl View for Export {
    type V = ExportView;

    open spec fn view(&self) -> ExportView {
        ExportView { name: self.name@, kind: self.kind@ }
    }
}

impl HasName for Export {
    open spec fn name_of(&self) -> Seq<char> {
        self.name@
    }

    fn name_string(&self) -> (r: &String) {
        &self.name
    }
}

fn clone_parameters(m: &HashMap<Uuid, Parameter>) -> (r: HashMap<Uuid, Parameter>)
    ensures
        parameters_view(r@) == parameters_view(m@),
{
    let ids = map_keys(m);
    let mut r: HashMap<Uuid, Parameter> = HashMap::new();
    let n = ids.len();
    let mut i: usize = 0;
    while i < n
        invariant
            n == ids@.len(),
            i <= n,
            ids@.to_set() == m@.dom(),
            r@.dom() == ids@.take(i as int).to_set(),
            forall|id: Uuid| #[trigger] r@.contains_key(id) ==> r@[id]@ == m@[id]@,
        decreases n - i,
    {
        let id = ids[i];
        proof {
            assert(ids@.to_set().contains(id));
        }
        let p = m.get(&id).unwrap().clone();
        r.insert(id, p);
        i = i + 1;
        proof {
            assert(ids@.take(i as int) =~= ids@.take(i - 1).push(id));
            ids@.take(i - 1).lemma_push_to_set_commute(id);
            assert(r@.dom() =~= ids@.take(i as int).to_set());
        }
    }
    assert(ids@.take(n as int) =~= ids@);
    assert(parameters_view(r@) =~= parameters_view(m@));
    r
}

impl Clone for Export {
    fn clone(&self) -> (r: Self)
        ensures
            r@ == self@,
    {
        let kind = match &self.kind {
            ExportKind::Function(f) => ExportKind::Function(
                Function {
                    parameters: clone_parameters(&f.parameters),
                    parameter_ordering: clone_ids(&f.parameter_ordering),
                    return_ty: f.return_ty.clone(),
                },
            ),
        };
        Export { name: self.name.clone(), kind }
    }
}

pub open spec fn exports_view(m: Map<Uuid, Export>) -> Map<Uuid, ExportView> {
    m.map_values(|e: Export| e@)
}

pub struct Module {
    pub parent: Uuid,
    pub name: String,
    pub acl: Acl,
    pub exports: HashMap<Uuid, Export>,
    pub executable: Option<Uuid>,
    pub dependencies: Vec<UnfrozenReference>,
}

pub struct ModuleView {
    pub parent: Uuid,
    pub name: Seq<char>,
    pub acl: AclView,
    pub exports: Map<Uuid, ExportView>,
    pub executable: Option<Uuid>,
    pub dependencies: Seq<UnfrozenReference>,
}

impl View for Module {
    type V = ModuleView;

    open spec fn view(&self) -> ModuleView {
        ModuleView {
            parent: self.parent,
            name: self.name@,
            acl: self.acl@,
            exports: exports_view(self.exports@),
            executable: self.executable,
            dependencies: self.dependencies@,
        }
    }
}

impl ModuleView {
    /// Whether some export has the name.
    pub open spec fn has_export_named(self, name: Seq<char>) -> bool {
        exists|id: Uuid| #[trigger] self.exports.contains_key(id) && self.exports[id].name == name
    }
}

impl Default for Module {
    fn default() -> (r: Self)
        ensures
            r@ == (ModuleView {
                parent: 0,
                name: Seq::empty(),
                acl: Acl::empty_view(),
                exports: Map::empty(),
                executable: None,
                dependencies: Seq::empty(),
            }),
    {
        let r = Module {
            parent: 0,
            name: String::new(),
            acl: Acl::default(),
            exports: HashMap::new(),
            executable: Option::None,
            dependencies: Vec::new(),
        };
        assert(r@.exports =~= Map::<Uuid, ExportView>::empty());
        r
    }
}

impl Module {
    /// The id of an export with the given name, if there is one.
    pub fn export_id(&self, name: &str) -> (r: Option<&Uuid>)
        ensures
            r matches Some(id) ==> self@.exports.contains_key(*id) && self@.exports[*id].name
                == name@,
            r is None <==> !self@.has_export_named(name@),
    {
        let r = find_named(&self.exports, name);
        proof {
            if r is None {
                if self@.has_export_named(name@) {
                    let id = choose|id: Uuid| #[trigger] self@.exports.contains_key(id) && self@.exports[id].name == name@;
                    assert(self.exports@.contains_key(id));
                }
            }
        }
        r
    }

    pub fn has_export(&self, id: &Uuid) -> (r: bool)
        ensures
            r == self@.exports.contains_key(*id),
    {
        self.exports.contains_key(id)
    }

    pub fn has_export_named(&self, name: &str) -> (r: bool)
        ensures
            r == self@.has_export_named(name@),
    {
        self.export_id(name).is_some()
    }

    pub fn export(&self, id: &Uuid) -> (r: Option<&Export>)
        ensures
            r matches Some(e) ==> self@.exports.contains_key(*id) && e@ == self@.exports[*id],
            r is None <==> !self@.exports.contains_key(*id),
    {
        self.exports.get(id)
    }

    pub fn export_named(&self, name: &str) -> (r: Option<&Export>)
        ensures
            r matches Some(e) ==> e.name@ == name@ && (exists|id: Uuid|
                #[trigger] self@.exports.contains_key(id) && self@.exports[id] == e@),
            r is None <==> !self@.has_export_named(name@),
    {
        match self.export_id(name) {
            Some(id) => self.export(id),
            Option::None => Option::None,
        }
    }

    /// Removes an export.
    pub fn remove_export(&mut self, id: &Uuid)
        ensures
            final(self)@ == (ModuleView { exports: old(self)@.exports.remove(*id), ..old(self)@ }),
    {
        proof {
            assert(exports_view(self.exports@.remove(*id)) =~= exports_view(self.exports@).remove(
                *id,
            ));
        }
        self.exports.remove(id);
    }
}

impl WithAcl for Module {
    open spec fn acl_of(&self) -> Acl {
        self.acl
    }

    open spec fn with_acl(self, acl: Acl) -> Self {
        Module { acl, ..self }
    }

    proof fn lemma_with_acl(self, acl: Acl) {
    }

    fn acl(&self) -> (r: &Acl) {
        &self.acl
    }

    fn acl_mut(&mut self) -> (r: &mut Acl) {
        &mut self.acl
    }
}

impl RecordView for Module {
    open spec fn name_of(&self) -> Option<Seq<char>> {
        Some(self.name@)
    }

    open spec fn parent_of(&self) -> Option<Uuid> {
        Some(self.parent)
    }

    open spec fn acl_view_of(&self) -> Option<Acl> {
        Some(self.acl)
    }

    fn name(&self) -> (r: Option<&str>) {
        Some(self.name.as_str())
    }

    fn parent(&self) -> (r: Option<&Uuid>) {
        Some(&self.parent)
    }

    fn acl(&self) -> (r: Option<&Acl>) {
        Some(&self.acl)
    }
}

impl BlobDependencies for Module {
    open spec fn blobs(&self) -> Set<Uuid> {
        match self.executable {
            Some(e) => set![e],
            None => Set::empty(),
        }
    }

    fn blob_dependencies(&self, set: &mut HashSet<Uuid>) {
        if let Some(executable) = &self.executable {
            set.insert(*executable);
        }
        assert(set@ =~= old(set)@.union(self.blobs()));
    }
}

} // verus!
