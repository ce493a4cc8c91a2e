use std::collections::HashMap;
use vstd::prelude::*;

use super::unfrozen::{
    exports_view, parameters_view, Export, ExportKind, ExportKindView, ExportView, Function,
    FunctionView, Module, ModuleView, Parameter, ParameterView,
};
use crate::acl::action::{
    apply_action as acl_apply_action, Action as AclAction, ActionError as AclActionError,
};
use crate::collections::other_than;
use crate::record::{Apply, UnfrozenReference, Uuid};
use crate::ty::UnfrozenTy;

verus! {

broadcast use vstd::std_specs::hash::group_hash_axioms;

// ---------------------------------------------------------------------------
// Views of export and parameter maps

pub proof fn lemma_exports_view_insert(m: Map<Uuid, Export>, k: Uuid, e: Export)
    ensures
        exports_view(m.insert(k, e)) == exports_view(m).insert(k, e@),
{
    assert(exports_view(m.insert(k, e)) =~= exports_view(m).insert(k, e@));
}

pub proof fn lemma_exports_view_remove(m: Map<Uuid, Export>, k: Uuid)
    ensures
        exports_view(m.remove(k)) == exports_view(m).remove(k),
{
    assert(exports_view(m.remove(k)) =~= exports_view(m).remove(k));
}

pub proof fn lemma_parameters_view_insert(m: Map<Uuid, Parameter>, k: Uuid, p: Parameter)
    ensures
        parameters_view(m.insert(k, p)) == parameters_view(m).insert(k, p@),
{
    assert(parameters_view(m.insert(k, p)) =~= parameters_view(m).insert(k, p@));
}

pub proof fn lemma_parameters_view_remove(m: Map<Uuid, Parameter>, k: Uuid)
    ensures
        parameters_view(m.remove(k)) == parameters_view(m).remove(k),
{
    assert(parameters_view(m.remove(k)) =~= parameters_view(m).remove(k));
}

// ---------------------------------------------------------------------------
// Mathematical description of the actions

/// The function an export holds.
pub open spec fn function_of(e: ExportView) -> FunctionView {
    match e.kind {
        ExportKindView::Function(f) => f,
    }
}

pub open spec fn with_function(e: ExportView, f: FunctionView) -> ExportView {
    ExportView { kind: ExportKindView::Function(f), ..e }
}

pub open spec fn with_exports(v: ModuleView, exports: Map<Uuid, ExportView>) -> ModuleView {
    ModuleView { exports, ..v }
}

/// The module with the function of export `id` replaced.
pub open spec fn update_function(v: ModuleView, id: Uuid, f: FunctionView) -> ModuleView {
    with_exports(v, v.exports.insert(id, with_function(v.exports[id], f)))
}

pub struct SetExecutable {
    pub blob_id: Uuid,
}

#[derive(Clone, Copy, PartialEq, Eq, Structural, Debug)]
pub enum SetExecutableError {
    _Dummy,
}

/// Setting the blob that holds the module's executable; never fails.
pub open spec fn set_executable(v: ModuleView, a: SetExecutable) -> (ModuleView, Result<(), SetExecutableError>) {
    (ModuleView { executable: Some(a.blob_id), ..v }, Ok(()))
}

pub struct AddExport {
    pub id: Uuid,
    pub export: Export,
}

#[derive(Clone, Copy, PartialEq, Eq, Structural, Debug)]
pub enum AddExportError {
    /// Export name already exists in module.
    NameAlreadyExists,
}

/// Adding an export under `id`, unless its name is taken.
pub open spec fn add_export(v: ModuleView, a: AddExport) -> (ModuleView, Result<(), AddExportError>) {
    if v.has_export_named(a.export.name@) {
        (v, Err(AddExportError::NameAlreadyExists))
    } else {
        (with_exports(v, v.exports.insert(a.id, a.export@)), Ok(()))
    }
}

pub struct RemoveExport {
    pub id: Uuid,
}

#[derive(Clone, Copy, PartialEq, Eq, Structural, Debug)]
pub enum RemoveExportError {
    /// Export not found in module.
    ExportNotFound,
}

pub open spec fn remove_export(v: ModuleView, a: RemoveExport) -> (ModuleView, Result<(), RemoveExportError>) {
    if v.exports.contains_key(a.id) {
        (with_exports(v, v.exports.remove(a.id)), Ok(()))
    } else {
        (v, Err(RemoveExportError::ExportNotFound))
    }
}

pub struct RenameExport {
    pub id: Uuid,
    pub name: String,
}

#[derive(Clone, Copy, PartialEq, Eq, Structural, Debug)]
pub enum RenameExportError {
    /// Export not found in module.
    ExportNotFound,
    /// Export name already exists in module.
    NameAlreadyExists,
}

/// Whether an export other than `id` already has the name.
pub open spec fn name_taken_by_other(v: ModuleView, id: Uuid, name: Seq<char>) -> bool {
    exists|other: Uuid|
        #[trigger] v.exports.contains_key(other) && other != id && v.exports[other].name == name
}

/// The module with export `a.id` renamed.
pub open spec fn renamed(v: ModuleView, a: RenameExport) -> ModuleView {
    with_exports(v, v.exports.insert(a.id, ExportView { name: a.name@, ..v.exports[a.id] }))
}

/// What renaming leaves and returns. When another export holds the name
/// the rename is refused; when the export being renamed holds it too, which
/// of the two the name lookup meets is left open, and the rename may
/// succeed, changing nothing. Where the name is free and the export is
/// missing, the rename is refused as `ExportNotFound`.
pub open spec fn rename_export_applied(pre: ModuleView, a: RenameExport, post: ModuleView, r: Result<(), RenameExportError>) -> bool {
    let taken = name_taken_by_other(pre, a.id, a.name@);
    let exists = pre.exports.contains_key(a.id);
    &&& !taken && exists ==> r is Ok
    &&& !taken && !exists ==> r == Err::<(), RenameExportError>(RenameExportError::ExportNotFound)
    &&& taken && !exists ==> r == Err::<(), RenameExportError>(RenameExportError::NameAlreadyExists)
    &&& match r {
        Ok(()) => exists && post == renamed(pre, a) && (taken ==> pre.exports[a.id].name == a.name@),
        Err(e) => post == pre && (e == RenameExportError::NameAlreadyExists ==> taken) && (e
            == RenameExportError::ExportNotFound ==> !exists && !taken),
    }
}

pub struct AppendFunctionParameter {
    pub export: Uuid,
    pub parameter_id: Uuid,
    pub parameter: Parameter,
}

#[derive(Clone, Copy, PartialEq, Eq, Structural, Debug)]
pub enum AppendFunctionParameterError {
    /// Export not found in module.
    ExportNotFound,
    /// Export is of the wrong type for this operation.
    WrongType,
    /// Parameter name already exists in function.
    NameAlreadyExists,
}

pub open spec fn append_function_parameter(v: ModuleView, a: AppendFunctionParameter) -> (ModuleView, Result<(), AppendFunctionParameterError>) {
    if !v.exports.contains_key(a.export) {
        (v, Err(AppendFunctionParameterError::ExportNotFound))
    } else {
        let f = function_of(v.exports[a.export]);
        if f.has_parameter_named(a.parameter.name@) {
            (v, Err(AppendFunctionParameterError::NameAlreadyExists))
        } else {
            (
                update_function(
                    v,
                    a.export,
                    FunctionView {
                        parameters: f.parameters.insert(a.parameter_id, a.parameter@),
                        parameter_ordering: f.parameter_ordering.push(a.parameter_id),
                        ..f
                    },
                ),
                Ok(()),
            )
        }
    }
}

pub struct RemoveFunctionParameter {
    pub export: Uuid,
    pub parameter: Uuid,
}

#[derive(Clone, Copy, PartialEq, Eq, Structural, Debug)]
pub enum RemoveFunctionParameterError {
    /// Export not found in module.
    ExportNotFound,
    /// Export is of the wrong type for this operation.
    WrongType,
    /// Parameter not found in export.
    ParameterNotFound,
}

pub open spec fn remove_function_parameter(v: ModuleView, a: RemoveFunctionParameter) -> (ModuleView, Result<(), RemoveFunctionParameterError>) {
    if !v.exports.contains_key(a.export) {
        (v, Err(RemoveFunctionParameterError::ExportNotFound))
    } else {
        let f = function_of(v.exports[a.export]);
        if !f.parameters.contains_key(a.parameter) {
            (v, Err(RemoveFunctionParameterError::ParameterNotFound))
        } else {
            (
                update_function(
                    v,
                    a.export,
                    FunctionView {
                        parameters: f.parameters.remove(a.parameter),
                        parameter_ordering: f.parameter_ordering.filter(other_than(a.parameter)),
                        ..f
                    },
                ),
                Ok(()),
            )
        }
    }
}

/// A change to one parameter of a function.
pub enum ParameterChange {
    Name(String),
    Ty(UnfrozenTy),
    Mutable(bool),
}

pub open spec fn parameter_changed(p: ParameterView, c: ParameterChange) -> ParameterView {
    match c {
        ParameterChange::Name(name) => ParameterView { name: name@, ..p },
        ParameterChange::Ty(ty) => ParameterView { ty, ..p },
        ParameterChange::Mutable(mutable) => ParameterView { mutable, ..p },
    }
}

/// Why a parameter could not be changed.
#[derive(Clone, Copy, PartialEq, Eq, Structural, Debug)]
pub enum ParameterLookupError {
    ExportNotFound,
    ParameterNotFound,
}

/// Changing parameter `pid` of the function exported as `export`.
pub open spec fn change_parameter(v: ModuleView, export: Uuid, pid: Uuid, c: ParameterChange) -> (ModuleView, Result<(), ParameterLookupError>) {
    if !v.exports.contains_key(export) {
        (v, Err(ParameterLookupError::ExportNotFound))
    } else {
        let f = function_of(v.exports[export]);
        if !f.parameters.contains_key(pid) {
            (v, Err(ParameterLookupError::ParameterNotFound))
        } else {
            (
                update_function(
                    v,
                    export,
                    FunctionView {
                        parameters: f.parameters.insert(pid, parameter_changed(f.parameters[pid], c)),
                        ..f
                    },
                ),
                Ok(()),
            )
        }
    }
}

pub struct SetFunctionParameterName {
    pub export: Uuid,
    pub parameter: Uuid,
    pub name: String,
}

#[derive(Clone, Copy, PartialEq, Eq, Structural, Debug)]
pub enum SetFunctionParameterNameError {
    /// Export not found in module.
    ExportNotFound,
    /// Export is of the wrong type for this operation.
    WrongType,
    /// Parameter not found in export.
    ParameterNotFound,
    /// Name already taken.
    NameTaken,
}

/// Renaming a parameter; the name must not be held by any parameter of the
/// function, the renamed one included.
pub open spec fn set_function_parameter_name(v: ModuleView, a: SetFunctionParameterName) -> (ModuleView, Result<(), SetFunctionParameterNameError>) {
    if !v.exports.contains_key(a.export) {
        (v, Err(SetFunctionParameterNameError::ExportNotFound))
    } else if function_of(v.exports[a.export]).has_parameter_named(a.name@) {
        (v, Err(SetFunctionParameterNameError::NameTaken))
    } else {
        let (w, r) = change_parameter(v, a.export, a.parameter, ParameterChange::Name(a.name));
        match r {
            Ok(()) => (w, Ok(())),
            Err(_) => (w, Err(SetFunctionParameterNameError::ParameterNotFound)),
        }
    }
}

pub struct SetFunctionParameterType {
    pub export: Uuid,
    pub parameter: Uuid,
    pub ty: UnfrozenTy,
}

#[derive(Clone, Copy, PartialEq, Eq, Structural, Debug)]
pub enum SetFunctionParameterTypeError {
    /// Export not found in module.
    ExportNotFound,
    /// Export is of the wrong type for this operation.
    WrongType,
    /// Parameter not found in export.
    ParameterNotFound,
}

pub open spec fn set_function_parameter_type(v: ModuleView, a: SetFunctionParameterType) -> (ModuleView, Result<(), SetFunctionParameterTypeError>) {
    let (w, r) = change_parameter(v, a.export, a.parameter, ParameterChange::Ty(a.ty));
    match r {
        Ok(()) => (w, Ok(())),
        Err(ParameterLookupError::ExportNotFound) => (w, Err(SetFunctionParameterTypeError::ExportNotFound)),
        Err(ParameterLookupError::ParameterNotFound) => (w, Err(SetFunctionParameterTypeError::ParameterNotFound)),
    }
}

pub struct SetFunctionParameterMutability {
    pub export: Uuid,
    pub parameter: Uuid,
    pub mutable: bool,
}

#[derive(Clone, Copy, PartialEq, Eq, Structural, Debug)]
pub enum SetFunctionParameterMutabilityError {
    /// Export not found in module.
    ExportNotFound,
    /// Export is of the wrong type for this operation.
    WrongType,
    /// Parameter not found in export.
    ParameterNotFound,
}

pub open spec fn set_function_parameter_mutability(v: ModuleView, a: SetFunctionParameterMutability) -> (ModuleView, Result<(), SetFunctionParameterMutabilityError>) {
    let (w, r) = change_parameter(v, a.export, a.parameter, ParameterChange::Mutable(a.mutable));
    match r {
        Ok(()) => (w, Ok(())),
        Err(ParameterLookupError::ExportNotFound) => (w, Err(SetFunctionParameterMutabilityError::ExportNotFound)),
        Err(ParameterLookupError::ParameterNotFound) => (w, Err(SetFunctionParameterMutabilityError::ParameterNotFound)),
    }
}

pub struct SetFunctionReturnType {
    pub export: Uuid,
    pub ty: UnfrozenTy,
}

#[derive(Clone, Copy, PartialEq, Eq, Structural, Debug)]
pub enum SetFunctionReturnTypeError {
    /// Export not found in module.
    ExportNotFound,
}

pub open spec fn set_function_return_type(v: ModuleView, a: SetFunctionReturnType) -> (ModuleView, Result<(), SetFunctionReturnTypeError>) {
    if !v.exports.contains_key(a.export) {
        (v, Err(SetFunctionReturnTypeError::ExportNotFound))
    } else {
        let f = function_of(v.exports[a.export]);
        (update_function(v, a.export, FunctionView { return_ty: a.ty, ..f }), Ok(()))
    }
}

/// The most dependencies a module may declare.
pub const MAX_DEPENDENCIES: usize = 32usize;

pub struct AddDependency {
    pub dependency: UnfrozenReference,
}

#[derive(Clone, Copy, PartialEq, Eq, Structural, Debug)]
pub enum AddDependencyError {
    /// Dependency already exists.
    AlreadyExists,
    /// Too many dependencies.
    TooMany,
}

/// Whether some declared dependency refers to the record `id`.
pub open spec fn depends_on(deps: Seq<UnfrozenReference>, id: Uuid) -> bool {
    exists|i: int| 0 <= i < deps.len() && (#[trigger] deps[i]).id == id
}

pub open spec fn add_dependency(v: ModuleView, a: AddDependency) -> (ModuleView, Result<(), AddDependencyError>) {
    if v.dependencies.len() >= MAX_DEPENDENCIES {
        (v, Err(AddDependencyError::TooMany))
    } else if depends_on(v.dependencies, a.dependency.id) {
        (v, Err(AddDependencyError::AlreadyExists))
    } else {
        (ModuleView { dependencies: v.dependencies.push(a.dependency), ..v }, Ok(()))
    }
}

pub struct RemoveDependency {
    pub id: Uuid,
}

#[derive(Clone, Copy, PartialEq, Eq, Structural, Debug)]
pub enum RemoveDependencyError {
    /// Dependency not found.
    NotFound,
}

/// The first position of a dependency on `id`.
pub open spec fn first_position(deps: Seq<UnfrozenReference>, id: Uuid) -> int
    recommends
        depends_on(deps, id),
{
    choose|i: int|
        0 <= i < deps.len() && (#[trigger] deps[i]).id == id && forall|j: int|
            0 <= j < i ==> deps[j].id != id
}

/// Removing the first dependency on the record `a.id`.
pub open spec fn remove_dependency(v: ModuleView, a: RemoveDependency) -> (ModuleView, Result<(), RemoveDependencyError>) {
    if depends_on(v.dependencies, a.id) {
        (
            ModuleView {
                dependencies: v.dependencies.remove(first_position(v.dependencies, a.id)),
                ..v
            },
            Ok(()),
        )
    } else {
        (v, Err(RemoveDependencyError::NotFound))
    }
}

// ---------------------------------------------------------------------------
// Reaching into the exports

impl Module {
    /// Takes the function exported as `id` out of the export map.
    fn take_function(&mut self, id: Uuid) -> (r: Option<(String, Function)>)
        ensures
            match r {
                Option::None => !old(self)@.exports.contains_key(id) && final(self)@ == old(self)@,
                Some((name, f)) => {
                    &&& old(self)@.exports.contains_key(id)
                    &&& old(self)@.exports[id] == (ExportView { name: name@, kind: ExportKindView::Function(f@) })
                    &&& final(self)@ == with_exports(old(self)@, old(self)@.exports.remove(id))
                },
            },
    {
        let ghost old_exports = self.exports@;
        proof {
            lemma_exports_view_remove(old_exports, id);
        }
        match self.exports.remove(&id) {
            Option::None => {
                assert(self.exports@ =~= old_exports);
                Option::None
            },
            Some(export) => match export.kind {
                ExportKind::Function(f) => Some((export.name, f)),
            },
        }
    }

    /// Puts a function back under `id`.
    fn put_function(&mut self, id: Uuid, name: String, f: Function)
        ensures
            final(self)@ == with_exports(
                old(self)@,
                old(self)@.exports.insert(
                    id,
                    ExportView { name: name@, kind: ExportKindView::Function(f@) },
                ),
            ),
    {
        let export = Export { name, kind: ExportKind::Function(f) };
        proof {
            lemma_exports_view_insert(self.exports@, id, export);
        }
        self.exports.insert(id, export);
    }

    /// Changes one parameter of an exported function.
    fn change_parameter(&mut self, export: Uuid, pid: Uuid, c: ParameterChange) -> (r: Result<(), ParameterLookupError>)
        ensures
            (final(self)@, r) == change_parameter(old(self)@, export, pid, c),
    {
        let ghost pre = self@;
        match self.take_function(export) {
            Option::None => Err(ParameterLookupError::ExportNotFound),
            Some((name, mut f)) => {
                let ghost fv = f@;
                let ghost old_params = f.parameters@;
                proof {
                    lemma_parameters_view_remove(old_params, pid);
                }
                let r = match f.parameters.remove(&pid) {
                    Option::None => {
                        assert(f.parameters@ =~= old_params);
                        Err(ParameterLookupError::ParameterNotFound)
                    },
                    Some(mut p) => {
                        let ghost pv = p@;
                        match c {
                            ParameterChange::Name(n) => {
                                p.name = n;
                            },
                            ParameterChange::Ty(t) => {
                                p.ty = t;
                            },
                            ParameterChange::Mutable(m) => {
                                p.mutable = m;
                            },
                        }
                        proof {
                            lemma_parameters_view_insert(old_params.remove(pid), pid, p);
                            assert(parameters_view(old_params).remove(pid).insert(pid, p@)
                                =~= parameters_view(old_params).insert(pid, p@));
                        }
                        f.parameters.insert(pid, p);
                        Ok(())
                    },
                };
                self.put_function(export, name, f);
                proof {
                    assert(pre.exports.remove(export).insert(export, pre.exports[export])
                        =~= pre.exports);
                    assert(self@.exports =~= pre.exports.insert(
                        export,
                        with_function(pre.exports[export], f@),
                    ));
                }
                r
            },
        }
    }
}

// ---------------------------------------------------------------------------
// Applying the actions

impl Apply<SetExecutable> for Module {
    type Error = SetExecutableError;

    open spec fn name_mutating(action: SetExecutable) -> bool {
        false
    }

    open spec fn parent_mutating(action: SetExecutable) -> bool {
        false
    }

    open spec fn applicable(record: Module, action: SetExecutable) -> bool {
        true
    }

    open spec fn applied(pre: Module, action: SetExecutable, post: Module, r: Result<(), SetExecutableError>) -> bool {
        (post@, r) == set_executable(pre@, action)
    }

    fn mutates_name(_action: &SetExecutable) -> (r: bool) {
        false
    }

    fn mutates_parent(_action: &SetExecutable) -> (r: bool) {
        false
    }

    fn apply(&mut self, action: &SetExecutable) -> (r: Result<(), SetExecutableError>) {
        self.executable = Some(action.blob_id);
        Ok(())
    }
}

impl Apply<AddExport> for Module {
    type Error = AddExportError;

    open spec fn name_mutating(action: AddExport) -> bool {
        false
    }

    open spec fn parent_mutating(action: AddExport) -> bool {
        false
    }

    open spec fn applicable(record: Module, action: AddExport) -> bool {
        true
    }

    open spec fn applied(pre: Module, action: AddExport, post: Module, r: Result<(), AddExportError>) -> bool {
        (post@, r) == add_export(pre@, action)
    }

    fn mutates_name(_action: &AddExport) -> (r: bool) {
        false
    }

    fn mutates_parent(_action: &AddExport) -> (r: bool) {
        false
    }

    fn apply(&mut self, action: &AddExport) -> (r: Result<(), AddExportError>) {
        if self.has_export_named(action.export.name.as_str()) {
            return Err(AddExportError::NameAlreadyExists);
        }
        let export = action.export.clone();
        proof {
            lemma_exports_view_insert(self.exports@, action.id, export);
        }
        self.exports.insert(action.id, export);
        Ok(())
    }
}

impl Apply<RemoveExport> for Module {
    type Error = RemoveExportError;

    open spec fn name_mutating(action: RemoveExport) -> bool {
        false
    }

    open spec fn parent_mutating(action: RemoveExport) -> bool {
        false
    }

    open spec fn applicable(record: Module, action: RemoveExport) -> bool {
        true
    }

    open spec fn applied(pre: Module, action: RemoveExport, post: Module, r: Result<(), RemoveExportError>) -> bool {
        (post@, r) == remove_export(pre@, action)
    }

    fn mutates_name(_action: &RemoveExport) -> (r: bool) {
        false
    }

    fn mutates_parent(_action: &RemoveExport) -> (r: bool) {
        false
    }

    fn apply(&mut self, action: &RemoveExport) -> (r: Result<(), RemoveExportError>) {
        if !self.has_export(&action.id) {
            return Err(RemoveExportError::ExportNotFound);
        }
        self.remove_export(&action.id);
        Ok(())
    }
}

impl Apply<RenameExport> for Module {
    type Error = RenameExportError;

    open spec fn name_mutating(action: RenameExport) -> bool {
        false
    }

    open spec fn parent_mutating(action: RenameExport) -> bool {
        false
    }

    open spec fn applicable(record: Module, action: RenameExport) -> bool {
        true
    }

    open spec fn applied(pre: Module, action: RenameExport, post: Module, r: Result<(), RenameExportError>) -> bool {
        rename_export_applied(pre@, action, post@, r)
    }

    fn mutates_name(_action: &RenameExport) -> (r: bool) {
        false
    }

    fn mutates_parent(_action: &RenameExport) -> (r: bool) {
        false
    }

    fn apply(&mut self, action: &RenameExport) -> (r: Result<(), RenameExportError>) {
        let ghost pre = self@;
        if let Some(id) = self.export_id(action.name.as_str()) {
            if *id != action.id {
                return Err(RenameExportError::NameAlreadyExists);
            }
        }
        proof {
            if name_taken_by_other(pre, action.id, action.name@) {
                let other = choose|other: Uuid|
                    #[trigger] pre.exports.contains_key(other) && other != action.id
                        && pre.exports[other].name == action.name@;
                assert(pre.has_export_named(action.name@));
            }
        }
        let ghost old_exports = self.exports@;
        proof {
            lemma_exports_view_remove(old_exports, action.id);
        }
        let mut export = match self.exports.remove(&action.id) {
            Some(export) => export,
            None => {
                proof {
                    assert(self.exports@ =~= old_exports);
                    assert(self@ == pre);
                }
                return Err(RenameExportError::ExportNotFound);
            },
        };
        export.name = action.name.clone();
        proof {
            lemma_exports_view_insert(old_exports.remove(action.id), action.id, export);
            assert(exports_view(old_exports).remove(action.id).insert(action.id, export@)
                =~= exports_view(old_exports).insert(action.id, export@));
        }
        self.exports.insert(action.id, export);
        proof {
            if name_taken_by_other(pre, action.id, action.name@) {
                assert(pre.has_export_named(action.name@));
            }
        }
        Ok(())
    }
}

impl Apply<AppendFunctionParameter> for Module {
    type Error = AppendFunctionParameterError;

    open spec fn name_mutating(action: AppendFunctionParameter) -> bool {
        false
    }

    open spec fn parent_mutating(action: AppendFunctionParameter) -> bool {
        false
    }

    open spec fn applicable(record: Module, action: AppendFunctionParameter) -> bool {
        true
    }

    open spec fn applied(pre: Module, action: AppendFunctionParameter, post: Module, r: Result<(), AppendFunctionParameterError>) -> bool {
        (post@, r) == append_function_parameter(pre@, action)
    }

    fn mutates_name(_action: &AppendFunctionParameter) -> (r: bool) {
        false
    }

    fn mutates_parent(_action: &AppendFunctionParameter) -> (r: bool) {
        false
    }

    fn apply(&mut self, action: &AppendFunctionParameter) -> (r: Result<(), AppendFunctionParameterError>) {
        let ghost pre = self@;
        match self.take_function(action.export) {
            Option::None => Err(AppendFunctionParameterError::ExportNotFound),
            Some((name, mut f)) => {
                let r = if f.has_parameter_named(action.parameter.name.as_str()) {
                    Err(AppendFunctionParameterError::NameAlreadyExists)
                } else {
                    f.append_parameter(action.parameter_id, action.parameter.clone());
                    Ok(())
                };
                self.put_function(action.export, name, f);
                proof {
                    assert(pre.exports.remove(action.export).insert(
                        action.export,
                        pre.exports[action.export],
                    ) =~= pre.exports);
                    assert(self@.exports =~= pre.exports.insert(
                        action.export,
                        with_function(pre.exports[action.export], f@),
                    ));
                }
                r
            },
        }
    }
}

impl Apply<RemoveFunctionParameter> for Module {
    type Error = RemoveFunctionParameterError;

    open spec fn name_mutating(action: RemoveFunctionParameter) -> bool {
        false
    }

    open spec fn parent_mutating(action: RemoveFunctionParameter) -> bool {
        false
    }

    open spec fn applicable(record: Module, action: RemoveFunctionParameter) -> bool {
        true
    }

    open spec fn applied(pre: Module, action: RemoveFunctionParameter, post: Module, r: Result<(), RemoveFunctionParameterError>) -> bool {
        (post@, r) == remove_function_parameter(pre@, action)
    }

    fn mutates_name(_action: &RemoveFunctionParameter) -> (r: bool) {
        false
    }

    fn mutates_parent(_action: &RemoveFunctionParameter) -> (r: bool) {
        false
    }

    fn apply(&mut self, action: &RemoveFunctionParameter) -> (r: Result<(), RemoveFunctionParameterError>) {
        let ghost pre = self@;
        match self.take_function(action.export) {
            Option::None => Err(RemoveFunctionParameterError::ExportNotFound),
            Some((name, mut f)) => {
                let r = match f.remove_parameter(&action.parameter) {
                    Option::None => Err(RemoveFunctionParameterError::ParameterNotFound),
                    Some(_) => Ok(()),
                };
                self.put_function(action.export, name, f);
                proof {
                    assert(pre.exports.remove(action.export).insert(
                        action.export,
                        pre.exports[action.export],
                    ) =~= pre.exports);
                    assert(self@.exports =~= pre.exports.insert(
                        action.export,
                        with_function(pre.exports[action.export], f@),
                    ));
                }
                r
            },
        }
    }
}

impl Apply<SetFunctionParameterName> for Module {
    type Error = SetFunctionParameterNameError;

    open spec fn name_mutating(action: SetFunctionParameterName) -> bool {
        false
    }

    open spec fn parent_mutating(action: SetFunctionParameterName) -> bool {
        false
    }

    open spec fn applicable(record: Module, action: SetFunctionParameterName) -> bool {
        true
    }

    open spec fn applied(pre: Module, action: SetFunctionParameterName, post: Module, r: Result<(), SetFunctionParameterNameError>) -> bool {
        (post@, r) == set_function_parameter_name(pre@, action)
    }

    fn mutates_name(_action: &SetFunctionParameterName) -> (r: bool) {
        false
    }

    fn mutates_parent(_action: &SetFunctionParameterName) -> (r: bool) {
        false
    }

    fn apply(&mut self, action: &SetFunctionParameterName) -> (r: Result<(), SetFunctionParameterNameError>) {
        match self.exports.get(&action.export) {
            Option::None => {
                return Err(SetFunctionParameterNameError::ExportNotFound);
            },
            Some(export) => match &export.kind {
                ExportKind::Function(f) => {
                    if f.parameter_named(action.name.as_str()).is_some() {
                        return Err(SetFunctionParameterNameError::NameTaken);
                    }
                },
            },
        }
        match self.change_parameter(
            action.export,
            action.parameter,
            ParameterChange::Name(action.name.clone()),
        ) {
            Ok(()) => Ok(()),
            Err(_) => Err(SetFunctionParameterNameError::ParameterNotFound),
        }
    }
}

impl Apply<SetFunctionParameterType> for Module {
    type Error = SetFunctionParameterTypeError;

    open spec fn name_mutating(action: SetFunctionParameterType) -> bool {
        false
    }

    open spec fn parent_mutating(action: SetFunctionParameterType) -> bool {
        false
    }

    open spec fn applicable(record: Module, action: SetFunctionParameterType) -> bool {
        true
    }

    open spec fn applied(pre: Module, action: SetFunctionParameterType, post: Module, r: Result<(), SetFunctionParameterTypeError>) -> bool {
        (post@, r) == set_function_parameter_type(pre@, action)
    }

    fn mutates_name(_action: &SetFunctionParameterType) -> (r: bool) {
        false
    }

    fn mutates_parent(_action: &SetFunctionParameterType) -> (r: bool) {
        false
    }

    fn apply(&mut self, action: &SetFunctionParameterType) -> (r: Result<(), SetFunctionParameterTypeError>) {
        match self.change_parameter(
            action.export,
            action.parameter,
            ParameterChange::Ty(action.ty.clone()),
        ) {
            Ok(()) => Ok(()),
            Err(ParameterLookupError::ExportNotFound) => Err(SetFunctionParameterTypeError::ExportNotFound),
            Err(ParameterLookupError::ParameterNotFound) => Err(SetFunctionParameterTypeError::ParameterNotFound),
        }
    }
}

impl Apply<SetFunctionParameterMutability> for Module {
    type Error = SetFunctionParameterMutabilityError;

    open spec fn name_mutating(action: SetFunctionParameterMutability) -> bool {
        false
    }

    open spec fn parent_mutating(action: SetFunctionParameterMutability) -> bool {
        false
    }

    open spec fn applicable(record: Module, action: SetFunctionParameterMutability) -> bool {
        true
    }

    open spec fn applied(pre: Module, action: SetFunctionParameterMutability, post: Module, r: Result<(), SetFunctionParameterMutabilityError>) -> bool {
        (post@, r) == set_function_parameter_mutability(pre@, action)
    }

    fn mutates_name(_action: &SetFunctionParameterMutability) -> (r: bool) {
        false
    }

    fn mutates_parent(_action: &SetFunctionParameterMutability) -> (r: bool) {
        false
    }

    fn apply(&mut self, action: &SetFunctionParameterMutability) -> (r: Result<(), SetFunctionParameterMutabilityError>) {
        match self.change_parameter(
            action.export,
            action.parameter,
            ParameterChange::Mutable(action.mutable),
        ) {
            Ok(()) => Ok(()),
            Err(ParameterLookupError::ExportNotFound) => Err(SetFunctionParameterMutabilityError::ExportNotFound),
            Err(ParameterLookupError::ParameterNotFound) => Err(SetFunctionParameterMutabilityError::ParameterNotFound),
        }
    }
}

impl Apply<SetFunctionReturnType> for Module {
    type Error = SetFunctionReturnTypeError;

    open spec fn name_mutating(action: SetFunctionReturnType) -> bool {
        false
    }

    open spec fn parent_mutating(action: SetFunctionReturnType) -> bool {
        false
    }

    open spec fn applicable(record: Module, action: SetFunctionReturnType) -> bool {
        true
    }

    open spec fn applied(pre: Module, action: SetFunctionReturnType, post: Module, r: Result<(), SetFunctionReturnTypeError>) -> bool {
        (post@, r) == set_function_return_type(pre@, action)
    }

    fn mutates_name(_action: &SetFunctionReturnType) -> (r: bool) {
        false
    }

    fn mutates_parent(_action: &SetFunctionReturnType) -> (r: bool) {
        false
    }

    fn apply(&mut self, action: &SetFunctionReturnType) -> (r: Result<(), SetFunctionReturnTypeError>) {
        let ghost pre = self@;
        match self.take_function(action.export) {
            Option::None => Err(SetFunctionReturnTypeError::ExportNotFound),
            Some((name, mut f)) => {
                f.return_ty = action.ty.clone();
                self.put_function(action.export, name, f);
                proof {
                    assert(self@.exports =~= pre.exports.insert(
                        action.export,
                        with_function(pre.exports[action.export], f@),
                    ));
                }
                Ok(())
            },
        }
    }
}

impl Apply<AddDependency> for Module {
    type Error = AddDependencyError;

    open spec fn name_mutating(action: AddDependency) -> bool {
        false
    }

    open spec fn parent_mutating(action: AddDependency) -> bool {
        false
    }

    open spec fn applicable(record: Module, action: AddDependency) -> bool {
        true
    }

    open spec fn applied(pre: Module, action: AddDependency, post: Module, r: Result<(), AddDependencyError>) -> bool {
        (post@, r) == add_dependency(pre@, action)
    }

    fn mutates_name(_action: &AddDependency) -> (r: bool) {
        false
    }

    fn mutates_parent(_action: &AddDependency) -> (r: bool) {
        false
    }

    fn apply(&mut self, action: &AddDependency) -> (r: Result<(), AddDependencyError>) {
        if self.dependencies.len() >= MAX_DEPENDENCIES {
            return Err(AddDependencyError::TooMany);
        }
        let n = self.dependencies.len();
        let mut i: usize = 0;
        while i < n
            invariant
                n == self.dependencies@.len(),
                i <= n,
                *self == *old(self),
                self.dependencies@.len() < MAX_DEPENDENCIES,
                forall|j: int| 0 <= j < i ==> self.dependencies@[j].id != action.dependency.id,
            decreases n - i,
        {
            if self.dependencies[i].id == action.dependency.id {
                return Err(AddDependencyError::AlreadyExists);
            }
            i = i + 1;
        }
        self.dependencies.push(action.dependency.clone());
        Ok(())
    }
}

impl Apply<RemoveDependency> for Module {
    type Error = RemoveDependencyError;

    open spec fn name_mutating(action: RemoveDependency) -> bool {
        false
    }

    open spec fn parent_mutating(action: RemoveDependency) -> bool {
        false
    }

    open spec fn applicable(record: Module, action: RemoveDependency) -> bool {
        true
    }

    open spec fn applied(pre: Module, action: RemoveDependency, post: Module, r: Result<(), RemoveDependencyError>) -> bool {
        (post@, r) == remove_dependency(pre@, action)
    }

    fn mutates_name(_action: &RemoveDependency) -> (r: bool) {
        false
    }

    fn mutates_parent(_action: &RemoveDependency) -> (r: bool) {
        false
    }

    fn apply(&mut self, action: &RemoveDependency) -> (r: Result<(), RemoveDependencyError>) {
        let n = self.dependencies.len();
        let mut i: usize = 0;
        while i < n
            invariant
                n == self.dependencies@.len(),
                i <= n,
                *self == *old(self),
                forall|j: int| 0 <= j < i ==> self.dependencies@[j].id != action.id,
            decreases n - i,
        {
            if self.dependencies[i].id == action.id {
                let ghost deps = self.dependencies@;
                proof {
                    let k = first_position(deps, action.id);
                    assert(depends_on(deps, action.id));
                    assert(0 <= k < deps.len() && deps[k].id == action.id);
                    if k < i {
                        assert(deps[k].id != action.id);
                    }
                    if k > i {
                        assert(deps[i as int].id == action.id);
                    }
                    assert(k == i);
                }
                self.dependencies.remove(i);
                return Ok(());
            }
            i = i + 1;
        }
        Err(RemoveDependencyError::NotFound)
    }
}

// ---------------------------------------------------------------------------
// Every action

pub enum Action {
    SetExecutable(SetExecutable),
    AddExport(AddExport),
    RemoveExport(RemoveExport),
    AppendFunctionParameter(AppendFunctionParameter),
    RemoveFunctionParameter(RemoveFunctionParameter),
    SetFunctionParameterName(SetFunctionParameterName),
    SetFunctionParameterType(SetFunctionParameterType),
    SetFunctionParameterMutability(SetFunctionParameterMutability),
    SetFunctionReturnType(SetFunctionReturnType),
    AddDependency(AddDependency),
    RemoveDependency(RemoveDependency),
    Acl(AclAction),
}

#[derive(Clone, Copy, PartialEq, Eq, Structural, Debug)]
pub enum ActionError {
    SetExecutable(SetExecutableError),
    AddExport(AddExportError),
    RemoveExport(RemoveExportError),
    AppendFunctionParameter(AppendFunctionParameterError),
    RemoveFunctionParameter(RemoveFunctionParameterError),
    SetFunctionParameterName(SetFunctionParameterNameError),
    SetFunctionParameterType(SetFunctionParameterTypeError),
    SetFunctionParameterMutability(SetFunctionParameterMutabilityError),
    SetFunctionReturnType(SetFunctionReturnTypeError),
    AddDependency(AddDependencyError),
    RemoveDependency(RemoveDependencyError),
    Acl(AclActionError),
}

/// `r` with its error, if any, passed through `f`.
pub open spec fn lift_result<E, F>(r: Result<(), E>, f: spec_fn(E) -> F) -> Result<(), F> {
    match r {
        Ok(()) => Ok(()),
        Err(e) => Err(f(e)),
    }
}

/// Applying an ACL action to the module's ACL.
pub open spec fn apply_acl(v: ModuleView, a: AclAction) -> (ModuleView, Result<(), AclActionError>) {
    match acl_apply_action(v.acl, a) {
        Ok(acl) => (ModuleView { acl, ..v }, Ok(())),
        Err(e) => (v, Err(e)),
    }
}

/// The module after an action, and the result.
pub open spec fn apply_action(v: ModuleView, a: Action) -> (ModuleView, Result<(), ActionError>) {
    match a {
        Action::SetExecutable(a) => {
            let (w, r) = set_executable(v, a);
            (w, lift_result(r, |e: SetExecutableError| ActionError::SetExecutable(e)))
        },
        Action::AddExport(a) => {
            let (w, r) = add_export(v, a);
            (w, lift_result(r, |e: AddExportError| ActionError::AddExport(e)))
        },
        Action::RemoveExport(a) => {
            let (w, r) = remove_export(v, a);
            (w, lift_result(r, |e: RemoveExportError| ActionError::RemoveExport(e)))
        },
        Action::AppendFunctionParameter(a) => {
            let (w, r) = append_function_parameter(v, a);
            (w, lift_result(r, |e: AppendFunctionParameterError| ActionError::AppendFunctionParameter(e)))
        },
        Action::RemoveFunctionParameter(a) => {
            let (w, r) = remove_function_parameter(v, a);
            (w, lift_result(r, |e: RemoveFunctionParameterError| ActionError::RemoveFunctionParameter(e)))
        },
        Action::SetFunctionParameterName(a) => {
            let (w, r) = set_function_parameter_name(v, a);
            (w, lift_result(r, |e: SetFunctionParameterNameError| ActionError::SetFunctionParameterName(e)))
        },
        Action::SetFunctionParameterType(a) => {
            let (w, r) = set_function_parameter_type(v, a);
            (w, lift_result(r, |e: SetFunctionParameterTypeError| ActionError::SetFunctionParameterType(e)))
        },
        Action::SetFunctionParameterMutability(a) => {
            let (w, r) = set_function_parameter_mutability(v, a);
            (w, lift_result(r, |e: SetFunctionParameterMutabilityError| ActionError::SetFunctionParameterMutability(e)))
        },
        Action::SetFunctionReturnType(a) => {
            let (w, r) = set_function_return_type(v, a);
            (w, lift_result(r, |e: SetFunctionReturnTypeError| ActionError::SetFunctionReturnType(e)))
        },
        Action::AddDependency(a) => {
            let (w, r) = add_dependency(v, a);
            (w, lift_result(r, |e: AddDependencyError| ActionError::AddDependency(e)))
        },
        Action::RemoveDependency(a) => {
            let (w, r) = remove_dependency(v, a);
            (w, lift_result(r, |e: RemoveDependencyError| ActionError::RemoveDependency(e)))
        },
        Action::Acl(a) => {
            let (w, r) = apply_acl(v, a);
            (w, lift_result(r, |e: AclActionError| ActionError::Acl(e)))
        },
    }
}

/// What applying any action leaves and returns.
pub open spec fn action_applied(pre: ModuleView, a: Action, post: ModuleView, r: Result<(), ActionError>) -> bool {
    (post, r) == apply_action(pre, a)
}

impl Apply<Action> for Module {
    type Error = ActionError;

    open spec fn name_mutating(action: Action) -> bool {
        false
    }

    open spec fn parent_mutating(action: Action) -> bool {
        false
    }

    open spec fn applicable(record: Module, action: Action) -> bool {
        true
    }

    open spec fn applied(pre: Module, action: Action, post: Module, r: Result<(), ActionError>) -> bool {
        action_applied(pre@, action, post@, r)
    }

    fn mutates_name(_action: &Action) -> (r: bool) {
        false
    }

    fn mutates_parent(_action: &Action) -> (r: bool) {
        false
    }

    fn apply(&mut self, action: &Action) -> (r: Result<(), ActionError>) {
        match action {
            Action::SetExecutable(a) => match <Module as Apply<SetExecutable>>::apply(self, a) {
                Ok(()) => Ok(()),
                Err(e) => Err(ActionError::SetExecutable(e)),
            },
            Action::AddExport(a) => match <Module as Apply<AddExport>>::apply(self, a) {
                Ok(()) => Ok(()),
                Err(e) => Err(ActionError::AddExport(e)),
            },
            Action::RemoveExport(a) => match <Module as Apply<RemoveExport>>::apply(self, a) {
                Ok(()) => Ok(()),
                Err(e) => Err(ActionError::RemoveExport(e)),
            },
            Action::AppendFunctionParameter(a) => match <Module as Apply<AppendFunctionParameter>>::apply(self, a) {
                Ok(()) => Ok(()),
                Err(e) => Err(ActionError::AppendFunctionParameter(e)),
            },
            Action::RemoveFunctionParameter(a) => match <Module as Apply<RemoveFunctionParameter>>::apply(self, a) {
                Ok(()) => Ok(()),
                Err(e) => Err(ActionError::RemoveFunctionParameter(e)),
            },
            Action::SetFunctionParameterName(a) => match <Module as Apply<SetFunctionParameterName>>::apply(self, a) {
                Ok(()) => Ok(()),
                Err(e) => Err(ActionError::SetFunctionParameterName(e)),
            },
            Action::SetFunctionParameterType(a) => match <Module as Apply<SetFunctionParameterType>>::apply(self, a) {
                Ok(()) => Ok(()),
                Err(e) => Err(ActionError::SetFunctionParameterType(e)),
            },
            Action::SetFunctionParameterMutability(a) => match <Module as Apply<SetFunctionParameterMutability>>::apply(self, a) {
                Ok(()) => Ok(()),
                Err(e) => Err(ActionError::SetFunctionParameterMutability(e)),
            },
            Action::SetFunctionReturnType(a) => match <Module as Apply<SetFunctionReturnType>>::apply(self, a) {
                Ok(()) => Ok(()),
                Err(e) => Err(ActionError::SetFunctionReturnType(e)),
            },
            Action::AddDependency(a) => match <Module as Apply<AddDependency>>::apply(self, a) {
                Ok(()) => Ok(()),
                Err(e) => Err(ActionError::AddDependency(e)),
            },
            Action::RemoveDependency(a) => match <Module as Apply<RemoveDependency>>::apply(self, a) {
                Ok(()) => Ok(()),
                Err(e) => Err(ActionError::RemoveDependency(e)),
            },
            Action::Acl(a) => {
                let ghost pre = *self;
                let r = <Module as Apply<AclAction>>::apply(self, a);
                proof {
                    assert(self@ == ModuleView { acl: self.acl@, ..pre@ });
                }
                match r {
                    Ok(()) => Ok(()),
                    Err(e) => Err(ActionError::Acl(e)),
                }
            },
        }
    }
}

} // verus!
