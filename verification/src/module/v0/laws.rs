use vstd::prelude::*;

use super::action::{
    action_applied, add_dependency, add_export, append_function_parameter, function_of,
    remove_export, remove_function_parameter, Action, ActionError, AddDependency,
    AddDependencyError, AddExport, AddExportError, AppendFunctionParameter,
    AppendFunctionParameterError, RemoveExport, RemoveExportError, RemoveFunctionParameter,
    RemoveFunctionParameterError, SetExecutable, SetExecutableError, SetFunctionParameterMutability,
    SetFunctionParameterMutabilityError, SetFunctionParameterName, SetFunctionParameterNameError,
    SetFunctionParameterType, SetFunctionParameterTypeError, SetFunctionReturnType,
    SetFunctionReturnTypeError, RemoveDependency, RemoveDependencyError, MAX_DEPENDENCIES,
    depends_on,
};
use super::action::{RenameExport, RenameExportError};
use super::unfrozen::{Module, ModuleView};
use crate::acl::action::{Action as AclAction, ActionError as AclActionError};
use crate::collections::other_than;
use crate::record::{Apply, UnfrozenReference, Uuid};

verus! {

/// No two declared dependencies refer to the same record.
pub open spec fn dependency_ids_unique(deps: Seq<UnfrozenReference>) -> bool {
    forall|i: int, j: int| 0 <= i < j < deps.len() ==> deps[i].id != deps[j].id
}

/// A refused action leaves the module as it was.
pub proof fn law_refused_action_changes_nothing(pre: ModuleView, a: Action, post: ModuleView, e: ActionError)
    requires
        action_applied(pre, a, post, Err(e)),
    ensures
        post == pre,
{
}

/// Adding a dependency keeps the list within its bound and free of two
/// entries for one record.
pub proof fn law_add_dependency_keeps_list_valid(v: ModuleView, a: AddDependency, w: ModuleView, r: Result<(), AddDependencyError>)
    requires
        v.dependencies.len() <= MAX_DEPENDENCIES,
        dependency_ids_unique(v.dependencies),
        add_dependency(v, a) == (w, r),
    ensures
        w.dependencies.len() <= MAX_DEPENDENCIES,
        dependency_ids_unique(w.dependencies),
{
    if r is Ok {
        assert forall|i: int, j: int| 0 <= i < j < w.dependencies.len() implies w.dependencies[i].id
            != w.dependencies[j].id by {
            if j == v.dependencies.len() {
                assert(v.dependencies[i] == w.dependencies[i]);
            }
        }
    }
}

/// Removing an export that was just added under a fresh id gives back the
/// module as it was.
pub proof fn law_add_then_remove_export_restores(v: ModuleView, a: AddExport, w: ModuleView)
    requires
        !v.exports.contains_key(a.id),
        add_export(v, a) == (w, Ok::<(), AddExportError>(())),
    ensures
        remove_export(w, RemoveExport { id: a.id }) == (v, Ok::<(), RemoveExportError>(())),
{
    assert(w.exports.remove(a.id) =~= v.exports);
}

/// Removing a parameter that was just appended under a fresh id gives back
/// the module as it was.
pub proof fn law_append_then_remove_parameter_restores(v: ModuleView, a: AppendFunctionParameter, w: ModuleView)
    requires
        append_function_parameter(v, a) == (w, Ok::<(), AppendFunctionParameterError>(())),
        !function_of(v.exports[a.export]).parameters.contains_key(a.parameter_id),
        !function_of(v.exports[a.export]).parameter_ordering.contains(a.parameter_id),
    ensures
        remove_function_parameter(
            w,
            RemoveFunctionParameter { export: a.export, parameter: a.parameter_id },
        ) == (v, Ok::<(), RemoveFunctionParameterError>(())),
{
    let f = function_of(v.exports[a.export]);
    let ordering = f.parameter_ordering;
    assert(ordering.push(a.parameter_id).filter(other_than(a.parameter_id)) =~= ordering) by {
        reveal_with_fuel(Seq::<_>::filter, 1);
        assert(ordering.push(a.parameter_id).drop_last() =~= ordering);
        lemma_filter_keeps_all(ordering, a.parameter_id);
    }
    assert(f.parameters.insert(a.parameter_id, a.parameter@).remove(a.parameter_id)
        =~= f.parameters);
    assert(w.exports.insert(a.export, v.exports[a.export]) =~= v.exports);
}

/// Filtering out an id that a sequence does not hold keeps it whole.
proof fn lemma_filter_keeps_all(s: Seq<Uuid>, id: Uuid)
    requires
        !s.contains(id),
    ensures
        s.filter(other_than(id)) == s,
    decreases s.len(),
{
    reveal_with_fuel(Seq::<_>::filter, 1);
    if s.len() > 0 {
        lemma_filter_keeps_all(s.drop_last(), id);
        assert(s.drop_last().push(s.last()) =~= s);
    }
    assert(s.filter(other_than(id)) =~= s);
}

/// Setting a function's return type succeeds exactly when the export is
/// there; then that function returns the type the action names, and
/// nothing else of the module changes: the export's name, the function's
/// parameters and their order, every other export, and the module's own
/// fields.
pub proof fn law_set_return_type_sets_it(
    pre: Module,
    a: SetFunctionReturnType,
    post: Module,
    r: Result<(), SetFunctionReturnTypeError>,
)
    requires
        <Module as Apply<SetFunctionReturnType>>::applied(pre, a, post, r),
    ensures
        r is Ok <==> pre@.exports.contains_key(a.export),
        r is Err ==> post@ == pre@,
        r is Ok ==> {
            let before = pre@.exports[a.export];
            let after = post@.exports[a.export];
            &&& post@.exports.contains_key(a.export)
            &&& function_of(after).return_ty == a.ty
            &&& function_of(after).parameters == function_of(before).parameters
            &&& function_of(after).parameter_ordering == function_of(before).parameter_ordering
            &&& after.name == before.name
            &&& post@.exports.dom() == pre@.exports.dom()
            &&& forall|id: Uuid| #[trigger] pre@.exports.contains_key(id) && id != a.export ==> post@.exports[id] == pre@.exports[id]
            &&& post@.name == pre@.name && post@.parent == pre@.parent && post@.acl == pre@.acl
            &&& post@.executable == pre@.executable && post@.dependencies == pre@.dependencies
        },
{
    if r is Ok {
        assert(post@.exports.dom() =~= pre@.exports.dom());
    }
}

/// Whether two modules agree on everything but the function of export
/// `id`: the same exports, every other export equal, that export's name
/// kept, and the module's own fields kept.
pub open spec fn same_but_function(v: ModuleView, w: ModuleView, id: Uuid) -> bool {
    &&& w.exports.dom() == v.exports.dom()
    &&& w.exports.contains_key(id) && w.exports[id].name == v.exports[id].name
    &&& forall|k: Uuid| #[trigger] v.exports.contains_key(k) && k != id ==> w.exports[k] == v.exports[k]
    &&& w.name == v.name && w.parent == v.parent && w.acl == v.acl
    &&& w.executable == v.executable && w.dependencies == v.dependencies
}

/// Whether the function of export `id` changed only in parameter `pid`:
/// the same parameters, every other one equal, the same order and the same
/// return type.
pub open spec fn same_but_parameter(v: ModuleView, w: ModuleView, id: Uuid, pid: Uuid) -> bool {
    let f = function_of(v.exports[id]);
    let g = function_of(w.exports[id]);
    &&& g.parameters.dom() == f.parameters.dom()
    &&& forall|k: Uuid| #[trigger] f.parameters.contains_key(k) && k != pid ==> g.parameters[k] == f.parameters[k]
    &&& g.parameter_ordering == f.parameter_ordering
    &&& g.return_ty == f.return_ty
}

/// Whether the export `id` is there and its function has parameter `pid`.
pub open spec fn has_parameter(v: ModuleView, id: Uuid, pid: Uuid) -> bool {
    v.exports.contains_key(id) && function_of(v.exports[id]).parameters.contains_key(pid)
}

/// Setting the executable always succeeds: the module then names the blob
/// asked for, and nothing else changes.
pub proof fn law_set_executable_sets_it(pre: Module, a: SetExecutable, post: Module, r: Result<(), SetExecutableError>)
    requires
        <Module as Apply<SetExecutable>>::applied(pre, a, post, r),
    ensures
        r is Ok,
        post@.executable == Some(a.blob_id),
        post@.exports == pre@.exports && post@.name == pre@.name && post@.parent == pre@.parent,
        post@.acl == pre@.acl && post@.dependencies == pre@.dependencies,
{
}

/// Setting a parameter's type succeeds exactly when the export's function
/// has the parameter; then the parameter has the type asked for, keeps its
/// name and mutability, and nothing else changes.
pub proof fn law_set_parameter_type_sets_it(
    pre: Module,
    a: SetFunctionParameterType,
    post: Module,
    r: Result<(), SetFunctionParameterTypeError>,
)
    requires
        <Module as Apply<SetFunctionParameterType>>::applied(pre, a, post, r),
    ensures
        r is Ok <==> has_parameter(pre@, a.export, a.parameter),
        r is Err ==> post@ == pre@,
        r is Ok ==> {
            let p = function_of(pre@.exports[a.export]).parameters[a.parameter];
            let q = function_of(post@.exports[a.export]).parameters[a.parameter];
            &&& function_of(post@.exports[a.export]).parameters.contains_key(a.parameter)
            &&& q.ty == a.ty && q.name == p.name && q.mutable == p.mutable
            &&& same_but_parameter(pre@, post@, a.export, a.parameter)
            &&& same_but_function(pre@, post@, a.export)
        },
{
    if r is Ok {
        assert(post@.exports.dom() =~= pre@.exports.dom());
        assert(function_of(post@.exports[a.export]).parameters.dom() =~= function_of(
            pre@.exports[a.export],
        ).parameters.dom());
    }
}

/// Setting a parameter's mutability succeeds exactly when the export's
/// function has the parameter; then the parameter has the mutability asked
/// for, keeps its name and type, and nothing else changes.
pub proof fn law_set_parameter_mutability_sets_it(
    pre: Module,
    a: SetFunctionParameterMutability,
    post: Module,
    r: Result<(), SetFunctionParameterMutabilityError>,
)
    requires
        <Module as Apply<SetFunctionParameterMutability>>::applied(pre, a, post, r),
    ensures
        r is Ok <==> has_parameter(pre@, a.export, a.parameter),
        r is Err ==> post@ == pre@,
        r is Ok ==> {
            let p = function_of(pre@.exports[a.export]).parameters[a.parameter];
            let q = function_of(post@.exports[a.export]).parameters[a.parameter];
            &&& function_of(post@.exports[a.export]).parameters.contains_key(a.parameter)
            &&& q.mutable == a.mutable && q.name == p.name && q.ty == p.ty
            &&& same_but_parameter(pre@, post@, a.export, a.parameter)
            &&& same_but_function(pre@, post@, a.export)
        },
{
    if r is Ok {
        assert(post@.exports.dom() =~= pre@.exports.dom());
        assert(function_of(post@.exports[a.export]).parameters.dom() =~= function_of(
            pre@.exports[a.export],
        ).parameters.dom());
    }
}

/// Renaming a parameter succeeds exactly when the export's function has the
/// parameter and no parameter of it has the name yet; then the parameter
/// has the name asked for, keeps its type and mutability, and nothing else
/// changes.
pub proof fn law_set_parameter_name_sets_it(
    pre: Module,
    a: SetFunctionParameterName,
    post: Module,
    r: Result<(), SetFunctionParameterNameError>,
)
    requires
        <Module as Apply<SetFunctionParameterName>>::applied(pre, a, post, r),
    ensures
        r is Ok <==> has_parameter(pre@, a.export, a.parameter) && !function_of(
            pre@.exports[a.export],
        ).has_parameter_named(a.name@),
        r is Err ==> post@ == pre@,
        r is Ok ==> {
            let p = function_of(pre@.exports[a.export]).parameters[a.parameter];
            let q = function_of(post@.exports[a.export]).parameters[a.parameter];
            &&& function_of(post@.exports[a.export]).parameters.contains_key(a.parameter)
            &&& q.name == a.name@ && q.ty == p.ty && q.mutable == p.mutable
            &&& same_but_parameter(pre@, post@, a.export, a.parameter)
            &&& same_but_function(pre@, post@, a.export)
        },
{
    if r is Ok {
        assert(post@.exports.dom() =~= pre@.exports.dom());
        assert(function_of(post@.exports[a.export]).parameters.dom() =~= function_of(
            pre@.exports[a.export],
        ).parameters.dom());
    }
}

/// Adding an export succeeds exactly when no export has its name; then
/// the export is there under its id, every other export is kept, and the
/// module's own fields are kept.
pub proof fn law_add_export_adds_it(pre: Module, a: AddExport, post: Module, r: Result<(), AddExportError>)
    requires
        <Module as Apply<AddExport>>::applied(pre, a, post, r),
    ensures
        r is Ok <==> !pre@.has_export_named(a.export.name@),
        r is Err ==> post@ == pre@,
        r is Ok ==> {
            &&& post@.exports.contains_key(a.id) && post@.exports[a.id] == a.export@
            &&& post@.exports.dom() == pre@.exports.dom().insert(a.id)
            &&& forall|k: Uuid| #[trigger] pre@.exports.contains_key(k) && k != a.id ==> post@.exports[k] == pre@.exports[k]
            &&& post@.name == pre@.name && post@.parent == pre@.parent && post@.acl == pre@.acl
            &&& post@.executable == pre@.executable && post@.dependencies == pre@.dependencies
        },
{
    if r is Ok {
        assert(post@.exports.dom() =~= pre@.exports.dom().insert(a.id));
    }
}

/// Removing an export succeeds exactly when it is there; then it is gone,
/// every other export is kept, and the module's own fields are kept.
pub proof fn law_remove_export_removes_it(pre: Module, a: RemoveExport, post: Module, r: Result<(), RemoveExportError>)
    requires
        <Module as Apply<RemoveExport>>::applied(pre, a, post, r),
    ensures
        r is Ok <==> pre@.exports.contains_key(a.id),
        r is Err ==> post@ == pre@,
        r is Ok ==> {
            &&& post@.exports.dom() == pre@.exports.dom().remove(a.id)
            &&& forall|k: Uuid| #[trigger] post@.exports.contains_key(k) ==> post@.exports[k] == pre@.exports[k]
            &&& post@.name == pre@.name && post@.parent == pre@.parent && post@.acl == pre@.acl
            &&& post@.executable == pre@.executable && post@.dependencies == pre@.dependencies
        },
{
    if r is Ok {
        assert(post@.exports.dom() =~= pre@.exports.dom().remove(a.id));
    }
}

/// Appending a parameter succeeds exactly when the export is there and no
/// parameter of its function has the name; then the parameter is there
/// under its id and comes last in the order, every other parameter and the
/// return type are kept, and nothing else changes.
pub proof fn law_append_parameter_appends_it(
    pre: Module,
    a: AppendFunctionParameter,
    post: Module,
    r: Result<(), AppendFunctionParameterError>,
)
    requires
        <Module as Apply<AppendFunctionParameter>>::applied(pre, a, post, r),
    ensures
        r is Ok <==> pre@.exports.contains_key(a.export) && !function_of(
            pre@.exports[a.export],
        ).has_parameter_named(a.parameter.name@),
        r is Err ==> post@ == pre@,
        r is Ok ==> {
            let f = function_of(pre@.exports[a.export]);
            let g = function_of(post@.exports[a.export]);
            &&& g.parameters.contains_key(a.parameter_id) && g.parameters[a.parameter_id] == a.parameter@
            &&& g.parameters.dom() == f.parameters.dom().insert(a.parameter_id)
            &&& forall|k: Uuid| #[trigger] f.parameters.contains_key(k) && k != a.parameter_id ==> g.parameters[k] == f.parameters[k]
            &&& g.parameter_ordering == f.parameter_ordering.push(a.parameter_id)
            &&& g.return_ty == f.return_ty
            &&& same_but_function(pre@, post@, a.export)
        },
{
    if r is Ok {
        assert(post@.exports.dom() =~= pre@.exports.dom());
        assert(function_of(post@.exports[a.export]).parameters.dom() =~= function_of(
            pre@.exports[a.export],
        ).parameters.dom().insert(a.parameter_id));
    }
}

/// Removing a parameter succeeds exactly when the export's function has
/// it; then it is gone from the parameters and from the order, every other
/// parameter keeps its place in the order, the return type is kept, and
/// nothing else changes.
pub proof fn law_remove_parameter_removes_it(
    pre: Module,
    a: RemoveFunctionParameter,
    post: Module,
    r: Result<(), RemoveFunctionParameterError>,
)
    requires
        <Module as Apply<RemoveFunctionParameter>>::applied(pre, a, post, r),
    ensures
        r is Ok <==> has_parameter(pre@, a.export, a.parameter),
        r is Err ==> post@ == pre@,
        r is Ok ==> {
            let f = function_of(pre@.exports[a.export]);
            let g = function_of(post@.exports[a.export]);
            &&& g.parameters.dom() == f.parameters.dom().remove(a.parameter)
            &&& forall|k: Uuid| #[trigger] g.parameters.contains_key(k) ==> g.parameters[k] == f.parameters[k]
            &&& !g.parameter_ordering.contains(a.parameter)
            &&& g.parameter_ordering == f.parameter_ordering.filter(other_than(a.parameter))
            &&& g.return_ty == f.return_ty
            &&& same_but_function(pre@, post@, a.export)
        },
{
    if r is Ok {
        let f = function_of(pre@.exports[a.export]);
        let g = function_of(post@.exports[a.export]);
        assert(post@.exports.dom() =~= pre@.exports.dom());
        assert(g.parameters.dom() =~= f.parameters.dom().remove(a.parameter));
        if g.parameter_ordering.contains(a.parameter) {
            let i = choose|i: int| 0 <= i < g.parameter_ordering.len() && g.parameter_ordering[i] == a.parameter;
            f.parameter_ordering.lemma_filter_pred(other_than(a.parameter), i);
            assert(other_than(a.parameter)(g.parameter_ordering[i]));
        }
    }
}

/// Adding a dependency succeeds exactly when the list is below its bound and
/// holds no dependency on the same record; then the dependency comes last,
/// and nothing else changes.
pub proof fn law_add_dependency_adds_it(pre: Module, a: AddDependency, post: Module, r: Result<(), AddDependencyError>)
    requires
        <Module as Apply<AddDependency>>::applied(pre, a, post, r),
    ensures
        r is Ok <==> pre@.dependencies.len() < MAX_DEPENDENCIES && !depends_on(pre@.dependencies, a.dependency.id),
        r is Err ==> post@ == pre@,
        r == Err::<(), AddDependencyError>(AddDependencyError::TooMany) <==> pre@.dependencies.len() >= MAX_DEPENDENCIES,
        r is Ok ==> post@.dependencies == pre@.dependencies.push(a.dependency) && post@.exports == pre@.exports
            && post@.name == pre@.name && post@.parent == pre@.parent && post@.acl == pre@.acl
            && post@.executable == pre@.executable,
{
}

/// Removing a dependency succeeds exactly when some dependency is on the
/// record; then the first one on it is taken out, the others keep their
/// order, and nothing else changes.
pub proof fn law_remove_dependency_removes_it(pre: Module, a: RemoveDependency, post: Module, r: Result<(), RemoveDependencyError>)
    requires
        <Module as Apply<RemoveDependency>>::applied(pre, a, post, r),
    ensures
        r is Ok <==> exists|i: int| 0 <= i < pre@.dependencies.len() && (#[trigger] pre@.dependencies[i]).id == a.id,
        r is Err ==> post@ == pre@,
        r is Ok ==> (exists|p: int|
            0 <= p < pre@.dependencies.len() && (#[trigger] pre@.dependencies[p]).id == a.id
                && (forall|j: int| 0 <= j < p ==> pre@.dependencies[j].id != a.id)
                && post@.dependencies == pre@.dependencies.subrange(0, p) + pre@.dependencies.subrange(
                p + 1,
                pre@.dependencies.len() as int,
            )) && post@.exports == pre@.exports && post@.name == pre@.name && post@.parent == pre@.parent
            && post@.acl == pre@.acl && post@.executable == pre@.executable,
{
    if r is Ok {
        let d = pre@.dependencies;
        let p = choose|i: int|
            0 <= i < d.len() && (#[trigger] d[i]).id == a.id && forall|j: int| 0 <= j < i ==> d[j].id != a.id;
        lemma_first_dependency(d, a.id);
        assert(d.remove(p) =~= d.subrange(0, p) + d.subrange(p + 1, d.len() as int));
        assert(d[p].id == a.id);
    }
}

proof fn lemma_first_dependency(d: Seq<UnfrozenReference>, id: Uuid)
    requires
        depends_on(d, id),
    ensures
        exists|i: int| 0 <= i < d.len() && (#[trigger] d[i]).id == id && forall|j: int| 0 <= j < i ==> d[j].id != id,
    decreases d.len(),
{
    let init = d.drop_last();
    if depends_on(init, id) {
        lemma_first_dependency(init, id);
        let i = choose|i: int| 0 <= i < init.len() && (#[trigger] init[i]).id == id && forall|j: int| 0 <= j < i ==> init[j].id != id;
        assert(d[i] == init[i]);
        assert forall|j: int| 0 <= j < i implies d[j].id != id by {
            assert(d[j] == init[j]);
        }
    } else {
        let i = d.len() - 1;
        assert forall|j: int| 0 <= j < i implies d[j].id != id by {
            assert(d[j] == init[j]);
            if d[j].id == id {
                assert(depends_on(init, id));
            }
        }
        assert(d[i].id == id);
    }
}

/// Renaming an export succeeds whenever the export is there and no other
/// export holds the name, and is refused whenever another export holds it
/// under a different name; on success the export has the name asked for
/// and keeps its kind, every other export is kept, and nothing else of the
/// module changes. A refusal changes nothing.
pub proof fn law_rename_export_renames_it(pre: Module, a: RenameExport, post: Module, r: Result<(), RenameExportError>)
    requires
        <Module as Apply<RenameExport>>::applied(pre, a, post, r),
    ensures
        pre@.exports.contains_key(a.id) && !(exists|k: Uuid| #[trigger] pre@.exports.contains_key(k) && k != a.id
            && pre@.exports[k].name == a.name@) ==> r is Ok,
        (exists|k: Uuid| #[trigger] pre@.exports.contains_key(k) && k != a.id && pre@.exports[k].name == a.name@)
            && !(pre@.exports.contains_key(a.id) && pre@.exports[a.id].name == a.name@) ==> r is Err,
        !pre@.exports.contains_key(a.id) ==> r is Err,
        r is Err ==> post@ == pre@,
        r is Ok ==> {
            &&& pre@.exports.contains_key(a.id) && post@.exports.contains_key(a.id)
            &&& post@.exports[a.id].name == a.name@
            &&& post@.exports[a.id].kind == pre@.exports[a.id].kind
            &&& post@.exports.dom() == pre@.exports.dom()
            &&& forall|id: Uuid| #[trigger] pre@.exports.contains_key(id) && id != a.id ==> post@.exports[id] == pre@.exports[id]
            &&& post@.name == pre@.name && post@.parent == pre@.parent && post@.acl == pre@.acl
            &&& post@.executable == pre@.executable && post@.dependencies == pre@.dependencies
        },
{
    if r is Ok {
        assert(post@.exports.dom() =~= pre@.exports.dom());
    }
}

/// Every action, wrapped in `Action`, does to the module what it does on
/// its own, and a refusal comes back as the same error, marked with the
/// action's kind.
pub proof fn law_wrapped_action_acts_alone(pre: Module)
    ensures
        forall|x: SetExecutable, post: Module, r: Result<(), SetExecutableError>|
            #[trigger] <Module as Apply<SetExecutable>>::applied(pre, x, post, r) ==> <Module as Apply<Action>>::applied(
                pre,
                Action::SetExecutable(x),
                post,
                match r { Ok(()) => Ok(()), Err(e) => Err(ActionError::SetExecutable(e)) },
            ),
        forall|x: AddExport, post: Module, r: Result<(), AddExportError>|
            #[trigger] <Module as Apply<AddExport>>::applied(pre, x, post, r) ==> <Module as Apply<Action>>::applied(
                pre,
                Action::AddExport(x),
                post,
                match r { Ok(()) => Ok(()), Err(e) => Err(ActionError::AddExport(e)) },
            ),
        forall|x: RemoveExport, post: Module, r: Result<(), RemoveExportError>|
            #[trigger] <Module as Apply<RemoveExport>>::applied(pre, x, post, r) ==> <Module as Apply<Action>>::applied(
                pre,
                Action::RemoveExport(x),
                post,
                match r { Ok(()) => Ok(()), Err(e) => Err(ActionError::RemoveExport(e)) },
            ),
        forall|x: AppendFunctionParameter, post: Module, r: Result<(), AppendFunctionParameterError>|
            #[trigger] <Module as Apply<AppendFunctionParameter>>::applied(pre, x, post, r) ==> <Module as Apply<Action>>::applied(
                pre,
                Action::AppendFunctionParameter(x),
                post,
                match r { Ok(()) => Ok(()), Err(e) => Err(ActionError::AppendFunctionParameter(e)) },
            ),
        forall|x: RemoveFunctionParameter, post: Module, r: Result<(), RemoveFunctionParameterError>|
            #[trigger] <Module as Apply<RemoveFunctionParameter>>::applied(pre, x, post, r) ==> <Module as Apply<Action>>::applied(
                pre,
                Action::RemoveFunctionParameter(x),
                post,
                match r { Ok(()) => Ok(()), Err(e) => Err(ActionError::RemoveFunctionParameter(e)) },
            ),
        forall|x: SetFunctionParameterName, post: Module, r: Result<(), SetFunctionParameterNameError>|
            #[trigger] <Module as Apply<SetFunctionParameterName>>::applied(pre, x, post, r) ==> <Module as Apply<Action>>::applied(
                pre,
                Action::SetFunctionParameterName(x),
                post,
                match r { Ok(()) => Ok(()), Err(e) => Err(ActionError::SetFunctionParameterName(e)) },
            ),
        forall|x: SetFunctionParameterType, post: Module, r: Result<(), SetFunctionParameterTypeError>|
            #[trigger] <Module as Apply<SetFunctionParameterType>>::applied(pre, x, post, r) ==> <Module as Apply<Action>>::applied(
                pre,
                Action::SetFunctionParameterType(x),
                post,
                match r { Ok(()) => Ok(()), Err(e) => Err(ActionError::SetFunctionParameterType(e)) },
            ),
        forall|x: SetFunctionParameterMutability, post: Module, r: Result<(), SetFunctionParameterMutabilityError>|
            #[trigger] <Module as Apply<SetFunctionParameterMutability>>::applied(pre, x, post, r) ==> <Module as Apply<Action>>::applied(
                pre,
                Action::SetFunctionParameterMutability(x),
                post,
                match r { Ok(()) => Ok(()), Err(e) => Err(ActionError::SetFunctionParameterMutability(e)) },
            ),
        forall|x: SetFunctionReturnType, post: Module, r: Result<(), SetFunctionReturnTypeError>|
            #[trigger] <Module as Apply<SetFunctionReturnType>>::applied(pre, x, post, r) ==> <Module as Apply<Action>>::applied(
                pre,
                Action::SetFunctionReturnType(x),
                post,
                match r { Ok(()) => Ok(()), Err(e) => Err(ActionError::SetFunctionReturnType(e)) },
            ),
        forall|x: AddDependency, post: Module, r: Result<(), AddDependencyError>|
            #[trigger] <Module as Apply<AddDependency>>::applied(pre, x, post, r) ==> <Module as Apply<Action>>::applied(
                pre,
                Action::AddDependency(x),
                post,
                match r { Ok(()) => Ok(()), Err(e) => Err(ActionError::AddDependency(e)) },
            ),
        forall|x: RemoveDependency, post: Module, r: Result<(), RemoveDependencyError>|
            #[trigger] <Module as Apply<RemoveDependency>>::applied(pre, x, post, r) ==> <Module as Apply<Action>>::applied(
                pre,
                Action::RemoveDependency(x),
                post,
                match r { Ok(()) => Ok(()), Err(e) => Err(ActionError::RemoveDependency(e)) },
            ),
        forall|x: AclAction, post: Module, r: Result<(), AclActionError>|
            #[trigger] <Module as Apply<AclAction>>::applied(pre, x, post, r) ==> <Module as Apply<Action>>::applied(
                pre,
                Action::Acl(x),
                post,
                match r { Ok(()) => Ok(()), Err(e) => Err(ActionError::Acl(e)) },
            ),
{
}

} // verus!
