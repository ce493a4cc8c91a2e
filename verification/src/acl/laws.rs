use vstd::prelude::*;

use crate::acl::action::{
    WithAcl, add_permissions, remove_permissions, set_default, set_permissions, AddPermissions,
    AddPermissionsError, RemovePermissions, RemovePermissionsError, SetDefault, SetPermissions,
    SetPermissionsError,
};
use crate::acl::action::{apply_action, Action, ActionError};
use crate::acl::AclView;
use crate::record::{Apply, Uuid};

verus! {

/// Permissions added for an agent are the ones that then apply to it, and
/// every other agent keeps what applied to it before.
pub proof fn law_add_then_read(acl: AclView, a: AddPermissions, after: AclView, other: Uuid)
    requires
        add_permissions(acl, a) == Ok::<AclView, AddPermissionsError>(after),
    ensures
        after.permissions_for(a.agent) == a.with_permissions,
        other != a.agent ==> after.permissions_for(other) == acl.permissions_for(other),
        after.default == acl.default,
{
}

/// Adding permissions for an agent the list already names is refused, and
/// adding them for any other agent succeeds.
pub proof fn law_add_refused_iff_named(acl: AclView, a: AddPermissions)
    ensures
        add_permissions(acl, a) is Err <==> acl.permissions.contains_key(a.agent),
{
}

/// Removing what was just added gives back the list as it was.
pub proof fn law_add_then_remove_restores(acl: AclView, a: AddPermissions, after: AclView)
    requires
        add_permissions(acl, a) == Ok::<AclView, AddPermissionsError>(after),
    ensures
        remove_permissions(after, RemovePermissions { agent: a.agent }) == Ok::<
            AclView,
            RemovePermissionsError,
        >(acl),
{
    assert(after.permissions.remove(a.agent) =~= acl.permissions);
}

/// Once an agent's own entry is removed, the default applies to it; every
/// other agent keeps what applied to it before.
pub proof fn law_remove_falls_back_to_default(acl: AclView, agent: Uuid, after: AclView, other: Uuid)
    requires
        remove_permissions(acl, RemovePermissions { agent }) == Ok::<
            AclView,
            RemovePermissionsError,
        >(after),
    ensures
        after.permissions_for(agent) == acl.default,
        other != agent ==> after.permissions_for(other) == acl.permissions_for(other),
{
}

/// Setting an agent's permissions changes what applies to that agent alone.
pub proof fn law_set_changes_only_agent(acl: AclView, a: SetPermissions, after: AclView, other: Uuid)
    requires
        set_permissions(acl, a) == Ok::<AclView, SetPermissionsError>(after),
    ensures
        after.permissions_for(a.agent) == a.with_permissions,
        other != a.agent ==> after.permissions_for(other) == acl.permissions_for(other),
        after.default == acl.default,
{
}

/// Setting permissions twice for an agent leaves those of the second call.
pub proof fn law_set_twice_keeps_last(acl: AclView, a: SetPermissions, b: SetPermissions, mid: AclView)
    requires
        set_permissions(acl, a) == Ok::<AclView, SetPermissionsError>(mid),
        b.agent == a.agent,
    ensures
        set_permissions(mid, b) == set_permissions(acl, b),
{
    assert(mid.permissions.insert(b.agent, b.with_permissions) =~= acl.permissions.insert(
        b.agent,
        b.with_permissions,
    ));
}

/// A new default reaches exactly the agents the list does not name.
pub proof fn law_set_default_reaches_unnamed(acl: AclView, a: SetDefault, agent: Uuid)
    ensures
        set_default(acl, a).permissions_for(agent) == if acl.permissions.contains_key(agent) {
            acl.permissions[agent]
        } else {
            a.with_permissions
        },
{
}

/// On any record with an ACL, permissions added for an agent are the ones
/// that then apply to it, and nothing but the ACL changes.
pub proof fn law_record_add_then_read<T: WithAcl>(pre: T, a: AddPermissions, post: T)
    requires
        <T as Apply<AddPermissions>>::applied(pre, a, post, Ok(())),
    ensures
        post.acl_of()@.permissions_for(a.agent) == a.with_permissions,
        post == pre.with_acl(post.acl_of()),
{
}

/// Removing or replacing an agent's permissions is refused exactly when the
/// list does not name the agent.
pub proof fn law_remove_and_set_refused_iff_unnamed(acl: AclView, a: RemovePermissions, b: SetPermissions)
    ensures
        remove_permissions(acl, a) is Err <==> !acl.permissions.contains_key(a.agent),
        set_permissions(acl, b) is Err <==> !acl.permissions.contains_key(b.agent),
{
}

/// Every ACL action, wrapped in `Action`, gives the list that it gives on
/// its own, and a refusal comes back as the same error, marked with the
/// action's kind.
pub proof fn law_wrapped_action_acts_alone(acl: AclView, a: SetDefault, b: AddPermissions, c: RemovePermissions, d: SetPermissions)
    ensures
        apply_action(acl, Action::SetDefault(a)) == Ok::<AclView, ActionError>(set_default(acl, a)),
        apply_action(acl, Action::AddPermissions(b)) == match add_permissions(acl, b) {
            Ok(v) => Ok(v),
            Err(e) => Err(ActionError::AddPermissions(e)),
        },
        apply_action(acl, Action::RemovePermissions(c)) == match remove_permissions(acl, c) {
            Ok(v) => Ok(v),
            Err(e) => Err(ActionError::RemovePermissions(e)),
        },
        apply_action(acl, Action::SetPermissions(d)) == match set_permissions(acl, d) {
            Ok(v) => Ok(v),
            Err(e) => Err(ActionError::SetPermissions(e)),
        },
{
}

} // verus!
