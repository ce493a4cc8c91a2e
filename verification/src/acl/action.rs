use vstd::prelude::*;

use crate::acl::{Acl, AclView, WithPermissions};
use crate::record::{Apply, Uuid};

verus! {

broadcast use vstd::std_specs::hash::group_hash_axioms;

/// Records that carry an access control list.
pub trait WithAcl: Sized {
    /// The record's ACL.
    spec fn acl_of(&self) -> Acl;

    /// The record with its ACL replaced by `acl`, all else kept.
    spec fn with_acl(self, acl: Acl) -> Self;

    proof fn lemma_with_acl(self, acl: Acl)
        ensures
            self.with_acl(acl).acl_of() == acl,
            self.with_acl(self.acl_of()) == self,
            self.with_acl(acl).with_acl(self.acl_of()) == self,
    ;

    fn acl(&self) -> (r: &Acl)
        ensures
            *r == self.acl_of(),
    ;

    fn acl_mut(&mut self) -> (r: &mut Acl)
        ensures
            *r == old(self).acl_of(),
            final(self).acl_of() == *final(r),
            *final(self) == old(self).with_acl(*final(r)),
    ;
}

/// `post` is `pre` with only its ACL changed, and that ACL now reads `acl`.
pub open spec fn acl_updated<T: WithAcl>(pre: T, post: T, acl: AclView) -> bool {
    &&& post == pre.with_acl(post.acl_of())
    &&& post.acl_of()@ == acl
}

pub struct SetDefault {
    pub with_permissions: WithPermissions,
}

#[derive(Clone, Copy, PartialEq, Eq, Structural, Debug)]
pub enum SetDefaultError {
    /// Invalid permissions.
    InvalidPermissions,
}

pub struct AddPermissions {
    pub agent: Uuid,
    pub with_permissions: WithPermissions,
}

#[derive(Clone, Copy, PartialEq, Eq, Structural, Debug)]
pub enum AddPermissionsError {
    /// Invalid permissions.
    InvalidPermissions,
    /// Agent already exists.
    AgentAlreadyExists,
}

pub struct RemovePermissions {
    pub agent: Uuid,
}

#[derive(Clone, Copy, PartialEq, Eq, Structural, Debug)]
pub enum RemovePermissionsError {
    /// Agent does not exist.
    AgentDoesNotExists,
}

pub struct SetPermissions {
    pub agent: Uuid,
    pub with_permissions: WithPermissions,
}

#[derive(Clone, Copy, PartialEq, Eq, Structural, Debug)]
pub enum SetPermissionsError {
    /// Invalid permissions.
    InvalidPermissions,
    /// Agent does not exist.
    AgentDoesNotExists,
}

pub enum Action {
    SetDefault(SetDefault),
    AddPermissions(AddPermissions),
    RemovePermissions(RemovePermissions),
    SetPermissions(SetPermissions),
}

#[derive(Clone, Copy, PartialEq, Eq, Structural, Debug)]
pub enum ActionError {
    SetDefault(SetDefaultError),
    AddPermissions(AddPermissionsError),
    RemovePermissions(RemovePermissionsError),
    SetPermissions(SetPermissionsError),
}

/// The ACL after setting its default.
pub open spec fn set_default(acl: AclView, a: SetDefault) -> AclView {
    AclView { permissions: acl.permissions, default: a.with_permissions }
}

/// Adding an agent's permissions: refused if the agent already has some.
pub open spec fn add_permissions(acl: AclView, a: AddPermissions) -> Result<
    AclView,
    AddPermissionsError,
> {
    if acl.permissions.contains_key(a.agent) {
        Err(AddPermissionsError::AgentAlreadyExists)
    } else {
        Ok(
            AclView {
                permissions: acl.permissions.insert(a.agent, a.with_permissions),
                default: acl.default,
            },
        )
    }
}

/// Removing an agent's permissions: refused if the agent has none.
pub open spec fn remove_permissions(acl: AclView, a: RemovePermissions) -> Result<
    AclView,
    RemovePermissionsError,
> {
    if acl.permissions.contains_key(a.agent) {
        Ok(AclView { permissions: acl.permissions.remove(a.agent), default: acl.default })
    } else {
        Err(RemovePermissionsError::AgentDoesNotExists)
    }
}

/// Replacing an agent's permissions: refused if the agent has none.
pub open spec fn set_permissions(acl: AclView, a: SetPermissions) -> Result<
    AclView,
    SetPermissionsError,
> {
    if acl.permissions.contains_key(a.agent) {
        Ok(
            AclView {
                permissions: acl.permissions.insert(a.agent, a.with_permissions),
                default: acl.default,
            },
        )
    } else {
        Err(SetPermissionsError::AgentDoesNotExists)
    }
}

/// The ACL after an action, or the error that refuses it.
pub open spec fn apply_action(acl: AclView, a: Action) -> Result<AclView, ActionError> {
    match a {
        Action::SetDefault(a) => Ok(set_default(acl, a)),
        Action::AddPermissions(a) => match add_permissions(acl, a) {
            Ok(v) => Ok(v),
            Err(e) => Err(ActionError::AddPermissions(e)),
        },
        Action::RemovePermissions(a) => match remove_permissions(acl, a) {
            Ok(v) => Ok(v),
            Err(e) => Err(ActionError::RemovePermissions(e)),
        },
        Action::SetPermissions(a) => match set_permissions(acl, a) {
            Ok(v) => Ok(v),
            Err(e) => Err(ActionError::SetPermissions(e)),
        },
    }
}

/// A record after an ACL transition with result `res`: on success the ACL is
/// the new one and `r` is `Ok`; on failure the ACL reads as before and `r`
/// is the error.
pub open spec fn acl_transition<T: WithAcl, E>(
    pre: T,
    post: T,
    res: Result<AclView, E>,
    r: Result<(), E>,
) -> bool {
    match res {
        Ok(v) => r is Ok && acl_updated(pre, post, v),
        Err(e) => r == Err::<(), E>(e) && acl_updated(pre, post, pre.acl_of()@),
    }
}

fn apply_set_default(acl: &mut Acl, a: &SetDefault)
    ensures
        final(acl)@ == set_default(old(acl)@, *a),
{
    acl.default = a.with_permissions;
}

fn apply_add_permissions(acl: &mut Acl, a: &AddPermissions) -> (r: Result<(), AddPermissionsError>)
    ensures
        match add_permissions(old(acl)@, *a) {
            Ok(v) => r is Ok && final(acl)@ == v,
            Err(e) => r == Err::<(), AddPermissionsError>(e) && final(acl)@ == old(acl)@,
        },
{
    let permissions = acl.permissions_mut();
    if permissions.contains_key(&a.agent) {
        return Err(AddPermissionsError::AgentAlreadyExists);
    }
    permissions.insert(a.agent, a.with_permissions);
    Ok(())
}

fn apply_remove_permissions(acl: &mut Acl, a: &RemovePermissions) -> (r: Result<
    (),
    RemovePermissionsError,
>)
    ensures
        match remove_permissions(old(acl)@, *a) {
            Ok(v) => r is Ok && final(acl)@ == v,
            Err(e) => r == Err::<(), RemovePermissionsError>(e) && final(acl)@ == old(acl)@,
        },
{
    let permissions = acl.permissions_mut();
    match permissions.remove(&a.agent) {
        Some(_) => Ok(()),
        Option::None => {
            assert(permissions@ =~= old(acl)@.permissions);
            Err(RemovePermissionsError::AgentDoesNotExists)
        },
    }
}

fn apply_set_permissions(acl: &mut Acl, a: &SetPermissions) -> (r: Result<
    (),
    SetPermissionsError,
>)
    ensures
        match set_permissions(old(acl)@, *a) {
            Ok(v) => r is Ok && final(acl)@ == v,
            Err(e) => r == Err::<(), SetPermissionsError>(e) && final(acl)@ == old(acl)@,
        },
{
    let permissions = acl.permissions_mut();
    if permissions.contains_key(&a.agent) {
        permissions.insert(a.agent, a.with_permissions);
        Ok(())
    } else {
        Err(SetPermissionsError::AgentDoesNotExists)
    }
}

fn apply_action_to(acl: &mut Acl, a: &Action) -> (r: Result<(), ActionError>)
    ensures
        match apply_action(old(acl)@, *a) {
            Ok(v) => r is Ok && final(acl)@ == v,
            Err(e) => r == Err::<(), ActionError>(e) && final(acl)@ == old(acl)@,
        },
{
    match a {
        Action::SetDefault(a) => {
            apply_set_default(acl, a);
            Ok(())
        },
        Action::AddPermissions(a) => match apply_add_permissions(acl, a) {
            Ok(()) => Ok(()),
            Err(e) => Err(ActionError::AddPermissions(e)),
        },
        Action::RemovePermissions(a) => match apply_remove_permissions(acl, a) {
            Ok(()) => Ok(()),
            Err(e) => Err(ActionError::RemovePermissions(e)),
        },
        Action::SetPermissions(a) => match apply_set_permissions(acl, a) {
            Ok(()) => Ok(()),
            Err(e) => Err(ActionError::SetPermissions(e)),
        },
    }
}

impl<T: WithAcl> Apply<SetDefault> for T {
    type Error = SetDefaultError;

    open spec fn name_mutating(action: SetDefault) -> bool {
        false
    }

    open spec fn parent_mutating(action: SetDefault) -> bool {
        false
    }

    open spec fn applicable(record: T, action: SetDefault) -> bool {
        true
    }

    open spec fn applied(pre: T, action: SetDefault, post: T, r: Result<(), SetDefaultError>) -> bool {
        acl_transition(pre, post, Ok::<AclView, SetDefaultError>(set_default(pre.acl_of()@, action)), r)
    }

    fn mutates_name(_action: &SetDefault) -> (r: bool) {
        false
    }

    fn mutates_parent(_action: &SetDefault) -> (r: bool) {
        false
    }

    fn apply(&mut self, action: &SetDefault) -> (r: Result<(), SetDefaultError>) {
        let acl = self.acl_mut();
        apply_set_default(acl, action);
        proof {
            old(self).lemma_with_acl(self.acl_of());
        }
        Ok(())
    }
}

impl<T: WithAcl> Apply<AddPermissions> for T {
    type Error = AddPermissionsError;

    open spec fn name_mutating(action: AddPermissions) -> bool {
        false
    }

    open spec fn parent_mutating(action: AddPermissions) -> bool {
        false
    }

    open spec fn applicable(record: T, action: AddPermissions) -> bool {
        true
    }

    open spec fn applied(pre: T, action: AddPermissions, post: T, r: Result<(), AddPermissionsError>) -> bool {
        acl_transition(pre, post, add_permissions(pre.acl_of()@, action), r)
    }

    fn mutates_name(_action: &AddPermissions) -> (r: bool) {
        false
    }

    fn mutates_parent(_action: &AddPermissions) -> (r: bool) {
        false
    }

    fn apply(&mut self, action: &AddPermissions) -> (r: Result<(), AddPermissionsError>) {
        let acl = self.acl_mut();
        let r = apply_add_permissions(acl, action);
        proof {
            old(self).lemma_with_acl(self.acl_of());
        }
        r
    }
}

impl<T: WithAcl> Apply<RemovePermissions> for T {
    type Error = RemovePermissionsError;

    open spec fn name_mutating(action: RemovePermissions) -> bool {
        false
    }

    open spec fn parent_mutating(action: RemovePermissions) -> bool {
        false
    }

    open spec fn applicable(record: T, action: RemovePermissions) -> bool {
        true
    }

    open spec fn applied(pre: T, action: RemovePermissions, post: T, r: Result<(), RemovePermissionsError>) -> bool {
        acl_transition(pre, post, remove_permissions(pre.acl_of()@, action), r)
    }

    fn mutates_name(_action: &RemovePermissions) -> (r: bool) {
        false
    }

    fn mutates_parent(_action: &RemovePermissions) -> (r: bool) {
        false
    }

    fn apply(&mut self, action: &RemovePermissions) -> (r: Result<(), RemovePermissionsError>) {
        let acl = self.acl_mut();
        let r = apply_remove_permissions(acl, action);
        proof {
            old(self).lemma_with_acl(self.acl_of());
        }
        r
    }
}

impl<T: WithAcl> Apply<SetPermissions> for T {
    type Error = SetPermissionsError;

    open spec fn name_mutating(action: SetPermissions) -> bool {
        false
    }

    open spec fn parent_mutating(action: SetPermissions) -> bool {
        false
    }

    open spec fn applicable(record: T, action: SetPermissions) -> bool {
        true
    }

    open spec fn applied(pre: T, action: SetPermissions, post: T, r: Result<(), SetPermissionsError>) -> bool {
        acl_transition(pre, post, set_permissions(pre.acl_of()@, action), r)
    }

    fn mutates_name(_action: &SetPermissions) -> (r: bool) {
        false
    }

    fn mutates_parent(_action: &SetPermissions) -> (r: bool) {
        false
    }

    fn apply(&mut self, action: &SetPermissions) -> (r: Result<(), SetPermissionsError>) {
        let acl = self.acl_mut();
        let r = apply_set_permissions(acl, action);
        proof {
            old(self).lemma_with_acl(self.acl_of());
        }
        r
    }
}

impl<T: WithAcl> Apply<Action> for T {
    type Error = ActionError;

    open spec fn name_mutating(action: Action) -> bool {
        false
    }

    open spec fn parent_mutating(action: Action) -> bool {
        false
    }

    open spec fn applicable(record: T, action: Action) -> bool {
        true
    }

    open spec fn applied(pre: T, action: Action, post: T, r: Result<(), ActionError>) -> bool {
        acl_transition(pre, post, apply_action(pre.acl_of()@, action), r)
    }

    fn mutates_name(_action: &Action) -> (r: bool) {
        false
    }

    fn mutates_parent(_action: &Action) -> (r: bool) {
        false
    }

    fn apply(&mut self, action: &Action) -> (r: Result<(), ActionError>) {
        let acl = self.acl_mut();
        let r = apply_action_to(acl, action);
        proof {
            old(self).lemma_with_acl(self.acl_of());
        }
        r
    }
}

} // verus!
