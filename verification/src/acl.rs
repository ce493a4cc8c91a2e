pub mod action;
pub mod laws;

use std::collections::HashMap;
use vstd::prelude::*;

use crate::ids::{parse_uuid, parsed_uuid};
use crate::record::Uuid;
use crate::text::{split_on, split_on_char, lemma_split_on_nonempty};

verus! {

broadcast use vstd::std_specs::hash::group_hash_axioms;

/// An agent's level of access. `NoAccess < Public < Private`.
#[derive(Clone, Copy, PartialEq, Eq, Structural, Debug)]
pub enum PermissionLevel {
    NoAccess,
    Public,
    Private,
}

/// The position of a level in the order `NoAccess < Public < Private`.
pub open spec fn level_rank(l: PermissionLevel) -> int {
    match l {
        PermissionLevel::NoAccess => 0,
        PermissionLevel::Public => 1,
        PermissionLevel::Private => 2,
    }
}

impl PermissionLevel {
    pub fn rank(&self) -> (r: u8)
        ensures
            r == level_rank(*self),
    {
        match self {
            PermissionLevel::NoAccess => 0,
            PermissionLevel::Public => 1,
            PermissionLevel::Private => 2,
        }
    }

    /// Whether `self` is a lower level than `other`.
    pub fn lower_than(&self, other: &PermissionLevel) -> (r: bool)
        ensures
            r == (level_rank(*self) < level_rank(*other)),
    {
        self.rank() < other.rank()
    }
}

impl Default for PermissionLevel {
    fn default() -> (r: Self)
        ensures
            r == PermissionLevel::NoAccess,
    {
        PermissionLevel::NoAccess
    }
}

/// The "no permissions" marker.
#[derive(Clone, Copy, PartialEq, Eq, Structural, Debug)]
pub struct NoPermissions {
    pub _dummy: i32,
}


#[derive(Clone, Copy, PartialEq, Eq, Structural, Debug)]
pub struct Inherit {
    /// Inherit permissions from the following record with an ACL.
    /// If `None`, the record's logical parent is used.
    pub from: Option<Uuid>,
}

#[derive(Clone, Copy, PartialEq, Eq, Structural, Debug)]
pub struct Permissions {
    pub read: PermissionLevel,
    pub write: PermissionLevel,
}

impl Default for Permissions {
    fn default() -> (r: Self)
        ensures
            r == no_permissions_spec(),
    {
        Permissions { read: PermissionLevel::NoAccess, write: PermissionLevel::NoAccess }
    }
}

/// Why a permission check refused an agent.
#[derive(Clone, Copy, PartialEq, Eq, Structural, Debug)]
pub enum PermissionError {
    /// Read permission for agent is too low.
    ReadTooLow,
    /// Write permission for agent is too low.
    WriteTooLow,
}

impl Permissions {
    /// Checks that these permissions reach `required`, read first, then
    /// write.
    pub fn validate(&self, required: &Permissions) -> (r: Result<(), PermissionError>)
        ensures
            level_rank(self.read) < level_rank(required.read) ==> r == Err::<
                (),
                PermissionError,
            >(PermissionError::ReadTooLow),
            level_rank(self.read) >= level_rank(required.read) && level_rank(self.write)
                < level_rank(required.write) ==> r == Err::<(), PermissionError>(
                PermissionError::WriteTooLow,
            ),
            r is Ok <==> level_rank(self.read) >= level_rank(required.read) && level_rank(
                self.write,
            ) >= level_rank(required.write),
    {
        if self.read.lower_than(&required.read) {
            return Err(PermissionError::ReadTooLow);
        }
        if self.write.lower_than(&required.write) {
            return Err(PermissionError::WriteTooLow);
        }
        Ok(())
    }
}

pub open spec fn no_permissions_spec() -> Permissions {
    Permissions { read: PermissionLevel::NoAccess, write: PermissionLevel::NoAccess }
}

pub fn no_permissions() -> (r: Permissions)
    ensures
        r == no_permissions_spec(),
{
    Permissions { read: PermissionLevel::NoAccess, write: PermissionLevel::NoAccess }
}

pub open spec fn private_write_spec() -> Permissions {
    Permissions { read: PermissionLevel::NoAccess, write: PermissionLevel::Private }
}

pub fn private_write() -> (r: Permissions)
    ensures
        r == private_write_spec(),
{
    Permissions { read: PermissionLevel::NoAccess, write: PermissionLevel::Private }
}

pub open spec fn private_read_spec() -> Permissions {
    Permissions { read: PermissionLevel::Private, write: PermissionLevel::NoAccess }
}

pub fn private_read() -> (r: Permissions)
    ensures
        r == private_read_spec(),
{
    Permissions { read: PermissionLevel::Private, write: PermissionLevel::NoAccess }
}

pub open spec fn public_read_spec() -> Permissions {
    Permissions { read: PermissionLevel::Public, write: PermissionLevel::NoAccess }
}

pub fn public_read() -> (r: Permissions)
    ensures
        r == public_read_spec(),
{
    Permissions { read: PermissionLevel::Public, write: PermissionLevel::NoAccess }
}

pub open spec fn public_write_spec() -> Permissions {
    Permissions { read: PermissionLevel::NoAccess, write: PermissionLevel::Public }
}

pub fn public_write() -> (r: Permissions)
    ensures
        r == public_write_spec(),
{
    Permissions { read: PermissionLevel::NoAccess, write: PermissionLevel::Public }
}

pub open spec fn public_read_write_spec() -> Permissions {
    Permissions { read: PermissionLevel::Public, write: PermissionLevel::Public }
}

pub fn public_read_write() -> (r: Permissions)
    ensures
        r == public_read_write_spec(),
{
    Permissions { read: PermissionLevel::Public, write: PermissionLevel::Public }
}

pub open spec fn private_read_write_spec() -> Permissions {
    Permissions { read: PermissionLevel::Private, write: PermissionLevel::Private }
}

pub fn private_read_write() -> (r: Permissions)
    ensures
        r == private_read_write_spec(),
{
    Permissions { read: PermissionLevel::Private, write: PermissionLevel::Private }
}

#[derive(Clone, Copy, PartialEq, Eq, Structural, Debug)]
pub enum WithPermissions {
    /// No permissions.
    NoPermissions(NoPermissions),
    /// Inherit permissions from another record's ACL; if none is found, this
    /// is equivalent to `None`.
    Inherit(Inherit),
    /// Custom permissions.
    Custom(Permissions),
}

impl Default for WithPermissions {
    fn default() -> (r: Self)
        ensures
            r == WithPermissions::NoPermissions(NoPermissions { _dummy: 0 }),
    {
        WithPermissions::NoPermissions(NoPermissions { _dummy: 0 })
    }
}

/// What resolving a `WithPermissions` needs: either the permissions are
/// known, or they have to be inherited from another record's ACL.
#[derive(Clone, Copy, PartialEq, Eq, Structural, Debug)]
pub enum Resolution {
    Resolved(Permissions),
    Inherit(Inherit),
}

impl WithPermissions {
    /// The decision that resolving these permissions takes before any
    /// inherited ACL is consulted.
    pub fn resolution(&self) -> (r: Resolution)
        ensures
            match *self {
                WithPermissions::NoPermissions(_) => r == Resolution::Resolved(no_permissions_spec()),
                WithPermissions::Inherit(i) => r == Resolution::Inherit(i),
                WithPermissions::Custom(p) => r == Resolution::Resolved(p),
            },
    {
        match self {
            WithPermissions::NoPermissions(_) => Resolution::Resolved(no_permissions()),
            WithPermissions::Inherit(inherit) => Resolution::Inherit(*inherit),
            WithPermissions::Custom(permissions) => Resolution::Resolved(*permissions),
        }
    }
}

/// The level a GraphQL enum value names: `NONE`, `PUBLIC` or `PRIVATE`.
pub open spec fn level_named(s: Seq<char>) -> Option<PermissionLevel> {
    if s == "NONE"@ {
        Some(PermissionLevel::NoAccess)
    } else if s == "PUBLIC"@ {
        Some(PermissionLevel::Public)
    } else if s == "PRIVATE"@ {
        Some(PermissionLevel::Private)
    } else {
        None
    }
}

/// Whether an input string can be read without a malformed record id: one
/// that starts `inherit:` goes on with a UUID.
pub open spec fn input_readable(s: Seq<char>) -> bool {
    let ps = split_on(s, ':');
    ps[0] == "inherit"@ && ps.len() >= 2 ==> parsed_uuid(ps[1]) is Some
}

/// What an input string says, its pieces taken between colons: `none`;
/// `inherit`, then the record to inherit from, if any; or `custom`, then the
/// read and the write level. Anything else says nothing.
pub open spec fn input_permissions(s: Seq<char>) -> Option<WithPermissions> {
    let ps = split_on(s, ':');
    if ps[0] == "none"@ {
        Some(WithPermissions::NoPermissions(NoPermissions { _dummy: 0 }))
    } else if ps[0] == "inherit"@ {
        Some(
            WithPermissions::Inherit(
                Inherit {
                    from: if ps.len() >= 2 {
                        Some(parsed_uuid(ps[1])->0)
                    } else {
                        None
                    },
                },
            ),
        )
    } else if ps[0] == "custom"@ && ps.len() >= 3 && level_named(ps[1]) is Some && level_named(
        ps[2],
    ) is Some {
        Some(
            WithPermissions::Custom(
                Permissions { read: level_named(ps[1])->0, write: level_named(ps[2])->0 },
            ),
        )
    } else {
        None
    }
}

/// The level a GraphQL enum value names.
fn level_from_name(s: &String) -> (r: Option<PermissionLevel>)
    ensures
        r == level_named(s@),
{
    if *s == String::from_str("NONE") {
        Some(PermissionLevel::NoAccess)
    } else if *s == String::from_str("PUBLIC") {
        Some(PermissionLevel::Public)
    } else if *s == String::from_str("PRIVATE") {
        Some(PermissionLevel::Private)
    } else {
        None
    }
}

/// Why an input string could not be read.
#[derive(Clone, Copy, PartialEq, Eq, Structural, Debug)]
pub enum InputError {
    /// The record to inherit from is not a UUID.
    MalformedId,
}

impl WithPermissions {
    /// Reads permissions from a GraphQL input string: `none`,
    /// `inherit[:<uuid>]` or `custom:<read>:<write>`.
    pub fn from_input(s: &str) -> (r: Option<WithPermissions>)
        requires
            input_readable(s@),
        ensures
            r == input_permissions(s@),
    {
        let parts = split_on_char(s, ':');
        let ghost ps = split_on(s@, ':');
        proof {
            lemma_split_on_nonempty(s@, ':');
            assert(parts@.len() == ps.len());
            assert forall|i: int| 0 <= i < ps.len() implies ps[i] == (#[trigger] parts@[i])@ by {
                assert(parts@.map_values(|p: String| p@)[i] == parts@[i]@);
            }
        }
        let first = &parts[0];
        if *first == String::from_str("none") {
            Some(WithPermissions::NoPermissions(NoPermissions { _dummy: 0 }))
        } else if *first == String::from_str("inherit") {
            let from = if parts.len() >= 2 {
                match parse_uuid(parts[1].as_str()) {
                    Some(id) => Some(id),
                    None => {
                        proof {
                            assert(parsed_uuid(ps[1]) is Some);
                        }
                        None
                    },
                }
            } else {
                None
            };
            Some(WithPermissions::Inherit(Inherit { from }))
        } else if *first == String::from_str("custom") && parts.len() >= 3 {
            match (level_from_name(&parts[1]), level_from_name(&parts[2])) {
                (Some(read), Some(write)) => Some(WithPermissions::Custom(Permissions { read, write })),
                _ => None,
            }
        } else {
            None
        }
    }

    /// Reads permissions from a GraphQL input string, as `from_input` does,
    /// where the record to inherit from, if the string names one, is a UUID;
    /// refuses the string where it is not.
    pub fn checked_from_input(s: &str) -> (r: Result<Option<WithPermissions>, InputError>)
        ensures
            input_readable(s@) ==> r == Ok::<Option<WithPermissions>, InputError>(input_permissions(s@)),
            !input_readable(s@) ==> r == Err::<Option<WithPermissions>, InputError>(InputError::MalformedId),
    {
        let parts = split_on_char(s, ':');
        let ghost ps = split_on(s@, ':');
        proof {
            lemma_split_on_nonempty(s@, ':');
            assert(parts@.len() == ps.len());
            assert forall|i: int| 0 <= i < ps.len() implies ps[i] == (#[trigger] parts@[i])@ by {
                assert(parts@.map_values(|p: String| p@)[i] == parts@[i]@);
            }
        }
        if parts[0] == String::from_str("inherit") && parts.len() >= 2 && parse_uuid(parts[1].as_str()).is_none() {
            return Err(InputError::MalformedId);
        }
        Ok(WithPermissions::from_input(s))
    }
}

pub struct IdWithPermissions {
    pub id: Uuid,
    pub with_permissions: WithPermissions,
}

/// An Access Control List (ACL): which agents may do what.
pub struct Acl {
    /// A map of agent IDs to their permissions.
    pub permissions: HashMap<Uuid, WithPermissions>,
    /// The permissions of an agent that the map does not name.
    pub default: WithPermissions,
}

/// The mathematical content of an ACL.
pub struct AclView {
    pub permissions: Map<Uuid, WithPermissions>,
    pub default: WithPermissions,
}

impl View for Acl {
    type V = AclView;

    open spec fn view(&self) -> AclView {
        AclView { permissions: self.permissions@, default: self.default }
    }
}

impl AclView {
    /// The permissions that apply to `agent`.
    pub open spec fn permissions_for(self, agent: Uuid) -> WithPermissions {
        if self.permissions.contains_key(agent) {
            self.permissions[agent]
        } else {
            self.default
        }
    }
}

impl Clone for Acl {
    fn clone(&self) -> (r: Self)
        ensures
            r@ == self@,
    {
        Acl { permissions: self.permissions.clone(), default: self.default }
    }
}

impl Acl {
    /// What a default ACL reads: no agents, and no permissions by default.
    pub open spec fn empty_view() -> AclView {
        AclView {
            permissions: Map::empty(),
            default: WithPermissions::NoPermissions(NoPermissions { _dummy: 0 }),
        }
    }
}

impl Default for Acl {
    fn default() -> (r: Self)
        ensures
            r@ == Acl::empty_view(),
    {
        Acl {
            permissions: HashMap::new(),
            default: WithPermissions::NoPermissions(NoPermissions { _dummy: 0 }),
        }
    }
}

impl Acl {
    /// An ACL that gives `owner` the permissions `with_permissions`, and
    /// everyone else none.
    pub fn new(owner: Uuid, with_permissions: WithPermissions) -> (r: Self)
        ensures
            r@.permissions == Map::<Uuid, WithPermissions>::empty().insert(
                owner,
                with_permissions,
            ),
            r@.default == WithPermissions::NoPermissions(NoPermissions { _dummy: 0 }),
    {
        let mut permissions = HashMap::new();
        permissions.insert(owner, with_permissions);
        Self {
            permissions,
            default: WithPermissions::NoPermissions(NoPermissions { _dummy: 0 }),
        }
    }

    /// The permissions of agents that the map does not name.
    pub fn default_permissions(&self) -> (r: &WithPermissions)
        ensures
            *r == self.default,
    {
        &self.default
    }

    pub fn default_mut(&mut self) -> (r: &mut WithPermissions)
        ensures
            *r == old(self).default,
            final(self).permissions@ == old(self).permissions@,
            final(self).default == *final(r),
    {
        &mut self.default
    }

    pub fn permissions(&self) -> (r: &HashMap<Uuid, WithPermissions>)
        ensures
            r@ == self.permissions@,
    {
        &self.permissions
    }

    pub fn permissions_mut(&mut self) -> (r: &mut HashMap<Uuid, WithPermissions>)
        ensures
            r@ == old(self).permissions@,
            final(self).default == old(self).default,
            final(self).permissions@ == final(r)@,
    {
        &mut self.permissions
    }

    /// The permissions that apply to `agent`: its own entry, or the default.
    pub fn with_permissions(&self, agent: &Uuid) -> (r: &WithPermissions)
        ensures
            *r == self@.permissions_for(*agent),
    {
        match self.permissions.get(agent) {
            Some(p) => p,
            Option::None => &self.default,
        }
    }

    /// The decision that resolving `agent`'s permissions takes before any
    /// inherited ACL is consulted.
    pub fn resolution(&self, agent: &Uuid) -> (r: Resolution)
        ensures
            r == match self@.permissions_for(*agent) {
                WithPermissions::NoPermissions(_) => Resolution::Resolved(no_permissions_spec()),
                WithPermissions::Inherit(i) => Resolution::Inherit(i),
                WithPermissions::Custom(p) => Resolution::Resolved(p),
            },
    {
        self.with_permissions(agent).resolution()
    }
}

/// A resolver that cannot inherit: asking it to is an error.
pub struct DummyPermissionResolver;

/// Why inheriting permissions failed.
#[derive(Clone, Copy, PartialEq, Eq, Structural, Debug)]
pub enum InheritError {
    /// Inheriting permissions is not possible.
    NotPossible,
}

impl DummyPermissionResolver {
    pub fn inherited_permissions(
        &self,
        _parent: Option<&Uuid>,
        _inherit: &Inherit,
        _agent: &Uuid,
    ) -> (r: Result<Permissions, InheritError>)
        ensures
            r == Err::<Permissions, InheritError>(InheritError::NotPossible),
    {
        Err(InheritError::NotPossible)
    }
}

} // verus!
