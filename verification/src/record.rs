use vstd::prelude::*;

use std::collections::HashSet;

use crate::acl::Acl;
use crate::text::{decimal, i64_to_string};

verus! {

/// A record, agent or blob identifier: the 128-bit value of a UUID.
pub type Uuid = u128;

pub const TYPE_USER: i16 = 0x0000i16;

pub const TYPE_ORGANIZATION: i16 = 0x0001i16;

pub const TYPE_FOLDER: i16 = 0x0010i16;

pub const TYPE_MODULE: i16 = 0x0020i16;

pub const TYPE_STRUCTURE: i16 = 0x0021i16;

pub const TYPE_ENUMERATION: i16 = 0x0022i16;

pub const TYPE_ANIMATION: i16 = 0x0030i16;

pub const TYPE_SCENE: i16 = 0x0100i16;

pub const TYPE_PLATFORM: i16 = 0x0200i16;

pub const TYPE_WORKSPACE: i16 = 0x0300i16;

pub struct Path {
    pub components: Vec<String>,
}

/// A concrete, pinned version, held as its canonical text (`1.2.3`).
pub struct Version {
    pub text: String,
}

/// A version requirement, held as its text; `None` means any version.
pub struct VersionReq {
    pub text: Option<String>,
}

/// A reference whose version is not yet pinned: an id plus a requirement.
pub struct UnfrozenReference {
    pub id: Uuid,
    pub version_req: VersionReq,
}

/// A reference pinned to a concrete version.
pub struct FrozenReference {
    pub id: Uuid,
    pub version: Version,
}

impl Clone for Version {
    fn clone(&self) -> (r: Self)
        ensures
            r == *self,
    {
        Version { text: self.text.clone() }
    }
}

impl Clone for VersionReq {
    fn clone(&self) -> (r: Self)
        ensures
            r == *self,
    {
        match &self.text {
            Some(t) => VersionReq { text: Some(t.clone()) },
            Option::None => VersionReq { text: Option::None },
        }
    }
}

impl Clone for UnfrozenReference {
    fn clone(&self) -> (r: Self)
        ensures
            r == *self,
    {
        UnfrozenReference { id: self.id, version_req: self.version_req.clone() }
    }
}

impl Clone for FrozenReference {
    fn clone(&self) -> (r: Self)
        ensures
            r == *self,
    {
        FrozenReference { id: self.id, version: self.version.clone() }
    }
}

/// What tells two unpinned references apart: the record's id and the text
/// of the version requirement.
pub open spec fn unfrozen_key(r: UnfrozenReference) -> (Uuid, Option<Seq<char>>) {
    (
        r.id,
        match r.version_req.text {
            Some(t) => Some(t@),
            None => None,
        },
    )
}

/// What tells two pinned references apart: the record's id and the text of
/// the version.
pub open spec fn frozen_key(r: FrozenReference) -> (Uuid, Seq<char>) {
    (r.id, r.version.text@)
}

/// Whether no two references in the list are the same reference.
pub open spec fn unfrozen_distinct(s: Seq<UnfrozenReference>) -> bool {
    forall|i: int, j: int| 0 <= i < j < s.len() ==> unfrozen_key(s[i]) != unfrozen_key(s[j])
}

/// Whether no two references in the list are the same reference.
pub open spec fn frozen_distinct(s: Seq<FrozenReference>) -> bool {
    forall|i: int, j: int| 0 <= i < j < s.len() ==> frozen_key(s[i]) != frozen_key(s[j])
}

/// Whether the reference is in the list.
pub open spec fn has_unfrozen(s: Seq<UnfrozenReference>, r: UnfrozenReference) -> bool {
    exists|i: int| 0 <= i < s.len() && unfrozen_key(#[trigger] s[i]) == unfrozen_key(r)
}

/// Whether the reference is in the list.
pub open spec fn has_frozen(s: Seq<FrozenReference>, r: FrozenReference) -> bool {
    exists|i: int| 0 <= i < s.len() && frozen_key(#[trigger] s[i]) == frozen_key(r)
}

/// Whether two unpinned references are the same reference.
pub fn same_unfrozen(a: &UnfrozenReference, b: &UnfrozenReference) -> (r: bool)
    ensures
        r == (unfrozen_key(*a) == unfrozen_key(*b)),
{
    if a.id != b.id {
        return false;
    }
    match (&a.version_req.text, &b.version_req.text) {
        (Some(x), Some(y)) => *x == *y,
        (Option::None, Option::None) => true,
        _ => false,
    }
}

/// Whether two pinned references are the same reference.
pub fn same_frozen(a: &FrozenReference, b: &FrozenReference) -> (r: bool)
    ensures
        r == (frozen_key(*a) == frozen_key(*b)),
{
    a.id == b.id && a.version.text == b.version.text
}

/// Adds the reference to the list unless it is there already.
pub fn insert_unfrozen(set: &mut Vec<UnfrozenReference>, r: &UnfrozenReference)
    ensures
        final(set)@ == if has_unfrozen(old(set)@, *r) {
            old(set)@
        } else {
            old(set)@.push(*r)
        },
        unfrozen_distinct(old(set)@) ==> unfrozen_distinct(final(set)@),
{
    let n = set.len();
    let mut i: usize = 0;
    while i < n
        invariant
            n == set@.len(),
            i <= n,
            forall|j: int| 0 <= j < i ==> unfrozen_key(#[trigger] set@[j]) != unfrozen_key(*r),
        decreases n - i,
    {
        if same_unfrozen(&set[i], r) {
            assert(has_unfrozen(set@, *r));
            return;
        }
        i = i + 1;
    }
    assert(!has_unfrozen(set@, *r));
    set.push(r.clone());
}

/// Adds the reference to the list unless it is there already.
pub fn insert_frozen(set: &mut Vec<FrozenReference>, r: &FrozenReference)
    ensures
        final(set)@ == if has_frozen(old(set)@, *r) {
            old(set)@
        } else {
            old(set)@.push(*r)
        },
        frozen_distinct(old(set)@) ==> frozen_distinct(final(set)@),
{
    let n = set.len();
    let mut i: usize = 0;
    while i < n
        invariant
            n == set@.len(),
            i <= n,
            forall|j: int| 0 <= j < i ==> frozen_key(#[trigger] set@[j]) != frozen_key(*r),
        decreases n - i,
    {
        if same_frozen(&set[i], r) {
            assert(has_frozen(set@, *r));
            return;
        }
        i = i + 1;
    }
    assert(!has_frozen(set@, *r));
    set.push(r.clone());
}

/// Applying an action of type `T` to a record.
///
/// `applied(pre, action, post, r)` states, for each record type and action,
/// the record after the action and the result, given the record before it.
pub trait Apply<T>: Sized {
    type Error;

    /// Whether an action changes the record's name.
    spec fn name_mutating(action: T) -> bool;

    /// Whether an action changes the record's parent.
    spec fn parent_mutating(action: T) -> bool;

    /// Whether `action` can be applied to `record` without a panic.
    spec fn applicable(record: Self, action: T) -> bool;

    /// What applying `action` to `pre` leaves and returns.
    spec fn applied(pre: Self, action: T, post: Self, r: Result<(), Self::Error>) -> bool;

    fn mutates_name(action: &T) -> (r: bool)
        ensures
            r == Self::name_mutating(*action),
    ;

    fn mutates_parent(action: &T) -> (r: bool)
        ensures
            r == Self::parent_mutating(*action),
    ;

    fn apply(&mut self, action: &T) -> (r: Result<(), Self::Error>)
        requires
            Self::applicable(*old(self), *action),
        ensures
            Self::applied(*old(self), *action, *final(self), r),
    ;
}

/// What every record exposes: its name, its parent and its access control
/// list, where it has them.
pub trait RecordView {
    spec fn name_of(&self) -> Option<Seq<char>>;

    spec fn parent_of(&self) -> Option<Uuid>;

    spec fn acl_view_of(&self) -> Option<Acl>;

    fn name(&self) -> (r: Option<&str>)
        ensures
            r matches Some(n) ==> self.name_of() == Some(n@),
            r is None ==> self.name_of() is None,
    ;

    fn parent(&self) -> (r: Option<&Uuid>)
        ensures
            r matches Some(p) ==> self.parent_of() == Some(*p),
            r is None ==> self.parent_of() is None,
    ;

    fn acl(&self) -> (r: Option<&Acl>)
        ensures
            r matches Some(a) ==> self.acl_view_of() == Some(*a),
            r is None ==> self.acl_view_of() is None,
    ;
}

/// Values that name the blobs (binary payloads, such as executables) they
/// need.
pub trait BlobDependencies {
    /// The blobs this value needs.
    spec fn blobs(&self) -> Set<Uuid>;

    fn blob_dependencies(&self, set: &mut HashSet<Uuid>)
        ensures
            final(set)@ == old(set)@.union(self.blobs()),
    ;
}

/// A record type at one schema version, and the types it is made of.
pub trait RecordDefn {
    type Action;
    type Unfrozen;
    type Frozen;
    type Public;
    type Private;

    /// The record type's code (one of the `TYPE_` constants).
    spec fn type_code() -> i16;

    /// The schema version these types belong to.
    spec fn schema_version_code() -> i16;

    fn record_type() -> (r: i16)
        ensures
            r == Self::type_code(),
    ;

    fn schema_version() -> (r: i16)
        ensures
            r == Self::schema_version_code(),
    ;

    /// Whether `p` is what anyone may read of the record `unfrozen`.
    spec fn is_public_of(unfrozen: Self::Unfrozen, p: Self::Public) -> bool;

    /// Whether `p` is what the owners of the record `unfrozen` may read of it.
    spec fn is_private_of(unfrozen: Self::Unfrozen, p: Self::Private) -> bool;

    /// What anyone may read of a record.
    fn public_of(unfrozen: Self::Unfrozen) -> (r: Self::Public)
        ensures
            Self::is_public_of(unfrozen, r),
    ;

    /// What the record's owners may read of it.
    fn private_of(unfrozen: Self::Unfrozen) -> (r: Self::Private)
        ensures
            Self::is_private_of(unfrozen, r),
    ;
}

/// What a record's stored bytes hold, by kind.
pub enum RecordContent<R: RecordDefn> {
    Action(R::Action),
    Unfrozen(R::Unfrozen),
    Frozen(R::Frozen),
}

/// Why a record could not be brought forward from an older schema version.
#[derive(Clone, Copy, PartialEq, Eq, Structural, Debug)]
pub enum MigrateError {
    NotImplemented { from_version: i16 },
}

impl MigrateError {
    /// The error's message.
    pub fn message(&self) -> (r: String)
        ensures
            match *self {
                MigrateError::NotImplemented { from_version } => r@
                    == "Migration not implemented for version "@ + decimal(from_version as int),
            },
    {
        match self {
            MigrateError::NotImplemented { from_version } => {
                let mut s = String::from_str("Migration not implemented for version ");
                let n = i64_to_string(*from_version as i64);
                proof {
                    reveal_strlit("Migration not implemented for version ");
                }
                s.append(n.as_str());
                s
            },
        }
    }
}

/// Bringing a record forward from an older schema version.
pub trait Migrate: Sized {
    fn migrate(from_version: i16, from: &[u8]) -> (r: Result<Self, MigrateError>);
}

/// A frozen record, by record type.
pub enum FrozenRecord {
    Module(crate::module::v0::frozen::Module),
}

/// A value held here, or a reference to a record that holds it.
pub enum Reference<T> {
    Local(T),
    Remote(Uuid),
    RemoteVersion(VersionReq),
}

} // verus!
