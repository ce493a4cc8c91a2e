use std::collections::HashSet;
use vstd::prelude::*;

use crate::acl::action::WithAcl;
use crate::acl::{Acl, AclView};
use crate::record::{BlobDependencies, Migrate, MigrateError, RecordView, UnfrozenReference, Uuid};

verus! {

/// An organization: a named owner of records; it has no parent.
pub struct Organization {
    pub name: String,
    pub acl: Acl,
}

pub struct OrganizationView {
    pub name: Seq<char>,
    pub acl: AclView,
}

impl View for Organization {
    type V = OrganizationView;

    open spec fn view(&self) -> OrganizationView {
        OrganizationView { name: self.name@, acl: self.acl@ }
    }
}

impl Default for Organization {
    fn default() -> (r: Self)
        ensures
            r@ == (OrganizationView { name: Seq::empty(), acl: Acl::empty_view() }),
    {
        Organization { name: String::new(), acl: Acl::default() }
    }
}

impl Organization {
    /// An organization refers to no other record.
    pub fn dependencies(&self, set: &mut Vec<UnfrozenReference>)
        ensures
            final(set)@ == old(set)@,
    {
    }
}

impl WithAcl for Organization {
    open spec fn acl_of(&self) -> Acl {
        self.acl
    }

    open spec fn with_acl(self, acl: Acl) -> Self {
        Organization { acl, ..self }
    }

    proof fn lemma_with_acl(self, acl: Acl) {
    }

    fn acl(&self) -> (r: &Acl) {
        &self.acl
    }

    fn acl_mut(&mut self) -> (r: &mut Acl) {
        &mut self.acl
    }
}

impl RecordView for Organization {
    open spec fn name_of(&self) -> Option<Seq<char>> {
        Some(self.name@)
    }

    open spec fn parent_of(&self) -> Option<Uuid> {
        None
    }

    open spec fn acl_view_of(&self) -> Option<Acl> {
        Some(self.acl)
    }

    fn name(&self) -> (r: Option<&str>) {
        Some(self.name.as_str())
    }

    fn parent(&self) -> (r: Option<&Uuid>) {
        Option::None
    }

    fn acl(&self) -> (r: Option<&Acl>) {
        Some(&self.acl)
    }
}

impl BlobDependencies for Organization {
    open spec fn blobs(&self) -> Set<Uuid> {
        Set::empty()
    }

    fn blob_dependencies(&self, set: &mut HashSet<Uuid>) {
        assert(set@ =~= old(set)@.union(Set::empty()));
    }
}

impl Migrate for Organization {
    /// No older schema version can be brought forward.
    fn migrate(from_version: i16, from: &[u8]) -> (r: Result<Self, MigrateError>)
        ensures
            r == Err::<Self, MigrateError>(MigrateError::NotImplemented { from_version }),
    {
        Err(MigrateError::NotImplemented { from_version })
    }
}

} // verus!
