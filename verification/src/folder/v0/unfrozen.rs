use std::collections::HashSet;
use vstd::prelude::*;

use crate::acl::action::WithAcl;
use crate::acl::{Acl, AclView};
use crate::record::{BlobDependencies, Migrate, MigrateError, RecordView, UnfrozenReference, Uuid};

verus! {

/// A folder: a named place that other records have as their parent.
pub struct Folder {
    pub name: String,
    pub parent: Uuid,
    pub acl: Acl,
}

pub struct FolderView {
    pub name: Seq<char>,
    pub parent: Uuid,
    pub acl: AclView,
}

impl View for Folder {
    type V = FolderView;

    open spec fn view(&self) -> FolderView {
        FolderView { name: self.name@, parent: self.parent, acl: self.acl@ }
    }
}

impl Default for Folder {
    fn default() -> (r: Self)
        ensures
            r@ == (FolderView { name: Seq::empty(), parent: 0, acl: Acl::empty_view() }),
    {
        Folder { name: String::new(), parent: 0, acl: Acl::default() }
    }
}

impl Folder {
    /// A folder refers to no other record.
    pub fn dependencies(&self, set: &mut Vec<UnfrozenReference>)
        ensures
            final(set)@ == old(set)@,
    {
    }
}

impl WithAcl for Folder {
    open spec fn acl_of(&self) -> Acl {
        self.acl
    }

    open spec fn with_acl(self, acl: Acl) -> Self {
        Folder { acl, ..self }
    }

    proof fn lemma_with_acl(self, acl: Acl) {
    }

    fn acl(&self) -> (r: &Acl) {
        &self.acl
    }

    fn acl_mut(&mut self) -> (r: &mut Acl) {
        &mut self.acl
    }
}

impl RecordView for Folder {
    open spec fn name_of(&self) -> Option<Seq<char>> {
        Some(self.name@)
    }

    open spec fn parent_of(&self) -> Option<Uuid> {
        Some(self.parent)
    }

    open spec fn acl_view_of(&self) -> Option<Acl> {
        Some(self.acl)
    }

    fn name(&self) -> (r: Option<&str>) {
        Some(self.name.as_str())
    }

    fn parent(&self) -> (r: Option<&Uuid>) {
        Some(&self.parent)
    }

    fn acl(&self) -> (r: Option<&Acl>) {
        Some(&self.acl)
    }
}

impl BlobDependencies for Folder {
    open spec fn blobs(&self) -> Set<Uuid> {
        Set::empty()
    }

    fn blob_dependencies(&self, set: &mut HashSet<Uuid>) {
        assert(set@ =~= old(set)@.union(Set::empty()));
    }
}

impl Migrate for Folder {
    /// No older schema version can be brought forward.
    fn migrate(from_version: i16, from: &[u8]) -> (r: Result<Self, MigrateError>)
        ensures
            r == Err::<Self, MigrateError>(MigrateError::NotImplemented { from_version }),
    {
        Err(MigrateError::NotImplemented { from_version })
    }
}

} // verus!
