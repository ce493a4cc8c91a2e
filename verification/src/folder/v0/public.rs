use vstd::prelude::*;

use super::unfrozen::{Folder, FolderView};
use crate::acl::Acl;
use crate::record::Uuid;

verus! {

/// What anyone may read of a folder: its name and parent.
pub struct Public {
    pub name: String,
    pub parent: Uuid,
}

impl Public {
    pub fn from_folder(folder: Folder) -> (r: Public)
        ensures
            r.name@ == folder@.name,
            r.parent == folder@.parent,
    {
        Public { name: folder.name, parent: folder.parent }
    }

    /// A folder with the public fields, and the default (empty) ACL.
    pub fn into_folder(self) -> (r: Folder)
        ensures
            r@ == (FolderView { name: self.name@, parent: self.parent, acl: Acl::empty_view() }),
    {
        Folder { name: self.name, parent: self.parent, acl: Acl::default() }
    }
}

} // verus!
