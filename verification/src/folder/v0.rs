pub mod public;
pub mod unfrozen;

use vstd::prelude::*;

use crate::record::{RecordDefn, TYPE_FOLDER};

verus! {

/// The folder record type, schema version 0.
pub struct Folder;

impl RecordDefn for Folder {
    type Action = ();
    type Unfrozen = unfrozen::Folder;
    type Frozen = ();
    type Public = public::Public;
    type Private = unfrozen::Folder;

    open spec fn type_code() -> i16 {
        TYPE_FOLDER
    }

    open spec fn schema_version_code() -> i16 {
        0
    }

    fn record_type() -> (r: i16) {
        TYPE_FOLDER
    }

    fn schema_version() -> (r: i16) {
        0
    }

    open spec fn is_public_of(unfrozen: unfrozen::Folder, p: public::Public) -> bool {
        p.name@ == unfrozen@.name && p.parent == unfrozen@.parent
    }

    open spec fn is_private_of(unfrozen: unfrozen::Folder, p: unfrozen::Folder) -> bool {
        p == unfrozen
    }

    fn public_of(unfrozen: unfrozen::Folder) -> (r: public::Public) {
        public::Public::from_folder(unfrozen)
    }

    fn private_of(unfrozen: unfrozen::Folder) -> (r: unfrozen::Folder) {
        unfrozen
    }
}

} // verus!
