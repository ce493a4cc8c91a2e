pub mod public;
pub mod unfrozen;

use vstd::prelude::*;

use crate::record::{RecordDefn, TYPE_ORGANIZATION};

verus! {

/// The organization record type, schema version 0.
pub struct Organization;

impl RecordDefn for Organization {
    type Action = ();
    type Unfrozen = unfrozen::Organization;
    type Frozen = ();
    type Public = public::Public;
    type Private = unfrozen::Organization;

    open spec fn type_code() -> i16 {
        TYPE_ORGANIZATION
    }

    open spec fn schema_version_code() -> i16 {
        0
    }

    fn record_type() -> (r: i16) {
        TYPE_ORGANIZATION
    }

    fn schema_version() -> (r: i16) {
        0
    }

    open spec fn is_public_of(unfrozen: unfrozen::Organization, p: public::Public) -> bool {
        p.name@ == unfrozen@.name
    }

    open spec fn is_private_of(unfrozen: unfrozen::Organization, p: unfrozen::Organization) -> bool {
        p == unfrozen
    }

    fn public_of(unfrozen: unfrozen::Organization) -> (r: public::Public) {
        public::Public::from_organization(unfrozen)
    }

    fn private_of(unfrozen: unfrozen::Organization) -> (r: unfrozen::Organization) {
        unfrozen
    }
}

} // verus!
