pub mod frozen;
pub mod public;
pub mod unfrozen;

use vstd::prelude::*;

use crate::record::{RecordDefn, TYPE_ENUMERATION};

verus! {

/// The enumeration record type, schema version 0.
pub struct Enumeration;

impl RecordDefn for Enumeration {
    type Action = ();
    type Unfrozen = unfrozen::Enumeration;
    type Frozen = frozen::Enumeration;
    type Public = public::Public;
    type Private = unfrozen::Enumeration;

    open spec fn type_code() -> i16 {
        TYPE_ENUMERATION
    }

    open spec fn schema_version_code() -> i16 {
        0
    }

    fn record_type() -> (r: i16) {
        TYPE_ENUMERATION
    }

    fn schema_version() -> (r: i16) {
        0
    }

    open spec fn is_public_of(unfrozen: unfrozen::Enumeration, p: public::Public) -> bool {
        p.name@ == unfrozen@.name && p.parent == unfrozen@.parent
            && unfrozen::variants_view(p.variants@) == unfrozen@.variants
    }

    open spec fn is_private_of(unfrozen: unfrozen::Enumeration, p: unfrozen::Enumeration) -> bool {
        p == unfrozen
    }

    fn public_of(unfrozen: unfrozen::Enumeration) -> (r: public::Public) {
        public::Public::from_enumeration(unfrozen)
    }

    fn private_of(unfrozen: unfrozen::Enumeration) -> (r: unfrozen::Enumeration) {
        unfrozen
    }
}

} // verus!
