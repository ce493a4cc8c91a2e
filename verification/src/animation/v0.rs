pub mod action;
pub mod public;
pub mod unfrozen;
pub mod laws;

use vstd::prelude::*;

use crate::record::{RecordDefn, TYPE_ANIMATION};

verus! {

/// The animation record type, schema version 0.
pub struct Animation;

impl RecordDefn for Animation {
    type Action = action::Action;
    type Unfrozen = unfrozen::Animation;
    type Frozen = ();
    type Public = public::Public;
    type Private = unfrozen::Animation;

    open spec fn type_code() -> i16 {
        TYPE_ANIMATION
    }

    open spec fn schema_version_code() -> i16 {
        0
    }

    fn record_type() -> (r: i16) {
        TYPE_ANIMATION
    }

    fn schema_version() -> (r: i16) {
        0
    }

    open spec fn is_public_of(unfrozen: unfrozen::Animation, p: public::Public) -> bool {
        p.name@ == unfrozen.name@ && p.parent == unfrozen.parent && p.root_id == unfrozen.root_id
            && unfrozen::nodes_view(p.nodes@) == unfrozen::nodes_view(unfrozen.nodes@)
    }

    open spec fn is_private_of(unfrozen: unfrozen::Animation, p: unfrozen::Animation) -> bool {
        p == unfrozen
    }

    fn public_of(unfrozen: unfrozen::Animation) -> (r: public::Public) {
        public::Public::from_animation(unfrozen)
    }

    fn private_of(unfrozen: unfrozen::Animation) -> (r: unfrozen::Animation) {
        unfrozen
    }
}

} // verus!
