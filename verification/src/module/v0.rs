pub mod action;
pub mod frozen;
pub mod public;
pub mod unfrozen;
pub mod laws;

use vstd::prelude::*;

use crate::record::{RecordDefn, TYPE_MODULE};

verus! {

/// The module record type, schema version 0.
pub struct Module;

impl RecordDefn for Module {
    type Action = action::Action;
    type Unfrozen = unfrozen::Module;
    type Frozen = frozen::Module;
    type Public = public::Public;
    type Private = unfrozen::Module;

    open spec fn type_code() -> i16 {
        TYPE_MODULE
    }

    open spec fn schema_version_code() -> i16 {
        0
    }

    fn record_type() -> (r: i16) {
        TYPE_MODULE
    }

    fn schema_version() -> (r: i16) {
        0
    }

    open spec fn is_public_of(unfrozen: unfrozen::Module, p: public::Public) -> bool {
        p@ == (public::PublicView {
            parent: unfrozen@.parent,
            name: unfrozen@.name,
            exports: unfrozen@.exports,
            executable: unfrozen@.executable,
            dependencies: unfrozen@.dependencies,
        })
    }

    open spec fn is_private_of(unfrozen: unfrozen::Module, p: unfrozen::Module) -> bool {
        p == unfrozen
    }

    fn public_of(unfrozen: unfrozen::Module) -> (r: public::Public) {
        public::Public::from_module(unfrozen)
    }

    fn private_of(unfrozen: unfrozen::Module) -> (r: unfrozen::Module) {
        unfrozen
    }
}

} // verus!
