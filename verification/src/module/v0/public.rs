use std::collections::HashMap;
use vstd::prelude::*;

use super::unfrozen::{exports_view, Export, ExportView, Module, ModuleView};
use crate::acl::Acl;
use crate::collections::find_named;
use crate::record::{UnfrozenReference, Uuid};

verus! {

broadcast use vstd::std_specs::hash::group_hash_axioms;

/// What anyone may read of a module: everything but its ACL.
pub struct Public {
    pub parent: Uuid,
    pub name: String,
    pub exports: HashMap<Uuid, Export>,
    pub executable: Option<Uuid>,
    pub dependencies: Vec<UnfrozenReference>,
}

pub struct PublicView {
    pub parent: Uuid,
    pub name: Seq<char>,
    pub exports: Map<Uuid, ExportView>,
    pub executable: Option<Uuid>,
    pub dependencies: Seq<UnfrozenReference>,
}

impl View for Public {
    type V = PublicView;

    open spec fn view(&self) -> PublicView {
        PublicView {
            parent: self.parent,
            name: self.name@,
            exports: exports_view(self.exports@),
            executable: self.executable,
            dependencies: self.dependencies@,
        }
    }
}

impl PublicView {
    /// Whether some export has the name.
    pub open spec fn has_export_named(self, name: Seq<char>) -> bool {
        exists|id: Uuid| #[trigger] self.exports.contains_key(id) && self.exports[id].name == name
    }
}

impl Public {
    /// The id of an export with the given name, if there is one.
    pub fn export_id(&self, name: &str) -> (r: Option<&Uuid>)
        ensures
            r matches Some(id) ==> self@.exports.contains_key(*id) && self@.exports[*id].name
                == name@,
            r is None <==> !self@.has_export_named(name@),
    {
        let r = find_named(&self.exports, name);
        proof {
            if r is None {
                if self@.has_export_named(name@) {
                    let id = choose|id: Uuid| #[trigger] self@.exports.contains_key(id) && self@.exports[id].name == name@;
                    assert(self.exports@.contains_key(id));
                }
            }
        }
        r
    }

    pub fn has_export(&self, id: &Uuid) -> (r: bool)
        ensures
            r == self@.exports.contains_key(*id),
    {
        self.exports.contains_key(id)
    }

    pub fn has_export_named(&self, name: &str) -> (r: bool)
        ensures
            r == self@.has_export_named(name@),
    {
        self.export_id(name).is_some()
    }

    pub fn export(&self, id: &Uuid) -> (r: Option<&Export>)
        ensures
            r matches Some(e) ==> self@.exports.contains_key(*id) && e@ == self@.exports[*id],
            r is None <==> !self@.exports.contains_key(*id),
    {
        self.exports.get(id)
    }

    pub fn export_named(&self, name: &str) -> (r: Option<&Export>)
        ensures
            r matches Some(e) ==> e.name@ == name@ && (exists|id: Uuid|
                #[trigger] self@.exports.contains_key(id) && self@.exports[id] == e@),
            r is None <==> !self@.has_export_named(name@),
    {
        match self.export_id(name) {
            Some(id) => {
                let id = *id;
                self.exports.get(&id)
            },
            Option::None => Option::None,
        }
    }

    /// The public part of a module: everything but its ACL.
    pub fn from_module(module: Module) -> (r: Public)
        ensures
            r@ == (PublicView {
                parent: module@.parent,
                name: module@.name,
                exports: module@.exports,
                executable: module@.executable,
                dependencies: module@.dependencies,
            }),
    {
        Public {
            parent: module.parent,
            name: module.name,
            exports: module.exports,
            executable: module.executable,
            dependencies: module.dependencies,
        }
    }

    /// A module with the public fields, and the default (empty) ACL.
    pub fn into_module(self) -> (r: Module)
        ensures
            r@ == (ModuleView {
                parent: self@.parent,
                name: self@.name,
                acl: Acl::empty_view(),
                exports: self@.exports,
                executable: self@.executable,
                dependencies: self@.dependencies,
            }),
    {
        Module {
            parent: self.parent,
            name: self.name,
            acl: Acl::default(),
            exports: self.exports,
            executable: self.executable,
            dependencies: self.dependencies,
        }
    }
}

} // verus!
