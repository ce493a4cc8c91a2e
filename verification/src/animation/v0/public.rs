use std::collections::HashMap;
use vstd::prelude::*;

use super::unfrozen::{nodes_view, Animation, Node, NodeView};
use crate::acl::Acl;
use crate::record::Uuid;

verus! {

pub struct Public {
    pub name: String,
    pub parent: Uuid,
    pub root_id: Uuid,
    pub nodes: HashMap<Uuid, Node>,
}

impl Public {
    /// The public part of an animation: everything but its ACL.
    pub fn from_animation(animation: Animation) -> (r: Public)
        ensures
            r.name@ == animation.name@,
            r.parent == animation.parent,
            r.root_id == animation.root_id,
            nodes_view(r.nodes@) == nodes_view(animation.nodes@),
    {
        Public {
            name: animation.name,
            parent: animation.parent,
            root_id: animation.root_id,
            nodes: animation.nodes,
        }
    }

    /// An animation with the public fields, and the default (empty) ACL.
    pub fn into_animation(self) -> (r: Animation)
        ensures
            r@.name == self.name@,
            r@.parent == self.parent,
            r@.root_id == self.root_id,
            r@.nodes == nodes_view(self.nodes@),
            r@.acl == Acl::empty_view(),
    {
        Animation {
            name: self.name,
            parent: self.parent,
            root_id: self.root_id,
            nodes: self.nodes,
            acl: Acl::default(),
        }
    }
}

} // verus!
