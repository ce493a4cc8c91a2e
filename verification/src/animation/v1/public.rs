use std::collections::HashMap;
use vstd::prelude::*;

use super::unfrozen::{controls_view, nodes_view, Animation, AnimationView, Control, Node};
use crate::acl::Acl;
use crate::record::Uuid;

verus! {

/// What anyone may read of an animation: everything but its ACL.
pub struct Public {
    pub name: String,
    pub parent: Uuid,
    pub controls: HashMap<Uuid, Control>,
    pub nodes: HashMap<Uuid, Node>,
}

impl Public {
    /// The public part of an animation.
    pub fn from_animation(animation: Animation) -> (r: Public)
        ensures
            r.name@ == animation.name@,
            r.parent == animation.parent,
            controls_view(r.controls@) == controls_view(animation.controls@),
            nodes_view(r.nodes@) == nodes_view(animation.nodes@),
    {
        Public {
            name: animation.name,
            parent: animation.parent,
            controls: animation.controls,
            nodes: animation.nodes,
        }
    }

    /// An animation with the public fields, and the default (empty) ACL.
    pub fn into_animation(self) -> (r: Animation)
        ensures
            r@ == (AnimationView {
                name: self.name@,
                parent: self.parent,
                controls: controls_view(self.controls@),
                nodes: nodes_view(self.nodes@),
                acl: Acl::empty_view(),
            }),
    {
        Animation {
            name: self.name,
            parent: self.parent,
            controls: self.controls,
            nodes: self.nodes,
            acl: Acl::default(),
        }
    }
}

} // verus!
