use std::collections::{HashMap, HashSet};
use vstd::prelude::*;

use crate::acl::action::WithAcl;
use crate::acl::{Acl, AclView};
use crate::collections::{clone_ids, clone_set};
use crate::record::{RecordView, Uuid};

pub use crate::animation::v0::unfrozen::{
    clone_keys, keys_view, Key, KeyView, Transition, TransitionView, Value,
};

verus! {

broadcast use vstd::std_specs::hash::group_hash_axioms;

/// An animated quantity: its keys, and their ids in time order.
pub struct Control {
    pub name: String,
    pub locked: bool,
    pub keys: HashMap<Uuid, Key>,
    pub key_ordering: Vec<Uuid>,
}

pub struct ControlView {
    pub name: Seq<char>,
    pub locked: bool,
    pub keys: Map<Uuid, KeyView>,
    pub key_ordering: Seq<Uuid>,
}

impl View for Control {
    type V = ControlView;

    open spec fn view(&self) -> ControlView {
        ControlView {
            name: self.name@,
            locked: self.locked,
            keys: keys_view(self.keys@),
            key_ordering: self.key_ordering@,
        }
    }
}

impl Clone for Control {
    fn clone(&self) -> (r: Self)
        ensures
            r@ == self@,
    {
        Control {
            name: self.name.clone(),
            locked: self.locked,
            keys: clone_keys(&self.keys),
            key_ordering: clone_ids(&self.key_ordering),
        }
    }
}

/// A node that groups other nodes.
pub struct GroupNode {
    pub children_ids: HashSet<Uuid>,
}

/// A node that shows a control.
#[derive(Clone, Copy, PartialEq, Eq, Structural, Debug)]
pub struct ControlNode {
    pub id: Uuid,
}

pub enum NodeKind {
    Group(GroupNode),
    Control(ControlNode),
}

pub enum NodeKindView {
    Group(Set<Uuid>),
    Control(ControlNode),
}

impl View for NodeKind {
    type V = NodeKindView;

    open spec fn view(&self) -> NodeKindView {
        match self {
            NodeKind::Group(g) => NodeKindView::Group(g.children_ids@),
            NodeKind::Control(c) => NodeKindView::Control(*c),
        }
    }
}

impl From<GroupNode> for NodeKind {
    fn from(group: GroupNode) -> (r: NodeKind) {
        NodeKind::Group(group)
    }
}

impl vstd::std_specs::convert::FromSpecImpl<GroupNode> for NodeKind {
    open spec fn obeys_from_spec() -> bool {
        true
    }

    open spec fn from_spec(group: GroupNode) -> NodeKind {
        NodeKind::Group(group)
    }
}

impl From<ControlNode> for NodeKind {
    fn from(control: ControlNode) -> (r: NodeKind) {
        NodeKind::Control(control)
    }
}

impl vstd::std_specs::convert::FromSpecImpl<ControlNode> for NodeKind {
    open spec fn obeys_from_spec() -> bool {
        true
    }

    open spec fn from_spec(control: ControlNode) -> NodeKind {
        NodeKind::Control(control)
    }
}

/// A node of the animation's outline.
pub struct Node {
    pub name: Option<String>,
    pub collapsed: bool,
    pub kind: NodeKind,
}

pub struct NodeView {
    pub name: Option<Seq<char>>,
    pub collapsed: bool,
    pub kind: NodeKindView,
}

pub open spec fn name_view(name: Option<String>) -> Option<Seq<char>> {
    match name {
        Some(n) => Some(n@),
        None => None,
    }
}

impl View for Node {
    type V = NodeView;

    open spec fn view(&self) -> NodeView {
        NodeView { name: name_view(self.name), collapsed: self.collapsed, kind: self.kind@ }
    }
}

pub fn clone_name(name: &Option<String>) -> (r: Option<String>)
    ensures
        name_view(r) == name_view(*name),
{
    match name {
        Some(n) => Some(n.clone()),
        Option::None => Option::None,
    }
}

impl Clone for Node {
    fn clone(&self) -> (r: Self)
        ensures
            r@ == self@,
    {
        let kind = match &self.kind {
            NodeKind::Group(g) => NodeKind::Group(GroupNode { children_ids: clone_set(&g.children_ids) }),
            NodeKind::Control(c) => NodeKind::Control(*c),
        };
        Node { name: clone_name(&self.name), collapsed: self.collapsed, kind }
    }
}

pub struct Animation {
    pub name: String,
    pub parent: Uuid,
    pub controls: HashMap<Uuid, Control>,
    pub nodes: HashMap<Uuid, Node>,
    pub acl: Acl,
}

pub struct AnimationView {
    pub name: Seq<char>,
    pub parent: Uuid,
    pub controls: Map<Uuid, ControlView>,
    pub nodes: Map<Uuid, NodeView>,
    pub acl: AclView,
}

pub open spec fn controls_view(controls: Map<Uuid, Control>) -> Map<Uuid, ControlView> {
    controls.map_values(|c: Control| c@)
}

pub open spec fn nodes_view(nodes: Map<Uuid, Node>) -> Map<Uuid, NodeView> {
    nodes.map_values(|n: Node| n@)
}

impl View for Animation {
    type V = AnimationView;

    open spec fn view(&self) -> AnimationView {
        AnimationView {
            name: self.name@,
            parent: self.parent,
            controls: controls_view(self.controls@),
            nodes: nodes_view(self.nodes@),
            acl: self.acl@,
        }
    }
}

impl Default for Animation {
    /// An animation with no name, no controls and no nodes.
    fn default() -> (r: Self)
        ensures
            r@ == (AnimationView {
                name: Seq::empty(),
                parent: 0,
                controls: Map::empty(),
                nodes: Map::empty(),
                acl: Acl::empty_view(),
            }),
    {
        let r = Animation {
            name: String::new(),
            parent: 0,
            controls: HashMap::new(),
            nodes: HashMap::new(),
            acl: Acl::default(),
        };
        assert(r@.controls =~= Map::<Uuid, ControlView>::empty());
        assert(r@.nodes =~= Map::<Uuid, NodeView>::empty());
        r
    }
}

impl WithAcl for Animation {
    open spec fn acl_of(&self) -> Acl {
        self.acl
    }

    open spec fn with_acl(self, acl: Acl) -> Self {
        Animation { acl, ..self }
    }

    proof fn lemma_with_acl(self, acl: Acl) {
    }

    fn acl(&self) -> (r: &Acl) {
        &self.acl
    }

    fn acl_mut(&mut self) -> (r: &mut Acl) {
        &mut self.acl
    }
}

impl RecordView for Animation {
    open spec fn name_of(&self) -> Option<Seq<char>> {
        Some(self.name@)
    }

    open spec fn parent_of(&self) -> Option<Uuid> {
        Some(self.parent)
    }

    open spec fn acl_view_of(&self) -> Option<Acl> {
        Some(self.acl)
    }

    fn name(&self) -> (r: Option<&str>) {
        Some(self.name.as_str())
    }

    fn parent(&self) -> (r: Option<&Uuid>) {
        Some(&self.parent)
    }

    fn acl(&self) -> (r: Option<&Acl>) {
        Some(&self.acl)
    }
}

} // verus!
