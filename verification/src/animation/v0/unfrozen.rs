use std::collections::{HashMap, HashSet};
use vstd::prelude::*;

use crate::acl::action::WithAcl;
use crate::acl::{Acl, AclView};
use crate::collections::clone_set;
use crate::color::{Color, Rgb};
use crate::float_order::F64Bits;
use crate::ids::new_random_id;
use crate::math::{MultiBezier2, MultiBezier2View};
use crate::record::{Migrate, MigrateError, RecordView, Uuid};

verus! {

broadcast use vstd::std_specs::hash::group_hash_axioms;

#[derive(Clone, Copy, PartialEq, Eq, Structural, Debug)]
pub struct F64 {
    pub value: F64Bits,
}

#[derive(Clone, Copy, PartialEq, Eq, Structural, Debug)]
pub enum Value {
    F64(F64),
}

/// The transition that jumps straight to the next key.
#[derive(Clone, Copy, PartialEq, Eq, Structural, Debug)]
pub struct NoTransition {
    pub _dummy: i32,
}

#[derive(Clone, Copy, PartialEq, Eq, Structural, Debug)]
pub struct Linear {
    pub _dummy: i32,
}

pub struct MultiBezier {
    pub multi_bezier: MultiBezier2,
}

pub enum Transition {
    NoTransition(NoTransition),
    Linear(Linear),
    MultiBezier(MultiBezier),
}

pub enum TransitionView {
    NoTransition(NoTransition),
    Linear(Linear),
    MultiBezier(MultiBezier2View),
}

impl View for Transition {
    type V = TransitionView;

    open spec fn view(&self) -> TransitionView {
        match self {
            Transition::NoTransition(n) => TransitionView::NoTransition(*n),
            Transition::Linear(l) => TransitionView::Linear(*l),
            Transition::MultiBezier(m) => TransitionView::MultiBezier(m.multi_bezier@),
        }
    }
}

impl Clone for Transition {
    fn clone(&self) -> (r: Self)
        ensures
            r@ == self@,
    {
        match self {
            Transition::NoTransition(n) => Transition::NoTransition(*n),
            Transition::Linear(l) => Transition::Linear(*l),
            Transition::MultiBezier(m) => Transition::MultiBezier(
                MultiBezier { multi_bezier: m.multi_bezier.clone() },
            ),
        }
    }
}

pub struct Key {
    /// The time of the key.
    pub at: F64Bits,
    pub value: Value,
    pub transition: Transition,
}

pub struct KeyView {
    pub at: F64Bits,
    pub value: Value,
    pub transition: TransitionView,
}

impl View for Key {
    type V = KeyView;

    open spec fn view(&self) -> KeyView {
        KeyView { at: self.at, value: self.value, transition: self.transition@ }
    }
}

impl Clone for Key {
    fn clone(&self) -> (r: Self)
        ensures
            r@ == self@,
    {
        Key { at: self.at, value: self.value, transition: self.transition.clone() }
    }
}

pub struct Group {
    pub name: String,
    pub locked: bool,
    pub collapsed: bool,
    pub color: Color,
    /// Children nodes (of any type).
    pub children_ids: HashSet<Uuid>,
}

pub struct GroupView {
    pub name: Seq<char>,
    pub locked: bool,
    pub collapsed: bool,
    pub color: Color,
    pub children_ids: Set<Uuid>,
}

impl View for Group {
    type V = GroupView;

    open spec fn view(&self) -> GroupView {
        GroupView {
            name: self.name@,
            locked: self.locked,
            collapsed: self.collapsed,
            color: self.color,
            children_ids: self.children_ids@,
        }
    }
}

pub struct Track {
    pub name: String,
    pub locked: bool,
    pub collapsed: bool,
    pub color: Color,
    pub keys: HashMap<Uuid, Key>,
    /// The key ids, ordered by time.
    pub key_ordering: Vec<Uuid>,
}

pub struct TrackView {
    pub name: Seq<char>,
    pub locked: bool,
    pub collapsed: bool,
    pub color: Color,
    pub keys: Map<Uuid, KeyView>,
    pub key_ordering: Seq<Uuid>,
}

pub open spec fn keys_view(keys: Map<Uuid, Key>) -> Map<Uuid, KeyView> {
    keys.map_values(|k: Key| k@)
}

impl View for Track {
    type V = TrackView;

    open spec fn view(&self) -> TrackView {
        TrackView {
            name: self.name@,
            locked: self.locked,
            collapsed: self.collapsed,
            color: self.color,
            keys: keys_view(self.keys@),
            key_ordering: self.key_ordering@,
        }
    }
}

pub struct IdKey {
    pub id: Uuid,
    pub key: Key,
}

pub enum Node {
    Group(Group),
    Track(Track),
}

pub enum NodeView {
    Group(GroupView),
    Track(TrackView),
}

impl View for Node {
    type V = NodeView;

    open spec fn view(&self) -> NodeView {
        match self {
            Node::Group(g) => NodeView::Group(g@),
            Node::Track(t) => NodeView::Track(t@),
        }
    }
}

pub fn clone_keys(keys: &HashMap<Uuid, Key>) -> (r: HashMap<Uuid, Key>)
    ensures
        keys_view(r@) == keys_view(keys@),
{
    let ids = crate::collections::map_keys(keys);
    let mut r: HashMap<Uuid, Key> = HashMap::new();
    let n = ids.len();
    let mut i: usize = 0;
    while i < n
        invariant
            n == ids@.len(),
            i <= n,
            ids@.to_set() == keys@.dom(),
            ids@.no_duplicates(),
            r@.dom() == ids@.take(i as int).to_set(),
            forall|id: Uuid| #[trigger] r@.contains_key(id) ==> r@[id]@ == keys@[id]@,
        decreases n - i,
    {
        let id = ids[i];
        proof {
            assert(ids@.to_set().contains(id));
        }
        let k = keys.get(&id).unwrap().clone();
        r.insert(id, k);
        i = i + 1;
        proof {
            assert(ids@.take(i as int) =~= ids@.take(i - 1).push(id));
            ids@.take(i - 1).lemma_push_to_set_commute(id);
            assert(r@.dom() =~= ids@.take(i as int).to_set());
        }
    }
    assert(ids@.take(n as int) =~= ids@);
    assert(keys_view(r@) =~= keys_view(keys@));
    r
}

impl Clone for Node {
    fn clone(&self) -> (r: Self)
        ensures
            r@ == self@,
    {
        match self {
            Node::Group(g) => Node::Group(
                Group {
                    name: g.name.clone(),
                    locked: g.locked,
                    collapsed: g.collapsed,
                    color: g.color,
                    children_ids: clone_set(&g.children_ids),
                },
            ),
            Node::Track(t) => {
                let key_ordering = crate::collections::clone_ids(&t.key_ordering);
                Node::Track(
                    Track {
                        name: t.name.clone(),
                        locked: t.locked,
                        collapsed: t.collapsed,
                        color: t.color,
                        keys: clone_keys(&t.keys),
                        key_ordering,
                    },
                )
            },
        }
    }
}

pub struct Animation {
    pub name: String,
    pub parent: Uuid,
    pub root_id: Uuid,
    pub nodes: HashMap<Uuid, Node>,
    pub acl: Acl,
}

pub struct AnimationView {
    pub name: Seq<char>,
    pub parent: Uuid,
    pub root_id: Uuid,
    pub nodes: Map<Uuid, NodeView>,
    pub acl: AclView,
}

pub open spec fn nodes_view(nodes: Map<Uuid, Node>) -> Map<Uuid, NodeView> {
    nodes.map_values(|n: Node| n@)
}

impl View for Animation {
    type V = AnimationView;

    open spec fn view(&self) -> AnimationView {
        AnimationView {
            name: self.name@,
            parent: self.parent,
            root_id: self.root_id,
            nodes: nodes_view(self.nodes@),
            acl: self.acl@,
        }
    }
}

/// The root group of a new animation: named `Root`, red, unlocked,
/// expanded and empty.
pub open spec fn root_group() -> GroupView {
    GroupView {
        name: "Root"@,
        locked: false,
        collapsed: false,
        color: Color::Rgb(
            Rgb { r: 0x3FF0_0000_0000_0000u64, g: 0u64, b: 0u64 },
        ),
        children_ids: Set::empty(),
    }
}

impl Animation {
    /// A new, unnamed animation whose only node is the root group `root_id`.
    pub fn with_root(root_id: Uuid) -> (r: Self)
        ensures
            r@.name == Seq::<char>::empty(),
            r@.parent == 0,
            r@.root_id == root_id,
            r@.nodes == Map::<Uuid, NodeView>::empty().insert(
                root_id,
                NodeView::Group(root_group()),
            ),
            r@.acl.permissions == Map::<Uuid, crate::acl::WithPermissions>::empty(),
            r@.acl.default == crate::acl::WithPermissions::NoPermissions(
                crate::acl::NoPermissions { _dummy: 0 },
            ),
    {
        let mut nodes = HashMap::new();
        nodes.insert(
            root_id,
            Node::Group(
                Group {
                    name: String::from_str("Root"),
                    children_ids: HashSet::new(),
                    collapsed: false,
                    color: Color::Rgb(Rgb { r: 0x3FF0_0000_0000_0000u64, g: 0u64, b: 0u64 }),
                    locked: false,
                },
            ),
        );
        let r = Self {
            name: String::new(),
            parent: 0,
            root_id,
            nodes,
            acl: Acl::default(),
        };
        assert(r@.nodes =~= Map::<Uuid, NodeView>::empty().insert(
            root_id,
            NodeView::Group(root_group()),
        ));
        r
    }
}

impl Default for Animation {
    /// A new animation whose root group gets a random id.
    fn default() -> (r: Self)
        ensures
            r@.name == Seq::<char>::empty(),
            r@.parent == 0,
            r@.nodes == Map::<Uuid, NodeView>::empty().insert(
                r@.root_id,
                NodeView::Group(root_group()),
            ),
            r@.acl.permissions == Map::<Uuid, crate::acl::WithPermissions>::empty(),
            r@.acl.default == crate::acl::WithPermissions::NoPermissions(
                crate::acl::NoPermissions { _dummy: 0 },
            ),
    {
        let root_id = new_random_id();
        Animation::with_root(root_id)
    }
}

impl WithAcl for Animation {
    open spec fn acl_of(&self) -> Acl {
        self.acl
    }

    open spec fn with_acl(self, acl: Acl) -> Self {
        Animation { acl, ..self }
    }

    proof fn lemma_with_acl(self, acl: Acl) {
    }

    fn acl(&self) -> (r: &Acl) {
        &self.acl
    }

    fn acl_mut(&mut self) -> (r: &mut Acl) {
        &mut self.acl
    }
}

impl RecordView for Animation {
    open spec fn name_of(&self) -> Option<Seq<char>> {
        Some(self.name@)
    }

    open spec fn parent_of(&self) -> Option<Uuid> {
        Some(self.parent)
    }

    open spec fn acl_view_of(&self) -> Option<Acl> {
        Some(self.acl)
    }

    fn name(&self) -> (r: Option<&str>) {
        Some(self.name.as_str())
    }

    fn parent(&self) -> (r: Option<&Uuid>) {
        Some(&self.parent)
    }

    fn acl(&self) -> (r: Option<&Acl>) {
        Some(&self.acl)
    }
}

impl Migrate for Animation {
    /// No older schema version can be brought forward.
    fn migrate(from_version: i16, from: &[u8]) -> (r: Result<Self, MigrateError>)
        ensures
            r == Err::<Self, MigrateError>(MigrateError::NotImplemented { from_version }),
    {
        Err(MigrateError::NotImplemented { from_version })
    }
}

} // verus!
