use std::collections::HashMap;
use vstd::prelude::*;

use super::unfrozen::{
    keys_view, nodes_view, Animation, AnimationView, Group, GroupView, Key, KeyView, Node,
    NodeView, Track, TrackView, Transition, TransitionView, Value,
};
use crate::acl::action::{
    acl_transition, apply_action as acl_apply_action, Action as AclAction,
    ActionError as AclActionError,
};
use crate::acl::AclView;
use crate::collections::{map_keys, other_than};
use crate::color::Color;
use crate::float_order::{
    lemma_sort_short,
    is_nan, is_nan_bits, order_key, order_key_of, sort_by_key, stable_sort_ids, F64Bits,
};
use crate::record::{Apply, Uuid};

verus! {

broadcast use vstd::std_specs::hash::group_hash_axioms;

// ---------------------------------------------------------------------------
// Views of node maps

pub proof fn lemma_nodes_view_insert(m: Map<Uuid, Node>, k: Uuid, n: Node)
    ensures
        nodes_view(m.insert(k, n)) == nodes_view(m).insert(k, n@),
{
    assert(nodes_view(m.insert(k, n)) =~= nodes_view(m).insert(k, n@));
}

pub proof fn lemma_nodes_view_remove(m: Map<Uuid, Node>, k: Uuid)
    ensures
        nodes_view(m.remove(k)) == nodes_view(m).remove(k),
{
    assert(nodes_view(m.remove(k)) =~= nodes_view(m).remove(k));
}

pub proof fn lemma_keys_view_insert(m: Map<Uuid, Key>, k: Uuid, n: Key)
    ensures
        keys_view(m.insert(k, n)) == keys_view(m).insert(k, n@),
{
    assert(keys_view(m.insert(k, n)) =~= keys_view(m).insert(k, n@));
}

pub proof fn lemma_keys_view_remove(m: Map<Uuid, Key>, k: Uuid)
    ensures
        keys_view(m.remove(k)) == keys_view(m).remove(k),
{
    assert(keys_view(m.remove(k)) =~= keys_view(m).remove(k));
}

// ---------------------------------------------------------------------------
// Mathematical description of the actions

/// A node with `id` taken out of its children, if it is a group.
pub open spec fn without_child(n: NodeView, id: Uuid) -> NodeView {
    match n {
        NodeView::Group(g) => NodeView::Group(
            GroupView { children_ids: g.children_ids.remove(id), ..g },
        ),
        NodeView::Track(t) => NodeView::Track(t),
    }
}

/// Every group with `id` taken out of its children.
pub open spec fn without_child_everywhere(nodes: Map<Uuid, NodeView>, id: Uuid) -> Map<
    Uuid,
    NodeView,
> {
    nodes.map_values(|n: NodeView| without_child(n, id))
}

/// How keys are ordered: by the time of each key.
pub open spec fn key_time(keys: Map<Uuid, KeyView>) -> spec_fn(Uuid) -> int {
    |id: Uuid| order_key(keys[id].at)
}

/// The ordering can be sorted by time: it has at most one id, so nothing
/// is compared, or every id of it names a key whose time is a number.
pub open spec fn sortable(keys: Map<Uuid, KeyView>, ordering: Seq<Uuid>) -> bool {
    ordering.len() <= 1 || forall|i: int|
        0 <= i < ordering.len() ==> keys.contains_key(#[trigger] ordering[i]) && !is_nan(
            keys[ordering[i]].at,
        )
}

/// A track with its keys replaced and its ordering sorted by the new times.
pub open spec fn with_keys_sorted(t: TrackView, keys: Map<Uuid, KeyView>, ordering: Seq<Uuid>) -> TrackView {
    TrackView { keys, key_ordering: sort_by_key(ordering, key_time(keys)), ..t }
}

pub open spec fn with_nodes(v: AnimationView, nodes: Map<Uuid, NodeView>) -> AnimationView {
    AnimationView { nodes, ..v }
}

pub struct AddNode {
    pub parent_id: Uuid,
    pub id: Uuid,
    pub node: Node,
}

#[derive(Clone, Copy, PartialEq, Eq, Structural, Debug)]
pub enum AddNodeError {
    /// Node already exists.
    NodeExists,
    /// Parent node does not exist.
    ParentNodeDoesNotExist,
    /// Parent node is not a group.
    ParentNodeIsNotGroup,
}

/// Adding a node as a child of a group.
pub open spec fn add_node(v: AnimationView, a: AddNode) -> (AnimationView, Result<(), AddNodeError>) {
    if v.nodes.contains_key(a.id) {
        (v, Err(AddNodeError::NodeExists))
    } else if !v.nodes.contains_key(a.parent_id) {
        (v, Err(AddNodeError::ParentNodeDoesNotExist))
    } else {
        match v.nodes[a.parent_id] {
            NodeView::Group(g) => (
                with_nodes(
                    v,
                    v.nodes.insert(
                        a.parent_id,
                        NodeView::Group(
                            GroupView { children_ids: g.children_ids.insert(a.id), ..g },
                        ),
                    ).insert(a.id, a.node@),
                ),
                Ok(()),
            ),
            NodeView::Track(_) => (v, Err(AddNodeError::ParentNodeIsNotGroup)),
        }
    }
}

pub struct RemoveNode {
    pub id: Uuid,
}

#[derive(Clone, Copy, PartialEq, Eq, Structural, Debug)]
pub enum RemoveNodeError {
    /// Node does not exist.
    NodeDoesNotExist,
}

/// Removing a node, and its id from every group's children.
pub open spec fn remove_node(v: AnimationView, a: RemoveNode) -> (AnimationView, Result<(), RemoveNodeError>) {
    if v.nodes.contains_key(a.id) {
        (with_nodes(v, without_child_everywhere(v.nodes.remove(a.id), a.id)), Ok(()))
    } else {
        (v, Err(RemoveNodeError::NodeDoesNotExist))
    }
}

pub struct AddKey {
    pub node_id: Uuid,
    pub key_id: Uuid,
    pub key: Key,
}

#[derive(Clone, Copy, PartialEq, Eq, Structural, Debug)]
pub enum AddKeyError {
    /// Node does not exist.
    NodeDoesNotExist,
    /// Key already exists.
    KeyExists,
    /// Node is not a track.
    NodeIsNotTrack,
}

/// Adding a key to a track; the key ordering is sorted again by time.
pub open spec fn add_key(v: AnimationView, a: AddKey) -> (AnimationView, Result<(), AddKeyError>) {
    if !v.nodes.contains_key(a.node_id) {
        (v, Err(AddKeyError::NodeDoesNotExist))
    } else {
        match v.nodes[a.node_id] {
            NodeView::Track(t) => if t.keys.contains_key(a.key_id) {
                (v, Err(AddKeyError::KeyExists))
            } else {
                let keys = t.keys.insert(a.key_id, a.key@);
                (
                    with_nodes(
                        v,
                        v.nodes.insert(
                            a.node_id,
                            NodeView::Track(
                                with_keys_sorted(t, keys, t.key_ordering.push(a.key_id)),
                            ),
                        ),
                    ),
                    Ok(()),
                )
            },
            NodeView::Group(_) => (v, Err(AddKeyError::NodeIsNotTrack)),
        }
    }
}

/// Adding the key leaves an ordering that can be sorted.
pub open spec fn add_key_applicable(v: AnimationView, a: AddKey) -> bool {
    v.nodes.contains_key(a.node_id) ==> match v.nodes[a.node_id] {
        NodeView::Track(t) => !t.keys.contains_key(a.key_id) ==> sortable(
            t.keys.insert(a.key_id, a.key@),
            t.key_ordering.push(a.key_id),
        ),
        NodeView::Group(_) => true,
    }
}

pub struct RemoveKey {
    pub node_id: Uuid,
    pub key_id: Uuid,
}

#[derive(Clone, Copy, PartialEq, Eq, Structural, Debug)]
pub enum RemoveKeyError {
    /// Node does not exist.
    NodeDoesNotExist,
    /// Key does not exist.
    KeyDoesNotExist,
    /// Node is not a track.
    NodeIsNotTrack,
}

/// A track without the key `key_id`, in its keys or its ordering.
pub open spec fn track_without_key(t: TrackView, key_id: Uuid) -> TrackView {
    TrackView {
        keys: t.keys.remove(key_id),
        key_ordering: t.key_ordering.filter(other_than(key_id)),
        ..t
    }
}

/// Removing a key from a track.
pub open spec fn remove_key(v: AnimationView, a: RemoveKey) -> (AnimationView, Result<(), RemoveKeyError>) {
    if !v.nodes.contains_key(a.node_id) {
        (v, Err(RemoveKeyError::NodeDoesNotExist))
    } else {
        match v.nodes[a.node_id] {
            NodeView::Track(t) => if !t.keys.contains_key(a.key_id) {
                (v, Err(RemoveKeyError::KeyDoesNotExist))
            } else {
                (
                    with_nodes(
                        v,
                        v.nodes.insert(a.node_id, NodeView::Track(track_without_key(t, a.key_id))),
                    ),
                    Ok(()),
                )
            },
            NodeView::Group(_) => (v, Err(RemoveKeyError::NodeIsNotTrack)),
        }
    }
}

// ---------------------------------------------------------------------------
// Executable helpers

/// Sorts the ordering of a track by the times of its keys (stably).
fn sort_track(t: &mut Track)
    requires
        sortable(old(t)@.keys, old(t)@.key_ordering),
    ensures
        final(t)@ == with_keys_sorted(old(t)@, old(t)@.keys, old(t)@.key_ordering),
{
    let ghost k = key_time(t@.keys);
    let n = t.key_ordering.len();
    if n <= 1 {
        proof {
            lemma_sort_short(t@.key_ordering, k);
        }
        return;
    }
    let mut times: Vec<i128> = Vec::new();
    let mut i: usize = 0;
    while i < n
        invariant
            n == t.key_ordering@.len(),
            n > 1,
            i <= n,
            times@.len() == i,
            k == key_time(t@.keys),
            sortable(t@.keys, t@.key_ordering),
            forall|j: int| 0 <= j < i ==> times@[j] == k(#[trigger] t.key_ordering@[j]),
        decreases n - i,
    {
        let id = t.key_ordering[i];
        proof {
            assert(t@.keys.contains_key(t@.key_ordering[i as int]));
        }
        let key = t.keys.get(&id).unwrap();
        times.push(order_key_of(key.at));
        i = i + 1;
    }
    let sorted = stable_sort_ids(&t.key_ordering, &times, Ghost(k));
    t.key_ordering = sorted;
}

/// Takes `id` out of the children of every group.
fn remove_child_everywhere(nodes: &mut HashMap<Uuid, Node>, id: Uuid)
    ensures
        nodes_view(final(nodes)@) == without_child_everywhere(nodes_view(old(nodes)@), id),
{
    let ghost old_nodes = nodes@;
    let ids = map_keys(nodes);
    let n = ids.len();
    let mut i: usize = 0;
    while i < n
        invariant
            n == ids@.len(),
            i <= n,
            ids@.to_set() == old_nodes.dom(),
            ids@.no_duplicates(),
            nodes@.dom() == old_nodes.dom(),
            forall|j: int| 0 <= j < i ==> #[trigger] nodes@[ids@[j]]@ == without_child(
                old_nodes[ids@[j]]@,
                id,
            ),
            forall|k: Uuid|
                #[trigger] nodes@.contains_key(k) && !ids@.take(i as int).contains(k)
                    ==> nodes@[k] == old_nodes[k],
        decreases n - i,
    {
        let k = ids[i];
        proof {
            assert(ids@.to_set().contains(k));
            assert(!ids@.take(i as int).contains(k));
        }
        let node = nodes.remove(&k).unwrap();
        let node = match node {
            Node::Group(mut g) => {
                g.children_ids.remove(&id);
                Node::Group(g)
            },
            Node::Track(t) => Node::Track(t),
        };
        nodes.insert(k, node);
        proof {
            assert forall|k2: Uuid|
                #[trigger] nodes@.contains_key(k2) && !ids@.take(i + 1).contains(k2)
                    implies nodes@[k2] == old_nodes[k2] by {
                assert(ids@.take(i + 1) =~= ids@.take(i as int).push(k));
                assert(ids@.take(i + 1)[i as int] == k);
                assert(k2 != k);
            }
            assert forall|j: int| 0 <= j < i + 1 implies #[trigger] nodes@[ids@[j]]@
                == without_child(old_nodes[ids@[j]]@, id) by {
                if j < i {
                    assert(ids@[j] != k);
                }
            }
        }
        i = i + 1;
    }
    proof {
        assert forall|k: Uuid| #[trigger] nodes@.contains_key(k) implies nodes@[k]@
            == without_child(old_nodes[k]@, id) by {
            assert(ids@.to_set().contains(k));
            let j = choose|j: int| 0 <= j < ids@.len() && ids@[j] == k;
            assert(nodes@[ids@[j]]@ == without_child(old_nodes[ids@[j]]@, id));
        }
        assert(nodes_view(nodes@) =~= without_child_everywhere(nodes_view(old_nodes), id));
    }
}

impl Apply<AddNode> for Animation {
    type Error = AddNodeError;

    open spec fn name_mutating(action: AddNode) -> bool {
        false
    }

    open spec fn parent_mutating(action: AddNode) -> bool {
        false
    }

    open spec fn applicable(record: Animation, action: AddNode) -> bool {
        true
    }

    open spec fn applied(pre: Animation, action: AddNode, post: Animation, r: Result<(), AddNodeError>) -> bool {
        (post@, r) == add_node(pre@, action)
    }

    fn mutates_name(_action: &AddNode) -> (r: bool) {
        false
    }

    fn mutates_parent(_action: &AddNode) -> (r: bool) {
        false
    }

    fn apply(&mut self, action: &AddNode) -> (r: Result<(), AddNodeError>) {
        if self.nodes.contains_key(&action.id) {
            return Err(AddNodeError::NodeExists);
        }
        let ghost old_nodes = self.nodes@;
        match self.nodes.remove(&action.parent_id) {
            Option::None => {
                assert(self.nodes@ =~= old_nodes);
                Err(AddNodeError::ParentNodeDoesNotExist)
            },
            Some(Node::Group(mut g)) => {
                g.children_ids.insert(action.id);
                self.nodes.insert(action.parent_id, Node::Group(g));
                let node = action.node.clone();
                self.nodes.insert(action.id, node);
                proof {
                    lemma_nodes_view_insert(old_nodes.remove(action.parent_id).insert(action.parent_id, Node::Group(g)), action.id, node);
                    lemma_nodes_view_insert(old_nodes.remove(action.parent_id), action.parent_id, Node::Group(g));
                    lemma_nodes_view_remove(old_nodes, action.parent_id);
                    assert(nodes_view(old_nodes).remove(action.parent_id).insert(
                        action.parent_id,
                        Node::Group(g)@,
                    ) =~= nodes_view(old_nodes).insert(action.parent_id, Node::Group(g)@));
                }
                Ok(())
            },
            Some(Node::Track(t)) => {
                self.nodes.insert(action.parent_id, Node::Track(t));
                assert(self.nodes@ =~= old_nodes);
                Err(AddNodeError::ParentNodeIsNotGroup)
            },
        }
    }
}

impl Apply<RemoveNode> for Animation {
    type Error = RemoveNodeError;

    open spec fn name_mutating(action: RemoveNode) -> bool {
        false
    }

    open spec fn parent_mutating(action: RemoveNode) -> bool {
        false
    }

    open spec fn applicable(record: Animation, action: RemoveNode) -> bool {
        true
    }

    open spec fn applied(pre: Animation, action: RemoveNode, post: Animation, r: Result<(), RemoveNodeError>) -> bool {
        (post@, r) == remove_node(pre@, action)
    }

    fn mutates_name(_action: &RemoveNode) -> (r: bool) {
        false
    }

    fn mutates_parent(_action: &RemoveNode) -> (r: bool) {
        false
    }

    fn apply(&mut self, action: &RemoveNode) -> (r: Result<(), RemoveNodeError>) {
        let ghost old_nodes = self.nodes@;
        match self.nodes.remove(&action.id) {
            Option::None => {
                assert(self.nodes@ =~= old_nodes);
                return Err(RemoveNodeError::NodeDoesNotExist);
            },
            Some(_) => {},
        }
        proof {
            lemma_nodes_view_remove(old_nodes, action.id);
        }
        remove_child_everywhere(&mut self.nodes, action.id);
        Ok(())
    }
}

/// A track with a new key added and its ordering sorted again.
fn track_add_key(t: &mut Track, key_id: Uuid, key: Key)
    requires
        sortable(old(t)@.keys.insert(key_id, key@), old(t)@.key_ordering.push(key_id)),
    ensures
        final(t)@ == with_keys_sorted(
            old(t)@,
            old(t)@.keys.insert(key_id, key@),
            old(t)@.key_ordering.push(key_id),
        ),
{
    proof {
        lemma_keys_view_insert(t.keys@, key_id, key);
    }
    t.keys.insert(key_id, key);
    t.key_ordering.push(key_id);
    sort_track(t);
}

impl Apply<AddKey> for Animation {
    type Error = AddKeyError;

    open spec fn name_mutating(action: AddKey) -> bool {
        false
    }

    open spec fn parent_mutating(action: AddKey) -> bool {
        false
    }

    open spec fn applicable(record: Animation, action: AddKey) -> bool {
        add_key_applicable(record@, action)
    }

    open spec fn applied(pre: Animation, action: AddKey, post: Animation, r: Result<(), AddKeyError>) -> bool {
        (post@, r) == add_key(pre@, action)
    }

    fn mutates_name(_action: &AddKey) -> (r: bool) {
        false
    }

    fn mutates_parent(_action: &AddKey) -> (r: bool) {
        false
    }

    fn apply(&mut self, action: &AddKey) -> (r: Result<(), AddKeyError>) {
        let ghost old_nodes = self.nodes@;
        match self.nodes.remove(&action.node_id) {
            Option::None => {
                assert(self.nodes@ =~= old_nodes);
                Err(AddKeyError::NodeDoesNotExist)
            },
            Some(Node::Track(mut t)) => {
                if t.keys.contains_key(&action.key_id) {
                    self.nodes.insert(action.node_id, Node::Track(t));
                    assert(self.nodes@ =~= old_nodes);
                    return Err(AddKeyError::KeyExists);
                }
                let key = action.key.clone();
                track_add_key(&mut t, action.key_id, key);
                self.nodes.insert(action.node_id, Node::Track(t));
                proof {
                    lemma_nodes_view_insert(old_nodes.remove(action.node_id), action.node_id, Node::Track(t));
                    lemma_nodes_view_remove(old_nodes, action.node_id);
                    assert(nodes_view(old_nodes).remove(action.node_id).insert(
                        action.node_id,
                        Node::Track(t)@,
                    ) =~= nodes_view(old_nodes).insert(action.node_id, Node::Track(t)@));
                }
                Ok(())
            },
            Some(Node::Group(g)) => {
                self.nodes.insert(action.node_id, Node::Group(g));
                assert(self.nodes@ =~= old_nodes);
                Err(AddKeyError::NodeIsNotTrack)
            },
        }
    }
}

/// Removes `key_id` from the ordering.
fn remove_from_ordering(ordering: &mut Vec<Uuid>, key_id: Uuid)
    ensures
        final(ordering)@ == old(ordering)@.filter(other_than(key_id)),
{
    let ghost old_ordering = ordering@;
    let mut kept: Vec<Uuid> = Vec::new();
    let n = ordering.len();
    let mut i: usize = 0;
    while i < n
        invariant
            n == ordering@.len(),
            ordering@ == old_ordering,
            i <= n,
            kept@ == old_ordering.take(i as int).filter(other_than(key_id)),
        decreases n - i,
    {
        let k = ordering[i];
        proof {
            assert(old_ordering.take(i + 1).drop_last() =~= old_ordering.take(i as int));
            assert(old_ordering.take(i + 1).last() == k);
            reveal_with_fuel(Seq::<_>::filter, 1);
        }
        if k != key_id {
            kept.push(k);
        }
        i = i + 1;
    }
    assert(old_ordering.take(n as int) =~= old_ordering);
    *ordering = kept;
}

fn track_remove_key(t: &mut Track, key_id: Uuid)
    ensures
        final(t)@ == track_without_key(old(t)@, key_id),
{
    proof {
        lemma_keys_view_remove(t.keys@, key_id);
    }
    t.keys.remove(&key_id);
    remove_from_ordering(&mut t.key_ordering, key_id);
}

impl Apply<RemoveKey> for Animation {
    type Error = RemoveKeyError;

    open spec fn name_mutating(action: RemoveKey) -> bool {
        false
    }

    open spec fn parent_mutating(action: RemoveKey) -> bool {
        false
    }

    open spec fn applicable(record: Animation, action: RemoveKey) -> bool {
        true
    }

    open spec fn applied(pre: Animation, action: RemoveKey, post: Animation, r: Result<(), RemoveKeyError>) -> bool {
        (post@, r) == remove_key(pre@, action)
    }

    fn mutates_name(_action: &RemoveKey) -> (r: bool) {
        false
    }

    fn mutates_parent(_action: &RemoveKey) -> (r: bool) {
        false
    }

    fn apply(&mut self, action: &RemoveKey) -> (r: Result<(), RemoveKeyError>) {
        let ghost old_nodes = self.nodes@;
        match self.nodes.remove(&action.node_id) {
            Option::None => {
                assert(self.nodes@ =~= old_nodes);
                Err(RemoveKeyError::NodeDoesNotExist)
            },
            Some(Node::Track(mut t)) => {
                if !t.keys.contains_key(&action.key_id) {
                    self.nodes.insert(action.node_id, Node::Track(t));
                    assert(self.nodes@ =~= old_nodes);
                    return Err(RemoveKeyError::KeyDoesNotExist);
                }
                track_remove_key(&mut t, action.key_id);
                self.nodes.insert(action.node_id, Node::Track(t));
                proof {
                    lemma_nodes_view_insert(old_nodes.remove(action.node_id), action.node_id, Node::Track(t));
                    lemma_nodes_view_remove(old_nodes, action.node_id);
                    assert(nodes_view(old_nodes).remove(action.node_id).insert(
                        action.node_id,
                        Node::Track(t)@,
                    ) =~= nodes_view(old_nodes).insert(action.node_id, Node::Track(t)@));
                }
                Ok(())
            },
            Some(Node::Group(g)) => {
                self.nodes.insert(action.node_id, Node::Group(g));
                assert(self.nodes@ =~= old_nodes);
                Err(RemoveKeyError::NodeIsNotTrack)
            },
        }
    }
}

// ---------------------------------------------------------------------------
// Node attributes

/// A node with a new name.
pub open spec fn node_renamed(n: NodeView, name: Seq<char>) -> NodeView {
    match n {
        NodeView::Group(g) => NodeView::Group(GroupView { name, ..g }),
        NodeView::Track(t) => NodeView::Track(TrackView { name, ..t }),
    }
}

pub open spec fn node_recolored(n: NodeView, color: Color) -> NodeView {
    match n {
        NodeView::Group(g) => NodeView::Group(GroupView { color, ..g }),
        NodeView::Track(t) => NodeView::Track(TrackView { color, ..t }),
    }
}

pub open spec fn node_locked(n: NodeView, locked: bool) -> NodeView {
    match n {
        NodeView::Group(g) => NodeView::Group(GroupView { locked, ..g }),
        NodeView::Track(t) => NodeView::Track(TrackView { locked, ..t }),
    }
}

pub open spec fn node_collapsed(n: NodeView, collapsed: bool) -> NodeView {
    match n {
        NodeView::Group(g) => NodeView::Group(GroupView { collapsed, ..g }),
        NodeView::Track(t) => NodeView::Track(TrackView { collapsed, ..t }),
    }
}

/// Changing a node that exists, or the error that it does not.
pub open spec fn update_node<E>(v: AnimationView, id: Uuid, n: NodeView, e: E) -> (AnimationView, Result<(), E>) {
    if v.nodes.contains_key(id) {
        (with_nodes(v, v.nodes.insert(id, n)), Ok(()))
    } else {
        (v, Err(e))
    }
}

pub struct SetNodeName {
    pub id: Uuid,
    pub name: String,
}

#[derive(Clone, Copy, PartialEq, Eq, Structural, Debug)]
pub enum SetNodeNameError {
    /// Node does not exist.
    NodeDoesNotExist,
}

pub open spec fn set_node_name(v: AnimationView, a: SetNodeName) -> (AnimationView, Result<(), SetNodeNameError>) {
    update_node(v, a.id, node_renamed(v.nodes[a.id], a.name@), SetNodeNameError::NodeDoesNotExist)
}

pub struct SetNodeColor {
    pub id: Uuid,
    pub color: Color,
}

#[derive(Clone, Copy, PartialEq, Eq, Structural, Debug)]
pub enum SetNodeColorError {
    /// Node does not exist.
    NodeDoesNotExist,
}

pub open spec fn set_node_color(v: AnimationView, a: SetNodeColor) -> (AnimationView, Result<(), SetNodeColorError>) {
    update_node(v, a.id, node_recolored(v.nodes[a.id], a.color), SetNodeColorError::NodeDoesNotExist)
}

pub struct SetNodeLocked {
    pub id: Uuid,
    pub locked: bool,
}

#[derive(Clone, Copy, PartialEq, Eq, Structural, Debug)]
pub enum SetNodeLockedError {
    /// Node does not exist.
    NodeDoesNotExist,
}

pub open spec fn set_node_locked(v: AnimationView, a: SetNodeLocked) -> (AnimationView, Result<(), SetNodeLockedError>) {
    update_node(v, a.id, node_locked(v.nodes[a.id], a.locked), SetNodeLockedError::NodeDoesNotExist)
}

pub struct SetNodeCollapsed {
    pub id: Uuid,
    pub collapsed: bool,
}

#[derive(Clone, Copy, PartialEq, Eq, Structural, Debug)]
pub enum SetNodeCollapsedError {
    /// Node does not exist.
    NodeDoesNotExist,
}

pub open spec fn set_node_collapsed(v: AnimationView, a: SetNodeCollapsed) -> (AnimationView, Result<(), SetNodeCollapsedError>) {
    update_node(
        v,
        a.id,
        node_collapsed(v.nodes[a.id], a.collapsed),
        SetNodeCollapsedError::NodeDoesNotExist,
    )
}

/// What a node attribute setter changes.
pub enum NodeChange {
    Name(String),
    Color(Color),
    Locked(bool),
    Collapsed(bool),
}

pub open spec fn node_changed(n: NodeView, c: NodeChange) -> NodeView {
    match c {
        NodeChange::Name(name) => node_renamed(n, name@),
        NodeChange::Color(color) => node_recolored(n, color),
        NodeChange::Locked(locked) => node_locked(n, locked),
        NodeChange::Collapsed(collapsed) => node_collapsed(n, collapsed),
    }
}

/// Changes one attribute of node `id`; `false` if there is no such node.
fn change_node(v: &mut Animation, id: Uuid, c: NodeChange) -> (found: bool)
    ensures
        found == old(v)@.nodes.contains_key(id),
        found ==> final(v)@ == with_nodes(
            old(v)@,
            old(v)@.nodes.insert(id, node_changed(old(v)@.nodes[id], c)),
        ),
        !found ==> final(v)@ == old(v)@,
{
    let ghost old_nodes = v.nodes@;
    match v.nodes.remove(&id) {
        Option::None => {
            assert(v.nodes@ =~= old_nodes);
            false
        },
        Some(node) => {
            let node = match node {
                Node::Group(mut g) => {
                    match c {
                        NodeChange::Name(name) => g.name = name,
                        NodeChange::Color(color) => g.color = color,
                        NodeChange::Locked(locked) => g.locked = locked,
                        NodeChange::Collapsed(collapsed) => g.collapsed = collapsed,
                    }
                    Node::Group(g)
                },
                Node::Track(mut t) => {
                    match c {
                        NodeChange::Name(name) => t.name = name,
                        NodeChange::Color(color) => t.color = color,
                        NodeChange::Locked(locked) => t.locked = locked,
                        NodeChange::Collapsed(collapsed) => t.collapsed = collapsed,
                    }
                    Node::Track(t)
                },
            };
            v.nodes.insert(id, node);
            proof {
                lemma_nodes_view_insert(old_nodes.remove(id), id, node);
                lemma_nodes_view_remove(old_nodes, id);
                assert(nodes_view(old_nodes).remove(id).insert(id, node@) =~= nodes_view(
                    old_nodes,
                ).insert(id, node@));
            }
            true
        },
    }
}

impl Apply<SetNodeName> for Animation {
    type Error = SetNodeNameError;

    open spec fn name_mutating(action: SetNodeName) -> bool {
        false
    }

    open spec fn parent_mutating(action: SetNodeName) -> bool {
        false
    }

    open spec fn applicable(record: Animation, action: SetNodeName) -> bool {
        true
    }

    open spec fn applied(pre: Animation, action: SetNodeName, post: Animation, r: Result<(), SetNodeNameError>) -> bool {
        (post@, r) == set_node_name(pre@, action)
    }

    fn mutates_name(_action: &SetNodeName) -> (r: bool) {
        false
    }

    fn mutates_parent(_action: &SetNodeName) -> (r: bool) {
        false
    }

    fn apply(&mut self, action: &SetNodeName) -> (r: Result<(), SetNodeNameError>) {
        if change_node(self, action.id, NodeChange::Name(action.name.clone())) {
            Ok(())
        } else {
            Err(SetNodeNameError::NodeDoesNotExist)
        }
    }
}

impl Apply<SetNodeColor> for Animation {
    type Error = SetNodeColorError;

    open spec fn name_mutating(action: SetNodeColor) -> bool {
        false
    }

    open spec fn parent_mutating(action: SetNodeColor) -> bool {
        false
    }

    open spec fn applicable(record: Animation, action: SetNodeColor) -> bool {
        true
    }

    open spec fn applied(pre: Animation, action: SetNodeColor, post: Animation, r: Result<(), SetNodeColorError>) -> bool {
        (post@, r) == set_node_color(pre@, action)
    }

    fn mutates_name(_action: &SetNodeColor) -> (r: bool) {
        false
    }

    fn mutates_parent(_action: &SetNodeColor) -> (r: bool) {
        false
    }

    fn apply(&mut self, action: &SetNodeColor) -> (r: Result<(), SetNodeColorError>) {
        if change_node(self, action.id, NodeChange::Color(action.color)) {
            Ok(())
        } else {
            Err(SetNodeColorError::NodeDoesNotExist)
        }
    }
}

impl Apply<SetNodeLocked> for Animation {
    type Error = SetNodeLockedError;

    open spec fn name_mutating(action: SetNodeLocked) -> bool {
        false
    }

    open spec fn parent_mutating(action: SetNodeLocked) -> bool {
        false
    }

    open spec fn applicable(record: Animation, action: SetNodeLocked) -> bool {
        true
    }

    open spec fn applied(pre: Animation, action: SetNodeLocked, post: Animation, r: Result<(), SetNodeLockedError>) -> bool {
        (post@, r) == set_node_locked(pre@, action)
    }

    fn mutates_name(_action: &SetNodeLocked) -> (r: bool) {
        false
    }

    fn mutates_parent(_action: &SetNodeLocked) -> (r: bool) {
        false
    }

    fn apply(&mut self, action: &SetNodeLocked) -> (r: Result<(), SetNodeLockedError>) {
        if change_node(self, action.id, NodeChange::Locked(action.locked)) {
            Ok(())
        } else {
            Err(SetNodeLockedError::NodeDoesNotExist)
        }
    }
}

impl Apply<SetNodeCollapsed> for Animation {
    type Error = SetNodeCollapsedError;

    open spec fn name_mutating(action: SetNodeCollapsed) -> bool {
        false
    }

    open spec fn parent_mutating(action: SetNodeCollapsed) -> bool {
        false
    }

    open spec fn applicable(record: Animation, action: SetNodeCollapsed) -> bool {
        true
    }

    open spec fn applied(pre: Animation, action: SetNodeCollapsed, post: Animation, r: Result<(), SetNodeCollapsedError>) -> bool {
        (post@, r) == set_node_collapsed(pre@, action)
    }

    fn mutates_name(_action: &SetNodeCollapsed) -> (r: bool) {
        false
    }

    fn mutates_parent(_action: &SetNodeCollapsed) -> (r: bool) {
        false
    }

    fn apply(&mut self, action: &SetNodeCollapsed) -> (r: Result<(), SetNodeCollapsedError>) {
        if change_node(self, action.id, NodeChange::Collapsed(action.collapsed)) {
            Ok(())
        } else {
            Err(SetNodeCollapsedError::NodeDoesNotExist)
        }
    }
}

pub struct SetNodeParent {
    pub id: Uuid,
    pub parent_id: Uuid,
}

#[derive(Clone, Copy, PartialEq, Eq, Structural, Debug)]
pub enum SetNodeParentError {
    /// Node does not exist.
    NodeDoesNotExist,
    /// Parent node does not exist.
    ParentNodeDoesNotExist,
    /// Parent node is not a group.
    ParentNodeIsNotGroup,
}

/// Moving a node under another group: the node is first taken out of every
/// group, then added to the new parent. A missing or non-group parent is
/// reported after the node has been taken out of its old groups.
pub open spec fn set_node_parent(v: AnimationView, a: SetNodeParent) -> (AnimationView, Result<(), SetNodeParentError>) {
    if !v.nodes.contains_key(a.id) {
        (v, Err(SetNodeParentError::NodeDoesNotExist))
    } else {
        let stripped = without_child_everywhere(v.nodes, a.id);
        if !stripped.contains_key(a.parent_id) {
            (with_nodes(v, stripped), Err(SetNodeParentError::ParentNodeDoesNotExist))
        } else {
            match stripped[a.parent_id] {
                NodeView::Group(g) => (
                    with_nodes(
                        v,
                        stripped.insert(
                            a.parent_id,
                            NodeView::Group(
                                GroupView { children_ids: g.children_ids.insert(a.id), ..g },
                            ),
                        ),
                    ),
                    Ok(()),
                ),
                NodeView::Track(_) => (
                    with_nodes(v, stripped),
                    Err(SetNodeParentError::ParentNodeIsNotGroup),
                ),
            }
        }
    }
}

impl Apply<SetNodeParent> for Animation {
    type Error = SetNodeParentError;

    open spec fn name_mutating(action: SetNodeParent) -> bool {
        false
    }

    open spec fn parent_mutating(action: SetNodeParent) -> bool {
        false
    }

    open spec fn applicable(record: Animation, action: SetNodeParent) -> bool {
        true
    }

    open spec fn applied(pre: Animation, action: SetNodeParent, post: Animation, r: Result<(), SetNodeParentError>) -> bool {
        (post@, r) == set_node_parent(pre@, action)
    }

    fn mutates_name(_action: &SetNodeParent) -> (r: bool) {
        false
    }

    fn mutates_parent(_action: &SetNodeParent) -> (r: bool) {
        false
    }

    fn apply(&mut self, action: &SetNodeParent) -> (r: Result<(), SetNodeParentError>) {
        if !self.nodes.contains_key(&action.id) {
            return Err(SetNodeParentError::NodeDoesNotExist);
        }
        remove_child_everywhere(&mut self.nodes, action.id);
        let ghost stripped = self.nodes@;
        match self.nodes.remove(&action.parent_id) {
            Option::None => {
                assert(self.nodes@ =~= stripped);
                Err(SetNodeParentError::ParentNodeDoesNotExist)
            },
            Some(Node::Group(mut g)) => {
                g.children_ids.insert(action.id);
                self.nodes.insert(action.parent_id, Node::Group(g));
                proof {
                    lemma_nodes_view_insert(stripped.remove(action.parent_id), action.parent_id, Node::Group(g));
                    lemma_nodes_view_remove(stripped, action.parent_id);
                    assert(nodes_view(stripped).remove(action.parent_id).insert(
                        action.parent_id,
                        Node::Group(g)@,
                    ) =~= nodes_view(stripped).insert(action.parent_id, Node::Group(g)@));
                }
                Ok(())
            },
            Some(Node::Track(t)) => {
                self.nodes.insert(action.parent_id, Node::Track(t));
                assert(self.nodes@ =~= stripped);
                Err(SetNodeParentError::ParentNodeIsNotGroup)
            },
        }
    }
}

// ---------------------------------------------------------------------------
// Keys

/// Where looking up key `key_id` of node `node_id` ends.
#[derive(Clone, Copy, PartialEq, Eq, Structural, Debug)]
pub enum KeyLookup {
    NodeMissing,
    NotATrack,
    KeyMissing,
    Found,
}

pub open spec fn lookup_key(nodes: Map<Uuid, NodeView>, node_id: Uuid, key_id: Uuid) -> KeyLookup {
    if !nodes.contains_key(node_id) {
        KeyLookup::NodeMissing
    } else {
        match nodes[node_id] {
            NodeView::Group(_) => KeyLookup::NotATrack,
            NodeView::Track(t) => if t.keys.contains_key(key_id) {
                KeyLookup::Found
            } else {
                KeyLookup::KeyMissing
            },
        }
    }
}

/// What a key setter changes.
pub enum KeyChange {
    At(F64Bits),
    Value(Value),
    Transition(Transition),
}

pub open spec fn key_changed(k: KeyView, c: KeyChange) -> KeyView {
    match c {
        KeyChange::At(at) => KeyView { at, ..k },
        KeyChange::Value(value) => KeyView { value, ..k },
        KeyChange::Transition(transition) => KeyView { transition: transition@, ..k },
    }
}

/// The track after a key change: a new time sorts the ordering again.
pub open spec fn track_key_changed(t: TrackView, key_id: Uuid, c: KeyChange) -> TrackView {
    let keys = t.keys.insert(key_id, key_changed(t.keys[key_id], c));
    match c {
        KeyChange::At(_) => with_keys_sorted(t, keys, t.key_ordering),
        _ => TrackView { keys, ..t },
    }
}

/// The nodes after changing key `key_id` of node `node_id`, when it is found.
pub open spec fn nodes_key_changed(nodes: Map<Uuid, NodeView>, node_id: Uuid, key_id: Uuid, c: KeyChange) -> Map<Uuid, NodeView> {
    match nodes[node_id] {
        NodeView::Track(t) => nodes.insert(node_id, NodeView::Track(track_key_changed(t, key_id, c))),
        NodeView::Group(_) => nodes,
    }
}

/// A new time leaves an ordering that can be sorted.
pub open spec fn key_change_sortable(nodes: Map<Uuid, NodeView>, node_id: Uuid, key_id: Uuid, c: KeyChange) -> bool {
    lookup_key(nodes, node_id, key_id) == KeyLookup::Found ==> match c {
        KeyChange::At(at) => match nodes[node_id] {
            NodeView::Track(t) => sortable(
                t.keys.insert(key_id, key_changed(t.keys[key_id], c)),
                t.key_ordering,
            ),
            NodeView::Group(_) => true,
        },
        _ => true,
    }
}

fn track_change_key(t: &mut Track, key_id: Uuid, c: KeyChange)
    requires
        old(t)@.keys.contains_key(key_id),
        c is At ==> sortable(
            old(t)@.keys.insert(key_id, key_changed(old(t)@.keys[key_id], c)),
            old(t)@.key_ordering,
        ),
    ensures
        final(t)@ == track_key_changed(old(t)@, key_id, c),
{
    let ghost old_keys = t.keys@;
    let mut key = t.keys.remove(&key_id).unwrap();
    let ghost c_view = c;
    let resort = match c {
        KeyChange::At(at) => {
            key.at = at;
            true
        },
        KeyChange::Value(value) => {
            key.value = value;
            false
        },
        KeyChange::Transition(transition) => {
            key.transition = transition;
            false
        },
    };
    proof {
        assert(key@ == key_changed(old_keys[key_id]@, c_view));
        lemma_keys_view_insert(old_keys.remove(key_id), key_id, key);
        lemma_keys_view_remove(old_keys, key_id);
        assert(keys_view(old_keys).remove(key_id).insert(key_id, key@) =~= keys_view(
            old_keys,
        ).insert(key_id, key@));
    }
    t.keys.insert(key_id, key);
    if resort {
        sort_track(t);
    }
}

/// Changes key `key_id` of node `node_id`, if the node is a track that has
/// it; says where the lookup ended.
fn change_key(v: &mut Animation, node_id: Uuid, key_id: Uuid, c: KeyChange) -> (found: KeyLookup)
    requires
        key_change_sortable(old(v)@.nodes, node_id, key_id, c),
    ensures
        found == lookup_key(old(v)@.nodes, node_id, key_id),
        found == KeyLookup::Found ==> final(v)@ == with_nodes(
            old(v)@,
            nodes_key_changed(old(v)@.nodes, node_id, key_id, c),
        ),
        found != KeyLookup::Found ==> final(v)@ == old(v)@,
{
    let ghost old_nodes = v.nodes@;
    let ghost c_view = c;
    match v.nodes.remove(&node_id) {
        Option::None => {
            assert(v.nodes@ =~= old_nodes);
            KeyLookup::NodeMissing
        },
        Some(Node::Group(g)) => {
            v.nodes.insert(node_id, Node::Group(g));
            assert(v.nodes@ =~= old_nodes);
            KeyLookup::NotATrack
        },
        Some(Node::Track(mut t)) => {
            if !t.keys.contains_key(&key_id) {
                v.nodes.insert(node_id, Node::Track(t));
                assert(v.nodes@ =~= old_nodes);
                return KeyLookup::KeyMissing;
            }
            track_change_key(&mut t, key_id, c);
            v.nodes.insert(node_id, Node::Track(t));
            proof {
                lemma_nodes_view_insert(old_nodes.remove(node_id), node_id, Node::Track(t));
                lemma_nodes_view_remove(old_nodes, node_id);
                assert(nodes_view(old_nodes).remove(node_id).insert(node_id, Node::Track(t)@)
                    =~= nodes_view(old_nodes).insert(node_id, Node::Track(t)@));
            }
            KeyLookup::Found
        },
    }
}

/// The result of a key setter, given where its lookup ended.
pub open spec fn key_setter<E>(v: AnimationView, node_id: Uuid, key_id: Uuid, c: KeyChange, node_missing: E, not_track: E, key_missing: E) -> (AnimationView, Result<(), E>) {
    match lookup_key(v.nodes, node_id, key_id) {
        KeyLookup::NodeMissing => (v, Err(node_missing)),
        KeyLookup::NotATrack => (v, Err(not_track)),
        KeyLookup::KeyMissing => (v, Err(key_missing)),
        KeyLookup::Found => (with_nodes(v, nodes_key_changed(v.nodes, node_id, key_id, c)), Ok(())),
    }
}

pub struct SetKeyAt {
    pub id: Uuid,
    pub key_id: Uuid,
    pub at: F64Bits,
}

#[derive(Clone, Copy, PartialEq, Eq, Structural, Debug)]
pub enum SetKeyAtError {
    /// Node does not exist.
    NodeDoesNotExist,
    /// Key does not exist.
    KeyDoesNotExist,
    /// Node is not a track.
    NodeIsNotTrack,
}

/// Moving a key in time; the track's ordering is sorted again.
pub open spec fn set_key_at(v: AnimationView, a: SetKeyAt) -> (AnimationView, Result<(), SetKeyAtError>) {
    key_setter(
        v,
        a.id,
        a.key_id,
        KeyChange::At(a.at),
        SetKeyAtError::NodeDoesNotExist,
        SetKeyAtError::NodeIsNotTrack,
        SetKeyAtError::KeyDoesNotExist,
    )
}

impl Apply<SetKeyAt> for Animation {
    type Error = SetKeyAtError;

    open spec fn name_mutating(action: SetKeyAt) -> bool {
        false
    }

    open spec fn parent_mutating(action: SetKeyAt) -> bool {
        false
    }

    open spec fn applicable(record: Animation, action: SetKeyAt) -> bool {
        key_change_sortable(record@.nodes, action.id, action.key_id, KeyChange::At(action.at))
    }

    open spec fn applied(pre: Animation, action: SetKeyAt, post: Animation, r: Result<(), SetKeyAtError>) -> bool {
        (post@, r) == set_key_at(pre@, action)
    }

    fn mutates_name(_action: &SetKeyAt) -> (r: bool) {
        false
    }

    fn mutates_parent(_action: &SetKeyAt) -> (r: bool) {
        false
    }

    fn apply(&mut self, action: &SetKeyAt) -> (r: Result<(), SetKeyAtError>) {
        match change_key(self, action.id, action.key_id, KeyChange::At(action.at)) {
            KeyLookup::NodeMissing => Err(SetKeyAtError::NodeDoesNotExist),
            KeyLookup::NotATrack => Err(SetKeyAtError::NodeIsNotTrack),
            KeyLookup::KeyMissing => Err(SetKeyAtError::KeyDoesNotExist),
            KeyLookup::Found => Ok(()),
        }
    }
}

pub struct SetKeyValue {
    pub id: Uuid,
    pub key_id: Uuid,
    pub value: Value,
}

#[derive(Clone, Copy, PartialEq, Eq, Structural, Debug)]
pub enum SetKeyValueError {
    /// Node does not exist.
    NodeDoesNotExist,
    /// Key does not exist.
    KeyDoesNotExist,
    /// Node is not a track.
    NodeIsNotTrack,
}

pub open spec fn set_key_value(v: AnimationView, a: SetKeyValue) -> (AnimationView, Result<(), SetKeyValueError>) {
    key_setter(
        v,
        a.id,
        a.key_id,
        KeyChange::Value(a.value),
        SetKeyValueError::NodeDoesNotExist,
        SetKeyValueError::NodeIsNotTrack,
        SetKeyValueError::KeyDoesNotExist,
    )
}

impl Apply<SetKeyValue> for Animation {
    type Error = SetKeyValueError;

    open spec fn name_mutating(action: SetKeyValue) -> bool {
        false
    }

    open spec fn parent_mutating(action: SetKeyValue) -> bool {
        false
    }

    open spec fn applicable(record: Animation, action: SetKeyValue) -> bool {
        true
    }

    open spec fn applied(pre: Animation, action: SetKeyValue, post: Animation, r: Result<(), SetKeyValueError>) -> bool {
        (post@, r) == set_key_value(pre@, action)
    }

    fn mutates_name(_action: &SetKeyValue) -> (r: bool) {
        false
    }

    fn mutates_parent(_action: &SetKeyValue) -> (r: bool) {
        false
    }

    fn apply(&mut self, action: &SetKeyValue) -> (r: Result<(), SetKeyValueError>) {
        match change_key(self, action.id, action.key_id, KeyChange::Value(action.value)) {
            KeyLookup::NodeMissing => Err(SetKeyValueError::NodeDoesNotExist),
            KeyLookup::NotATrack => Err(SetKeyValueError::NodeIsNotTrack),
            KeyLookup::KeyMissing => Err(SetKeyValueError::KeyDoesNotExist),
            KeyLookup::Found => Ok(()),
        }
    }
}

pub struct SetKeyTransition {
    pub id: Uuid,
    pub key_id: Uuid,
    pub transition: Transition,
}

#[derive(Clone, Copy, PartialEq, Eq, Structural, Debug)]
pub enum SetKeyTransitionError {
    /// Node does not exist.
    NodeDoesNotExist,
    /// Key does not exist.
    KeyDoesNotExist,
    /// Node is not a track.
    NodeIsNotTrack,
}

pub open spec fn set_key_transition(v: AnimationView, a: SetKeyTransition) -> (AnimationView, Result<(), SetKeyTransitionError>) {
    key_setter(
        v,
        a.id,
        a.key_id,
        KeyChange::Transition(a.transition),
        SetKeyTransitionError::NodeDoesNotExist,
        SetKeyTransitionError::NodeIsNotTrack,
        SetKeyTransitionError::KeyDoesNotExist,
    )
}

impl Apply<SetKeyTransition> for Animation {
    type Error = SetKeyTransitionError;

    open spec fn name_mutating(action: SetKeyTransition) -> bool {
        false
    }

    open spec fn parent_mutating(action: SetKeyTransition) -> bool {
        false
    }

    open spec fn applicable(record: Animation, action: SetKeyTransition) -> bool {
        true
    }

    open spec fn applied(pre: Animation, action: SetKeyTransition, post: Animation, r: Result<(), SetKeyTransitionError>) -> bool {
        (post@, r) == set_key_transition(pre@, action)
    }

    fn mutates_name(_action: &SetKeyTransition) -> (r: bool) {
        false
    }

    fn mutates_parent(_action: &SetKeyTransition) -> (r: bool) {
        false
    }

    fn apply(&mut self, action: &SetKeyTransition) -> (r: Result<(), SetKeyTransitionError>) {
        let transition = action.transition.clone();
        match change_key(self, action.id, action.key_id, KeyChange::Transition(transition)) {
            KeyLookup::NodeMissing => Err(SetKeyTransitionError::NodeDoesNotExist),
            KeyLookup::NotATrack => Err(SetKeyTransitionError::NodeIsNotTrack),
            KeyLookup::KeyMissing => Err(SetKeyTransitionError::KeyDoesNotExist),
            KeyLookup::Found => Ok(()),
        }
    }
}

// ---------------------------------------------------------------------------
// Several keys at once

#[derive(Clone, Copy, PartialEq, Eq, Structural, Debug)]
pub struct KeySelector {
    pub node_id: Uuid,
    pub key_id: Uuid,
}

#[derive(Clone, Copy, PartialEq, Eq, Structural, Debug)]
pub struct KeySelectorAt {
    pub selector: KeySelector,
    pub at: F64Bits,
}

pub struct RemoveKeys {
    pub selectors: Vec<KeySelector>,
}

#[derive(Clone, Copy, PartialEq, Eq, Structural, Debug)]
pub enum RemoveKeysError {
    /// Node does not exist.
    NodeDoesNotExist,
    /// Key does not exist.
    KeyDoesNotExist,
    /// Node is not a track.
    NodeIsNotTrack,
}

/// The first selector, in order, that names no key, and why.
pub open spec fn first_missing_key(nodes: Map<Uuid, NodeView>, sels: Seq<KeySelector>) -> Option<KeyLookup>
    decreases sels.len(),
{
    if sels.len() == 0 {
        None
    } else {
        let l = lookup_key(nodes, sels[0].node_id, sels[0].key_id);
        if l != KeyLookup::Found {
            Some(l)
        } else {
            first_missing_key(nodes, sels.drop_first())
        }
    }
}

/// The nodes after removing the selected keys, one after another.
pub open spec fn remove_selected(nodes: Map<Uuid, NodeView>, sels: Seq<KeySelector>) -> Map<Uuid, NodeView>
    decreases sels.len(),
{
    if sels.len() == 0 {
        nodes
    } else {
        let sel = sels[0];
        let next = if nodes.contains_key(sel.node_id) {
            match nodes[sel.node_id] {
                NodeView::Track(t) => nodes.insert(
                    sel.node_id,
                    NodeView::Track(track_without_key(t, sel.key_id)),
                ),
                NodeView::Group(_) => nodes,
            }
        } else {
            nodes
        };
        remove_selected(next, sels.drop_first())
    }
}

/// Removing several keys: every selector is checked first, and the first
/// that names no key is reported with nothing removed.
pub open spec fn remove_keys(v: AnimationView, a: RemoveKeys) -> (AnimationView, Result<(), RemoveKeysError>) {
    match first_missing_key(v.nodes, a.selectors@) {
        Some(KeyLookup::NodeMissing) => (v, Err(RemoveKeysError::NodeDoesNotExist)),
        Some(KeyLookup::NotATrack) => (v, Err(RemoveKeysError::NodeIsNotTrack)),
        Some(_) => (v, Err(RemoveKeysError::KeyDoesNotExist)),
        None => (with_nodes(v, remove_selected(v.nodes, a.selectors@)), Ok(())),
    }
}

/// Looks a key up without changing anything.
fn find_key(nodes: &HashMap<Uuid, Node>, node_id: Uuid, key_id: Uuid) -> (r: KeyLookup)
    ensures
        r == lookup_key(nodes_view(nodes@), node_id, key_id),
{
    match nodes.get(&node_id) {
        Option::None => KeyLookup::NodeMissing,
        Some(Node::Group(_)) => KeyLookup::NotATrack,
        Some(Node::Track(t)) => if t.keys.contains_key(&key_id) {
            KeyLookup::Found
        } else {
            KeyLookup::KeyMissing
        },
    }
}

/// Removes a key of a track, if the node is a track; otherwise nothing.
fn remove_selected_key(v: &mut Animation, sel: KeySelector)
    ensures
        final(v)@ == with_nodes(old(v)@, remove_selected(old(v)@.nodes, seq![sel])),
{
    let ghost old_nodes = v.nodes@;
    proof {
        reveal_with_fuel(remove_selected, 2);
        assert(seq![sel].drop_first() =~= Seq::<KeySelector>::empty());
    }
    match v.nodes.remove(&sel.node_id) {
        Option::None => {
            assert(v.nodes@ =~= old_nodes);
        },
        Some(Node::Group(g)) => {
            v.nodes.insert(sel.node_id, Node::Group(g));
            assert(v.nodes@ =~= old_nodes);
        },
        Some(Node::Track(mut t)) => {
            track_remove_key(&mut t, sel.key_id);
            v.nodes.insert(sel.node_id, Node::Track(t));
            proof {
                lemma_nodes_view_insert(old_nodes.remove(sel.node_id), sel.node_id, Node::Track(t));
                lemma_nodes_view_remove(old_nodes, sel.node_id);
                assert(nodes_view(old_nodes).remove(sel.node_id).insert(
                    sel.node_id,
                    Node::Track(t)@,
                ) =~= nodes_view(old_nodes).insert(sel.node_id, Node::Track(t)@));
            }
        },
    }
}

impl Apply<RemoveKeys> for Animation {
    type Error = RemoveKeysError;

    open spec fn name_mutating(action: RemoveKeys) -> bool {
        false
    }

    open spec fn parent_mutating(action: RemoveKeys) -> bool {
        false
    }

    open spec fn applicable(record: Animation, action: RemoveKeys) -> bool {
        true
    }

    open spec fn applied(pre: Animation, action: RemoveKeys, post: Animation, r: Result<(), RemoveKeysError>) -> bool {
        (post@, r) == remove_keys(pre@, action)
    }

    fn mutates_name(_action: &RemoveKeys) -> (r: bool) {
        false
    }

    fn mutates_parent(_action: &RemoveKeys) -> (r: bool) {
        false
    }

    fn apply(&mut self, action: &RemoveKeys) -> (r: Result<(), RemoveKeysError>) {
        let ghost sels = action.selectors@;
        let ghost nodes0 = self@.nodes;
        let n = action.selectors.len();
        // Check every selector before removing anything.
        assert(sels.skip(0) =~= sels);
        let mut i: usize = 0;
        while i < n
            invariant
                n == sels.len(),
                sels == action.selectors@,
                i <= n,
                self@.nodes == nodes0,
                first_missing_key(nodes0, sels) == first_missing_key(nodes0, sels.skip(i as int)),
            decreases n - i,
        {
            let sel = action.selectors[i];
            let found = find_key(&self.nodes, sel.node_id, sel.key_id);
            proof {
                assert(sels.skip(i as int)[0] == sel);
                assert(sels.skip(i as int).drop_first() =~= sels.skip(i + 1));
            }
            match found {
                KeyLookup::NodeMissing => return Err(RemoveKeysError::NodeDoesNotExist),
                KeyLookup::NotATrack => return Err(RemoveKeysError::NodeIsNotTrack),
                KeyLookup::KeyMissing => return Err(RemoveKeysError::KeyDoesNotExist),
                KeyLookup::Found => {},
            }
            i = i + 1;
        }
        proof {
            assert(sels.skip(n as int) =~= Seq::<KeySelector>::empty());
        }
        let ghost v0 = self@;
        assert(sels.skip(0) =~= sels);
        let mut i: usize = 0;
        while i < n
            invariant
                n == sels.len(),
                sels == action.selectors@,
                i <= n,
                self@ == with_nodes(v0, self@.nodes),
                remove_selected(v0.nodes, sels) == remove_selected(self@.nodes, sels.skip(i as int)),
            decreases n - i,
        {
            let sel = action.selectors[i];
            let ghost before = self@.nodes;
            remove_selected_key(self, sel);
            proof {
                assert(sels.skip(i as int)[0] == sel);
                assert(sels.skip(i as int).drop_first() =~= sels.skip(i + 1));
                reveal_with_fuel(remove_selected, 2);
                assert(seq![sel].drop_first() =~= Seq::<KeySelector>::empty());
            }
            i = i + 1;
        }
        proof {
            assert(sels.skip(n as int) =~= Seq::<KeySelector>::empty());
            assert(sels.skip(0) =~= sels);
        }
        Ok(())
    }
}

pub struct SetKeysAt {
    pub ats: Vec<KeySelectorAt>,
}

#[derive(Clone, Copy, PartialEq, Eq, Structural, Debug)]
pub enum SetKeysAtError {
    /// Node does not exist.
    NodeDoesNotExist,
    /// Key does not exist.
    KeyDoesNotExist,
    /// Node is not a track.
    NodeIsNotTrack,
}

pub open spec fn selectors_of(ats: Seq<KeySelectorAt>) -> Seq<KeySelector> {
    ats.map_values(|a: KeySelectorAt| a.selector)
}

/// The nodes after moving the selected keys in time, one after another,
/// sorting the track's ordering after each.
pub open spec fn set_selected_ats(nodes: Map<Uuid, NodeView>, ats: Seq<KeySelectorAt>) -> Map<Uuid, NodeView>
    decreases ats.len(),
{
    if ats.len() == 0 {
        nodes
    } else {
        let a = ats[0];
        let next = if lookup_key(nodes, a.selector.node_id, a.selector.key_id) == KeyLookup::Found {
            nodes_key_changed(nodes, a.selector.node_id, a.selector.key_id, KeyChange::At(a.at))
        } else {
            nodes
        };
        set_selected_ats(next, ats.drop_first())
    }
}

/// Every step of moving the selected keys leaves an ordering that can be
/// sorted.
pub open spec fn set_selected_sortable(nodes: Map<Uuid, NodeView>, ats: Seq<KeySelectorAt>) -> bool
    decreases ats.len(),
{
    if ats.len() == 0 {
        true
    } else {
        let a = ats[0];
        let next = if lookup_key(nodes, a.selector.node_id, a.selector.key_id) == KeyLookup::Found {
            nodes_key_changed(nodes, a.selector.node_id, a.selector.key_id, KeyChange::At(a.at))
        } else {
            nodes
        };
        key_change_sortable(nodes, a.selector.node_id, a.selector.key_id, KeyChange::At(a.at))
            && set_selected_sortable(next, ats.drop_first())
    }
}

/// Moving several keys in time: every selector is checked first, and the
/// first that names no key is reported with nothing changed.
pub open spec fn set_keys_at(v: AnimationView, a: SetKeysAt) -> (AnimationView, Result<(), SetKeysAtError>) {
    match first_missing_key(v.nodes, selectors_of(a.ats@)) {
        Some(KeyLookup::NodeMissing) => (v, Err(SetKeysAtError::NodeDoesNotExist)),
        Some(KeyLookup::NotATrack) => (v, Err(SetKeysAtError::NodeIsNotTrack)),
        Some(_) => (v, Err(SetKeysAtError::KeyDoesNotExist)),
        None => (with_nodes(v, set_selected_ats(v.nodes, a.ats@)), Ok(())),
    }
}

impl Apply<SetKeysAt> for Animation {
    type Error = SetKeysAtError;

    open spec fn name_mutating(action: SetKeysAt) -> bool {
        false
    }

    open spec fn parent_mutating(action: SetKeysAt) -> bool {
        false
    }

    open spec fn applicable(record: Animation, action: SetKeysAt) -> bool {
        first_missing_key(record@.nodes, selectors_of(action.ats@)) is None ==> set_selected_sortable(
            record@.nodes,
            action.ats@,
        )
    }

    open spec fn applied(pre: Animation, action: SetKeysAt, post: Animation, r: Result<(), SetKeysAtError>) -> bool {
        (post@, r) == set_keys_at(pre@, action)
    }

    fn mutates_name(_action: &SetKeysAt) -> (r: bool) {
        false
    }

    fn mutates_parent(_action: &SetKeysAt) -> (r: bool) {
        false
    }

    fn apply(&mut self, action: &SetKeysAt) -> (r: Result<(), SetKeysAtError>) {
        let ghost ats = action.ats@;
        let ghost sels = selectors_of(ats);
        let ghost nodes0 = self@.nodes;
        let n = action.ats.len();
        assert(sels.skip(0) =~= sels);
        assert(ats.skip(0) =~= ats);
        let mut i: usize = 0;
        while i < n
            invariant
                n == ats.len(),
                ats == action.ats@,
                sels == selectors_of(ats),
                i <= n,
                self@.nodes == nodes0,
                first_missing_key(nodes0, sels) == first_missing_key(nodes0, sels.skip(i as int)),
            decreases n - i,
        {
            let sel = action.ats[i].selector;
            let found = find_key(&self.nodes, sel.node_id, sel.key_id);
            proof {
                assert(sels.skip(i as int)[0] == sel);
                assert(sels.skip(i as int).drop_first() =~= sels.skip(i + 1));
            }
            match found {
                KeyLookup::NodeMissing => return Err(SetKeysAtError::NodeDoesNotExist),
                KeyLookup::NotATrack => return Err(SetKeysAtError::NodeIsNotTrack),
                KeyLookup::KeyMissing => return Err(SetKeysAtError::KeyDoesNotExist),
                KeyLookup::Found => {},
            }
            i = i + 1;
        }
        proof {
            assert(sels.skip(n as int) =~= Seq::<KeySelector>::empty());
        }
        let ghost v0 = self@;
        assert(sels.skip(0) =~= sels);
        let mut i: usize = 0;
        while i < n
            invariant
                n == ats.len(),
                ats == action.ats@,
                i <= n,
                self@ == with_nodes(v0, self@.nodes),
                set_selected_ats(v0.nodes, ats) == set_selected_ats(self@.nodes, ats.skip(i as int)),
                set_selected_sortable(self@.nodes, ats.skip(i as int)),
            decreases n - i,
        {
            let a = action.ats[i];
            proof {
                assert(ats.skip(i as int)[0] == a);
                assert(ats.skip(i as int).drop_first() =~= ats.skip(i + 1));
            }
            change_key(self, a.selector.node_id, a.selector.key_id, KeyChange::At(a.at));
            i = i + 1;
        }
        proof {
            assert(ats.skip(0) =~= ats);
        }
        Ok(())
    }
}

// ---------------------------------------------------------------------------
// All actions

pub enum Action {
    AddNode(AddNode),
    RemoveNode(RemoveNode),
    AddKey(AddKey),
    RemoveKey(RemoveKey),
    RemoveKeys(RemoveKeys),
    SetNodeName(SetNodeName),
    SetNodeParent(SetNodeParent),
    SetNodeColor(SetNodeColor),
    SetNodeLocked(SetNodeLocked),
    SetNodeCollapsed(SetNodeCollapsed),
    SetKeyAt(SetKeyAt),
    SetKeysAt(SetKeysAt),
    SetKeyValue(SetKeyValue),
    SetKeyTransition(SetKeyTransition),
    Acl(AclAction),
}

#[derive(Clone, Copy, PartialEq, Eq, Structural, Debug)]
pub enum ActionError {
    AddNode(AddNodeError),
    RemoveNode(RemoveNodeError),
    AddKey(AddKeyError),
    RemoveKey(RemoveKeyError),
    RemoveKeys(RemoveKeysError),
    SetNodeName(SetNodeNameError),
    SetNodeParent(SetNodeParentError),
    SetNodeColor(SetNodeColorError),
    SetNodeLocked(SetNodeLockedError),
    SetNodeCollapsed(SetNodeCollapsedError),
    SetKeyAt(SetKeyAtError),
    SetKeysAt(SetKeysAtError),
    SetKeyValue(SetKeyValueError),
    SetKeyTransition(SetKeyTransitionError),
    Acl(AclActionError),
}

/// `r` with its error, if any, passed through `f`.
pub open spec fn lift_result<E, F>(r: Result<(), E>, f: spec_fn(E) -> F) -> Result<(), F> {
    match r {
        Ok(()) => Ok(()),
        Err(e) => Err(f(e)),
    }
}

/// Applying an ACL action to the animation's ACL.
pub open spec fn apply_acl(v: AnimationView, a: AclAction) -> (AnimationView, Result<(), AclActionError>) {
    match acl_apply_action(v.acl, a) {
        Ok(acl) => (AnimationView { acl, ..v }, Ok(())),
        Err(e) => (v, Err(e)),
    }
}

/// The animation after an action, and the result.
pub open spec fn apply_action(v: AnimationView, a: Action) -> (AnimationView, Result<(), ActionError>) {
    match a {
        Action::AddNode(a) => {
            let (w, r) = add_node(v, a);
            (w, lift_result(r, |e: AddNodeError| ActionError::AddNode(e)))
        },
        Action::RemoveNode(a) => {
            let (w, r) = remove_node(v, a);
            (w, lift_result(r, |e: RemoveNodeError| ActionError::RemoveNode(e)))
        },
        Action::AddKey(a) => {
            let (w, r) = add_key(v, a);
            (w, lift_result(r, |e: AddKeyError| ActionError::AddKey(e)))
        },
        Action::RemoveKey(a) => {
            let (w, r) = remove_key(v, a);
            (w, lift_result(r, |e: RemoveKeyError| ActionError::RemoveKey(e)))
        },
        Action::RemoveKeys(a) => {
            let (w, r) = remove_keys(v, a);
            (w, lift_result(r, |e: RemoveKeysError| ActionError::RemoveKeys(e)))
        },
        Action::SetNodeName(a) => {
            let (w, r) = set_node_name(v, a);
            (w, lift_result(r, |e: SetNodeNameError| ActionError::SetNodeName(e)))
        },
        Action::SetNodeParent(a) => {
            let (w, r) = set_node_parent(v, a);
            (w, lift_result(r, |e: SetNodeParentError| ActionError::SetNodeParent(e)))
        },
        Action::SetNodeColor(a) => {
            let (w, r) = set_node_color(v, a);
            (w, lift_result(r, |e: SetNodeColorError| ActionError::SetNodeColor(e)))
        },
        Action::SetNodeLocked(a) => {
            let (w, r) = set_node_locked(v, a);
            (w, lift_result(r, |e: SetNodeLockedError| ActionError::SetNodeLocked(e)))
        },
        Action::SetNodeCollapsed(a) => {
            let (w, r) = set_node_collapsed(v, a);
            (w, lift_result(r, |e: SetNodeCollapsedError| ActionError::SetNodeCollapsed(e)))
        },
        Action::SetKeyAt(a) => {
            let (w, r) = set_key_at(v, a);
            (w, lift_result(r, |e: SetKeyAtError| ActionError::SetKeyAt(e)))
        },
        Action::SetKeysAt(a) => {
            let (w, r) = set_keys_at(v, a);
            (w, lift_result(r, |e: SetKeysAtError| ActionError::SetKeysAt(e)))
        },
        Action::SetKeyValue(a) => {
            let (w, r) = set_key_value(v, a);
            (w, lift_result(r, |e: SetKeyValueError| ActionError::SetKeyValue(e)))
        },
        Action::SetKeyTransition(a) => {
            let (w, r) = set_key_transition(v, a);
            (w, lift_result(r, |e: SetKeyTransitionError| ActionError::SetKeyTransition(e)))
        },
        Action::Acl(a) => {
            let (w, r) = apply_acl(v, a);
            (w, lift_result(r, |e: AclActionError| ActionError::Acl(e)))
        },
    }
}

/// Whether an action can be applied without a panic.
pub open spec fn action_applicable(record: Animation, a: Action) -> bool {
    match a {
        Action::AddNode(a) => <Animation as Apply<AddNode>>::applicable(record, a),
        Action::RemoveNode(a) => <Animation as Apply<RemoveNode>>::applicable(record, a),
        Action::AddKey(a) => <Animation as Apply<AddKey>>::applicable(record, a),
        Action::RemoveKey(a) => <Animation as Apply<RemoveKey>>::applicable(record, a),
        Action::RemoveKeys(a) => <Animation as Apply<RemoveKeys>>::applicable(record, a),
        Action::SetNodeName(a) => <Animation as Apply<SetNodeName>>::applicable(record, a),
        Action::SetNodeParent(a) => <Animation as Apply<SetNodeParent>>::applicable(record, a),
        Action::SetNodeColor(a) => <Animation as Apply<SetNodeColor>>::applicable(record, a),
        Action::SetNodeLocked(a) => <Animation as Apply<SetNodeLocked>>::applicable(record, a),
        Action::SetNodeCollapsed(a) => <Animation as Apply<SetNodeCollapsed>>::applicable(record, a),
        Action::SetKeyAt(a) => <Animation as Apply<SetKeyAt>>::applicable(record, a),
        Action::SetKeysAt(a) => <Animation as Apply<SetKeysAt>>::applicable(record, a),
        Action::SetKeyValue(a) => <Animation as Apply<SetKeyValue>>::applicable(record, a),
        Action::SetKeyTransition(a) => <Animation as Apply<SetKeyTransition>>::applicable(record, a),
        Action::Acl(a) => true,
    }
}

impl Apply<Action> for Animation {
    type Error = ActionError;

    open spec fn name_mutating(action: Action) -> bool {
        false
    }

    open spec fn parent_mutating(action: Action) -> bool {
        false
    }

    open spec fn applicable(record: Animation, action: Action) -> bool {
        action_applicable(record, action)
    }

    open spec fn applied(pre: Animation, action: Action, post: Animation, r: Result<(), ActionError>) -> bool {
        (post@, r) == apply_action(pre@, action)
    }

    fn mutates_name(_action: &Action) -> (r: bool) {
        false
    }

    fn mutates_parent(_action: &Action) -> (r: bool) {
        false
    }

    fn apply(&mut self, action: &Action) -> (r: Result<(), ActionError>) {
        match action {
            Action::AddNode(a) => match <Animation as Apply<AddNode>>::apply(self, a) {
                Ok(()) => Ok(()),
                Err(e) => Err(ActionError::AddNode(e)),
            },
            Action::RemoveNode(a) => match <Animation as Apply<RemoveNode>>::apply(self, a) {
                Ok(()) => Ok(()),
                Err(e) => Err(ActionError::RemoveNode(e)),
            },
            Action::AddKey(a) => match <Animation as Apply<AddKey>>::apply(self, a) {
                Ok(()) => Ok(()),
                Err(e) => Err(ActionError::AddKey(e)),
            },
            Action::RemoveKey(a) => match <Animation as Apply<RemoveKey>>::apply(self, a) {
                Ok(()) => Ok(()),
                Err(e) => Err(ActionError::RemoveKey(e)),
            },
            Action::RemoveKeys(a) => match <Animation as Apply<RemoveKeys>>::apply(self, a) {
                Ok(()) => Ok(()),
                Err(e) => Err(ActionError::RemoveKeys(e)),
            },
            Action::SetNodeName(a) => match <Animation as Apply<SetNodeName>>::apply(self, a) {
                Ok(()) => Ok(()),
                Err(e) => Err(ActionError::SetNodeName(e)),
            },
            Action::SetNodeParent(a) => match <Animation as Apply<SetNodeParent>>::apply(self, a) {
                Ok(()) => Ok(()),
                Err(e) => Err(ActionError::SetNodeParent(e)),
            },
            Action::SetNodeColor(a) => match <Animation as Apply<SetNodeColor>>::apply(self, a) {
                Ok(()) => Ok(()),
                Err(e) => Err(ActionError::SetNodeColor(e)),
            },
            Action::SetNodeLocked(a) => match <Animation as Apply<SetNodeLocked>>::apply(self, a) {
                Ok(()) => Ok(()),
                Err(e) => Err(ActionError::SetNodeLocked(e)),
            },
            Action::SetNodeCollapsed(a) => match <Animation as Apply<SetNodeCollapsed>>::apply(self, a) {
                Ok(()) => Ok(()),
                Err(e) => Err(ActionError::SetNodeCollapsed(e)),
            },
            Action::SetKeyAt(a) => match <Animation as Apply<SetKeyAt>>::apply(self, a) {
                Ok(()) => Ok(()),
                Err(e) => Err(ActionError::SetKeyAt(e)),
            },
            Action::SetKeysAt(a) => match <Animation as Apply<SetKeysAt>>::apply(self, a) {
                Ok(()) => Ok(()),
                Err(e) => Err(ActionError::SetKeysAt(e)),
            },
            Action::SetKeyValue(a) => match <Animation as Apply<SetKeyValue>>::apply(self, a) {
                Ok(()) => Ok(()),
                Err(e) => Err(ActionError::SetKeyValue(e)),
            },
            Action::SetKeyTransition(a) => match <Animation as Apply<SetKeyTransition>>::apply(self, a) {
                Ok(()) => Ok(()),
                Err(e) => Err(ActionError::SetKeyTransition(e)),
            },
            Action::Acl(a) => {
                let ghost pre = *self;
                let r = <Animation as Apply<AclAction>>::apply(self, a);
                proof {
                    assert(self@ == AnimationView { acl: self.acl@, ..pre@ });
                }
                match r {
                    Ok(()) => Ok(()),
                    Err(e) => Err(ActionError::Acl(e)),
                }
            },
        }
    }
}

} // verus!
