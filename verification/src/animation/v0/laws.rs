use vstd::prelude::*;

use super::action::{
    add_key, apply_action, key_time, remove_node, set_key_at, Action, ActionError, AddKey,
    AddKeyError, RemoveNode, RemoveNodeError, SetKeyAt, SetKeyAtError,
};
use super::action::{
    SetKeyTransition, SetKeyTransitionError, SetKeyValue, SetKeyValueError, SetNodeCollapsed,
    SetNodeCollapsedError, SetNodeColor, SetNodeColorError, SetNodeLocked, SetNodeLockedError,
    SetNodeName, SetNodeNameError,
};
use super::action::{
    AddNode, AddNodeError, RemoveKey, RemoveKeyError, SetNodeParent,
    SetNodeParentError,
};
use super::action::{nodes_key_changed, selectors_of, set_selected_ats, KeyChange, KeySelectorAt};
use super::action::{first_missing_key, lookup_key, remove_selected, KeyLookup, KeySelector};
use super::action::{RemoveKeys, RemoveKeysError, SetKeysAt, SetKeysAtError};
use crate::acl::action::{Action as AclAction, ActionError as AclActionError};
use super::unfrozen::{Animation, AnimationView, KeyView, NodeView, TrackView};
use crate::color::Color;
use crate::record::Apply;
use crate::float_order::{lemma_sort_by_key, sorted_by, F64Bits};
use crate::collections::other_than;
use crate::record::Uuid;

verus! {

broadcast use vstd::seq_lib::group_to_multiset_ensures;

/// After a key is added, the track's key ordering holds the old ids and the
/// new one, each as often as before, ordered by time.
pub proof fn law_add_key_orders_by_time(v: AnimationView, a: AddKey, w: AnimationView)
    requires
        add_key(v, a) == (w, Ok::<(), AddKeyError>(())),
    ensures
        v.nodes.contains_key(a.node_id),
        w.nodes.contains_key(a.node_id),
        match (v.nodes[a.node_id], w.nodes[a.node_id]) {
            (NodeView::Track(t), NodeView::Track(u)) => {
                &&& u.keys == t.keys.insert(a.key_id, a.key@)
                &&& sorted_by(u.key_ordering, key_time(u.keys))
                &&& u.key_ordering.to_multiset() == t.key_ordering.to_multiset().insert(a.key_id)
            },
            _ => false,
        },
{
    match v.nodes[a.node_id] {
        NodeView::Track(t) => {
            let keys = t.keys.insert(a.key_id, a.key@);
            lemma_sort_by_key(t.key_ordering.push(a.key_id), key_time(keys));
        },
        NodeView::Group(_) => {},
    }
}

/// After a key is moved in time, the track's key ordering holds the same ids,
/// ordered by the new times.
pub proof fn law_set_key_at_orders_by_time(v: AnimationView, a: SetKeyAt, w: AnimationView)
    requires
        set_key_at(v, a) == (w, Ok::<(), SetKeyAtError>(())),
    ensures
        v.nodes.contains_key(a.id),
        w.nodes.contains_key(a.id),
        match (v.nodes[a.id], w.nodes[a.id]) {
            (NodeView::Track(t), NodeView::Track(u)) => {
                &&& t.keys.contains_key(a.key_id)
                &&& u.keys == t.keys.insert(a.key_id, KeyView { at: a.at, ..t.keys[a.key_id] })
                &&& sorted_by(u.key_ordering, key_time(u.keys))
                &&& u.key_ordering.to_multiset() == t.key_ordering.to_multiset()
            },
            _ => false,
        },
{
    match v.nodes[a.id] {
        NodeView::Track(t) => {
            let keys = t.keys.insert(a.key_id, KeyView { at: a.at, ..t.keys[a.key_id] });
            lemma_sort_by_key(t.key_ordering, key_time(keys));
        },
        NodeView::Group(_) => {},
    }
}

/// A removed node is gone, and no group keeps it among its children; every
/// other node stays.
pub proof fn law_remove_node_forgets_it(v: AnimationView, a: RemoveNode, w: AnimationView, id: Uuid)
    requires
        remove_node(v, a) == (w, Ok::<(), RemoveNodeError>(())),
    ensures
        !w.nodes.contains_key(a.id),
        w.nodes.contains_key(id) <==> (v.nodes.contains_key(id) && id != a.id),
        w.nodes.contains_key(id) ==> match w.nodes[id] {
            NodeView::Group(g) => !g.children_ids.contains(a.id),
            NodeView::Track(_) => true,
        },
{
}

/// Every action but a move to another parent either succeeds or leaves the
/// animation as it was. (A move takes the node out of its old groups
/// before it checks the new parent.)
pub proof fn law_refused_action_changes_nothing(v: AnimationView, a: Action, w: AnimationView, e: ActionError)
    requires
        !(a is SetNodeParent),
        apply_action(v, a) == (w, Err::<(), ActionError>(e)),
    ensures
        w == v,
{
}

/// A node's name, lock flag, collapse flag and color.
pub open spec fn node_attributes(n: NodeView) -> (Seq<char>, bool, bool, Color) {
    match n {
        NodeView::Group(g) => (g.name, g.locked, g.collapsed, g.color),
        NodeView::Track(t) => (t.name, t.locked, t.collapsed, t.color),
    }
}

/// Whether two nodes are of one kind and hold the same children (a group)
/// or the same keys in the same order (a track).
pub open spec fn same_content(a: NodeView, b: NodeView) -> bool {
    match (a, b) {
        (NodeView::Group(g), NodeView::Group(h)) => g.children_ids == h.children_ids,
        (NodeView::Track(t), NodeView::Track(u)) => t.keys == u.keys && t.key_ordering == u.key_ordering,
        _ => false,
    }
}

/// Whether two animations agree on everything but the node `id`.
pub open spec fn same_but_node(v: AnimationView, w: AnimationView, id: Uuid) -> bool {
    &&& w.name == v.name && w.parent == v.parent && w.root_id == v.root_id && w.acl == v.acl
    &&& w.nodes.dom() == v.nodes.dom()
    &&& forall|k: Uuid| #[trigger] v.nodes.contains_key(k) && k != id ==> w.nodes[k] == v.nodes[k]
}

/// The track a node is, where it is one.
pub open spec fn track_of(n: NodeView) -> TrackView {
    match n {
        NodeView::Track(t) => t,
        NodeView::Group(_) => arbitrary(),
    }
}

/// Whether a node is a track holding the key.
pub open spec fn holds_key(v: AnimationView, id: Uuid, key_id: Uuid) -> bool {
    v.nodes.contains_key(id) && v.nodes[id] is Track && track_of(v.nodes[id]).keys.contains_key(key_id)
}

/// Renaming a node succeeds exactly when the node is there; then it has the
/// name asked for, keeps its other attributes and its content, and nothing
/// else changes.
pub proof fn law_set_node_name_sets_it(pre: Animation, a: SetNodeName, post: Animation, r: Result<(), SetNodeNameError>)
    requires
        <Animation as Apply<SetNodeName>>::applied(pre, a, post, r),
    ensures
        r is Ok <==> pre@.nodes.contains_key(a.id),
        r is Err ==> post@ == pre@,
        r is Ok ==> {
            let (n0, l0, c0, k0) = node_attributes(pre@.nodes[a.id]);
            &&& post@.nodes.contains_key(a.id)
            &&& node_attributes(post@.nodes[a.id]) == (a.name@, l0, c0, k0)
            &&& same_content(pre@.nodes[a.id], post@.nodes[a.id])
            &&& same_but_node(pre@, post@, a.id)
        },
{
    if r is Ok {
        assert(post@.nodes.dom() =~= pre@.nodes.dom());
    }
}

/// Recoloring a node succeeds exactly when the node is there; then it has
/// the color asked for, keeps its other attributes and its content, and
/// nothing else changes.
pub proof fn law_set_node_color_sets_it(pre: Animation, a: SetNodeColor, post: Animation, r: Result<(), SetNodeColorError>)
    requires
        <Animation as Apply<SetNodeColor>>::applied(pre, a, post, r),
    ensures
        r is Ok <==> pre@.nodes.contains_key(a.id),
        r is Err ==> post@ == pre@,
        r is Ok ==> {
            let (n0, l0, c0, k0) = node_attributes(pre@.nodes[a.id]);
            &&& post@.nodes.contains_key(a.id)
            &&& node_attributes(post@.nodes[a.id]) == (n0, l0, c0, a.color)
            &&& same_content(pre@.nodes[a.id], post@.nodes[a.id])
            &&& same_but_node(pre@, post@, a.id)
        },
{
    if r is Ok {
        assert(post@.nodes.dom() =~= pre@.nodes.dom());
    }
}

/// Locking or unlocking a node succeeds exactly when the node is there;
/// then its lock flag is the one asked for, it keeps its other attributes
/// and its content, and nothing else changes.
pub proof fn law_set_node_locked_sets_it(pre: Animation, a: SetNodeLocked, post: Animation, r: Result<(), SetNodeLockedError>)
    requires
        <Animation as Apply<SetNodeLocked>>::applied(pre, a, post, r),
    ensures
        r is Ok <==> pre@.nodes.contains_key(a.id),
        r is Err ==> post@ == pre@,
        r is Ok ==> {
            let (n0, l0, c0, k0) = node_attributes(pre@.nodes[a.id]);
            &&& post@.nodes.contains_key(a.id)
            &&& node_attributes(post@.nodes[a.id]) == (n0, a.locked, c0, k0)
            &&& same_content(pre@.nodes[a.id], post@.nodes[a.id])
            &&& same_but_node(pre@, post@, a.id)
        },
{
    if r is Ok {
        assert(post@.nodes.dom() =~= pre@.nodes.dom());
    }
}

/// Collapsing or expanding a node succeeds exactly when the node is there;
/// then its collapse flag is the one asked for, it keeps its other
/// attributes and its content, and nothing else changes.
pub proof fn law_set_node_collapsed_sets_it(pre: Animation, a: SetNodeCollapsed, post: Animation, r: Result<(), SetNodeCollapsedError>)
    requires
        <Animation as Apply<SetNodeCollapsed>>::applied(pre, a, post, r),
    ensures
        r is Ok <==> pre@.nodes.contains_key(a.id),
        r is Err ==> post@ == pre@,
        r is Ok ==> {
            let (n0, l0, c0, k0) = node_attributes(pre@.nodes[a.id]);
            &&& post@.nodes.contains_key(a.id)
            &&& node_attributes(post@.nodes[a.id]) == (n0, l0, a.collapsed, k0)
            &&& same_content(pre@.nodes[a.id], post@.nodes[a.id])
            &&& same_but_node(pre@, post@, a.id)
        },
{
    if r is Ok {
        assert(post@.nodes.dom() =~= pre@.nodes.dom());
    }
}

/// Setting a key's value succeeds exactly when the node is a track holding
/// the key; then the key has the value asked for, keeps its time and
/// transition, every other key, the ordering and the track's attributes are
/// kept, and nothing else changes.
pub proof fn law_set_key_value_sets_it(pre: Animation, a: SetKeyValue, post: Animation, r: Result<(), SetKeyValueError>)
    requires
        <Animation as Apply<SetKeyValue>>::applied(pre, a, post, r),
    ensures
        r is Ok <==> holds_key(pre@, a.id, a.key_id),
        r is Err ==> post@ == pre@,
        r is Ok ==> {
            let t = track_of(pre@.nodes[a.id]);
            let u = track_of(post@.nodes[a.id]);
            &&& post@.nodes.contains_key(a.id) && post@.nodes[a.id] is Track
            &&& u.keys.contains_key(a.key_id)
            &&& u.keys[a.key_id].value == a.value
            &&& u.keys[a.key_id].at == t.keys[a.key_id].at
            &&& u.keys[a.key_id].transition == t.keys[a.key_id].transition
            &&& u.keys.dom() == t.keys.dom()
            &&& forall|k: Uuid| #[trigger] t.keys.contains_key(k) && k != a.key_id ==> u.keys[k] == t.keys[k]
            &&& u.key_ordering == t.key_ordering
            &&& node_attributes(post@.nodes[a.id]) == node_attributes(pre@.nodes[a.id])
            &&& same_but_node(pre@, post@, a.id)
        },
{
    if r is Ok {
        assert(post@.nodes.dom() =~= pre@.nodes.dom());
        assert(track_of(post@.nodes[a.id]).keys.dom() =~= track_of(pre@.nodes[a.id]).keys.dom());
    }
}

/// Setting a key's transition succeeds exactly when the node is a track
/// holding the key; then the key has the transition asked for, keeps its
/// time and value, every other key, the ordering and the track's attributes
/// are kept, and nothing else changes.
pub proof fn law_set_key_transition_sets_it(pre: Animation, a: SetKeyTransition, post: Animation, r: Result<(), SetKeyTransitionError>)
    requires
        <Animation as Apply<SetKeyTransition>>::applied(pre, a, post, r),
    ensures
        r is Ok <==> holds_key(pre@, a.id, a.key_id),
        r is Err ==> post@ == pre@,
        r is Ok ==> {
            let t = track_of(pre@.nodes[a.id]);
            let u = track_of(post@.nodes[a.id]);
            &&& post@.nodes.contains_key(a.id) && post@.nodes[a.id] is Track
            &&& u.keys.contains_key(a.key_id)
            &&& u.keys[a.key_id].transition == a.transition@
            &&& u.keys[a.key_id].at == t.keys[a.key_id].at
            &&& u.keys[a.key_id].value == t.keys[a.key_id].value
            &&& u.keys.dom() == t.keys.dom()
            &&& forall|k: Uuid| #[trigger] t.keys.contains_key(k) && k != a.key_id ==> u.keys[k] == t.keys[k]
            &&& u.key_ordering == t.key_ordering
            &&& node_attributes(post@.nodes[a.id]) == node_attributes(pre@.nodes[a.id])
            &&& same_but_node(pre@, post@, a.id)
        },
{
    if r is Ok {
        assert(post@.nodes.dom() =~= pre@.nodes.dom());
        assert(track_of(post@.nodes[a.id]).keys.dom() =~= track_of(pre@.nodes[a.id]).keys.dom());
    }
}

/// The children of a node that is a group.
pub open spec fn children_of(n: NodeView) -> Set<Uuid> {
    match n {
        NodeView::Group(g) => g.children_ids,
        NodeView::Track(_) => Set::empty(),
    }
}

/// Moving a key in time succeeds exactly when the node is a track holding
/// the key; then the key has the time asked for, keeps its value and
/// transition, every other key is kept, the ordering holds the same ids as
/// often as before, sorted by time, the track's attributes are kept, and
/// nothing else changes.
pub proof fn law_set_key_at_sets_it(pre: Animation, a: SetKeyAt, post: Animation, r: Result<(), SetKeyAtError>)
    requires
        <Animation as Apply<SetKeyAt>>::applied(pre, a, post, r),
    ensures
        r is Ok <==> holds_key(pre@, a.id, a.key_id),
        r is Err ==> post@ == pre@,
        r is Ok ==> {
            let t = track_of(pre@.nodes[a.id]);
            let u = track_of(post@.nodes[a.id]);
            &&& post@.nodes.contains_key(a.id) && post@.nodes[a.id] is Track
            &&& u.keys.contains_key(a.key_id)
            &&& u.keys[a.key_id].at == a.at
            &&& u.keys[a.key_id].value == t.keys[a.key_id].value
            &&& u.keys[a.key_id].transition == t.keys[a.key_id].transition
            &&& u.keys.dom() == t.keys.dom()
            &&& forall|k: Uuid| #[trigger] t.keys.contains_key(k) && k != a.key_id ==> u.keys[k] == t.keys[k]
            &&& u.key_ordering.to_multiset() == t.key_ordering.to_multiset()
            &&& sorted_by(u.key_ordering, key_time(u.keys))
            &&& node_attributes(post@.nodes[a.id]) == node_attributes(pre@.nodes[a.id])
            &&& same_but_node(pre@, post@, a.id)
        },
{
    if r is Ok {
        let t = track_of(pre@.nodes[a.id]);
        let u = track_of(post@.nodes[a.id]);
        assert(post@.nodes.dom() =~= pre@.nodes.dom());
        assert(u.keys.dom() =~= t.keys.dom());
        lemma_sort_by_key(t.key_ordering, key_time(u.keys));
    }
}

/// Adding a key succeeds exactly when the node is a track without that
/// key; then the key is there as given, every other key is kept, the
/// ordering holds the old ids and the new one, sorted by time, the track's
/// attributes are kept, and nothing else changes.
pub proof fn law_add_key_adds_it(pre: Animation, a: AddKey, post: Animation, r: Result<(), AddKeyError>)
    requires
        <Animation as Apply<AddKey>>::applied(pre, a, post, r),
    ensures
        r is Ok <==> pre@.nodes.contains_key(a.node_id) && pre@.nodes[a.node_id] is Track
            && !track_of(pre@.nodes[a.node_id]).keys.contains_key(a.key_id),
        r is Err ==> post@ == pre@,
        r is Ok ==> {
            let t = track_of(pre@.nodes[a.node_id]);
            let u = track_of(post@.nodes[a.node_id]);
            &&& post@.nodes.contains_key(a.node_id) && post@.nodes[a.node_id] is Track
            &&& u.keys.contains_key(a.key_id) && u.keys[a.key_id] == a.key@
            &&& u.keys.dom() == t.keys.dom().insert(a.key_id)
            &&& forall|k: Uuid| #[trigger] t.keys.contains_key(k) ==> u.keys[k] == t.keys[k]
            &&& u.key_ordering.to_multiset() == t.key_ordering.to_multiset().insert(a.key_id)
            &&& sorted_by(u.key_ordering, key_time(u.keys))
            &&& node_attributes(post@.nodes[a.node_id]) == node_attributes(pre@.nodes[a.node_id])
            &&& same_but_node(pre@, post@, a.node_id)
        },
{
    if r is Ok {
        let t = track_of(pre@.nodes[a.node_id]);
        let u = track_of(post@.nodes[a.node_id]);
        assert(post@.nodes.dom() =~= pre@.nodes.dom());
        assert(u.keys.dom() =~= t.keys.dom().insert(a.key_id));
        lemma_sort_by_key(t.key_ordering.push(a.key_id), key_time(u.keys));
    }
}

/// Removing a key succeeds exactly when the node is a track holding the
/// key; then the key is gone from the track's keys and ordering, every
/// other key and every other id of the ordering stay, the track's
/// attributes are kept, and nothing else changes.
pub proof fn law_remove_key_removes_it(pre: Animation, a: RemoveKey, post: Animation, r: Result<(), RemoveKeyError>)
    requires
        <Animation as Apply<RemoveKey>>::applied(pre, a, post, r),
    ensures
        r is Ok <==> holds_key(pre@, a.node_id, a.key_id),
        r is Err ==> post@ == pre@,
        r is Ok ==> {
            let t = track_of(pre@.nodes[a.node_id]);
            let u = track_of(post@.nodes[a.node_id]);
            &&& post@.nodes.contains_key(a.node_id) && post@.nodes[a.node_id] is Track
            &&& !u.keys.contains_key(a.key_id)
            &&& u.keys.dom() == t.keys.dom().remove(a.key_id)
            &&& forall|k: Uuid| #[trigger] u.keys.contains_key(k) ==> u.keys[k] == t.keys[k]
            &&& !u.key_ordering.contains(a.key_id)
            &&& forall|k: Uuid| k != a.key_id ==> (#[trigger] u.key_ordering.contains(k) <==> t.key_ordering.contains(k))
            &&& node_attributes(post@.nodes[a.node_id]) == node_attributes(pre@.nodes[a.node_id])
            &&& same_but_node(pre@, post@, a.node_id)
        },
{
    if r is Ok {
        let t = track_of(pre@.nodes[a.node_id]);
        let u = track_of(post@.nodes[a.node_id]);
        let p = other_than(a.key_id);
        assert(post@.nodes.dom() =~= pre@.nodes.dom());
        assert(u.keys.dom() =~= t.keys.dom().remove(a.key_id));
        assert(!u.key_ordering.contains(a.key_id)) by {
            if u.key_ordering.contains(a.key_id) {
                let i = choose|i: int| 0 <= i < u.key_ordering.len() && u.key_ordering[i] == a.key_id;
                t.key_ordering.lemma_filter_pred(p, i);
            }
        }
        assert forall|k: Uuid| k != a.key_id implies (#[trigger] u.key_ordering.contains(k) <==> t.key_ordering.contains(k)) by {
            if u.key_ordering.contains(k) {
                t.key_ordering.lemma_filter_contains_rev(p, k);
            }
            if t.key_ordering.contains(k) {
                let i = choose|i: int| 0 <= i < t.key_ordering.len() && t.key_ordering[i] == k;
                t.key_ordering.lemma_filter_contains(p, i);
            }
        }
    }
}

/// Adding a node succeeds exactly when its id is free and its parent is a
/// group that is there; then the node is there as given, the parent lists
/// it among its children and keeps its attributes, every other node is
/// kept, and nothing else changes.
pub proof fn law_add_node_adds_it(pre: Animation, a: AddNode, post: Animation, r: Result<(), AddNodeError>)
    requires
        <Animation as Apply<AddNode>>::applied(pre, a, post, r),
    ensures
        r is Ok <==> !pre@.nodes.contains_key(a.id) && pre@.nodes.contains_key(a.parent_id)
            && pre@.nodes[a.parent_id] is Group,
        r is Err ==> post@ == pre@,
        r is Ok ==> {
            &&& post@.nodes.contains_key(a.id) && post@.nodes[a.id] == a.node@
            &&& post@.nodes.dom() == pre@.nodes.dom().insert(a.id)
            &&& post@.nodes[a.parent_id] is Group
            &&& children_of(post@.nodes[a.parent_id]) == children_of(pre@.nodes[a.parent_id]).insert(a.id)
            &&& node_attributes(post@.nodes[a.parent_id]) == node_attributes(pre@.nodes[a.parent_id])
            &&& forall|k: Uuid| #[trigger] pre@.nodes.contains_key(k) && k != a.parent_id ==> post@.nodes[k] == pre@.nodes[k]
            &&& post@.name == pre@.name && post@.parent == pre@.parent && post@.root_id == pre@.root_id
            &&& post@.acl == pre@.acl
        },
{
    if r is Ok {
        assert(post@.nodes.dom() =~= pre@.nodes.dom().insert(a.id));
    }
}

/// Moving a node succeeds exactly when the node is there and the new parent
/// is a group that is there. Whenever the node is there, it is first taken
/// out of every group's children, and on success the new parent lists it;
/// every node keeps its attributes and every track its keys, and nothing
/// else changes. A missing node changes nothing.
pub proof fn law_set_node_parent_moves_it(pre: Animation, a: SetNodeParent, post: Animation, r: Result<(), SetNodeParentError>)
    requires
        <Animation as Apply<SetNodeParent>>::applied(pre, a, post, r),
    ensures
        r is Ok <==> pre@.nodes.contains_key(a.id) && pre@.nodes.contains_key(a.parent_id)
            && pre@.nodes[a.parent_id] is Group,
        !pre@.nodes.contains_key(a.id) ==> post@ == pre@ && r == Err::<(), SetNodeParentError>(SetNodeParentError::NodeDoesNotExist),
        post@.name == pre@.name && post@.parent == pre@.parent && post@.root_id == pre@.root_id,
        post@.acl == pre@.acl,
        post@.nodes.dom() == pre@.nodes.dom(),
        forall|k: Uuid| #[trigger] pre@.nodes.contains_key(k) ==> {
            &&& node_attributes(post@.nodes[k]) == node_attributes(pre@.nodes[k])
            &&& (pre@.nodes[k] is Track ==> post@.nodes[k] == pre@.nodes[k])
            &&& (pre@.nodes[k] is Group && pre@.nodes.contains_key(a.id) ==> post@.nodes[k] is Group
                && children_of(post@.nodes[k]) == if r is Ok && k == a.parent_id {
                    children_of(pre@.nodes[k]).insert(a.id)
                } else {
                    children_of(pre@.nodes[k]).remove(a.id)
                })
        },
{
    if pre@.nodes.contains_key(a.id) {
        assert(post@.nodes.dom() =~= pre@.nodes.dom());
        assert forall|k: Uuid| #[trigger] pre@.nodes.contains_key(k) implies {
            &&& node_attributes(post@.nodes[k]) == node_attributes(pre@.nodes[k])
            &&& (pre@.nodes[k] is Track ==> post@.nodes[k] == pre@.nodes[k])
            &&& (pre@.nodes[k] is Group ==> post@.nodes[k] is Group
                && children_of(post@.nodes[k]) == if r is Ok && k == a.parent_id {
                    children_of(pre@.nodes[k]).insert(a.id)
                } else {
                    children_of(pre@.nodes[k]).remove(a.id)
                })
        } by {
            if r is Ok && k == a.parent_id {
                assert(children_of(pre@.nodes[k]).remove(a.id).insert(a.id) =~= children_of(pre@.nodes[k]).insert(a.id));
            }
        }
    }
}

/// Every action, wrapped in `Action`, does to the animation what it does
/// on its own, and a refusal comes back as the same error, marked with the
/// action's kind.
pub proof fn law_wrapped_action_acts_alone(pre: Animation)
    ensures
        forall|x: AddNode, post: Animation, r: Result<(), AddNodeError>|
            #[trigger] <Animation as Apply<AddNode>>::applied(pre, x, post, r) ==> <Animation as Apply<Action>>::applied(
                pre,
                Action::AddNode(x),
                post,
                match r { Ok(()) => Ok(()), Err(e) => Err(ActionError::AddNode(e)) },
            ),
        forall|x: RemoveNode, post: Animation, r: Result<(), RemoveNodeError>|
            #[trigger] <Animation as Apply<RemoveNode>>::applied(pre, x, post, r) ==> <Animation as Apply<Action>>::applied(
                pre,
                Action::RemoveNode(x),
                post,
                match r { Ok(()) => Ok(()), Err(e) => Err(ActionError::RemoveNode(e)) },
            ),
        forall|x: AddKey, post: Animation, r: Result<(), AddKeyError>|
            #[trigger] <Animation as Apply<AddKey>>::applied(pre, x, post, r) ==> <Animation as Apply<Action>>::applied(
                pre,
                Action::AddKey(x),
                post,
                match r { Ok(()) => Ok(()), Err(e) => Err(ActionError::AddKey(e)) },
            ),
        forall|x: RemoveKey, post: Animation, r: Result<(), RemoveKeyError>|
            #[trigger] <Animation as Apply<RemoveKey>>::applied(pre, x, post, r) ==> <Animation as Apply<Action>>::applied(
                pre,
                Action::RemoveKey(x),
                post,
                match r { Ok(()) => Ok(()), Err(e) => Err(ActionError::RemoveKey(e)) },
            ),
        forall|x: RemoveKeys, post: Animation, r: Result<(), RemoveKeysError>|
            #[trigger] <Animation as Apply<RemoveKeys>>::applied(pre, x, post, r) ==> <Animation as Apply<Action>>::applied(
                pre,
                Action::RemoveKeys(x),
                post,
                match r { Ok(()) => Ok(()), Err(e) => Err(ActionError::RemoveKeys(e)) },
            ),
        forall|x: SetNodeName, post: Animation, r: Result<(), SetNodeNameError>|
            #[trigger] <Animation as Apply<SetNodeName>>::applied(pre, x, post, r) ==> <Animation as Apply<Action>>::applied(
                pre,
                Action::SetNodeName(x),
                post,
                match r { Ok(()) => Ok(()), Err(e) => Err(ActionError::SetNodeName(e)) },
            ),
        forall|x: SetNodeParent, post: Animation, r: Result<(), SetNodeParentError>|
            #[trigger] <Animation as Apply<SetNodeParent>>::applied(pre, x, post, r) ==> <Animation as Apply<Action>>::applied(
                pre,
                Action::SetNodeParent(x),
                post,
                match r { Ok(()) => Ok(()), Err(e) => Err(ActionError::SetNodeParent(e)) },
            ),
        forall|x: SetNodeColor, post: Animation, r: Result<(), SetNodeColorError>|
            #[trigger] <Animation as Apply<SetNodeColor>>::applied(pre, x, post, r) ==> <Animation as Apply<Action>>::applied(
                pre,
                Action::SetNodeColor(x),
                post,
                match r { Ok(()) => Ok(()), Err(e) => Err(ActionError::SetNodeColor(e)) },
            ),
        forall|x: SetNodeLocked, post: Animation, r: Result<(), SetNodeLockedError>|
            #[trigger] <Animation as Apply<SetNodeLocked>>::applied(pre, x, post, r) ==> <Animation as Apply<Action>>::applied(
                pre,
                Action::SetNodeLocked(x),
                post,
                match r { Ok(()) => Ok(()), Err(e) => Err(ActionError::SetNodeLocked(e)) },
            ),
        forall|x: SetNodeCollapsed, post: Animation, r: Result<(), SetNodeCollapsedError>|
            #[trigger] <Animation as Apply<SetNodeCollapsed>>::applied(pre, x, post, r) ==> <Animation as Apply<Action>>::applied(
                pre,
                Action::SetNodeCollapsed(x),
                post,
                match r { Ok(()) => Ok(()), Err(e) => Err(ActionError::SetNodeCollapsed(e)) },
            ),
        forall|x: SetKeyAt, post: Animation, r: Result<(), SetKeyAtError>|
            #[trigger] <Animation as Apply<SetKeyAt>>::applied(pre, x, post, r) ==> <Animation as Apply<Action>>::applied(
                pre,
                Action::SetKeyAt(x),
                post,
                match r { Ok(()) => Ok(()), Err(e) => Err(ActionError::SetKeyAt(e)) },
            ),
        forall|x: SetKeysAt, post: Animation, r: Result<(), SetKeysAtError>|
            #[trigger] <Animation as Apply<SetKeysAt>>::applied(pre, x, post, r) ==> <Animation as Apply<Action>>::applied(
                pre,
                Action::SetKeysAt(x),
                post,
                match r { Ok(()) => Ok(()), Err(e) => Err(ActionError::SetKeysAt(e)) },
            ),
        forall|x: SetKeyValue, post: Animation, r: Result<(), SetKeyValueError>|
            #[trigger] <Animation as Apply<SetKeyValue>>::applied(pre, x, post, r) ==> <Animation as Apply<Action>>::applied(
                pre,
                Action::SetKeyValue(x),
                post,
                match r { Ok(()) => Ok(()), Err(e) => Err(ActionError::SetKeyValue(e)) },
            ),
        forall|x: SetKeyTransition, post: Animation, r: Result<(), SetKeyTransitionError>|
            #[trigger] <Animation as Apply<SetKeyTransition>>::applied(pre, x, post, r) ==> <Animation as Apply<Action>>::applied(
                pre,
                Action::SetKeyTransition(x),
                post,
                match r { Ok(()) => Ok(()), Err(e) => Err(ActionError::SetKeyTransition(e)) },
            ),
        forall|x: AclAction, post: Animation, r: Result<(), AclActionError>|
            #[trigger] <Animation as Apply<AclAction>>::applied(pre, x, post, r) ==> <Animation as Apply<Action>>::applied(
                pre,
                Action::Acl(x),
                post,
                match r { Ok(()) => Ok(()), Err(e) => Err(ActionError::Acl(e)) },
            ),
{
}

/// Whether a selector in the list names key `key_id` of node `node_id`.
pub open spec fn selected(sels: Seq<KeySelector>, node_id: Uuid, key_id: Uuid) -> bool {
    exists|i: int| 0 <= i < sels.len() && #[trigger] sels[i] == (KeySelector { node_id, key_id })
}

/// Taking `id` out of a sequence keeps every other id it holds, and only those.
proof fn lemma_filter_other_than(s: Seq<Uuid>, id: Uuid)
    ensures
        forall|k: Uuid| #[trigger] s.filter(other_than(id)).contains(k) <==> s.contains(k) && k != id,
{
    let p = other_than(id);
    assert forall|k: Uuid| #[trigger] s.filter(p).contains(k) <==> s.contains(k) && k != id by {
        if s.filter(p).contains(k) {
            s.lemma_filter_contains_rev(p, k);
            let i = choose|i: int| 0 <= i < s.filter(p).len() && s.filter(p)[i] == k;
            s.lemma_filter_pred(p, i);
        }
        if s.contains(k) && k != id {
            let i = choose|i: int| 0 <= i < s.len() && s[i] == k;
            s.lemma_filter_contains(p, i);
        }
    }
}

/// No selector is missing exactly when every selector names a key that a
/// track holds.
proof fn lemma_none_missing(nodes: Map<Uuid, NodeView>, sels: Seq<KeySelector>)
    ensures
        first_missing_key(nodes, sels) is None <==> forall|i: int|
            0 <= i < sels.len() ==> lookup_key(nodes, #[trigger] sels[i].node_id, sels[i].key_id) == KeyLookup::Found,
    decreases sels.len(),
{
    if sels.len() > 0 {
        lemma_none_missing(nodes, sels.drop_first());
        if first_missing_key(nodes, sels) is None {
            assert forall|i: int| 0 <= i < sels.len() implies lookup_key(nodes, #[trigger] sels[i].node_id, sels[i].key_id)
                == KeyLookup::Found by {
                if i > 0 {
                    assert(sels[i] == sels.drop_first()[i - 1]);
                }
            }
        } else if lookup_key(nodes, sels[0].node_id, sels[0].key_id) == KeyLookup::Found {
            let i = choose|i: int| 0 <= i < sels.drop_first().len()
                && lookup_key(nodes, #[trigger] sels.drop_first()[i].node_id, sels.drop_first()[i].key_id) != KeyLookup::Found;
            assert(sels[i + 1] == sels.drop_first()[i]);
        }
    }
}

/// What removing the selected keys one after another does to each node:
/// groups and every node's attributes are kept, and a track keeps exactly
/// the keys, and the ids of its ordering, that no selector names.
proof fn lemma_remove_selected(nodes: Map<Uuid, NodeView>, sels: Seq<KeySelector>)
    ensures
        remove_selected(nodes, sels).dom() == nodes.dom(),
        forall|k: Uuid| #[trigger] nodes.contains_key(k) ==> {
            let n = nodes[k];
            let m = remove_selected(nodes, sels)[k];
            &&& node_attributes(m) == node_attributes(n)
            &&& (n is Group ==> m == n)
            &&& (n is Track ==> m is Track)
            &&& (n is Track ==> forall|key: Uuid| #[trigger] track_of(m).keys.contains_key(key)
                <==> track_of(n).keys.contains_key(key) && !selected(sels, k, key))
            &&& (n is Track ==> forall|key: Uuid| #[trigger] track_of(m).keys.contains_key(key)
                ==> track_of(m).keys[key] == track_of(n).keys[key])
            &&& (n is Track ==> forall|key: Uuid| #[trigger] track_of(m).key_ordering.contains(key)
                <==> track_of(n).key_ordering.contains(key) && !selected(sels, k, key))
        },
    decreases sels.len(),
{
    if sels.len() > 0 {
        let sel = sels[0];
        let rest = sels.drop_first();
        let next = if nodes.contains_key(sel.node_id) {
            match nodes[sel.node_id] {
                NodeView::Track(t) => nodes.insert(sel.node_id, NodeView::Track(super::action::track_without_key(t, sel.key_id))),
                NodeView::Group(_) => nodes,
            }
        } else {
            nodes
        };
        assert(remove_selected(nodes, sels) == remove_selected(next, rest));
        lemma_remove_selected(next, rest);
        if nodes.contains_key(sel.node_id) && nodes[sel.node_id] is Track {
            lemma_filter_other_than(track_of(nodes[sel.node_id]).key_ordering, sel.key_id);
        }
        assert(next.dom() =~= nodes.dom());
        assert forall|k: Uuid, key: Uuid| selected(sels, k, key) <==> (sel == (KeySelector { node_id: k, key_id: key })
            || selected(rest, k, key)) by {
            if selected(sels, k, key) {
                let i = choose|i: int| 0 <= i < sels.len() && #[trigger] sels[i] == (KeySelector { node_id: k, key_id: key });
                if i > 0 {
                    assert(rest[i - 1] == sels[i]);
                }
            }
            if selected(rest, k, key) {
                let i = choose|i: int| 0 <= i < rest.len() && #[trigger] rest[i] == (KeySelector { node_id: k, key_id: key });
                assert(sels[i + 1] == rest[i]);
            }
        }
    }
}

/// Removing several keys succeeds exactly when every selector names a key
/// that a track holds; then each track has lost exactly the selected keys,
/// from its keys and its ordering, keeps every other key as it was, every
/// node keeps its attributes, groups are kept, and nothing else changes.
/// A refusal changes nothing.
pub proof fn law_remove_keys_removes_them(pre: Animation, a: RemoveKeys, post: Animation, r: Result<(), RemoveKeysError>)
    requires
        <Animation as Apply<RemoveKeys>>::applied(pre, a, post, r),
    ensures
        r is Ok <==> forall|i: int| 0 <= i < a.selectors@.len()
            ==> holds_key(pre@, #[trigger] a.selectors@[i].node_id, a.selectors@[i].key_id),
        r is Err ==> post@ == pre@,
        r is Ok ==> {
            &&& post@.name == pre@.name && post@.parent == pre@.parent && post@.root_id == pre@.root_id
            &&& post@.acl == pre@.acl
            &&& post@.nodes.dom() == pre@.nodes.dom()
            &&& forall|k: Uuid| #[trigger] pre@.nodes.contains_key(k) ==> {
                let n = pre@.nodes[k];
                let m = post@.nodes[k];
                &&& node_attributes(m) == node_attributes(n)
                &&& (n is Group ==> m == n)
                &&& (n is Track ==> m is Track)
                &&& (n is Track ==> forall|key: Uuid| #[trigger] track_of(m).keys.contains_key(key)
                    <==> track_of(n).keys.contains_key(key) && !selected(a.selectors@, k, key))
                &&& (n is Track ==> forall|key: Uuid| #[trigger] track_of(m).keys.contains_key(key)
                    ==> track_of(m).keys[key] == track_of(n).keys[key])
                &&& (n is Track ==> forall|key: Uuid| #[trigger] track_of(m).key_ordering.contains(key)
                    <==> track_of(n).key_ordering.contains(key) && !selected(a.selectors@, k, key))
            }
        },
{
    let sels = a.selectors@;
    lemma_none_missing(pre@.nodes, sels);
    assert forall|i: int| 0 <= i < sels.len() implies (holds_key(pre@, #[trigger] sels[i].node_id, sels[i].key_id)
        <==> lookup_key(pre@.nodes, sels[i].node_id, sels[i].key_id) == KeyLookup::Found) by {}
    lemma_remove_selected(pre@.nodes, sels);
}

/// The time that the last selector naming key `key_id` of node `node_id`
/// gives it, if any selector names it.
pub open spec fn last_at(ats: Seq<KeySelectorAt>, node_id: Uuid, key_id: Uuid) -> Option<F64Bits>
    decreases ats.len(),
{
    if ats.len() == 0 {
        None
    } else {
        match last_at(ats.drop_first(), node_id, key_id) {
            Some(at) => Some(at),
            None => if ats[0].selector == (KeySelector { node_id, key_id }) {
                Some(ats[0].at)
            } else {
                None
            },
        }
    }
}

/// Whether a selector names node `node_id` and one of the key ids `ids`.
pub open spec fn touches(ats: Seq<KeySelectorAt>, node_id: Uuid, ids: Set<Uuid>) -> bool {
    exists|i: int| 0 <= i < ats.len() && #[trigger] ats[i].selector.node_id == node_id && ids.contains(ats[i].selector.key_id)
}

/// What moving the selected keys one after another does to each node:
/// groups and every node's attributes are kept; a track keeps its key ids,
/// each key's value and transition, and each key takes the time of the last
/// selector naming it. A track that a selector touches ends with its
/// ordering sorted by the new times; one that none touches is kept whole.
proof fn lemma_set_selected(nodes: Map<Uuid, NodeView>, ats: Seq<KeySelectorAt>)
    ensures
        set_selected_ats(nodes, ats).dom() == nodes.dom(),
        forall|k: Uuid| #[trigger] nodes.contains_key(k) ==> {
            let n = nodes[k];
            let m = set_selected_ats(nodes, ats)[k];
            let t = track_of(n);
            let u = track_of(m);
            &&& node_attributes(m) == node_attributes(n)
            &&& (n is Group ==> m == n)
            &&& (n is Track ==> m is Track)
            &&& (n is Track ==> u.keys.dom() == t.keys.dom())
            &&& (n is Track ==> forall|key: Uuid| #[trigger] t.keys.contains_key(key) ==> {
                &&& u.keys[key].value == t.keys[key].value
                &&& u.keys[key].transition == t.keys[key].transition
                &&& u.keys[key].at == match last_at(ats, k, key) {
                    Some(at) => at,
                    None => t.keys[key].at,
                }
            })
            &&& (n is Track ==> u.key_ordering.to_multiset() == t.key_ordering.to_multiset())
            &&& (n is Track && touches(ats, k, t.keys.dom()) ==> sorted_by(u.key_ordering, key_time(u.keys)))
            &&& (n is Track && !touches(ats, k, t.keys.dom()) ==> m == n)
        },
    decreases ats.len(),
{
    if ats.len() > 0 {
        let a = ats[0];
        let rest = ats.drop_first();
        let found = lookup_key(nodes, a.selector.node_id, a.selector.key_id) == KeyLookup::Found;
        let next = if found {
            nodes_key_changed(nodes, a.selector.node_id, a.selector.key_id, KeyChange::At(a.at))
        } else {
            nodes
        };
        assert(set_selected_ats(nodes, ats) == set_selected_ats(next, rest));
        lemma_set_selected(next, rest);
        assert(next.dom() =~= nodes.dom());
        if found {
            let t = track_of(nodes[a.selector.node_id]);
            let keys = t.keys.insert(a.selector.key_id, KeyView { at: a.at, ..t.keys[a.selector.key_id] });
            lemma_sort_by_key(t.key_ordering, key_time(keys));
            assert(keys.dom() =~= t.keys.dom());
        }
        assert forall|k: Uuid, ids: Set<Uuid>| touches(ats, k, ids) <==> ((a.selector.node_id == k && ids.contains(a.selector.key_id))
            || touches(rest, k, ids)) by {
            if touches(ats, k, ids) {
                let i = choose|i: int| 0 <= i < ats.len() && #[trigger] ats[i].selector.node_id == k && ids.contains(ats[i].selector.key_id);
                if i > 0 {
                    assert(rest[i - 1] == ats[i]);
                }
            }
            if touches(rest, k, ids) {
                let i = choose|i: int| 0 <= i < rest.len() && #[trigger] rest[i].selector.node_id == k && ids.contains(rest[i].selector.key_id);
                assert(ats[i + 1] == rest[i]);
            }
        }
        let out = set_selected_ats(nodes, ats);
        assert forall|k: Uuid| #[trigger] nodes.contains_key(k) && nodes[k] is Track && !touches(rest, k, track_of(nodes[k]).keys.dom())
            implies track_of(out[k]).keys == track_of(next[k]).keys by {
            assert forall|key: Uuid| #[trigger] track_of(next[k]).keys.contains_key(key) implies last_at(rest, k, key) is None by {
                if last_at(rest, k, key) is Some {
                    lemma_last_at_named(rest, k, key);
                    let i = choose|i: int| 0 <= i < rest.len() && #[trigger] rest[i].selector == (KeySelector { node_id: k, key_id: key });
                    assert(track_of(next[k]).keys.dom() =~= track_of(nodes[k]).keys.dom());
                    assert(rest[i].selector.node_id == k && track_of(nodes[k]).keys.dom().contains(rest[i].selector.key_id));
                }
            }
            assert(track_of(out[k]).keys =~= track_of(next[k]).keys);
        }
    }
}

/// A key that takes a time from the selectors is named by one of them.
proof fn lemma_last_at_named(ats: Seq<KeySelectorAt>, node_id: Uuid, key_id: Uuid)
    requires
        last_at(ats, node_id, key_id) is Some,
    ensures
        exists|i: int| 0 <= i < ats.len() && #[trigger] ats[i].selector == (KeySelector { node_id, key_id }),
    decreases ats.len(),
{
    if last_at(ats.drop_first(), node_id, key_id) is Some {
        lemma_last_at_named(ats.drop_first(), node_id, key_id);
        let i = choose|i: int| 0 <= i < ats.drop_first().len() && #[trigger] ats.drop_first()[i].selector == (KeySelector { node_id, key_id });
        assert(ats[i + 1] == ats.drop_first()[i]);
    } else {
        assert(ats[0].selector == (KeySelector { node_id, key_id }));
    }
}

/// Moving several keys in time succeeds exactly when every selector names a
/// key that a track holds; then each key takes the time of the last
/// selector naming it and keeps its value and transition, every track keeps
/// its key ids, and the ids of its ordering as often as before, sorted by
/// the new times where a selector names one of its keys, every node keeps
/// its attributes, groups and untouched tracks are kept, and nothing else
/// changes. A refusal changes nothing.
pub proof fn law_set_keys_at_moves_them(pre: Animation, a: SetKeysAt, post: Animation, r: Result<(), SetKeysAtError>)
    requires
        <Animation as Apply<SetKeysAt>>::applied(pre, a, post, r),
    ensures
        r is Ok <==> forall|i: int| 0 <= i < a.ats@.len()
            ==> holds_key(pre@, #[trigger] a.ats@[i].selector.node_id, a.ats@[i].selector.key_id),
        r is Err ==> post@ == pre@,
        r is Ok ==> {
            &&& post@.name == pre@.name && post@.parent == pre@.parent && post@.root_id == pre@.root_id
            &&& post@.acl == pre@.acl
            &&& post@.nodes.dom() == pre@.nodes.dom()
            &&& forall|k: Uuid| #[trigger] pre@.nodes.contains_key(k) ==> {
                let n = pre@.nodes[k];
                let m = post@.nodes[k];
                let t = track_of(n);
                let u = track_of(m);
                &&& node_attributes(m) == node_attributes(n)
                &&& (n is Group ==> m == n)
                &&& (n is Track ==> m is Track)
                &&& (n is Track ==> u.keys.dom() == t.keys.dom())
                &&& (n is Track ==> forall|key: Uuid| #[trigger] t.keys.contains_key(key) ==> {
                    &&& u.keys[key].value == t.keys[key].value
                    &&& u.keys[key].transition == t.keys[key].transition
                    &&& u.keys[key].at == match last_at(a.ats@, k, key) {
                        Some(at) => at,
                        None => t.keys[key].at,
                    }
                })
                &&& (n is Track ==> u.key_ordering.to_multiset() == t.key_ordering.to_multiset())
                &&& (n is Track && touches(a.ats@, k, t.keys.dom()) ==> sorted_by(u.key_ordering, key_time(u.keys)))
                &&& (n is Track && !touches(a.ats@, k, t.keys.dom()) ==> m == n)
            }
        },
{
    let ats = a.ats@;
    let sels = selectors_of(ats);
    lemma_none_missing(pre@.nodes, sels);
    assert forall|i: int| 0 <= i < ats.len() implies (holds_key(pre@, #[trigger] ats[i].selector.node_id, ats[i].selector.key_id)
        <==> lookup_key(pre@.nodes, sels[i].node_id, sels[i].key_id) == KeyLookup::Found) by {
        assert(sels[i] == ats[i].selector);
    }
    if r is Ok {
        assert forall|i: int| 0 <= i < ats.len() implies holds_key(pre@, #[trigger] ats[i].selector.node_id, ats[i].selector.key_id) by {
            assert(sels[i] == ats[i].selector);
        }
    } else if forall|i: int| 0 <= i < ats.len() ==> holds_key(pre@, #[trigger] ats[i].selector.node_id, ats[i].selector.key_id) {
        assert forall|i: int| 0 <= i < sels.len() implies lookup_key(pre@.nodes, #[trigger] sels[i].node_id, sels[i].key_id) == KeyLookup::Found by {
            assert(sels[i] == ats[i].selector);
            assert(holds_key(pre@, ats[i].selector.node_id, ats[i].selector.key_id));
        }
    }
    lemma_set_selected(pre@.nodes, ats);
}

/// Removing a node succeeds exactly when it is there; then it is gone,
/// every group drops it from its children, every other node keeps its
/// attributes and every track its keys, and nothing else changes.
pub proof fn law_remove_node_removes_it(pre: Animation, a: RemoveNode, post: Animation, r: Result<(), RemoveNodeError>)
    requires
        <Animation as Apply<RemoveNode>>::applied(pre, a, post, r),
    ensures
        r is Ok <==> pre@.nodes.contains_key(a.id),
        r is Err ==> post@ == pre@,
        r is Ok ==> {
            &&& post@.name == pre@.name && post@.parent == pre@.parent && post@.root_id == pre@.root_id
            &&& post@.acl == pre@.acl
            &&& post@.nodes.dom() == pre@.nodes.dom().remove(a.id)
            &&& forall|k: Uuid| #[trigger] post@.nodes.contains_key(k) ==> {
                &&& node_attributes(post@.nodes[k]) == node_attributes(pre@.nodes[k])
                &&& (pre@.nodes[k] is Track ==> post@.nodes[k] == pre@.nodes[k])
                &&& (pre@.nodes[k] is Group ==> post@.nodes[k] is Group
                    && children_of(post@.nodes[k]) == children_of(pre@.nodes[k]).remove(a.id))
            }
        },
{
    if r is Ok {
        assert(post@.nodes.dom() =~= pre@.nodes.dom().remove(a.id));
    }
}

} // verus!
