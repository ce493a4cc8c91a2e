use vstd::prelude::*;

use super::action::{
    add_key, add_node, apply_action, remove_key, remove_node, Action, ActionError, AddKey,
    AddKeyError, AddNode, AddNodeError, RemoveKey, RemoveNode, RemoveNodeError,
};
use super::action::{AddControl, AddControlError, RemoveKeyError};
use super::action::{
    SetControlLocked, SetControlLockedError, SetControlName, SetControlNameError, SetKeyAt,
    SetKeyAtError, SetKeyTransition, SetKeyTransitionError, SetNodeCollapsed, SetNodeCollapsedError,
    SetNodeName, SetNodeNameError,
};
use super::action::{SetKeysAt, SetKeysAtError};
use super::action::{first_missing_key, lookup_key, set_one_at, set_selected_ats, KeyLookup, KeySelector, KeySelectorAt};
use crate::acl::action::{Action as AclAction, ActionError as AclActionError};
use super::unfrozen::{name_view, Animation, AnimationView, ControlView, KeyView, NodeKindView};
use crate::record::Apply;
use crate::animation::v0::action::key_time;
use crate::float_order::{
    insert_sorted, lemma_insert_sorted_filter, lemma_sort_by_key, lemma_sort_sorted, sort_by_key, sorted_by,
};
use crate::collections::other_than;
use crate::float_order::F64Bits;
use crate::record::Uuid;

verus! {

broadcast use vstd::seq_lib::group_to_multiset_ensures;

/// No group of the outline lists `id` among its children.
pub open spec fn unlisted(v: AnimationView, id: Uuid) -> bool {
    forall|k: Uuid|
        #[trigger] v.nodes.contains_key(k) ==> match v.nodes[k].kind {
            NodeKindView::Group(children) => !children.contains(id),
            NodeKindView::Control(_) => true,
        }
}

/// After a key is added, the control's key ordering holds the old ids and
/// the new one, each as often as before, ordered by time.
pub proof fn law_add_key_orders_by_time(v: AnimationView, a: AddKey, w: AnimationView)
    requires
        add_key(v, a) == (w, Ok::<(), AddKeyError>(())),
    ensures
        v.controls.contains_key(a.control_id),
        w.controls.contains_key(a.control_id),
        w.controls[a.control_id].keys == v.controls[a.control_id].keys.insert(a.key_id, a.key@),
        sorted_by(w.controls[a.control_id].key_ordering, key_time(w.controls[a.control_id].keys)),
        w.controls[a.control_id].key_ordering.to_multiset() == v.controls[a.control_id].key_ordering.to_multiset().insert(a.key_id),
{
    let c = v.controls[a.control_id];
    let keys = c.keys.insert(a.key_id, a.key@);
    lemma_sort_by_key(c.key_ordering.push(a.key_id), key_time(keys));
}

/// Removing a key that was just added to a control gives back the
/// animation as it was, where the control's ordering held only ids of its
/// keys, sorted by their times.
pub proof fn law_add_then_remove_key_restores(v: AnimationView, a: AddKey, w: AnimationView)
    requires
        add_key(v, a) == (w, Ok::<(), AddKeyError>(())),
        sorted_by(v.controls[a.control_id].key_ordering, key_time(v.controls[a.control_id].keys)),
        forall|i: int|
            0 <= i < v.controls[a.control_id].key_ordering.len() ==> v.controls[a.control_id].keys.contains_key(
                #[trigger] v.controls[a.control_id].key_ordering[i],
            ),
    ensures
        remove_key(w, RemoveKey { control_id: a.control_id, key_id: a.key_id }).0 == v,
{
    let c = v.controls[a.control_id];
    let ko = c.key_ordering;
    let keys = c.keys.insert(a.key_id, a.key@);
    let kt = key_time(keys);
    assert(sorted_by(ko, kt)) by {
        assert forall|i: int, j: int| 0 <= i <= j < ko.len() implies kt(ko[i]) <= kt(ko[j]) by {
            assert(c.keys.contains_key(ko[i]) && c.keys.contains_key(ko[j]));
            assert(keys[ko[i]] == c.keys[ko[i]]);
            assert(keys[ko[j]] == c.keys[ko[j]]);
            assert(key_time(c.keys)(ko[i]) <= key_time(c.keys)(ko[j]));
        }
    }
    lemma_sort_sorted(ko, kt);
    assert(ko.push(a.key_id).drop_last() =~= ko);
    assert(sort_by_key(ko.push(a.key_id), kt) == insert_sorted(ko, a.key_id, kt));
    assert(!ko.contains(a.key_id)) by {
        if ko.contains(a.key_id) {
            let i = choose|i: int| 0 <= i < ko.len() && ko[i] == a.key_id;
            assert(c.keys.contains_key(ko[i]));
        }
    }
    lemma_insert_sorted_filter(ko, a.key_id, kt);
    assert(keys.remove(a.key_id) =~= c.keys);
    let u = remove_key(w, RemoveKey { control_id: a.control_id, key_id: a.key_id }).0;
    assert(u.controls[a.control_id] == c);
    assert(u.controls =~= v.controls);
}

/// A removed node is gone, and no group keeps it among its children; every
/// other node stays.
pub proof fn law_remove_node_forgets_it(v: AnimationView, a: RemoveNode, w: AnimationView, id: Uuid)
    requires
        remove_node(v, a) == (w, Ok::<(), RemoveNodeError>(())),
    ensures
        !w.nodes.contains_key(a.node_id),
        w.nodes.contains_key(id) <==> (v.nodes.contains_key(id) && id != a.node_id),
        unlisted(w, a.node_id),
        w.controls == v.controls,
{
}

/// Removing a node that was just added, under an id no group listed, gives
/// back the outline as it was.
pub proof fn law_add_then_remove_node_restores(v: AnimationView, a: AddNode, w: AnimationView)
    requires
        add_node(v, a) == (w, Ok::<(), AddNodeError>(())),
        unlisted(v, a.node_id),
    ensures
        remove_node(w, RemoveNode { node_id: a.node_id }).0 == v,
{
    let u = remove_node(w, RemoveNode { node_id: a.node_id }).0;
    assert forall|k: Uuid| #[trigger] u.nodes.contains_key(k) implies u.nodes[k] == v.nodes[k] by {
        match v.nodes[k].kind {
            NodeKindView::Group(children) => {
                if a.parent_id == Some(k) {
                    assert(children.insert(a.node_id).remove(a.node_id) =~= children);
                } else {
                    assert(children.remove(a.node_id) =~= children);
                }
            },
            NodeKindView::Control(_) => {},
        }
    }
    assert(u.nodes =~= v.nodes);
}

/// A refused action leaves the animation as it was.
pub proof fn law_refused_action_changes_nothing(v: AnimationView, a: Action, w: AnimationView, e: ActionError)
    requires
        apply_action(v, a) == (w, Err::<(), ActionError>(e)),
    ensures
        w == v,
{
}

/// Whether two animations agree on everything but the node `id`.
pub open spec fn same_but_node(v: AnimationView, w: AnimationView, id: Uuid) -> bool {
    &&& w.name == v.name && w.parent == v.parent && w.acl == v.acl && w.controls == v.controls
    &&& w.nodes.dom() == v.nodes.dom()
    &&& forall|k: Uuid| #[trigger] v.nodes.contains_key(k) && k != id ==> w.nodes[k] == v.nodes[k]
}

/// Whether two animations agree on everything but the control `id`.
pub open spec fn same_but_control(v: AnimationView, w: AnimationView, id: Uuid) -> bool {
    &&& w.name == v.name && w.parent == v.parent && w.acl == v.acl && w.nodes == v.nodes
    &&& w.controls.dom() == v.controls.dom()
    &&& forall|k: Uuid| #[trigger] v.controls.contains_key(k) && k != id ==> w.controls[k] == v.controls[k]
}

/// Collapsing or expanding a node succeeds exactly when the node is there;
/// then its flag is the one asked for, its name and kind are kept, and
/// nothing else changes.
pub proof fn law_set_node_collapsed_sets_it(pre: Animation, a: SetNodeCollapsed, post: Animation, r: Result<(), SetNodeCollapsedError>)
    requires
        <Animation as Apply<SetNodeCollapsed>>::applied(pre, a, post, r),
    ensures
        r is Ok <==> pre@.nodes.contains_key(a.node_id),
        r is Err ==> post@ == pre@,
        r is Ok ==> post@.nodes.contains_key(a.node_id) && post@.nodes[a.node_id].collapsed == a.collapsed
            && post@.nodes[a.node_id].name == pre@.nodes[a.node_id].name
            && post@.nodes[a.node_id].kind == pre@.nodes[a.node_id].kind
            && same_but_node(pre@, post@, a.node_id),
{
    if r is Ok {
        assert(post@.nodes.dom() =~= pre@.nodes.dom());
    }
}

/// Naming a node succeeds exactly when the node is there; then it has the
/// name asked for (or none), its flag and kind are kept, and nothing else
/// changes.
pub proof fn law_set_node_name_sets_it(pre: Animation, a: SetNodeName, post: Animation, r: Result<(), SetNodeNameError>)
    requires
        <Animation as Apply<SetNodeName>>::applied(pre, a, post, r),
    ensures
        r is Ok <==> pre@.nodes.contains_key(a.node_id),
        r is Err ==> post@ == pre@,
        r is Ok ==> post@.nodes.contains_key(a.node_id) && post@.nodes[a.node_id].name == name_view(a.name)
            && post@.nodes[a.node_id].collapsed == pre@.nodes[a.node_id].collapsed
            && post@.nodes[a.node_id].kind == pre@.nodes[a.node_id].kind
            && same_but_node(pre@, post@, a.node_id),
{
    if r is Ok {
        assert(post@.nodes.dom() =~= pre@.nodes.dom());
    }
}

/// Locking or unlocking a control succeeds exactly when the control is
/// there; then its flag is the one asked for, its name, keys and ordering
/// are kept, and nothing else changes.
pub proof fn law_set_control_locked_sets_it(pre: Animation, a: SetControlLocked, post: Animation, r: Result<(), SetControlLockedError>)
    requires
        <Animation as Apply<SetControlLocked>>::applied(pre, a, post, r),
    ensures
        r is Ok <==> pre@.controls.contains_key(a.control_id),
        r is Err ==> post@ == pre@,
        r is Ok ==> post@.controls.contains_key(a.control_id) && post@.controls[a.control_id].locked == a.locked
            && post@.controls[a.control_id].name == pre@.controls[a.control_id].name
            && post@.controls[a.control_id].keys == pre@.controls[a.control_id].keys
            && post@.controls[a.control_id].key_ordering == pre@.controls[a.control_id].key_ordering
            && same_but_control(pre@, post@, a.control_id),
{
    if r is Ok {
        assert(post@.controls.dom() =~= pre@.controls.dom());
    }
}

/// Naming a control succeeds exactly when the control is there; then it has
/// the name asked for, its flag, keys and ordering are kept, and nothing
/// else changes.
pub proof fn law_set_control_name_sets_it(pre: Animation, a: SetControlName, post: Animation, r: Result<(), SetControlNameError>)
    requires
        <Animation as Apply<SetControlName>>::applied(pre, a, post, r),
    ensures
        r is Ok <==> pre@.controls.contains_key(a.control_id),
        r is Err ==> post@ == pre@,
        r is Ok ==> post@.controls.contains_key(a.control_id) && post@.controls[a.control_id].name == a.name@
            && post@.controls[a.control_id].locked == pre@.controls[a.control_id].locked
            && post@.controls[a.control_id].keys == pre@.controls[a.control_id].keys
            && post@.controls[a.control_id].key_ordering == pre@.controls[a.control_id].key_ordering
            && same_but_control(pre@, post@, a.control_id),
{
    if r is Ok {
        assert(post@.controls.dom() =~= pre@.controls.dom());
    }
}

/// Setting a key's transition succeeds exactly when the control and the
/// key are there; then the key has the transition asked for, its time and
/// value are kept, every other key and the ordering are kept, and nothing
/// else changes.
pub proof fn law_set_key_transition_sets_it(pre: Animation, a: SetKeyTransition, post: Animation, r: Result<(), SetKeyTransitionError>)
    requires
        <Animation as Apply<SetKeyTransition>>::applied(pre, a, post, r),
    ensures
        r is Ok <==> pre@.controls.contains_key(a.control_id) && pre@.controls[a.control_id].keys.contains_key(a.key_id),
        r is Err ==> post@ == pre@,
        r is Ok ==> {
            let c = pre@.controls[a.control_id];
            let d = post@.controls[a.control_id];
            &&& post@.controls.contains_key(a.control_id)
            &&& d.keys.contains_key(a.key_id)
            &&& d.keys[a.key_id].transition == a.transition@
            &&& d.keys[a.key_id].at == c.keys[a.key_id].at
            &&& d.keys[a.key_id].value == c.keys[a.key_id].value
            &&& d.keys.dom() == c.keys.dom()
            &&& forall|k: Uuid| #[trigger] c.keys.contains_key(k) && k != a.key_id ==> d.keys[k] == c.keys[k]
            &&& d.key_ordering == c.key_ordering && d.name == c.name && d.locked == c.locked
            &&& same_but_control(pre@, post@, a.control_id)
        },
{
    if r is Ok {
        assert(post@.controls.dom() =~= pre@.controls.dom());
        assert(post@.controls[a.control_id].keys.dom() =~= pre@.controls[a.control_id].keys.dom());
    }
}

/// Setting a key's time succeeds exactly when the control and the key are
/// there; then the key has the time asked for, its value and transition are
/// kept, every other key is kept, the ordering holds the same ids as often
/// as before, sorted by time, and nothing else changes.
pub proof fn law_set_key_at_sets_it(pre: Animation, a: SetKeyAt, post: Animation, r: Result<(), SetKeyAtError>)
    requires
        <Animation as Apply<SetKeyAt>>::applied(pre, a, post, r),
    ensures
        r is Ok <==> pre@.controls.contains_key(a.control_id) && pre@.controls[a.control_id].keys.contains_key(a.key_id),
        r is Err ==> post@ == pre@,
        r is Ok ==> {
            let c = pre@.controls[a.control_id];
            let d = post@.controls[a.control_id];
            &&& post@.controls.contains_key(a.control_id)
            &&& d.keys.contains_key(a.key_id)
            &&& d.keys[a.key_id].at == a.at
            &&& d.keys[a.key_id].value == c.keys[a.key_id].value
            &&& d.keys[a.key_id].transition == c.keys[a.key_id].transition
            &&& d.keys.dom() == c.keys.dom()
            &&& forall|k: Uuid| #[trigger] c.keys.contains_key(k) && k != a.key_id ==> d.keys[k] == c.keys[k]
            &&& d.key_ordering.to_multiset() == c.key_ordering.to_multiset()
            &&& sorted_by(d.key_ordering, key_time(d.keys))
            &&& d.name == c.name && d.locked == c.locked
            &&& same_but_control(pre@, post@, a.control_id)
        },
{
    if r is Ok {
        let c = pre@.controls[a.control_id];
        let d = post@.controls[a.control_id];
        assert(post@.controls.dom() =~= pre@.controls.dom());
        assert(d.keys.dom() =~= c.keys.dom());
        lemma_sort_by_key(c.key_ordering, key_time(d.keys));
    }
}

/// Adding a control succeeds exactly when its id is free; then the control
/// is there as given, every other control is kept, and nothing else changes.
pub proof fn law_add_control_adds_it(pre: Animation, a: AddControl, post: Animation, r: Result<(), AddControlError>)
    requires
        <Animation as Apply<AddControl>>::applied(pre, a, post, r),
    ensures
        r is Ok <==> !pre@.controls.contains_key(a.control_id),
        r is Err ==> post@ == pre@,
        r is Ok ==> {
            &&& post@.controls.contains_key(a.control_id)
            &&& post@.controls[a.control_id] == a.control@
            &&& post@.controls.dom() == pre@.controls.dom().insert(a.control_id)
            &&& forall|k: Uuid| #[trigger] pre@.controls.contains_key(k) ==> post@.controls[k] == pre@.controls[k]
            &&& post@.name == pre@.name && post@.parent == pre@.parent && post@.acl == pre@.acl
            &&& post@.nodes == pre@.nodes
        },
{
    if r is Ok {
        assert(post@.controls.dom() =~= pre@.controls.dom().insert(a.control_id));
    }
}

/// Adding a node succeeds exactly when its id is free and its parent, if
/// one is named, is a group that is there; then the node is there as given,
/// the parent lists it among its children and keeps its name and flag,
/// every other node is kept, and nothing else changes.
pub proof fn law_add_node_adds_it(pre: Animation, a: AddNode, post: Animation, r: Result<(), AddNodeError>)
    requires
        <Animation as Apply<AddNode>>::applied(pre, a, post, r),
    ensures
        r is Ok <==> !pre@.nodes.contains_key(a.node_id) && match a.parent_id {
            None => true,
            Some(p) => pre@.nodes.contains_key(p) && pre@.nodes[p].kind is Group,
        },
        r is Err ==> post@ == pre@,
        r is Ok ==> {
            &&& post@.nodes.contains_key(a.node_id)
            &&& post@.nodes[a.node_id] == a.node@
            &&& post@.nodes.dom() == pre@.nodes.dom().insert(a.node_id)
            &&& forall|k: Uuid| #[trigger] pre@.nodes.contains_key(k) && Some(k) != a.parent_id
                ==> post@.nodes[k] == pre@.nodes[k]
            &&& post@.name == pre@.name && post@.parent == pre@.parent && post@.acl == pre@.acl
            &&& post@.controls == pre@.controls
        },
        r is Ok && a.parent_id is Some ==> {
            let p = a.parent_id->Some_0;
            &&& post@.nodes[p].name == pre@.nodes[p].name
            &&& post@.nodes[p].collapsed == pre@.nodes[p].collapsed
            &&& match (pre@.nodes[p].kind, post@.nodes[p].kind) {
                (NodeKindView::Group(before), NodeKindView::Group(after)) => after == before.insert(a.node_id),
                _ => false,
            }
        },
{
    if r is Ok {
        assert(post@.nodes.dom() =~= pre@.nodes.dom().insert(a.node_id));
    }
}

/// Removing a key succeeds exactly when the control and the key are there;
/// then the key is gone from the control's keys and its ordering, every
/// other key and every other id of the ordering stay, and nothing else
/// changes.
pub proof fn law_remove_key_removes_it(pre: Animation, a: RemoveKey, post: Animation, r: Result<(), RemoveKeyError>)
    requires
        <Animation as Apply<RemoveKey>>::applied(pre, a, post, r),
    ensures
        r is Ok <==> pre@.controls.contains_key(a.control_id) && pre@.controls[a.control_id].keys.contains_key(a.key_id),
        r is Err ==> post@ == pre@,
        r is Ok ==> {
            let c = pre@.controls[a.control_id];
            let d = post@.controls[a.control_id];
            &&& post@.controls.contains_key(a.control_id)
            &&& !d.keys.contains_key(a.key_id)
            &&& d.keys.dom() == c.keys.dom().remove(a.key_id)
            &&& forall|k: Uuid| #[trigger] d.keys.contains_key(k) ==> d.keys[k] == c.keys[k]
            &&& !d.key_ordering.contains(a.key_id)
            &&& forall|k: Uuid| k != a.key_id ==> (#[trigger] d.key_ordering.contains(k) <==> c.key_ordering.contains(k))
            &&& d.name == c.name && d.locked == c.locked
            &&& same_but_control(pre@, post@, a.control_id)
        },
{
    if r is Ok {
        let c = pre@.controls[a.control_id];
        let d = post@.controls[a.control_id];
        let p = other_than(a.key_id);
        assert(post@.controls.dom() =~= pre@.controls.dom());
        assert(d.keys.dom() =~= c.keys.dom().remove(a.key_id));
        assert(!d.key_ordering.contains(a.key_id)) by {
            if d.key_ordering.contains(a.key_id) {
                let i = choose|i: int| 0 <= i < d.key_ordering.len() && d.key_ordering[i] == a.key_id;
                c.key_ordering.lemma_filter_pred(p, i);
            }
        }
        assert forall|k: Uuid| k != a.key_id implies (#[trigger] d.key_ordering.contains(k) <==> c.key_ordering.contains(k)) by {
            if d.key_ordering.contains(k) {
                c.key_ordering.lemma_filter_contains_rev(p, k);
            }
            if c.key_ordering.contains(k) {
                let i = choose|i: int| 0 <= i < c.key_ordering.len() && c.key_ordering[i] == k;
                c.key_ordering.lemma_filter_contains(p, i);
            }
        }
    }
}

/// Every action, wrapped in `Action`, does to the animation what it does
/// on its own, and a refusal comes back as the same error, marked with the
/// action's kind.
pub proof fn law_wrapped_action_acts_alone(pre: Animation)
    ensures
        forall|x: AddControl, post: Animation, r: Result<(), AddControlError>|
            #[trigger] <Animation as Apply<AddControl>>::applied(pre, x, post, r) ==> <Animation as Apply<Action>>::applied(
                pre,
                Action::AddControl(x),
                post,
                match r { Ok(()) => Ok(()), Err(e) => Err(ActionError::AddControl(e)) },
            ),
        forall|x: AddNode, post: Animation, r: Result<(), AddNodeError>|
            #[trigger] <Animation as Apply<AddNode>>::applied(pre, x, post, r) ==> <Animation as Apply<Action>>::applied(
                pre,
                Action::AddNode(x),
                post,
                match r { Ok(()) => Ok(()), Err(e) => Err(ActionError::AddNode(e)) },
            ),
        forall|x: RemoveNode, post: Animation, r: Result<(), RemoveNodeError>|
            #[trigger] <Animation as Apply<RemoveNode>>::applied(pre, x, post, r) ==> <Animation as Apply<Action>>::applied(
                pre,
                Action::RemoveNode(x),
                post,
                match r { Ok(()) => Ok(()), Err(e) => Err(ActionError::RemoveNode(e)) },
            ),
        forall|x: AddKey, post: Animation, r: Result<(), AddKeyError>|
            #[trigger] <Animation as Apply<AddKey>>::applied(pre, x, post, r) ==> <Animation as Apply<Action>>::applied(
                pre,
                Action::AddKey(x),
                post,
                match r { Ok(()) => Ok(()), Err(e) => Err(ActionError::AddKey(e)) },
            ),
        forall|x: RemoveKey, post: Animation, r: Result<(), RemoveKeyError>|
            #[trigger] <Animation as Apply<RemoveKey>>::applied(pre, x, post, r) ==> <Animation as Apply<Action>>::applied(
                pre,
                Action::RemoveKey(x),
                post,
                match r { Ok(()) => Ok(()), Err(e) => Err(ActionError::RemoveKey(e)) },
            ),
        forall|x: SetControlName, post: Animation, r: Result<(), SetControlNameError>|
            #[trigger] <Animation as Apply<SetControlName>>::applied(pre, x, post, r) ==> <Animation as Apply<Action>>::applied(
                pre,
                Action::SetControlName(x),
                post,
                match r { Ok(()) => Ok(()), Err(e) => Err(ActionError::SetControlName(e)) },
            ),
        forall|x: SetNodeName, post: Animation, r: Result<(), SetNodeNameError>|
            #[trigger] <Animation as Apply<SetNodeName>>::applied(pre, x, post, r) ==> <Animation as Apply<Action>>::applied(
                pre,
                Action::SetNodeName(x),
                post,
                match r { Ok(()) => Ok(()), Err(e) => Err(ActionError::SetNodeName(e)) },
            ),
        forall|x: SetControlLocked, post: Animation, r: Result<(), SetControlLockedError>|
            #[trigger] <Animation as Apply<SetControlLocked>>::applied(pre, x, post, r) ==> <Animation as Apply<Action>>::applied(
                pre,
                Action::SetControlLocked(x),
                post,
                match r { Ok(()) => Ok(()), Err(e) => Err(ActionError::SetControlLocked(e)) },
            ),
        forall|x: SetNodeCollapsed, post: Animation, r: Result<(), SetNodeCollapsedError>|
            #[trigger] <Animation as Apply<SetNodeCollapsed>>::applied(pre, x, post, r) ==> <Animation as Apply<Action>>::applied(
                pre,
                Action::SetNodeCollapsed(x),
                post,
                match r { Ok(()) => Ok(()), Err(e) => Err(ActionError::SetNodeCollapsed(e)) },
            ),
        forall|x: SetKeyAt, post: Animation, r: Result<(), SetKeyAtError>|
            #[trigger] <Animation as Apply<SetKeyAt>>::applied(pre, x, post, r) ==> <Animation as Apply<Action>>::applied(
                pre,
                Action::SetKeyAt(x),
                post,
                match r { Ok(()) => Ok(()), Err(e) => Err(ActionError::SetKeyAt(e)) },
            ),
        forall|x: SetKeysAt, post: Animation, r: Result<(), SetKeysAtError>|
            #[trigger] <Animation as Apply<SetKeysAt>>::applied(pre, x, post, r) ==> <Animation as Apply<Action>>::applied(
                pre,
                Action::SetKeysAt(x),
                post,
                match r { Ok(()) => Ok(()), Err(e) => Err(ActionError::SetKeysAt(e)) },
            ),
        forall|x: SetKeyTransition, post: Animation, r: Result<(), SetKeyTransitionError>|
            #[trigger] <Animation as Apply<SetKeyTransition>>::applied(pre, x, post, r) ==> <Animation as Apply<Action>>::applied(
                pre,
                Action::SetKeyTransition(x),
                post,
                match r { Ok(()) => Ok(()), Err(e) => Err(ActionError::SetKeyTransition(e)) },
            ),
        forall|x: AclAction, post: Animation, r: Result<(), AclActionError>|
            #[trigger] <Animation as Apply<AclAction>>::applied(pre, x, post, r) ==> <Animation as Apply<Action>>::applied(
                pre,
                Action::Acl(x),
                post,
                match r { Ok(()) => Ok(()), Err(e) => Err(ActionError::Acl(e)) },
            ),
{
}

/// The time that the last selector naming key `key_id` of control
/// `control_id` gives it, if any selector names it.
pub open spec fn last_at(ats: Seq<KeySelectorAt>, control_id: Uuid, key_id: Uuid) -> Option<F64Bits>
    decreases ats.len(),
{
    if ats.len() == 0 {
        None
    } else {
        match last_at(ats.drop_first(), control_id, key_id) {
            Some(at) => Some(at),
            None => if ats[0].selector == (KeySelector { control_id, key_id }) {
                Some(ats[0].at)
            } else {
                None
            },
        }
    }
}

/// Whether a selector names control `control_id` and one of the key ids `ids`.
pub open spec fn touches(ats: Seq<KeySelectorAt>, control_id: Uuid, ids: Set<Uuid>) -> bool {
    exists|i: int| 0 <= i < ats.len() && #[trigger] ats[i].selector.control_id == control_id && ids.contains(ats[i].selector.key_id)
}

/// No selector is missing exactly when every selector names a key that a
/// control holds.
proof fn lemma_none_missing(controls: Map<Uuid, ControlView>, ats: Seq<KeySelectorAt>)
    ensures
        first_missing_key(controls, ats) is None <==> forall|i: int|
            0 <= i < ats.len() ==> lookup_key(controls, #[trigger] ats[i].selector.control_id, ats[i].selector.key_id) == KeyLookup::Found,
    decreases ats.len(),
{
    if ats.len() > 0 {
        let rest = ats.drop_first();
        lemma_none_missing(controls, rest);
        if first_missing_key(controls, ats) is None {
            assert forall|i: int| 0 <= i < ats.len() implies lookup_key(controls, #[trigger] ats[i].selector.control_id, ats[i].selector.key_id)
                == KeyLookup::Found by {
                if i > 0 {
                    assert(ats[i] == rest[i - 1]);
                }
            }
        } else if lookup_key(controls, ats[0].selector.control_id, ats[0].selector.key_id) == KeyLookup::Found {
            let i = choose|i: int| 0 <= i < rest.len()
                && lookup_key(controls, #[trigger] rest[i].selector.control_id, rest[i].selector.key_id) != KeyLookup::Found;
            assert(ats[i + 1] == rest[i]);
        }
    }
}

/// A key that takes a time from the selectors is named by one of them.
proof fn lemma_last_at_named(ats: Seq<KeySelectorAt>, control_id: Uuid, key_id: Uuid)
    requires
        last_at(ats, control_id, key_id) is Some,
    ensures
        exists|i: int| 0 <= i < ats.len() && #[trigger] ats[i].selector == (KeySelector { control_id, key_id }),
    decreases ats.len(),
{
    if last_at(ats.drop_first(), control_id, key_id) is Some {
        lemma_last_at_named(ats.drop_first(), control_id, key_id);
        let i = choose|i: int| 0 <= i < ats.drop_first().len() && #[trigger] ats.drop_first()[i].selector == (KeySelector { control_id, key_id });
        assert(ats[i + 1] == ats.drop_first()[i]);
    } else {
        assert(ats[0].selector == (KeySelector { control_id, key_id }));
    }
}

/// What moving the selected keys one after another does to each control:
/// it keeps its name, flag and key ids, each key its value and transition,
/// and each key takes the time of the last selector naming it. A control
/// that a selector touches ends with its ordering sorted by the new times;
/// one that none touches is kept whole.
proof fn lemma_set_selected(controls: Map<Uuid, ControlView>, ats: Seq<KeySelectorAt>)
    ensures
        set_selected_ats(controls, ats).dom() == controls.dom(),
        forall|k: Uuid| #[trigger] controls.contains_key(k) ==> {
            let c = controls[k];
            let d = set_selected_ats(controls, ats)[k];
            &&& d.name == c.name && d.locked == c.locked
            &&& d.keys.dom() == c.keys.dom()
            &&& forall|key: Uuid| #[trigger] c.keys.contains_key(key) ==> {
                &&& d.keys[key].value == c.keys[key].value
                &&& d.keys[key].transition == c.keys[key].transition
                &&& d.keys[key].at == match last_at(ats, k, key) {
                    Some(at) => at,
                    None => c.keys[key].at,
                }
            }
            &&& d.key_ordering.to_multiset() == c.key_ordering.to_multiset()
            &&& touches(ats, k, c.keys.dom()) ==> sorted_by(d.key_ordering, key_time(d.keys))
            &&& !touches(ats, k, c.keys.dom()) ==> d == c
        },
    decreases ats.len(),
{
    if ats.len() > 0 {
        let a = ats[0];
        let rest = ats.drop_first();
        let next = set_one_at(controls, a);
        assert(set_selected_ats(controls, ats) == set_selected_ats(next, rest));
        lemma_set_selected(next, rest);
        assert(next.dom() =~= controls.dom());
        if lookup_key(controls, a.selector.control_id, a.selector.key_id) == KeyLookup::Found {
            let c = controls[a.selector.control_id];
            let keys = c.keys.insert(a.selector.key_id, KeyView { at: a.at, ..c.keys[a.selector.key_id] });
            lemma_sort_by_key(c.key_ordering, key_time(keys));
            assert(keys.dom() =~= c.keys.dom());
        }
        assert forall|k: Uuid, ids: Set<Uuid>| touches(ats, k, ids) <==> ((a.selector.control_id == k && ids.contains(a.selector.key_id))
            || touches(rest, k, ids)) by {
            if touches(ats, k, ids) {
                let i = choose|i: int| 0 <= i < ats.len() && #[trigger] ats[i].selector.control_id == k && ids.contains(ats[i].selector.key_id);
                if i > 0 {
                    assert(rest[i - 1] == ats[i]);
                }
            }
            if touches(rest, k, ids) {
                let i = choose|i: int| 0 <= i < rest.len() && #[trigger] rest[i].selector.control_id == k && ids.contains(rest[i].selector.key_id);
                assert(ats[i + 1] == rest[i]);
            }
        }
        let out = set_selected_ats(controls, ats);
        assert forall|k: Uuid| #[trigger] controls.contains_key(k) && !touches(rest, k, controls[k].keys.dom())
            implies out[k].keys == next[k].keys by {
            assert forall|key: Uuid| #[trigger] next[k].keys.contains_key(key) implies last_at(rest, k, key) is None by {
                if last_at(rest, k, key) is Some {
                    lemma_last_at_named(rest, k, key);
                    let i = choose|i: int| 0 <= i < rest.len() && #[trigger] rest[i].selector == (KeySelector { control_id: k, key_id: key });
                    assert(next[k].keys.dom() =~= controls[k].keys.dom());
                    assert(rest[i].selector.control_id == k && controls[k].keys.dom().contains(rest[i].selector.key_id));
                }
            }
            assert(out[k].keys =~= next[k].keys);
        }
    }
}

/// Moving several keys in time succeeds exactly when every selector names a
/// key that a control holds; then each key takes the time of the last
/// selector naming it and keeps its value and transition, every control
/// keeps its name, flag and key ids, and the ids of its ordering as often
/// as before, sorted by the new times where a selector names one of its
/// keys, untouched controls are kept whole, and nothing else changes. A
/// refusal changes nothing.
pub proof fn law_set_keys_at_moves_them(pre: Animation, a: SetKeysAt, post: Animation, r: Result<(), SetKeysAtError>)
    requires
        <Animation as Apply<SetKeysAt>>::applied(pre, a, post, r),
    ensures
        r is Ok <==> forall|i: int| 0 <= i < a.ats@.len() ==> pre@.controls.contains_key(#[trigger] a.ats@[i].selector.control_id)
            && pre@.controls[a.ats@[i].selector.control_id].keys.contains_key(a.ats@[i].selector.key_id),
        r is Err ==> post@ == pre@,
        r is Ok ==> {
            &&& post@.name == pre@.name && post@.parent == pre@.parent && post@.acl == pre@.acl
            &&& post@.nodes == pre@.nodes
            &&& post@.controls.dom() == pre@.controls.dom()
            &&& forall|k: Uuid| #[trigger] pre@.controls.contains_key(k) ==> {
                let c = pre@.controls[k];
                let d = post@.controls[k];
                &&& d.name == c.name && d.locked == c.locked
                &&& d.keys.dom() == c.keys.dom()
                &&& forall|key: Uuid| #[trigger] c.keys.contains_key(key) ==> {
                    &&& d.keys[key].value == c.keys[key].value
                    &&& d.keys[key].transition == c.keys[key].transition
                    &&& d.keys[key].at == match last_at(a.ats@, k, key) {
                        Some(at) => at,
                        None => c.keys[key].at,
                    }
                }
                &&& d.key_ordering.to_multiset() == c.key_ordering.to_multiset()
                &&& touches(a.ats@, k, c.keys.dom()) ==> sorted_by(d.key_ordering, key_time(d.keys))
                &&& !touches(a.ats@, k, c.keys.dom()) ==> d == c
            }
        },
{
    lemma_none_missing(pre@.controls, a.ats@);
    lemma_set_selected(pre@.controls, a.ats@);
}

/// Removing a node succeeds exactly when it is there; then it is gone,
/// every group drops it from its children, every other node keeps its name,
/// flag and what it shows, and nothing else changes.
pub proof fn law_remove_node_removes_it(pre: Animation, a: RemoveNode, post: Animation, r: Result<(), RemoveNodeError>)
    requires
        <Animation as Apply<RemoveNode>>::applied(pre, a, post, r),
    ensures
        r is Ok <==> pre@.nodes.contains_key(a.node_id),
        r is Err ==> post@ == pre@,
        r is Ok ==> {
            &&& post@.name == pre@.name && post@.parent == pre@.parent && post@.acl == pre@.acl
            &&& post@.controls == pre@.controls
            &&& post@.nodes.dom() == pre@.nodes.dom().remove(a.node_id)
            &&& forall|k: Uuid| #[trigger] post@.nodes.contains_key(k) ==> {
                &&& post@.nodes[k].name == pre@.nodes[k].name
                &&& post@.nodes[k].collapsed == pre@.nodes[k].collapsed
                &&& match (pre@.nodes[k].kind, post@.nodes[k].kind) {
                    (NodeKindView::Group(before), NodeKindView::Group(after)) => after == before.remove(a.node_id),
                    (NodeKindView::Control(before), NodeKindView::Control(after)) => after == before,
                    _ => false,
                }
            }
        },
{
    if r is Ok {
        assert(post@.nodes.dom() =~= pre@.nodes.dom().remove(a.node_id));
    }
}

} // verus!
