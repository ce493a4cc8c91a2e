use std::collections::HashMap;
use vstd::prelude::*;

use super::unfrozen::{
    controls_view, keys_view, nodes_view, Animation, AnimationView, Control, ControlView, Key,
    KeyView, Node, NodeKind, NodeKindView, NodeView, Transition, TransitionView,
};
use crate::acl::action::{
    apply_action as acl_apply_action, Action as AclAction, ActionError as AclActionError,
};
use crate::animation::v0::action::{key_time, sortable};
use crate::collections::{map_keys, other_than};
use crate::float_order::{lemma_sort_short, order_key_of, sort_by_key, stable_sort_ids, F64Bits};
use crate::record::{Apply, Uuid};

verus! {

broadcast use vstd::std_specs::hash::group_hash_axioms;

// ---------------------------------------------------------------------------
// Views of control and node maps

pub proof fn lemma_controls_view_insert(m: Map<Uuid, Control>, k: Uuid, c: Control)
    ensures
        controls_view(m.insert(k, c)) == controls_view(m).insert(k, c@),
{
    assert(controls_view(m.insert(k, c)) =~= controls_view(m).insert(k, c@));
}

pub proof fn lemma_controls_view_remove(m: Map<Uuid, Control>, k: Uuid)
    ensures
        controls_view(m.remove(k)) == controls_view(m).remove(k),
{
    assert(controls_view(m.remove(k)) =~= controls_view(m).remove(k));
}

pub proof fn lemma_nodes_view_insert(m: Map<Uuid, Node>, k: Uuid, n: Node)
    ensures
        nodes_view(m.insert(k, n)) == nodes_view(m).insert(k, n@),
{
    assert(nodes_view(m.insert(k, n)) =~= nodes_view(m).insert(k, n@));
}

pub proof fn lemma_nodes_view_remove(m: Map<Uuid, Node>, k: Uuid)
    ensures
        nodes_view(m.remove(k)) == nodes_view(m).remove(k),
{
    assert(nodes_view(m.remove(k)) =~= nodes_view(m).remove(k));
}

pub proof fn lemma_keys_view_insert(m: Map<Uuid, Key>, k: Uuid, key: Key)
    ensures
        keys_view(m.insert(k, key)) == keys_view(m).insert(k, key@),
{
    assert(keys_view(m.insert(k, key)) =~= keys_view(m).insert(k, key@));
}

pub proof fn lemma_keys_view_remove(m: Map<Uuid, Key>, k: Uuid)
    ensures
        keys_view(m.remove(k)) == keys_view(m).remove(k),
{
    assert(keys_view(m.remove(k)) =~= keys_view(m).remove(k));
}

// ---------------------------------------------------------------------------
// Mathematical description of the actions

pub open spec fn with_controls(v: AnimationView, controls: Map<Uuid, ControlView>) -> AnimationView {
    AnimationView { controls, ..v }
}

pub open spec fn with_nodes(v: AnimationView, nodes: Map<Uuid, NodeView>) -> AnimationView {
    AnimationView { nodes, ..v }
}

/// The animation with control `id` replaced.
pub open spec fn with_control(v: AnimationView, id: Uuid, c: ControlView) -> AnimationView {
    with_controls(v, v.controls.insert(id, c))
}

/// A control whose key ordering is sorted by the times of its keys.
pub open spec fn sorted_control(c: ControlView) -> ControlView {
    ControlView { key_ordering: sort_by_key(c.key_ordering, key_time(c.keys)), ..c }
}

pub struct AddControl {
    pub control_id: Uuid,
    pub control: Control,
}

#[derive(Clone, Copy, PartialEq, Eq, Structural, Debug)]
pub enum AddControlError {
    /// Control already exists.
    ControlExists,
}

pub open spec fn add_control(v: AnimationView, a: AddControl) -> (AnimationView, Result<(), AddControlError>) {
    if v.controls.contains_key(a.control_id) {
        (v, Err(AddControlError::ControlExists))
    } else {
        (with_control(v, a.control_id, a.control@), Ok(()))
    }
}

pub struct AddNode {
    pub parent_id: Option<Uuid>,
    pub node_id: Uuid,
    pub node: Node,
}

#[derive(Clone, Copy, PartialEq, Eq, Structural, Debug)]
pub enum AddNodeError {
    /// Node already exists.
    NodeExists,
    /// Parent node does not exist.
    ParentDoesNotExist,
    /// Parent node is not a group.
    ParentIsNotGroup,
}

/// Adding a node, at the top or as a child of a group.
pub open spec fn add_node(v: AnimationView, a: AddNode) -> (AnimationView, Result<(), AddNodeError>) {
    if v.nodes.contains_key(a.node_id) {
        (v, Err(AddNodeError::NodeExists))
    } else {
        match a.parent_id {
            None => (with_nodes(v, v.nodes.insert(a.node_id, a.node@)), Ok(())),
            Some(p) => if !v.nodes.contains_key(p) {
                (v, Err(AddNodeError::ParentDoesNotExist))
            } else {
                match v.nodes[p].kind {
                    NodeKindView::Group(children) => (
                        with_nodes(
                            v,
                            v.nodes.insert(
                                p,
                                NodeView {
                                    kind: NodeKindView::Group(children.insert(a.node_id)),
                                    ..v.nodes[p]
                                },
                            ).insert(a.node_id, a.node@),
                        ),
                        Ok(()),
                    ),
                    NodeKindView::Control(_) => (v, Err(AddNodeError::ParentIsNotGroup)),
                }
            },
        }
    }
}

pub struct RemoveNode {
    pub node_id: Uuid,
}

#[derive(Clone, Copy, PartialEq, Eq, Structural, Debug)]
pub enum RemoveNodeError {
    /// Node does not exist.
    NodeDoesNotExist,
}

/// A node with `id` taken out of its children, if it is a group.
pub open spec fn without_child(n: NodeView, id: Uuid) -> NodeView {
    match n.kind {
        NodeKindView::Group(children) => NodeView { kind: NodeKindView::Group(children.remove(id)), ..n },
        NodeKindView::Control(_) => n,
    }
}

pub open spec fn without_child_everywhere(nodes: Map<Uuid, NodeView>, id: Uuid) -> Map<Uuid, NodeView> {
    nodes.map_values(|n: NodeView| without_child(n, id))
}

/// Removing a node, and its id from every group's children.
pub open spec fn remove_node(v: AnimationView, a: RemoveNode) -> (AnimationView, Result<(), RemoveNodeError>) {
    if v.nodes.contains_key(a.node_id) {
        (with_nodes(v, without_child_everywhere(v.nodes.remove(a.node_id), a.node_id)), Ok(()))
    } else {
        (v, Err(RemoveNodeError::NodeDoesNotExist))
    }
}

pub struct AddKey {
    pub control_id: Uuid,
    pub key_id: Uuid,
    pub key: Key,
}

#[derive(Clone, Copy, PartialEq, Eq, Structural, Debug)]
pub enum AddKeyError {
    /// Control does not exist.
    ControlDoesNotExist,
    /// Key already exists.
    KeyExists,
}

/// A control with a key added and its ordering sorted again by time.
pub open spec fn control_with_key(c: ControlView, key_id: Uuid, key: KeyView) -> ControlView {
    sorted_control(
        ControlView {
            keys: c.keys.insert(key_id, key),
            key_ordering: c.key_ordering.push(key_id),
            ..c
        },
    )
}

pub open spec fn add_key(v: AnimationView, a: AddKey) -> (AnimationView, Result<(), AddKeyError>) {
    if !v.controls.contains_key(a.control_id) {
        (v, Err(AddKeyError::ControlDoesNotExist))
    } else if v.controls[a.control_id].keys.contains_key(a.key_id) {
        (v, Err(AddKeyError::KeyExists))
    } else {
        (
            with_control(v, a.control_id, control_with_key(v.controls[a.control_id], a.key_id, a.key@)),
            Ok(()),
        )
    }
}

/// The sort after adding the key can read every key's time.
pub open spec fn add_key_applicable(v: AnimationView, a: AddKey) -> bool {
    (v.controls.contains_key(a.control_id) && !v.controls[a.control_id].keys.contains_key(a.key_id))
        ==> sortable(
        v.controls[a.control_id].keys.insert(a.key_id, a.key@),
        v.controls[a.control_id].key_ordering.push(a.key_id),
    )
}

pub struct RemoveKey {
    pub control_id: Uuid,
    pub key_id: Uuid,
}

#[derive(Clone, Copy, PartialEq, Eq, Structural, Debug)]
pub enum RemoveKeyError {
    /// Control does not exist.
    ControlDoesNotExist,
    /// Key does not exist.
    KeyDoesNotExist,
}

pub open spec fn control_without_key(c: ControlView, key_id: Uuid) -> ControlView {
    ControlView {
        keys: c.keys.remove(key_id),
        key_ordering: c.key_ordering.filter(other_than(key_id)),
        ..c
    }
}

pub open spec fn remove_key(v: AnimationView, a: RemoveKey) -> (AnimationView, Result<(), RemoveKeyError>) {
    if !v.controls.contains_key(a.control_id) {
        (v, Err(RemoveKeyError::ControlDoesNotExist))
    } else if !v.controls[a.control_id].keys.contains_key(a.key_id) {
        (v, Err(RemoveKeyError::KeyDoesNotExist))
    } else {
        (with_control(v, a.control_id, control_without_key(v.controls[a.control_id], a.key_id)), Ok(()))
    }
}

/// Where looking a key up ended.
#[derive(Clone, Copy, PartialEq, Eq, Structural, Debug)]
pub enum KeyLookup {
    ControlMissing,
    KeyMissing,
    Found,
}

pub open spec fn lookup_key(controls: Map<Uuid, ControlView>, control_id: Uuid, key_id: Uuid) -> KeyLookup {
    if !controls.contains_key(control_id) {
        KeyLookup::ControlMissing
    } else if !controls[control_id].keys.contains_key(key_id) {
        KeyLookup::KeyMissing
    } else {
        KeyLookup::Found
    }
}

/// What a key setter changes.
pub enum KeyChange {
    At(F64Bits),
    Transition(Transition),
}

pub open spec fn key_changed(k: KeyView, c: KeyChange) -> KeyView {
    match c {
        KeyChange::At(at) => KeyView { at, ..k },
        KeyChange::Transition(t) => KeyView { transition: t@, ..k },
    }
}

/// The control after a key change: a new time sorts the ordering again.
pub open spec fn control_key_changed(c: ControlView, key_id: Uuid, change: KeyChange) -> ControlView {
    let changed = ControlView { keys: c.keys.insert(key_id, key_changed(c.keys[key_id], change)), ..c };
    match change {
        KeyChange::At(_) => sorted_control(changed),
        KeyChange::Transition(_) => changed,
    }
}

/// A new time leaves an ordering whose every key's time can be read.
pub open spec fn key_change_sortable(controls: Map<Uuid, ControlView>, control_id: Uuid, key_id: Uuid, change: KeyChange) -> bool {
    (lookup_key(controls, control_id, key_id) == KeyLookup::Found && change is At) ==> sortable(
        controls[control_id].keys.insert(key_id, key_changed(controls[control_id].keys[key_id], change)),
        controls[control_id].key_ordering,
    )
}

/// The controls after changing a key that was found.
pub open spec fn controls_key_changed(controls: Map<Uuid, ControlView>, control_id: Uuid, key_id: Uuid, change: KeyChange) -> Map<Uuid, ControlView> {
    controls.insert(control_id, control_key_changed(controls[control_id], key_id, change))
}

/// The result of a key setter, given where its lookup ended.
pub open spec fn key_setter<E>(v: AnimationView, control_id: Uuid, key_id: Uuid, change: KeyChange, control_missing: E, key_missing: E) -> (AnimationView, Result<(), E>) {
    match lookup_key(v.controls, control_id, key_id) {
        KeyLookup::ControlMissing => (v, Err(control_missing)),
        KeyLookup::KeyMissing => (v, Err(key_missing)),
        KeyLookup::Found => (with_controls(v, controls_key_changed(v.controls, control_id, key_id, change)), Ok(())),
    }
}

pub struct SetKeyAt {
    pub control_id: Uuid,
    pub key_id: Uuid,
    pub at: F64Bits,
}

#[derive(Clone, Copy, PartialEq, Eq, Structural, Debug)]
pub enum SetKeyAtError {
    /// Control does not exist.
    ControlDoesNotExist,
    /// Key does not exist.
    KeyDoesNotExist,
}

pub open spec fn set_key_at(v: AnimationView, a: SetKeyAt) -> (AnimationView, Result<(), SetKeyAtError>) {
    key_setter(v, a.control_id, a.key_id, KeyChange::At(a.at), SetKeyAtError::ControlDoesNotExist, SetKeyAtError::KeyDoesNotExist)
}

pub struct SetKeyTransition {
    pub control_id: Uuid,
    pub key_id: Uuid,
    pub transition: Transition,
}

#[derive(Clone, Copy, PartialEq, Eq, Structural, Debug)]
pub enum SetKeyTransitionError {
    /// Control does not exist.
    ControlDoesNotExist,
    /// Key does not exist.
    KeyDoesNotExist,
}

pub open spec fn set_key_transition(v: AnimationView, a: SetKeyTransition) -> (AnimationView, Result<(), SetKeyTransitionError>) {
    key_setter(
        v,
        a.control_id,
        a.key_id,
        KeyChange::Transition(a.transition),
        SetKeyTransitionError::ControlDoesNotExist,
        SetKeyTransitionError::KeyDoesNotExist,
    )
}

#[derive(Clone, Copy, PartialEq, Eq, Structural, Debug)]
pub struct KeySelector {
    pub control_id: Uuid,
    pub key_id: Uuid,
}

#[derive(Clone, Copy, PartialEq, Eq, Structural, Debug)]
pub struct KeySelectorAt {
    pub selector: KeySelector,
    pub at: F64Bits,
}

pub struct SetKeysAt {
    pub ats: Vec<KeySelectorAt>,
}

#[derive(Clone, Copy, PartialEq, Eq, Structural, Debug)]
pub enum SetKeysAtError {
    /// Control does not exist.
    ControlDoesNotExist,
    /// Key does not exist.
    KeyDoesNotExist,
}

/// The first selector, in order, that names no key, and why.
pub open spec fn first_missing_key(controls: Map<Uuid, ControlView>, ats: Seq<KeySelectorAt>) -> Option<KeyLookup>
    decreases ats.len(),
{
    if ats.len() == 0 {
        None
    } else {
        let l = lookup_key(controls, ats[0].selector.control_id, ats[0].selector.key_id);
        if l != KeyLookup::Found {
            Some(l)
        } else {
            first_missing_key(controls, ats.drop_first())
        }
    }
}

/// The controls after one selected key is moved, if it is found.
pub open spec fn set_one_at(controls: Map<Uuid, ControlView>, a: KeySelectorAt) -> Map<Uuid, ControlView> {
    if lookup_key(controls, a.selector.control_id, a.selector.key_id) == KeyLookup::Found {
        controls_key_changed(controls, a.selector.control_id, a.selector.key_id, KeyChange::At(a.at))
    } else {
        controls
    }
}

/// The controls after moving the selected keys one after another, sorting
/// each control's ordering after each move.
pub open spec fn set_selected_ats(controls: Map<Uuid, ControlView>, ats: Seq<KeySelectorAt>) -> Map<Uuid, ControlView>
    decreases ats.len(),
{
    if ats.len() == 0 {
        controls
    } else {
        set_selected_ats(set_one_at(controls, ats[0]), ats.drop_first())
    }
}

/// Every step of moving the selected keys can read the times it sorts by.
pub open spec fn set_selected_sortable(controls: Map<Uuid, ControlView>, ats: Seq<KeySelectorAt>) -> bool
    decreases ats.len(),
{
    if ats.len() == 0 {
        true
    } else {
        key_change_sortable(controls, ats[0].selector.control_id, ats[0].selector.key_id, KeyChange::At(ats[0].at))
            && set_selected_sortable(set_one_at(controls, ats[0]), ats.drop_first())
    }
}

/// Moving several keys in time: every selector is checked first, and the
/// first that names no key is reported with nothing changed.
pub open spec fn set_keys_at(v: AnimationView, a: SetKeysAt) -> (AnimationView, Result<(), SetKeysAtError>) {
    match first_missing_key(v.controls, a.ats@) {
        Some(KeyLookup::ControlMissing) => (v, Err(SetKeysAtError::ControlDoesNotExist)),
        Some(_) => (v, Err(SetKeysAtError::KeyDoesNotExist)),
        None => (with_controls(v, set_selected_ats(v.controls, a.ats@)), Ok(())),
    }
}

pub struct SetControlLocked {
    pub control_id: Uuid,
    pub locked: bool,
}

#[derive(Clone, Copy, PartialEq, Eq, Structural, Debug)]
pub enum SetControlLockedError {
    /// Control does not exist.
    ControlDoesNotExist,
}

pub open spec fn set_control_locked(v: AnimationView, a: SetControlLocked) -> (AnimationView, Result<(), SetControlLockedError>) {
    if v.controls.contains_key(a.control_id) {
        (with_control(v, a.control_id, ControlView { locked: a.locked, ..v.controls[a.control_id] }), Ok(()))
    } else {
        (v, Err(SetControlLockedError::ControlDoesNotExist))
    }
}

pub struct SetControlName {
    pub control_id: Uuid,
    pub name: String,
}

#[derive(Clone, Copy, PartialEq, Eq, Structural, Debug)]
pub enum SetControlNameError {
    /// Control does not exist.
    ControlDoesNotExist,
}

pub open spec fn set_control_name(v: AnimationView, a: SetControlName) -> (AnimationView, Result<(), SetControlNameError>) {
    if v.controls.contains_key(a.control_id) {
        (with_control(v, a.control_id, ControlView { name: a.name@, ..v.controls[a.control_id] }), Ok(()))
    } else {
        (v, Err(SetControlNameError::ControlDoesNotExist))
    }
}

pub struct SetNodeCollapsed {
    pub node_id: Uuid,
    pub collapsed: bool,
}

#[derive(Clone, Copy, PartialEq, Eq, Structural, Debug)]
pub enum SetNodeCollapsedError {
    /// Node does not exist.
    NodeDoesNotExist,
}

pub open spec fn set_node_collapsed(v: AnimationView, a: SetNodeCollapsed) -> (AnimationView, Result<(), SetNodeCollapsedError>) {
    if v.nodes.contains_key(a.node_id) {
        (with_nodes(v, v.nodes.insert(a.node_id, NodeView { collapsed: a.collapsed, ..v.nodes[a.node_id] })), Ok(()))
    } else {
        (v, Err(SetNodeCollapsedError::NodeDoesNotExist))
    }
}

pub struct SetNodeName {
    pub node_id: Uuid,
    pub name: Option<String>,
}

#[derive(Clone, Copy, PartialEq, Eq, Structural, Debug)]
pub enum SetNodeNameError {
    /// Node does not exist.
    NodeDoesNotExist,
}

pub open spec fn set_node_name(v: AnimationView, a: SetNodeName) -> (AnimationView, Result<(), SetNodeNameError>) {
    if v.nodes.contains_key(a.node_id) {
        (
            with_nodes(v, v.nodes.insert(a.node_id, NodeView { name: super::unfrozen::name_view(a.name), ..v.nodes[a.node_id] })),
            Ok(()),
        )
    } else {
        (v, Err(SetNodeNameError::NodeDoesNotExist))
    }
}

// ---------------------------------------------------------------------------
// Executable helpers

/// Sorts a control's ordering by the times of its keys (stably).
fn sort_control(c: &mut Control)
    requires
        sortable(old(c)@.keys, old(c)@.key_ordering),
    ensures
        final(c)@ == sorted_control(old(c)@),
{
    let ghost k = key_time(c@.keys);
    let n = c.key_ordering.len();
    if n <= 1 {
        proof {
            lemma_sort_short(c@.key_ordering, k);
        }
        return;
    }
    let mut times: Vec<i128> = Vec::new();
    let mut i: usize = 0;
    while i < n
        invariant
            n == c.key_ordering@.len(),
            n > 1,
            i <= n,
            times@.len() == i,
            k == key_time(c@.keys),
            sortable(c@.keys, c@.key_ordering),
            forall|j: int| 0 <= j < i ==> times@[j] == k(#[trigger] c.key_ordering@[j]),
        decreases n - i,
    {
        let id = c.key_ordering[i];
        proof {
            assert(c@.keys.contains_key(c@.key_ordering[i as int]));
        }
        let key = c.keys.get(&id).unwrap();
        times.push(order_key_of(key.at));
        i = i + 1;
    }
    let sorted = stable_sort_ids(&c.key_ordering, &times, Ghost(k));
    c.key_ordering = sorted;
}

impl Animation {
    /// Takes control `id` out of the control map.
    fn take_control(&mut self, id: Uuid) -> (r: Option<Control>)
        ensures
            match r {
                Option::None => !old(self)@.controls.contains_key(id) && final(self)@ == old(self)@,
                Some(c) => {
                    &&& old(self)@.controls.contains_key(id)
                    &&& old(self)@.controls[id] == c@
                    &&& final(self)@ == with_controls(old(self)@, old(self)@.controls.remove(id))
                },
            },
    {
        let ghost old_controls = self.controls@;
        proof {
            lemma_controls_view_remove(old_controls, id);
        }
        let r = self.controls.remove(&id);
        if r.is_none() {
            assert(self.controls@ =~= old_controls);
        }
        r
    }

    /// Puts a control under `id`.
    fn put_control(&mut self, id: Uuid, c: Control)
        ensures
            final(self)@ == with_controls(old(self)@, old(self)@.controls.insert(id, c@)),
    {
        proof {
            lemma_controls_view_insert(self.controls@, id, c);
        }
        self.controls.insert(id, c);
    }

    /// Takes node `id` out of the node map.
    fn take_node(&mut self, id: Uuid) -> (r: Option<Node>)
        ensures
            match r {
                Option::None => !old(self)@.nodes.contains_key(id) && final(self)@ == old(self)@,
                Some(n) => {
                    &&& old(self)@.nodes.contains_key(id)
                    &&& old(self)@.nodes[id] == n@
                    &&& final(self)@ == with_nodes(old(self)@, old(self)@.nodes.remove(id))
                },
            },
    {
        let ghost old_nodes = self.nodes@;
        proof {
            lemma_nodes_view_remove(old_nodes, id);
        }
        let r = self.nodes.remove(&id);
        if r.is_none() {
            assert(self.nodes@ =~= old_nodes);
        }
        r
    }

    /// Puts a node under `id`.
    fn put_node(&mut self, id: Uuid, n: Node)
        ensures
            final(self)@ == with_nodes(old(self)@, old(self)@.nodes.insert(id, n@)),
    {
        proof {
            lemma_nodes_view_insert(self.nodes@, id, n);
        }
        self.nodes.insert(id, n);
    }

    /// Changes a key of a control, if the control has it; says where the
    /// lookup ended.
    fn change_key(&mut self, control_id: Uuid, key_id: Uuid, change: KeyChange) -> (found: KeyLookup)
        requires
            key_change_sortable(old(self)@.controls, control_id, key_id, change),
        ensures
            found == lookup_key(old(self)@.controls, control_id, key_id),
            found == KeyLookup::Found ==> final(self)@ == with_controls(
                old(self)@,
                controls_key_changed(old(self)@.controls, control_id, key_id, change),
            ),
            found != KeyLookup::Found ==> final(self)@ == old(self)@,
    {
        let ghost pre = self@;
        let ghost change_view = change;
        match self.take_control(control_id) {
            Option::None => KeyLookup::ControlMissing,
            Some(mut c) => {
                let ghost old_keys = c.keys@;
                proof {
                    lemma_keys_view_remove(old_keys, key_id);
                }
                match c.keys.remove(&key_id) {
                    Option::None => {
                        assert(c.keys@ =~= old_keys);
                        self.put_control(control_id, c);
                        assert(self@.controls =~= pre.controls);
                        KeyLookup::KeyMissing
                    },
                    Some(mut key) => {
                        let resort = match change {
                            KeyChange::At(at) => {
                                key.at = at;
                                true
                            },
                            KeyChange::Transition(t) => {
                                key.transition = t;
                                false
                            },
                        };
                        proof {
                            assert(key@ == key_changed(old_keys[key_id]@, change_view));
                            lemma_keys_view_insert(old_keys.remove(key_id), key_id, key);
                            assert(keys_view(old_keys).remove(key_id).insert(key_id, key@)
                                =~= keys_view(old_keys).insert(key_id, key@));
                        }
                        c.keys.insert(key_id, key);
                        if resort {
                            sort_control(&mut c);
                        }
                        self.put_control(control_id, c);
                        assert(self@.controls =~= pre.controls.insert(control_id, c@));
                        KeyLookup::Found
                    },
                }
            },
        }
    }
}

/// Takes `id` out of the children of every group.
fn remove_child_everywhere(nodes: &mut HashMap<Uuid, Node>, id: Uuid)
    ensures
        nodes_view(final(nodes)@) == without_child_everywhere(nodes_view(old(nodes)@), id),
{
    let ghost old_nodes = nodes@;
    let ids = map_keys(nodes);
    let n = ids.len();
    let mut i: usize = 0;
    while i < n
        invariant
            n == ids@.len(),
            i <= n,
            ids@.to_set() == old_nodes.dom(),
            ids@.no_duplicates(),
            nodes@.dom() == old_nodes.dom(),
            forall|j: int| 0 <= j < i ==> #[trigger] nodes@[ids@[j]]@ == without_child(
                old_nodes[ids@[j]]@,
                id,
            ),
            forall|k: Uuid|
                #[trigger] nodes@.contains_key(k) && !ids@.take(i as int).contains(k)
                    ==> nodes@[k] == old_nodes[k],
        decreases n - i,
    {
        let k = ids[i];
        proof {
            assert(ids@.to_set().contains(k));
            assert(!ids@.take(i as int).contains(k));
        }
        let node = nodes.remove(&k).unwrap();
        let node = match node.kind {
            NodeKind::Group(mut g) => {
                g.children_ids.remove(&id);
                Node { name: node.name, collapsed: node.collapsed, kind: NodeKind::Group(g) }
            },
            NodeKind::Control(c) => Node { name: node.name, collapsed: node.collapsed, kind: NodeKind::Control(c) },
        };
        nodes.insert(k, node);
        proof {
            assert forall|k2: Uuid|
                #[trigger] nodes@.contains_key(k2) && !ids@.take(i + 1).contains(k2)
                    implies nodes@[k2] == old_nodes[k2] by {
                assert(ids@.take(i + 1) =~= ids@.take(i as int).push(k));
                assert(ids@.take(i + 1)[i as int] == k);
                assert(k2 != k);
            }
            assert forall|j: int| 0 <= j < i + 1 implies #[trigger] nodes@[ids@[j]]@
                == without_child(old_nodes[ids@[j]]@, id) by {
                if j < i {
                    assert(ids@[j] != k);
                }
            }
        }
        i = i + 1;
    }
    proof {
        assert forall|k: Uuid| #[trigger] nodes@.contains_key(k) implies nodes@[k]@
            == without_child(old_nodes[k]@, id) by {
            assert(ids@.to_set().contains(k));
            let j = choose|j: int| 0 <= j < ids@.len() && ids@[j] == k;
            assert(nodes@[ids@[j]]@ == without_child(old_nodes[ids@[j]]@, id));
        }
        assert(nodes_view(nodes@) =~= without_child_everywhere(nodes_view(old_nodes), id));
    }
}

// ---------------------------------------------------------------------------
// Applying the actions

impl Apply<AddControl> for Animation {
    type Error = AddControlError;

    open spec fn name_mutating(action: AddControl) -> bool {
        false
    }

    open spec fn parent_mutating(action: AddControl) -> bool {
        false
    }

    open spec fn applicable(record: Animation, action: AddControl) -> bool {
        true
    }

    open spec fn applied(pre: Animation, action: AddControl, post: Animation, r: Result<(), AddControlError>) -> bool {
        (post@, r) == add_control(pre@, action)
    }

    fn mutates_name(_action: &AddControl) -> (r: bool) {
        false
    }

    fn mutates_parent(_action: &AddControl) -> (r: bool) {
        false
    }

    fn apply(&mut self, action: &AddControl) -> (r: Result<(), AddControlError>) {
        if self.controls.contains_key(&action.control_id) {
            return Err(AddControlError::ControlExists);
        }
        let c = action.control.clone();
        self.put_control(action.control_id, c);
        Ok(())
    }
}

impl Apply<AddNode> for Animation {
    type Error = AddNodeError;

    open spec fn name_mutating(action: AddNode) -> bool {
        false
    }

    open spec fn parent_mutating(action: AddNode) -> bool {
        false
    }

    open spec fn applicable(record: Animation, action: AddNode) -> bool {
        true
    }

    open spec fn applied(pre: Animation, action: AddNode, post: Animation, r: Result<(), AddNodeError>) -> bool {
        (post@, r) == add_node(pre@, action)
    }

    fn mutates_name(_action: &AddNode) -> (r: bool) {
        false
    }

    fn mutates_parent(_action: &AddNode) -> (r: bool) {
        false
    }

    fn apply(&mut self, action: &AddNode) -> (r: Result<(), AddNodeError>) {
        let ghost pre = self@;
        if self.nodes.contains_key(&action.node_id) {
            return Err(AddNodeError::NodeExists);
        }
        if let Some(parent_id) = action.parent_id {
            match self.take_node(parent_id) {
                Option::None => {
                    return Err(AddNodeError::ParentDoesNotExist);
                },
                Some(parent) => {
                    match parent.kind {
                        NodeKind::Group(mut g) => {
                            g.children_ids.insert(action.node_id);
                            self.put_node(
                                parent_id,
                                Node { name: parent.name, collapsed: parent.collapsed, kind: NodeKind::Group(g) },
                            );
                            assert(self@.nodes =~= pre.nodes.insert(
                                parent_id,
                                NodeView { kind: NodeKindView::Group(g.children_ids@), ..pre.nodes[parent_id] },
                            ));
                        },
                        NodeKind::Control(c) => {
                            self.put_node(
                                parent_id,
                                Node { name: parent.name, collapsed: parent.collapsed, kind: NodeKind::Control(c) },
                            );
                            assert(self@.nodes =~= pre.nodes);
                            return Err(AddNodeError::ParentIsNotGroup);
                        },
                    }
                },
            }
        }
        let node = action.node.clone();
        self.put_node(action.node_id, node);
        Ok(())
    }
}

impl Apply<RemoveNode> for Animation {
    type Error = RemoveNodeError;

    open spec fn name_mutating(action: RemoveNode) -> bool {
        false
    }

    open spec fn parent_mutating(action: RemoveNode) -> bool {
        false
    }

    open spec fn applicable(record: Animation, action: RemoveNode) -> bool {
        true
    }

    open spec fn applied(pre: Animation, action: RemoveNode, post: Animation, r: Result<(), RemoveNodeError>) -> bool {
        (post@, r) == remove_node(pre@, action)
    }

    fn mutates_name(_action: &RemoveNode) -> (r: bool) {
        false
    }

    fn mutates_parent(_action: &RemoveNode) -> (r: bool) {
        false
    }

    fn apply(&mut self, action: &RemoveNode) -> (r: Result<(), RemoveNodeError>) {
        if self.take_node(action.node_id).is_none() {
            return Err(RemoveNodeError::NodeDoesNotExist);
        }
        remove_child_everywhere(&mut self.nodes, action.node_id);
        Ok(())
    }
}

impl Apply<AddKey> for Animation {
    type Error = AddKeyError;

    open spec fn name_mutating(action: AddKey) -> bool {
        false
    }

    open spec fn parent_mutating(action: AddKey) -> bool {
        false
    }

    open spec fn applicable(record: Animation, action: AddKey) -> bool {
        add_key_applicable(record@, action)
    }

    open spec fn applied(pre: Animation, action: AddKey, post: Animation, r: Result<(), AddKeyError>) -> bool {
        (post@, r) == add_key(pre@, action)
    }

    fn mutates_name(_action: &AddKey) -> (r: bool) {
        false
    }

    fn mutates_parent(_action: &AddKey) -> (r: bool) {
        false
    }

    fn apply(&mut self, action: &AddKey) -> (r: Result<(), AddKeyError>) {
        let ghost pre = self@;
        match self.take_control(action.control_id) {
            Option::None => Err(AddKeyError::ControlDoesNotExist),
            Some(mut c) => {
                if c.keys.contains_key(&action.key_id) {
                    self.put_control(action.control_id, c);
                    assert(self@.controls =~= pre.controls);
                    return Err(AddKeyError::KeyExists);
                }
                let key = action.key.clone();
                proof {
                    lemma_keys_view_insert(c.keys@, action.key_id, key);
                }
                c.keys.insert(action.key_id, key);
                c.key_ordering.push(action.key_id);
                sort_control(&mut c);
                self.put_control(action.control_id, c);
                assert(self@.controls =~= pre.controls.insert(action.control_id, c@));
                Ok(())
            },
        }
    }
}

impl Apply<RemoveKey> for Animation {
    type Error = RemoveKeyError;

    open spec fn name_mutating(action: RemoveKey) -> bool {
        false
    }

    open spec fn parent_mutating(action: RemoveKey) -> bool {
        false
    }

    open spec fn applicable(record: Animation, action: RemoveKey) -> bool {
        true
    }

    open spec fn applied(pre: Animation, action: RemoveKey, post: Animation, r: Result<(), RemoveKeyError>) -> bool {
        (post@, r) == remove_key(pre@, action)
    }

    fn mutates_name(_action: &RemoveKey) -> (r: bool) {
        false
    }

    fn mutates_parent(_action: &RemoveKey) -> (r: bool) {
        false
    }

    fn apply(&mut self, action: &RemoveKey) -> (r: Result<(), RemoveKeyError>) {
        let ghost pre = self@;
        match self.take_control(action.control_id) {
            Option::None => Err(RemoveKeyError::ControlDoesNotExist),
            Some(mut c) => {
                if !c.keys.contains_key(&action.key_id) {
                    self.put_control(action.control_id, c);
                    assert(self@.controls =~= pre.controls);
                    return Err(RemoveKeyError::KeyDoesNotExist);
                }
                proof {
                    lemma_keys_view_remove(c.keys@, action.key_id);
                }
                c.keys.remove(&action.key_id);
                let target = action.key_id;
                let ghost old_ordering = c.key_ordering@;
                let mut kept: Vec<Uuid> = Vec::new();
                let n = c.key_ordering.len();
                let mut i: usize = 0;
                while i < n
                    invariant
                        n == c.key_ordering@.len(),
                        c.key_ordering@ == old_ordering,
                        i <= n,
                        kept@ == old_ordering.take(i as int).filter(other_than(target)),
                    decreases n - i,
                {
                    let k = c.key_ordering[i];
                    proof {
                        assert(old_ordering.take(i + 1).drop_last() =~= old_ordering.take(i as int));
                        assert(old_ordering.take(i + 1).last() == k);
                        reveal_with_fuel(Seq::<_>::filter, 1);
                    }
                    if k != target {
                        kept.push(k);
                    }
                    i = i + 1;
                }
                assert(old_ordering.take(n as int) =~= old_ordering);
                c.key_ordering = kept;
                self.put_control(action.control_id, c);
                assert(self@.controls =~= pre.controls.insert(action.control_id, c@));
                Ok(())
            },
        }
    }
}

impl Apply<SetKeyAt> for Animation {
    type Error = SetKeyAtError;

    open spec fn name_mutating(action: SetKeyAt) -> bool {
        false
    }

    open spec fn parent_mutating(action: SetKeyAt) -> bool {
        false
    }

    open spec fn applicable(record: Animation, action: SetKeyAt) -> bool {
        key_change_sortable(record@.controls, action.control_id, action.key_id, KeyChange::At(action.at))
    }

    open spec fn applied(pre: Animation, action: SetKeyAt, post: Animation, r: Result<(), SetKeyAtError>) -> bool {
        (post@, r) == set_key_at(pre@, action)
    }

    fn mutates_name(_action: &SetKeyAt) -> (r: bool) {
        false
    }

    fn mutates_parent(_action: &SetKeyAt) -> (r: bool) {
        false
    }

    fn apply(&mut self, action: &SetKeyAt) -> (r: Result<(), SetKeyAtError>) {
        match self.change_key(action.control_id, action.key_id, KeyChange::At(action.at)) {
            KeyLookup::ControlMissing => Err(SetKeyAtError::ControlDoesNotExist),
            KeyLookup::KeyMissing => Err(SetKeyAtError::KeyDoesNotExist),
            KeyLookup::Found => Ok(()),
        }
    }
}

impl Apply<SetKeyTransition> for Animation {
    type Error = SetKeyTransitionError;

    open spec fn name_mutating(action: SetKeyTransition) -> bool {
        false
    }

    open spec fn parent_mutating(action: SetKeyTransition) -> bool {
        false
    }

    open spec fn applicable(record: Animation, action: SetKeyTransition) -> bool {
        true
    }

    open spec fn applied(pre: Animation, action: SetKeyTransition, post: Animation, r: Result<(), SetKeyTransitionError>) -> bool {
        (post@, r) == set_key_transition(pre@, action)
    }

    fn mutates_name(_action: &SetKeyTransition) -> (r: bool) {
        false
    }

    fn mutates_parent(_action: &SetKeyTransition) -> (r: bool) {
        false
    }

    fn apply(&mut self, action: &SetKeyTransition) -> (r: Result<(), SetKeyTransitionError>) {
        let t = action.transition.clone();
        let ghost change = KeyChange::Transition(t);
        let ghost pre = self@;
        let r = self.change_key(action.control_id, action.key_id, KeyChange::Transition(t));
        proof {
            if r == KeyLookup::Found {
                assert(controls_key_changed(pre.controls, action.control_id, action.key_id, change)
                    =~= controls_key_changed(pre.controls, action.control_id, action.key_id, KeyChange::Transition(action.transition)));
            }
        }
        match r {
            KeyLookup::ControlMissing => Err(SetKeyTransitionError::ControlDoesNotExist),
            KeyLookup::KeyMissing => Err(SetKeyTransitionError::KeyDoesNotExist),
            KeyLookup::Found => Ok(()),
        }
    }
}

impl Apply<SetKeysAt> for Animation {
    type Error = SetKeysAtError;

    open spec fn name_mutating(action: SetKeysAt) -> bool {
        false
    }

    open spec fn parent_mutating(action: SetKeysAt) -> bool {
        false
    }

    open spec fn applicable(record: Animation, action: SetKeysAt) -> bool {
        first_missing_key(record@.controls, action.ats@) is None ==> set_selected_sortable(
            record@.controls,
            action.ats@,
        )
    }

    open spec fn applied(pre: Animation, action: SetKeysAt, post: Animation, r: Result<(), SetKeysAtError>) -> bool {
        (post@, r) == set_keys_at(pre@, action)
    }

    fn mutates_name(_action: &SetKeysAt) -> (r: bool) {
        false
    }

    fn mutates_parent(_action: &SetKeysAt) -> (r: bool) {
        false
    }

    fn apply(&mut self, action: &SetKeysAt) -> (r: Result<(), SetKeysAtError>) {
        let ghost ats = action.ats@;
        let ghost controls0 = self@.controls;
        let n = action.ats.len();
        assert(ats.skip(0) =~= ats);
        let mut i: usize = 0;
        while i < n
            invariant
                n == ats.len(),
                ats == action.ats@,
                i <= n,
                self@.controls == controls0,
                first_missing_key(controls0, ats) == first_missing_key(controls0, ats.skip(i as int)),
            decreases n - i,
        {
            let sel = action.ats[i].selector;
            proof {
                assert(ats.skip(i as int)[0].selector == sel);
                assert(ats.skip(i as int).drop_first() =~= ats.skip(i + 1));
            }
            match self.controls.get(&sel.control_id) {
                Option::None => {
                    return Err(SetKeysAtError::ControlDoesNotExist);
                },
                Some(c) => {
                    if !c.keys.contains_key(&sel.key_id) {
                        return Err(SetKeysAtError::KeyDoesNotExist);
                    }
                },
            }
            i = i + 1;
        }
        proof {
            assert(ats.skip(n as int) =~= Seq::<KeySelectorAt>::empty());
        }
        let ghost v0 = self@;
        let mut i: usize = 0;
        while i < n
            invariant
                n == ats.len(),
                ats == action.ats@,
                i <= n,
                self@ == with_controls(v0, self@.controls),
                set_selected_ats(v0.controls, ats) == set_selected_ats(self@.controls, ats.skip(i as int)),
                set_selected_sortable(self@.controls, ats.skip(i as int)),
            decreases n - i,
        {
            let a = action.ats[i];
            proof {
                assert(ats.skip(i as int)[0] == a);
                assert(ats.skip(i as int).drop_first() =~= ats.skip(i + 1));
            }
            self.change_key(a.selector.control_id, a.selector.key_id, KeyChange::At(a.at));
            i = i + 1;
        }
        Ok(())
    }
}

impl Apply<SetControlLocked> for Animation {
    type Error = SetControlLockedError;

    open spec fn name_mutating(action: SetControlLocked) -> bool {
        false
    }

    open spec fn parent_mutating(action: SetControlLocked) -> bool {
        false
    }

    open spec fn applicable(record: Animation, action: SetControlLocked) -> bool {
        true
    }

    open spec fn applied(pre: Animation, action: SetControlLocked, post: Animation, r: Result<(), SetControlLockedError>) -> bool {
        (post@, r) == set_control_locked(pre@, action)
    }

    fn mutates_name(_action: &SetControlLocked) -> (r: bool) {
        false
    }

    fn mutates_parent(_action: &SetControlLocked) -> (r: bool) {
        false
    }

    fn apply(&mut self, action: &SetControlLocked) -> (r: Result<(), SetControlLockedError>) {
        let ghost pre = self@;
        match self.take_control(action.control_id) {
            Option::None => Err(SetControlLockedError::ControlDoesNotExist),
            Some(mut c) => {
                c.locked = action.locked;
                self.put_control(action.control_id, c);
                assert(self@.controls =~= pre.controls.insert(action.control_id, c@));
                Ok(())
            },
        }
    }
}

impl Apply<SetControlName> for Animation {
    type Error = SetControlNameError;

    open spec fn name_mutating(action: SetControlName) -> bool {
        false
    }

    open spec fn parent_mutating(action: SetControlName) -> bool {
        false
    }

    open spec fn applicable(record: Animation, action: SetControlName) -> bool {
        true
    }

    open spec fn applied(pre: Animation, action: SetControlName, post: Animation, r: Result<(), SetControlNameError>) -> bool {
        (post@, r) == set_control_name(pre@, action)
    }

    fn mutates_name(_action: &SetControlName) -> (r: bool) {
        false
    }

    fn mutates_parent(_action: &SetControlName) -> (r: bool) {
        false
    }

    fn apply(&mut self, action: &SetControlName) -> (r: Result<(), SetControlNameError>) {
        let ghost pre = self@;
        match self.take_control(action.control_id) {
            Option::None => Err(SetControlNameError::ControlDoesNotExist),
            Some(mut c) => {
                c.name = action.name.clone();
                self.put_control(action.control_id, c);
                assert(self@.controls =~= pre.controls.insert(action.control_id, c@));
                Ok(())
            },
        }
    }
}

impl Apply<SetNodeCollapsed> for Animation {
    type Error = SetNodeCollapsedError;

    open spec fn name_mutating(action: SetNodeCollapsed) -> bool {
        false
    }

    open spec fn parent_mutating(action: SetNodeCollapsed) -> bool {
        false
    }

    open spec fn applicable(record: Animation, action: SetNodeCollapsed) -> bool {
        true
    }

    open spec fn applied(pre: Animation, action: SetNodeCollapsed, post: Animation, r: Result<(), SetNodeCollapsedError>) -> bool {
        (post@, r) == set_node_collapsed(pre@, action)
    }

    fn mutates_name(_action: &SetNodeCollapsed) -> (r: bool) {
        false
    }

    fn mutates_parent(_action: &SetNodeCollapsed) -> (r: bool) {
        false
    }

    fn apply(&mut self, action: &SetNodeCollapsed) -> (r: Result<(), SetNodeCollapsedError>) {
        let ghost pre = self@;
        match self.take_node(action.node_id) {
            Option::None => Err(SetNodeCollapsedError::NodeDoesNotExist),
            Some(mut n) => {
                n.collapsed = action.collapsed;
                self.put_node(action.node_id, n);
                assert(self@.nodes =~= pre.nodes.insert(action.node_id, n@));
                Ok(())
            },
        }
    }
}

impl Apply<SetNodeName> for Animation {
    type Error = SetNodeNameError;

    open spec fn name_mutating(action: SetNodeName) -> bool {
        false
    }

    open spec fn parent_mutating(action: SetNodeName) -> bool {
        false
    }

    open spec fn applicable(record: Animation, action: SetNodeName) -> bool {
        true
    }

    open spec fn applied(pre: Animation, action: SetNodeName, post: Animation, r: Result<(), SetNodeNameError>) -> bool {
        (post@, r) == set_node_name(pre@, action)
    }

    fn mutates_name(_action: &SetNodeName) -> (r: bool) {
        false
    }

    fn mutates_parent(_action: &SetNodeName) -> (r: bool) {
        false
    }

    fn apply(&mut self, action: &SetNodeName) -> (r: Result<(), SetNodeNameError>) {
        let ghost pre = self@;
        match self.take_node(action.node_id) {
            Option::None => Err(SetNodeNameError::NodeDoesNotExist),
            Some(mut n) => {
                n.name = super::unfrozen::clone_name(&action.name);
                self.put_node(action.node_id, n);
                assert(self@.nodes =~= pre.nodes.insert(action.node_id, n@));
                Ok(())
            },
        }
    }
}

// ---------------------------------------------------------------------------
// Every action

pub enum Action {
    AddControl(AddControl),
    AddNode(AddNode),
    RemoveNode(RemoveNode),
    AddKey(AddKey),
    RemoveKey(RemoveKey),
    SetControlName(SetControlName),
    SetNodeName(SetNodeName),
    SetControlLocked(SetControlLocked),
    SetNodeCollapsed(SetNodeCollapsed),
    SetKeyAt(SetKeyAt),
    SetKeysAt(SetKeysAt),
    SetKeyTransition(SetKeyTransition),
    Acl(AclAction),
}

#[derive(Clone, Copy, PartialEq, Eq, Structural, Debug)]
pub enum ActionError {
    AddControl(AddControlError),
    AddNode(AddNodeError),
    RemoveNode(RemoveNodeError),
    AddKey(AddKeyError),
    RemoveKey(RemoveKeyError),
    SetControlName(SetControlNameError),
    SetNodeName(SetNodeNameError),
    SetControlLocked(SetControlLockedError),
    SetNodeCollapsed(SetNodeCollapsedError),
    SetKeyAt(SetKeyAtError),
    SetKeysAt(SetKeysAtError),
    SetKeyTransition(SetKeyTransitionError),
    Acl(AclActionError),
}

/// `r` with its error, if any, passed through `f`.
pub open spec fn lift_result<E, F>(r: Result<(), E>, f: spec_fn(E) -> F) -> Result<(), F> {
    match r {
        Ok(()) => Ok(()),
        Err(e) => Err(f(e)),
    }
}

/// Applying an ACL action to the animation's ACL.
pub open spec fn apply_acl(v: AnimationView, a: AclAction) -> (AnimationView, Result<(), AclActionError>) {
    match acl_apply_action(v.acl, a) {
        Ok(acl) => (AnimationView { acl, ..v }, Ok(())),
        Err(e) => (v, Err(e)),
    }
}

/// The animation after an action, and the result.
pub open spec fn apply_action(v: AnimationView, a: Action) -> (AnimationView, Result<(), ActionError>) {
    match a {
        Action::AddControl(a) => {
            let (w, r) = add_control(v, a);
            (w, lift_result(r, |e: AddControlError| ActionError::AddControl(e)))
        },
        Action::AddNode(a) => {
            let (w, r) = add_node(v, a);
            (w, lift_result(r, |e: AddNodeError| ActionError::AddNode(e)))
        },
        Action::RemoveNode(a) => {
            let (w, r) = remove_node(v, a);
            (w, lift_result(r, |e: RemoveNodeError| ActionError::RemoveNode(e)))
        },
        Action::AddKey(a) => {
            let (w, r) = add_key(v, a);
            (w, lift_result(r, |e: AddKeyError| ActionError::AddKey(e)))
        },
        Action::RemoveKey(a) => {
            let (w, r) = remove_key(v, a);
            (w, lift_result(r, |e: RemoveKeyError| ActionError::RemoveKey(e)))
        },
        Action::SetControlName(a) => {
            let (w, r) = set_control_name(v, a);
            (w, lift_result(r, |e: SetControlNameError| ActionError::SetControlName(e)))
        },
        Action::SetNodeName(a) => {
            let (w, r) = set_node_name(v, a);
            (w, lift_result(r, |e: SetNodeNameError| ActionError::SetNodeName(e)))
        },
        Action::SetControlLocked(a) => {
            let (w, r) = set_control_locked(v, a);
            (w, lift_result(r, |e: SetControlLockedError| ActionError::SetControlLocked(e)))
        },
        Action::SetNodeCollapsed(a) => {
            let (w, r) = set_node_collapsed(v, a);
            (w, lift_result(r, |e: SetNodeCollapsedError| ActionError::SetNodeCollapsed(e)))
        },
        Action::SetKeyAt(a) => {
            let (w, r) = set_key_at(v, a);
            (w, lift_result(r, |e: SetKeyAtError| ActionError::SetKeyAt(e)))
        },
        Action::SetKeysAt(a) => {
            let (w, r) = set_keys_at(v, a);
            (w, lift_result(r, |e: SetKeysAtError| ActionError::SetKeysAt(e)))
        },
        Action::SetKeyTransition(a) => {
            let (w, r) = set_key_transition(v, a);
            (w, lift_result(r, |e: SetKeyTransitionError| ActionError::SetKeyTransition(e)))
        },
        Action::Acl(a) => {
            let (w, r) = apply_acl(v, a);
            (w, lift_result(r, |e: AclActionError| ActionError::Acl(e)))
        },
    }
}

/// Whether an action can be applied without a panic.
pub open spec fn action_applicable(record: Animation, a: Action) -> bool {
    match a {
        Action::AddKey(a) => <Animation as Apply<AddKey>>::applicable(record, a),
        Action::SetKeyAt(a) => <Animation as Apply<SetKeyAt>>::applicable(record, a),
        Action::SetKeysAt(a) => <Animation as Apply<SetKeysAt>>::applicable(record, a),
        _ => true,
    }
}

impl Apply<Action> for Animation {
    type Error = ActionError;

    open spec fn name_mutating(action: Action) -> bool {
        false
    }

    open spec fn parent_mutating(action: Action) -> bool {
        false
    }

    open spec fn applicable(record: Animation, action: Action) -> bool {
        action_applicable(record, action)
    }

    open spec fn applied(pre: Animation, action: Action, post: Animation, r: Result<(), ActionError>) -> bool {
        (post@, r) == apply_action(pre@, action)
    }

    fn mutates_name(_action: &Action) -> (r: bool) {
        false
    }

    fn mutates_parent(_action: &Action) -> (r: bool) {
        false
    }

    fn apply(&mut self, action: &Action) -> (r: Result<(), ActionError>) {
        match action {
            Action::AddControl(a) => match <Animation as Apply<AddControl>>::apply(self, a) {
                Ok(()) => Ok(()),
                Err(e) => Err(ActionError::AddControl(e)),
            },
            Action::AddNode(a) => match <Animation as Apply<AddNode>>::apply(self, a) {
                Ok(()) => Ok(()),
                Err(e) => Err(ActionError::AddNode(e)),
            },
            Action::RemoveNode(a) => match <Animation as Apply<RemoveNode>>::apply(self, a) {
                Ok(()) => Ok(()),
                Err(e) => Err(ActionError::RemoveNode(e)),
            },
            Action::AddKey(a) => match <Animation as Apply<AddKey>>::apply(self, a) {
                Ok(()) => Ok(()),
                Err(e) => Err(ActionError::AddKey(e)),
            },
            Action::RemoveKey(a) => match <Animation as Apply<RemoveKey>>::apply(self, a) {
                Ok(()) => Ok(()),
                Err(e) => Err(ActionError::RemoveKey(e)),
            },
            Action::SetControlName(a) => match <Animation as Apply<SetControlName>>::apply(self, a) {
                Ok(()) => Ok(()),
                Err(e) => Err(ActionError::SetControlName(e)),
            },
            Action::SetNodeName(a) => match <Animation as Apply<SetNodeName>>::apply(self, a) {
                Ok(()) => Ok(()),
                Err(e) => Err(ActionError::SetNodeName(e)),
            },
            Action::SetControlLocked(a) => match <Animation as Apply<SetControlLocked>>::apply(self, a) {
                Ok(()) => Ok(()),
                Err(e) => Err(ActionError::SetControlLocked(e)),
            },
            Action::SetNodeCollapsed(a) => match <Animation as Apply<SetNodeCollapsed>>::apply(self, a) {
                Ok(()) => Ok(()),
                Err(e) => Err(ActionError::SetNodeCollapsed(e)),
            },
            Action::SetKeyAt(a) => match <Animation as Apply<SetKeyAt>>::apply(self, a) {
                Ok(()) => Ok(()),
                Err(e) => Err(ActionError::SetKeyAt(e)),
            },
            Action::SetKeysAt(a) => match <Animation as Apply<SetKeysAt>>::apply(self, a) {
                Ok(()) => Ok(()),
                Err(e) => Err(ActionError::SetKeysAt(e)),
            },
            Action::SetKeyTransition(a) => match <Animation as Apply<SetKeyTransition>>::apply(self, a) {
                Ok(()) => Ok(()),
                Err(e) => Err(ActionError::SetKeyTransition(e)),
            },
            Action::Acl(a) => {
                let ghost pre = *self;
                let r = <Animation as Apply<AclAction>>::apply(self, a);
                proof {
                    assert(self@ == AnimationView { acl: self.acl@, ..pre@ });
                }
                match r {
                    Ok(()) => Ok(()),
                    Err(e) => Err(ActionError::Acl(e)),
                }
            },
        }
    }
}

} // verus!
