use std::collections::{HashMap, HashSet};

use semio_record::animation::v0::action::{
    AddKey, AddKeyError, AddNode, AddNodeError, KeySelector, RemoveKeys, RemoveKeysError,
    RemoveNode, SetKeyAt, SetNodeName, SetNodeParent, SetNodeParentError,
};
use semio_record::animation::v0::unfrozen::{
    Animation, Group, Key, Linear, Node, Track, Transition, Value, F64,
};
use semio_record::color::{Color, Rgb};
use semio_record::record::{Apply, Migrate, MigrateError};

fn track() -> Node {
    Node::Track(Track {
        name: "t".to_string(),
        locked: false,
        collapsed: false,
        color: Color::Rgb(Rgb { r: 0, g: 0, b: 0 }),
        keys: HashMap::new(),
        key_ordering: vec![],
    })
}

fn group() -> Node {
    Node::Group(Group {
        name: "g".to_string(),
        locked: false,
        collapsed: false,
        color: Color::Rgb(Rgb { r: 0, g: 0, b: 0 }),
        children_ids: HashSet::new(),
    })
}

fn key(at: f64) -> Key {
    Key { at: at.to_bits(), value: Value::F64(F64 { value: 0 }), transition: Transition::Linear(Linear { _dummy: 0 }) }
}

fn ordering(animation: &Animation, id: u128) -> Vec<u128> {
    match &animation.nodes[&id] {
        Node::Track(t) => t.key_ordering.clone(),
        Node::Group(_) => panic!("Expected track node"),
    }
}

#[test]
fn new_animation_has_a_root_group() {
    let animation = Animation::with_root(7);
    assert_eq!(animation.root_id, 7);
    match &animation.nodes[&7] {
        Node::Group(g) => {
            assert_eq!(g.name, "Root");
            assert_eq!(g.color, Color::Rgb(Rgb { r: 1.0f64.to_bits(), g: 0, b: 0 }));
        },
        Node::Track(_) => panic!("Expected group node"),
    }
    let a = Animation::default();
    let b = Animation::default();
    assert_eq!(a.nodes.len(), 1);
    assert_ne!(a.root_id, b.root_id);
}

#[test]
fn keys_stay_ordered_by_time() {
    let mut animation = Animation::with_root(1);
    animation.apply(&AddNode { parent_id: 1, id: 2, node: track() }).unwrap();
    animation.apply(&AddKey { node_id: 2, key_id: 20, key: key(4.0) }).unwrap();
    animation.apply(&AddKey { node_id: 2, key_id: 21, key: key(1.5) }).unwrap();
    assert_eq!(ordering(&animation, 2), vec![21, 20]);
    animation.apply(&SetKeyAt { id: 2, key_id: 21, at: 9.0f64.to_bits() }).unwrap();
    assert_eq!(ordering(&animation, 2), vec![20, 21]);
    assert_eq!(animation.apply(&AddKey { node_id: 1, key_id: 22, key: key(0.0) }), Err(AddKeyError::NodeIsNotTrack));
    assert_eq!(animation.apply(&AddKey { node_id: 2, key_id: 20, key: key(0.0) }), Err(AddKeyError::KeyExists));
}

#[test]
fn remove_keys_checks_every_selector_first() {
    let mut animation = Animation::with_root(1);
    animation.apply(&AddNode { parent_id: 1, id: 2, node: track() }).unwrap();
    animation.apply(&AddKey { node_id: 2, key_id: 20, key: key(0.0) }).unwrap();
    let r = animation.apply(&RemoveKeys {
        selectors: vec![KeySelector { node_id: 2, key_id: 20 }, KeySelector { node_id: 2, key_id: 99 }],
    });
    assert_eq!(r, Err(RemoveKeysError::KeyDoesNotExist));
    assert_eq!(ordering(&animation, 2), vec![20]);
    animation.apply(&RemoveKeys { selectors: vec![KeySelector { node_id: 2, key_id: 20 }] }).unwrap();
    assert!(ordering(&animation, 2).is_empty());
}

#[test]
fn removed_node_leaves_every_group() {
    let mut animation = Animation::with_root(1);
    animation.apply(&AddNode { parent_id: 1, id: 2, node: group() }).unwrap();
    animation.apply(&AddNode { parent_id: 2, id: 3, node: track() }).unwrap();
    assert_eq!(animation.apply(&AddNode { parent_id: 3, id: 4, node: track() }), Err(AddNodeError::ParentNodeIsNotGroup));
    animation.apply(&RemoveNode { id: 3 }).unwrap();
    match &animation.nodes[&2] {
        Node::Group(g) => assert!(g.children_ids.is_empty()),
        Node::Track(_) => panic!("Expected group node"),
    }
}

#[test]
fn moving_to_a_missing_parent_still_detaches_the_node() {
    let mut animation = Animation::with_root(1);
    animation.apply(&AddNode { parent_id: 1, id: 2, node: track() }).unwrap();
    let r = animation.apply(&SetNodeParent { id: 2, parent_id: 8 });
    assert_eq!(r, Err(SetNodeParentError::ParentNodeDoesNotExist));
    match &animation.nodes[&1] {
        Node::Group(g) => assert!(!g.children_ids.contains(&2)),
        Node::Track(_) => panic!("Expected group node"),
    }
    animation.apply(&SetNodeParent { id: 2, parent_id: 1 }).unwrap();
    animation.apply(&SetNodeName { id: 2, name: "renamed".to_string() }).unwrap();
    match &animation.nodes[&2] {
        Node::Track(t) => assert_eq!(t.name, "renamed"),
        Node::Group(_) => panic!("Expected track node"),
    }
}

#[test]
fn animation_migrate_is_not_implemented() {
    match Animation::migrate(3, b"{}") {
        Err(e) => {
            assert_eq!(e, MigrateError::NotImplemented { from_version: 3 });
            assert_eq!(e.message(), "Migration not implemented for version 3");
        },
        Ok(_) => panic!("no migration exists"),
    }
}

#[test]
fn a_key_without_a_time_can_be_the_first_key_of_a_track() {
    let mut animation = Animation::with_root(1);
    animation.apply(&AddNode { parent_id: 1, id: 2, node: track() }).unwrap();
    animation.apply(&AddKey { node_id: 2, key_id: 20, key: key(f64::NAN) }).unwrap();
    assert_eq!(ordering(&animation, 2), vec![20]);
}
