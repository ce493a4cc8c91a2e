use std::collections::{HashMap, HashSet};

use semio_record::animation::v1::action::{
    AddNode, AddNodeError, RemoveNode, RemoveNodeError,
};
use semio_record::animation::v1::unfrozen::{Animation, ControlNode, GroupNode, Node, NodeKind};
use semio_record::record::Apply;

fn new_id() -> u128 {
    uuid::Uuid::new_v4().as_u128()
}

#[test]
fn simple() {
    let node_id = new_id();
    let mut nodes = HashMap::new();
    nodes.insert(
        node_id.clone(),
        Node {
            name: None,
            collapsed: false,
            kind: ControlNode { id: new_id() }.into(),
        },
    );

    let mut animation = Animation {
        nodes,
        ..Default::default()
    };

    animation.apply(&RemoveNode { node_id }).unwrap();

    assert_eq!(animation.nodes.len(), 0);
}

#[test]
fn group() {
    let control_node_id = new_id();
    let group_node_id = new_id();

    let mut nodes = HashMap::new();
    nodes.insert(
        control_node_id.clone(),
        Node {
            collapsed: false,
            name: None,
            kind: ControlNode { id: new_id() }.into(),
        },
    );

    nodes.insert(
        group_node_id,
        Node {
            collapsed: false,
            name: None,
            kind: GroupNode {
                children_ids: {
                    let mut ret = HashSet::new();
                    ret.insert(control_node_id.clone());
                    ret
                },
            }
            .into(),
        },
    );

    let mut animation = Animation {
        nodes,
        ..Default::default()
    };

    animation.apply(&RemoveNode { node_id: control_node_id }).unwrap();

    assert_eq!(animation.nodes.len(), 1);

    let group_node = animation.nodes.get(&group_node_id).unwrap();

    if let NodeKind::Group(g) = &group_node.kind {
        assert_eq!(g.children_ids.len(), 0);
    } else {
        panic!("Expected group node");
    }
}

#[test]
fn remove_missing_node_is_refused_and_changes_nothing() {
    let mut animation = Animation::default();
    let r = animation.apply(&RemoveNode { node_id: 7 });
    assert_eq!(r, Err(RemoveNodeError::NodeDoesNotExist));
    assert_eq!(animation.nodes.len(), 0);
}

#[test]
fn add_then_remove_node_restores_outline() {
    let mut animation = Animation::default();
    animation
        .apply(&AddNode {
            parent_id: None,
            node_id: 1,
            node: Node { name: None, collapsed: false, kind: GroupNode { children_ids: HashSet::new() }.into() },
        })
        .unwrap();
    animation
        .apply(&AddNode {
            parent_id: Some(1),
            node_id: 2,
            node: Node { name: Some("c".to_string()), collapsed: true, kind: ControlNode { id: 9 }.into() },
        })
        .unwrap();
    if let NodeKind::Group(g) = &animation.nodes.get(&1).unwrap().kind {
        assert!(g.children_ids.contains(&2));
    } else {
        panic!("Expected group node");
    }
    animation.apply(&RemoveNode { node_id: 2 }).unwrap();
    assert_eq!(animation.nodes.len(), 1);
    if let NodeKind::Group(g) = &animation.nodes.get(&1).unwrap().kind {
        assert!(g.children_ids.is_empty());
    } else {
        panic!("Expected group node");
    }
}

#[test]
fn add_node_errors() {
    let mut animation = Animation::default();
    let control = || Node { name: None, collapsed: false, kind: ControlNode { id: 3 }.into() };
    animation.apply(&AddNode { parent_id: None, node_id: 1, node: control() }).unwrap();
    assert_eq!(
        animation.apply(&AddNode { parent_id: None, node_id: 1, node: control() }),
        Err(AddNodeError::NodeExists)
    );
    assert_eq!(
        animation.apply(&AddNode { parent_id: Some(5), node_id: 2, node: control() }),
        Err(AddNodeError::ParentDoesNotExist)
    );
    assert_eq!(
        animation.apply(&AddNode { parent_id: Some(1), node_id: 2, node: control() }),
        Err(AddNodeError::ParentIsNotGroup)
    );
    assert_eq!(animation.nodes.len(), 1);
}
