use std::collections::HashMap;

use semio_record::animation::v0::unfrozen::{Linear, NoTransition, Transition, Value, F64};
use semio_record::animation::v1::action::{
    Action, ActionError, AddControl, AddControlError, AddKey, AddKeyError, KeySelector,
    KeySelectorAt, RemoveKey, RemoveKeyError, SetControlLocked, SetControlLockedError,
    SetControlName, SetControlNameError, SetKeyAt, SetKeyAtError, SetKeyTransition,
    SetKeyTransitionError, SetKeysAt, SetKeysAtError, SetNodeCollapsed, SetNodeCollapsedError,
    SetNodeName, SetNodeNameError,
};
use semio_record::animation::v1::public::Public;
use semio_record::animation::v1::unfrozen::{Animation, Control, Key};
use semio_record::record::Apply;

fn key(at: f64) -> Key {
    Key {
        at: at.to_bits(),
        value: Value::F64(F64 { value: 0.5f64.to_bits() }),
        transition: Transition::Linear(Linear { _dummy: 0 }),
    }
}

fn with_control() -> Animation {
    let mut animation = Animation::default();
    animation
        .apply(&AddControl {
            control_id: 1,
            control: Control { name: "c".to_string(), locked: false, keys: HashMap::new(), key_ordering: vec![] },
        })
        .unwrap();
    animation
}

#[test]
fn added_keys_are_ordered_by_time() {
    let mut animation = with_control();
    animation.apply(&AddKey { control_id: 1, key_id: 10, key: key(3.0) }).unwrap();
    animation.apply(&AddKey { control_id: 1, key_id: 11, key: key(-1.0) }).unwrap();
    animation.apply(&AddKey { control_id: 1, key_id: 12, key: key(2.0) }).unwrap();
    assert_eq!(animation.controls[&1].key_ordering, vec![11, 12, 10]);
    animation.apply(&SetKeyAt { control_id: 1, key_id: 11, at: 5.0f64.to_bits() }).unwrap();
    assert_eq!(animation.controls[&1].key_ordering, vec![12, 10, 11]);
    animation
        .apply(&SetKeysAt {
            ats: vec![
                KeySelectorAt { selector: KeySelector { control_id: 1, key_id: 10 }, at: 0.0f64.to_bits() },
                KeySelectorAt { selector: KeySelector { control_id: 1, key_id: 12 }, at: 9.0f64.to_bits() },
            ],
        })
        .unwrap();
    assert_eq!(animation.controls[&1].key_ordering, vec![10, 11, 12]);
    animation.apply(&RemoveKey { control_id: 1, key_id: 11 }).unwrap();
    assert_eq!(animation.controls[&1].key_ordering, vec![10, 12]);
    assert_eq!(animation.controls[&1].keys.len(), 2);
}

#[test]
fn equal_times_keep_their_order() {
    let mut animation = with_control();
    animation.apply(&AddKey { control_id: 1, key_id: 5, key: key(1.0) }).unwrap();
    animation.apply(&AddKey { control_id: 1, key_id: 4, key: key(1.0) }).unwrap();
    animation.apply(&AddKey { control_id: 1, key_id: 3, key: key(-0.0) }).unwrap();
    animation.apply(&AddKey { control_id: 1, key_id: 2, key: key(0.0) }).unwrap();
    assert_eq!(animation.controls[&1].key_ordering, vec![3, 2, 5, 4]);
}

#[test]
fn control_and_key_errors() {
    let mut animation = with_control();
    assert_eq!(
        animation.apply(&AddControl {
            control_id: 1,
            control: Control { name: String::new(), locked: true, keys: HashMap::new(), key_ordering: vec![] },
        }),
        Err(AddControlError::ControlExists)
    );
    assert_eq!(animation.apply(&AddKey { control_id: 2, key_id: 1, key: key(0.0) }), Err(AddKeyError::ControlDoesNotExist));
    animation.apply(&AddKey { control_id: 1, key_id: 1, key: key(0.0) }).unwrap();
    assert_eq!(animation.apply(&AddKey { control_id: 1, key_id: 1, key: key(1.0) }), Err(AddKeyError::KeyExists));
    assert_eq!(animation.apply(&RemoveKey { control_id: 2, key_id: 1 }), Err(RemoveKeyError::ControlDoesNotExist));
    assert_eq!(animation.apply(&RemoveKey { control_id: 1, key_id: 2 }), Err(RemoveKeyError::KeyDoesNotExist));
    assert_eq!(animation.apply(&SetKeyAt { control_id: 2, key_id: 1, at: 0 }), Err(SetKeyAtError::ControlDoesNotExist));
    assert_eq!(animation.apply(&SetKeyAt { control_id: 1, key_id: 2, at: 0 }), Err(SetKeyAtError::KeyDoesNotExist));
    assert_eq!(
        animation.apply(&SetKeyTransition { control_id: 2, key_id: 1, transition: Transition::NoTransition(NoTransition { _dummy: 0 }) }),
        Err(SetKeyTransitionError::ControlDoesNotExist)
    );
    assert_eq!(
        animation.apply(&SetKeyTransition { control_id: 1, key_id: 2, transition: Transition::NoTransition(NoTransition { _dummy: 0 }) }),
        Err(SetKeyTransitionError::KeyDoesNotExist)
    );
    animation
        .apply(&SetKeyTransition { control_id: 1, key_id: 1, transition: Transition::NoTransition(NoTransition { _dummy: 0 }) })
        .unwrap();
    assert!(matches!(animation.controls[&1].keys[&1].transition, Transition::NoTransition(_)));
    assert_eq!(
        animation.apply(&SetKeysAt { ats: vec![
            KeySelectorAt { selector: KeySelector { control_id: 1, key_id: 1 }, at: 7 },
            KeySelectorAt { selector: KeySelector { control_id: 3, key_id: 1 }, at: 7 },
        ] }),
        Err(SetKeysAtError::ControlDoesNotExist)
    );
    assert_eq!(animation.controls[&1].keys[&1].at, 0.0f64.to_bits());
    assert_eq!(
        animation.apply(&SetKeysAt { ats: vec![KeySelectorAt { selector: KeySelector { control_id: 1, key_id: 9 }, at: 7 }] }),
        Err(SetKeysAtError::KeyDoesNotExist)
    );
    assert_eq!(animation.apply(&SetControlLocked { control_id: 2, locked: true }), Err(SetControlLockedError::ControlDoesNotExist));
    assert_eq!(animation.apply(&SetControlName { control_id: 2, name: "x".to_string() }), Err(SetControlNameError::ControlDoesNotExist));
    assert_eq!(animation.apply(&SetNodeName { node_id: 2, name: None }), Err(SetNodeNameError::NodeDoesNotExist));
    assert_eq!(animation.apply(&SetNodeCollapsed { node_id: 2, collapsed: true }), Err(SetNodeCollapsedError::NodeDoesNotExist));
    animation.apply(&SetControlLocked { control_id: 1, locked: true }).unwrap();
    animation.apply(&SetControlName { control_id: 1, name: "renamed".to_string() }).unwrap();
    assert!(animation.controls[&1].locked);
    assert_eq!(animation.controls[&1].name, "renamed");
}

#[test]
fn actions_dispatch_and_wrap_errors() {
    let mut animation = with_control();
    let r = animation.apply(&Action::RemoveKey(RemoveKey { control_id: 1, key_id: 1 }));
    assert_eq!(r, Err(ActionError::RemoveKey(RemoveKeyError::KeyDoesNotExist)));
    animation.apply(&Action::AddKey(AddKey { control_id: 1, key_id: 1, key: key(0.0) })).unwrap();
    assert_eq!(animation.controls[&1].keys.len(), 1);
}

#[test]
fn public_part_drops_the_acl() {
    let mut animation = with_control();
    animation.name = "anim".to_string();
    animation.parent = 42;
    let public = Public::from_animation(animation);
    assert_eq!(public.name, "anim");
    assert_eq!(public.parent, 42);
    let back = public.into_animation();
    assert_eq!(back.controls.len(), 1);
    assert!(back.acl.permissions.is_empty());
}

#[test]
fn add_then_remove_key_restores_the_control() {
    let mut animation = with_control();
    animation.apply(&AddKey { control_id: 1, key_id: 10, key: key(3.0) }).unwrap();
    animation.apply(&AddKey { control_id: 1, key_id: 11, key: key(-1.0) }).unwrap();
    let before_ordering = animation.controls[&1].key_ordering.clone();
    let mut before_keys: Vec<u128> = animation.controls[&1].keys.keys().copied().collect();
    before_keys.sort();
    animation.apply(&AddKey { control_id: 1, key_id: 12, key: key(1.0) }).unwrap();
    assert_eq!(animation.controls[&1].key_ordering, vec![11, 12, 10]);
    animation.apply(&RemoveKey { control_id: 1, key_id: 12 }).unwrap();
    assert_eq!(animation.controls[&1].key_ordering, before_ordering);
    let mut after_keys: Vec<u128> = animation.controls[&1].keys.keys().copied().collect();
    after_keys.sort();
    assert_eq!(after_keys, before_keys);
}

#[test]
fn a_key_without_a_time_can_be_the_first_key() {
    let mut animation = with_control();
    animation.apply(&AddKey { control_id: 1, key_id: 10, key: key(f64::NAN) }).unwrap();
    assert_eq!(animation.controls[&1].key_ordering, vec![10]);
    assert!(animation.controls[&1].keys.contains_key(&10));
}
