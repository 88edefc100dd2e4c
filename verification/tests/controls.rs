use pixel_punch::controls::{
    KeyTarget, KeyTargetSet, KeyTargetSetStack, KeyboardInput, PlayerControls,
};

#[test]
fn empty_set_holds_nothing() {
    let set = KeyTargetSet::empty();
    assert!(!set.contains(&KeyTarget::Up));
    assert!(!set.contains(&KeyTarget::DefendJustPressed));
    assert_eq!(set, KeyTargetSet::from([]));
}

#[test]
fn set_from_array_ignores_order_and_repeats() {
    let a = KeyTargetSet::from([KeyTarget::Up, KeyTarget::Right]);
    let b = KeyTargetSet::from([KeyTarget::Right, KeyTarget::Up, KeyTarget::Right]);
    assert_eq!(a, b);
    assert!(a.contains(&KeyTarget::Up));
    assert!(a.contains(&KeyTarget::Right));
    assert!(!a.contains(&KeyTarget::Left));
    assert!(!a.contains(&KeyTarget::UpJustPressed));
}

#[test]
fn insert_adds_one_symbol() {
    let a = KeyTargetSet::empty().insert(KeyTarget::Jump);
    assert_eq!(a, KeyTargetSet::from([KeyTarget::Jump]));
    let b = a.insert(KeyTarget::Jump);
    assert_eq!(a, b);
    let c = a + KeyTarget::Attack;
    assert_eq!(c, KeyTargetSet::from([KeyTarget::Attack, KeyTarget::Jump]));
}

#[test]
fn union_holds_the_symbols_of_both() {
    let a = KeyTargetSet::from([KeyTarget::Up, KeyTarget::Left]);
    let b = KeyTargetSet::from([KeyTarget::Left, KeyTarget::AttackJustPressed]);
    let both = a.union(b);
    assert_eq!(
        both,
        KeyTargetSet::from([KeyTarget::Up, KeyTarget::Left, KeyTarget::AttackJustPressed])
    );
    assert_eq!(a + b, both);
    assert_eq!(b + a, both);
    assert_eq!(a.union(KeyTargetSet::empty()), a);
}

#[test]
fn subset_and_superset() {
    let small = KeyTargetSet::from([KeyTarget::Up]);
    let large = KeyTargetSet::from([KeyTarget::Up, KeyTarget::Down]);
    let other = KeyTargetSet::from([KeyTarget::Left]);
    assert!(small.is_subset(&large));
    assert!(!large.is_subset(&small));
    assert!(large.is_superset(&small));
    assert!(!small.is_superset(&large));
    assert!(small.is_subset(&small));
    assert!(small.is_superset(&small));
    assert!(!other.is_subset(&large));
    assert!(KeyTargetSet::empty().is_subset(&other));
    assert!(other.is_superset(&KeyTargetSet::empty()));
}

#[test]
fn overlaps_needs_a_shared_symbol() {
    let a = KeyTargetSet::from([KeyTarget::Up, KeyTarget::Down]);
    let b = KeyTargetSet::from([KeyTarget::Down, KeyTarget::Jump]);
    let c = KeyTargetSet::from([KeyTarget::Jump]);
    assert!(a.overlaps(&b));
    assert!(b.overlaps(&a));
    assert!(!a.overlaps(&c));
    assert!(!a.overlaps(&KeyTargetSet::empty()));
    assert!(!KeyTargetSet::empty().overlaps(&KeyTargetSet::empty()));
}

#[test]
fn every_symbol_has_its_own_bit() {
    let all = [
        KeyTarget::Up,
        KeyTarget::UpJustPressed,
        KeyTarget::Down,
        KeyTarget::DownJustPressed,
        KeyTarget::Left,
        KeyTarget::LeftJustPressed,
        KeyTarget::Right,
        KeyTarget::RightJustPressed,
        KeyTarget::Attack,
        KeyTarget::AttackJustPressed,
        KeyTarget::Jump,
        KeyTarget::JumpJustPressed,
        KeyTarget::Defend,
        KeyTarget::DefendJustPressed,
    ];
    for (i, a) in all.iter().enumerate() {
        let single = KeyTargetSet::from([*a]);
        for (j, b) in all.iter().enumerate() {
            assert_eq!(single.contains(b), i == j);
        }
    }
    let full = KeyTargetSet::from(all);
    for a in all.iter() {
        assert!(full.contains(a));
    }
}

#[test]
fn join_of_an_empty_history_is_empty() {
    let stack = KeyTargetSetStack::new(10, 500);
    assert_eq!(stack.join(), KeyTargetSet::empty());
}

#[test]
fn join_unites_all_entries() {
    let mut stack = KeyTargetSetStack::new(10, 500);
    stack.0.push(KeyTargetSet::from([KeyTarget::RightJustPressed]));
    stack.0.push(KeyTargetSet::empty());
    stack.0.push(KeyTargetSet::from([KeyTarget::JumpJustPressed]));
    assert_eq!(
        stack.join(),
        KeyTargetSet::from([KeyTarget::RightJustPressed, KeyTarget::JumpJustPressed])
    );
}

#[test]
fn default_controls_are_wasd_ghj() {
    let controls = PlayerControls::default();
    assert_eq!(controls.up, 'W' as u32);
    assert_eq!(controls.down, 'S' as u32);
    assert_eq!(controls.left, 'A' as u32);
    assert_eq!(controls.right, 'D' as u32);
    assert_eq!(controls.attack, 'G' as u32);
    assert_eq!(controls.jump, 'H' as u32);
    assert_eq!(controls.defend, 'J' as u32);
}

#[test]
fn keyboard_tells_held_from_just_pressed() {
    let keyboard = KeyboardInput { pressed: vec![1, 2], just_pressed: vec![2] };
    assert!(keyboard.pressed(1));
    assert!(keyboard.pressed(2));
    assert!(!keyboard.pressed(3));
    assert!(!keyboard.just_pressed(1));
    assert!(keyboard.just_pressed(2));
}

#[test]
fn held_keys_become_persistent_symbols() {
    let controls = PlayerControls::default();
    let keyboard = KeyboardInput {
        pressed: vec![controls.right, controls.jump, 999],
        just_pressed: vec![controls.jump],
    };
    assert_eq!(
        controls.into_persistent_keytargetset(&keyboard),
        KeyTargetSet::from([KeyTarget::Right, KeyTarget::Jump])
    );
    assert_eq!(
        controls.into_event_keytargetset(&keyboard),
        KeyTargetSet::from([KeyTarget::JumpJustPressed])
    );
    assert_eq!(
        controls.into_full_keytargetset(&keyboard),
        KeyTargetSet::from([KeyTarget::Right, KeyTarget::Jump, KeyTarget::JumpJustPressed])
    );
}

#[test]
fn each_key_maps_to_its_own_symbols() {
    let controls = PlayerControls {
        up: 1,
        down: 2,
        left: 3,
        right: 4,
        attack: 5,
        jump: 6,
        defend: 7,
    };
    let pairs = [
        (1, KeyTarget::Up, KeyTarget::UpJustPressed),
        (2, KeyTarget::Down, KeyTarget::DownJustPressed),
        (3, KeyTarget::Left, KeyTarget::LeftJustPressed),
        (4, KeyTarget::Right, KeyTarget::RightJustPressed),
        (5, KeyTarget::Attack, KeyTarget::AttackJustPressed),
        (6, KeyTarget::Jump, KeyTarget::JumpJustPressed),
        (7, KeyTarget::Defend, KeyTarget::DefendJustPressed),
    ];
    for (key, hold, edge) in pairs {
        let keyboard = KeyboardInput { pressed: vec![key], just_pressed: vec![key] };
        assert_eq!(controls.into_persistent_keytargetset(&keyboard), KeyTargetSet::from([hold]));
        assert_eq!(controls.into_event_keytargetset(&keyboard), KeyTargetSet::from([edge]));
    }
    let nothing = KeyboardInput { pressed: vec![], just_pressed: vec![] };
    assert_eq!(controls.into_full_keytargetset(&nothing), KeyTargetSet::empty());
}

#[test]
fn set_lists_its_symbols_in_their_order() {
    assert_eq!(KeyTargetSet::empty().to_string(), "");
    assert_eq!(KeyTargetSet::from([KeyTarget::Jump]).to_string(), "Jump");
    assert_eq!(KeyTargetSet::from([KeyTarget::Right, KeyTarget::Up]).to_string(), "Up, Right");
    assert_eq!(
        KeyTargetSet::from([
            KeyTarget::DefendJustPressed,
            KeyTarget::AttackJustPressed,
            KeyTarget::Up,
        ])
        .to_string(),
        "Up, AttackJustPressed, DefendJustPressed"
    );
}

#[test]
fn symbols_have_their_names_and_places() {
    assert_eq!(KeyTarget::nth(0), KeyTarget::Up);
    assert_eq!(KeyTarget::nth(7), KeyTarget::RightJustPressed);
    assert_eq!(KeyTarget::nth(13), KeyTarget::DefendJustPressed);
    assert_eq!(KeyTarget::RightJustPressed.name(), "RightJustPressed");
    let mut listed = KeyTargetSet::empty();
    for i in 0..14 {
        let key = KeyTarget::nth(i);
        assert!(!listed.contains(&key));
        assert_eq!(format!("{:?}", key), key.name());
        listed = listed.insert(key);
    }
}
