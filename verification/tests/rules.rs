use pixel_punch::controls::{KeyTarget, KeyTargetSet};
use pixel_punch::fighters::{FighterMovement, FighterPosition, FighterVelocity, MovementSet};
use pixel_punch::history::TimeTaggedValue;
use pixel_punch::movement_rules::{
    advanced, double_tap_span, Channel, EntryRule, EventEntryRule, ExitRule, StateEnter,
    StateUpdate, GRAVITY,
};

fn entry(keys: &[KeyTarget], duration: u64) -> TimeTaggedValue<KeyTargetSet> {
    let mut value = KeyTargetSet::empty();
    for key in keys {
        value = value.insert(*key);
    }
    TimeTaggedValue { value, duration }
}

fn moved(movement: FighterMovement) -> Vec<TimeTaggedValue<FighterMovement>> {
    vec![TimeTaggedValue { value: movement, duration: 0 }]
}

#[test]
fn advanced_adds_rate_times_time() {
    assert_eq!(advanced(10, 3, 4), 22);
    assert_eq!(advanced(10, -3, 4), -2);
    assert_eq!(advanced(-335_000_000, 200_000, 16), -331_800_000);
    assert_eq!(advanced(5, 7, 0), 5);
    assert_eq!(advanced(5, 0, 1000), 5);
}

#[test]
fn advanced_stops_at_the_limits() {
    assert_eq!(advanced(i64::MAX, 1, 1), i64::MAX);
    assert_eq!(advanced(i64::MIN, -1, 1), i64::MIN);
    assert_eq!(advanced(0, i64::MAX, u64::MAX), i64::MAX);
    assert_eq!(advanced(0, i64::MIN, u64::MAX), i64::MIN);
    assert_eq!(advanced(i64::MAX, -1, 1), i64::MAX - 1);
    assert_eq!(advanced(i64::MIN, i64::MAX, 2), i64::MAX - 1);
}

#[test]
fn state_updates_move_along_their_axes() {
    let start = FighterPosition { x: 100, y: 200, z: 300 };
    let speed = FighterVelocity { x: 1, y: 2, z: 3 };
    let cases = [
        (StateUpdate::Still, (100, 200, 300), 3),
        (StateUpdate::AlongX, (110, 200, 300), 3),
        (StateUpdate::AlongY, (100, 220, 300), 3),
        (StateUpdate::OnGround, (110, 220, 300), 3),
        (StateUpdate::Airborne, (110, 220, 330), 3 + GRAVITY * 10),
    ];
    for (update, (x, y, z), vz) in cases {
        let mut position = start;
        let mut velocity = speed;
        update.apply(&mut position, &mut velocity, 10);
        assert_eq!(position, FighterPosition { x, y, z });
        assert_eq!(velocity, FighterVelocity { x: 1, y: 2, z: vz });
    }
    assert_eq!(GRAVITY, -400);
}

#[test]
fn state_enter_sets_the_axes_it_names() {
    let mut velocity = FighterVelocity { x: 1, y: 2, z: 3 };
    StateEnter { x: None, y: None, z: None }.apply(&mut velocity);
    assert_eq!(velocity, FighterVelocity { x: 1, y: 2, z: 3 });
    StateEnter { x: Some(10), y: None, z: Some(-5) }.apply(&mut velocity);
    assert_eq!(velocity, FighterVelocity { x: 10, y: 2, z: -5 });
    StateEnter { x: None, y: Some(0), z: None }.apply(&mut velocity);
    assert_eq!(velocity, FighterVelocity { x: 10, y: 0, z: -5 });
}

#[test]
fn entry_rules_look_at_the_floor() {
    assert!(EntryRule::Grounded.admits(-5, -5));
    assert!(!EntryRule::Grounded.admits(-5, -4));
    assert!(!EntryRule::OffGround.admits(-5, -5));
    assert!(EntryRule::OffGround.admits(-5, -4));
}

#[test]
fn double_tap_span_counts_up_to_the_second_press() {
    let right = KeyTarget::RightJustPressed;
    let events = vec![
        entry(&[right], 250),
        entry(&[], 200),
        entry(&[right], 100),
        entry(&[], 50),
        entry(&[], 0),
    ];
    assert_eq!(double_tap_span(&events, right, 300), Some(5));
    assert_eq!(double_tap_span(&events, right, 249), None);
    assert_eq!(double_tap_span(&events, KeyTarget::LeftJustPressed, 300), None);
    let three = vec![entry(&[right], 200), entry(&[right], 100), entry(&[right], 0)];
    assert_eq!(double_tap_span(&three, right, 300), Some(2));
    let one = vec![entry(&[right], 0)];
    assert_eq!(double_tap_span(&one, right, 300), None);
    assert_eq!(double_tap_span(&Vec::new(), right, 300), None);
    let at_the_edge = vec![entry(&[right], 300), entry(&[right], 0)];
    assert_eq!(double_tap_span(&at_the_edge, right, 300), Some(2));
    let old_between = vec![entry(&[right], 10), entry(&[], 400), entry(&[right], 0)];
    assert_eq!(double_tap_span(&old_between, right, 300), None);
}

#[test]
fn event_entry_rules() {
    let none: Vec<TimeTaggedValue<KeyTargetSet>> = Vec::new();
    let idle = moved(FighterMovement::Idle);
    assert_eq!(EventEntryRule::Grounded.admits(0, 0, &idle, &none, false), Some(0));
    assert_eq!(EventEntryRule::Grounded.admits(0, 0, &idle, &none, true), Some(0));
    assert_eq!(EventEntryRule::Grounded.admits(0, 1, &idle, &none, false), None);
    assert_eq!(EventEntryRule::GroundedThisTick.admits(0, 0, &idle, &none, false), Some(0));
    assert_eq!(EventEntryRule::GroundedThisTick.admits(0, 0, &idle, &none, true), None);
    assert_eq!(EventEntryRule::GroundedThisTick.admits(0, 1, &idle, &none, false), None);

    let after_jump = EventEntryRule::OffGroundAfter(FighterMovement::Jumping);
    let jumping = moved(FighterMovement::Jumping);
    assert_eq!(after_jump.admits(0, 1, &jumping, &none, false), Some(0));
    assert_eq!(after_jump.admits(0, 1, &jumping, &none, true), Some(0));
    assert_eq!(after_jump.admits(0, 0, &jumping, &none, false), None);
    assert_eq!(after_jump.admits(0, 1, &idle, &none, false), None);
    assert_eq!(after_jump.admits(0, 1, &Vec::new(), &none, false), None);
}

#[test]
fn double_tap_rule() {
    let right = KeyTarget::RightJustPressed;
    let rule = EventEntryRule::DoubleTap {
        key: right,
        window: 300,
        after: MovementSet::from([FighterMovement::Idle, FighterMovement::WalkingEast]),
    };
    let taps = vec![entry(&[right], 100), entry(&[], 50), entry(&[right], 0)];
    let idle = moved(FighterMovement::Idle);
    assert_eq!(rule.admits(0, 0, &idle, &taps, true), Some(3));
    assert_eq!(rule.admits(0, 0, &idle, &taps, false), None);
    assert_eq!(rule.admits(0, 1, &idle, &taps, true), None);
    assert_eq!(rule.admits(0, 0, &moved(FighterMovement::WalkingEast), &taps, true), Some(3));
    assert_eq!(rule.admits(0, 0, &moved(FighterMovement::WalkingWest), &taps, true), None);
    assert_eq!(rule.admits(0, 0, &Vec::new(), &taps, true), Some(3));
    let single = vec![entry(&[right], 0)];
    assert_eq!(rule.admits(0, 0, &idle, &single, true), None);
}

#[test]
fn exit_rules() {
    let idle = FighterMovement::Idle;
    let attack = FighterMovement::JumpAttack;
    assert!(ExitRule::Always.permits(0, 5, 0, &idle));
    let jump = ExitRule::GroundedOrTo(attack);
    assert!(jump.permits(0, 5, 0, &attack));
    assert!(!jump.permits(0, 5, 0, &idle));
    assert!(jump.permits(0, 0, 0, &idle));
    let run = ExitRule::NotTo(MovementSet::from([idle, FighterMovement::WalkingEast]));
    assert!(!run.permits(0, 0, 0, &idle));
    assert!(!run.permits(0, 0, 0, &FighterMovement::WalkingEast));
    assert!(run.permits(0, 0, 0, &FighterMovement::WalkingWest));
    assert!(run.permits(0, 0, 0, &FighterMovement::Jumping));
    let slash = ExitRule::After(500);
    assert!(!slash.permits(0, 0, 500, &idle));
    assert!(slash.permits(0, 0, 501, &idle));
    assert!(!slash.permits(0, 0, 0, &idle));
    assert!(ExitRule::Grounded.permits(3, 3, 0, &idle));
    assert!(!ExitRule::Grounded.permits(3, 4, 0, &idle));
}

#[test]
fn channel_drifts_with_up_and_down() {
    let channel = Channel::Drift { up: 100, down: -100 };
    let start = FighterVelocity { x: 7, y: 8, z: 9 };
    let mut velocity = start;
    channel.apply(&KeyTargetSet::from([KeyTarget::Right]), &mut velocity);
    assert_eq!(velocity, start);
    channel.apply(&KeyTargetSet::from([KeyTarget::Up, KeyTarget::Right]), &mut velocity);
    assert_eq!(velocity, FighterVelocity { x: 7, y: 100, z: 9 });
    channel.apply(&KeyTargetSet::from([KeyTarget::Down]), &mut velocity);
    assert_eq!(velocity, FighterVelocity { x: 7, y: -100, z: 9 });
    let mut velocity = start;
    channel.apply(&KeyTargetSet::from([KeyTarget::Up, KeyTarget::Down]), &mut velocity);
    assert_eq!(velocity, FighterVelocity { x: 7, y: -100, z: 9 });
    let mut velocity = start;
    channel.apply(&KeyTargetSet::from([KeyTarget::UpJustPressed]), &mut velocity);
    assert_eq!(velocity, start);
}
