use pixel_punch::controls::{KeyTarget, KeyTargetSet};
use pixel_punch::fighters::{
    Arena, Fighter, FighterMovement, FighterPosition, FighterRuntimeState, FighterVelocity,
};
use pixel_punch::movement_graph::{
    EventFighterMovementNode, FighterMovementMap, FighterMovementNode, FighterMovementNodeBase,
    PersistentFighterMovementNode, UncontrollableFighterMovementNode,
};
use pixel_punch::movement_rules::{
    EntryRule, EventEntryRule, ExitRule, StateEnter, StateUpdate, JUMPING_SPEED, RUNNING_SPEED,
    WALKING_SPEED,
};
use pixel_punch::resolver::{
    can_exit_node, enter_requested_node, player_control, AmbiguousRequest, ControlOutcome,
};

const FLOOR: i64 = -335_000_000;

fn arena() -> Arena {
    Arena {
        west_wall_x: -600_000_000,
        east_wall_x: 600_000_000,
        south_wall_y: -80_000_000,
        north_wall_y: 80_000_000,
        floor_z: FLOOR,
        ceiling_z: -100_000_000,
    }
}

fn fighter_in(movement: FighterMovement, z: i64) -> FighterRuntimeState {
    let mut state = FighterRuntimeState::new(Fighter::IDF, FighterPosition { x: 0, y: 0, z });
    state.movement_stack.push(movement);
    state
}

fn keys(symbols: &[KeyTarget]) -> KeyTargetSet {
    let mut set = KeyTargetSet::empty();
    for symbol in symbols {
        set = set.insert(*symbol);
    }
    set
}

fn current(state: &FighterRuntimeState) -> FighterMovement {
    state.movement_stack.last().unwrap().value
}

fn tick(
    map: &FighterMovementMap,
    state: &mut FighterRuntimeState,
    held: &[KeyTarget],
    edges: &[KeyTarget],
    delta_time: u64,
) -> Result<ControlOutcome, AmbiguousRequest> {
    player_control(map, &arena(), state, keys(held), keys(edges), delta_time)
}

fn outcome(r: Result<ControlOutcome, AmbiguousRequest>) -> ControlOutcome {
    match r {
        Ok(outcome) => outcome,
        Err(request) => panic!("ambiguous: {:?}", request.culprits),
    }
}

#[test]
fn new_fighter_starts_in_air() {
    let state = FighterRuntimeState::new(Fighter::HAMAS, FighterPosition { x: 1, y: 2, z: 3 });
    assert_eq!(state.fighter, Fighter::HAMAS);
    assert_eq!(state.position, FighterPosition { x: 1, y: 2, z: 3 });
    assert_eq!(state.velocity, FighterVelocity { x: 0, y: 0, z: 0 });
    assert_eq!(state.movement_stack.0.stack.len(), 1);
    assert_eq!(current(&state), FighterMovement::InAir);
    assert_eq!(state.movement_stack.last().unwrap().duration, 0);
    assert_eq!(state.movement_stack.0.max_size, 10);
    assert_eq!(state.event_keytargetset_stack.0.stack.len(), 0);
    assert_eq!(state.event_keytargetset_stack.0.max_size, 10);
    assert_eq!(state.event_keytargetset_stack.0.max_duration, 500);
}

#[test]
fn idle_with_right_held_walks_east() {
    let map = FighterMovementMap::default();
    let mut state = fighter_in(FighterMovement::Idle, FLOOR);
    let r = tick(&map, &mut state, &[KeyTarget::Right], &[], 16);
    assert_eq!(outcome(r), ControlOutcome::Entered(FighterMovement::WalkingEast));
    assert_eq!(current(&state), FighterMovement::WalkingEast);
    assert_eq!(state.movement_stack.last().unwrap().duration, 0);
    assert_eq!(state.velocity.x, WALKING_SPEED);
    assert_eq!(state.velocity.x, 100_000);
    assert_eq!(state.velocity.y, 0);
    assert_eq!(state.position, FighterPosition { x: 0, y: 0, z: FLOOR });
}

#[test]
fn holding_right_does_not_enter_the_walk_again() {
    let map = FighterMovementMap::default();
    let mut state = fighter_in(FighterMovement::Idle, FLOOR);
    outcome(tick(&map, &mut state, &[KeyTarget::Right], &[], 16));
    let entries = state.movement_stack.0.stack.len();
    state.velocity = FighterVelocity { x: 12_345, y: 67, z: 89 };
    for n in 1..=5u64 {
        let r = tick(&map, &mut state, &[KeyTarget::Right], &[], 16);
        assert_eq!(outcome(r), ControlOutcome::Repeated);
        assert_eq!(state.velocity, FighterVelocity { x: 12_345, y: 67, z: 89 });
        assert_eq!(state.movement_stack.0.stack.len(), entries);
        assert_eq!(current(&state), FighterMovement::WalkingEast);
        assert_eq!(state.movement_stack.last().unwrap().duration, 16 * n);
    }
}

#[test]
fn releasing_input_returns_to_idle() {
    let map = FighterMovementMap::default();
    let mut state = fighter_in(FighterMovement::WalkingEast, FLOOR);
    state.velocity = FighterVelocity { x: WALKING_SPEED, y: 5, z: 7 };
    let r = tick(&map, &mut state, &[], &[], 16);
    assert_eq!(outcome(r), ControlOutcome::Entered(FighterMovement::Idle));
    assert_eq!(current(&state), FighterMovement::Idle);
    assert_eq!(state.velocity, FighterVelocity { x: 0, y: 0, z: 7 });
    let r = tick(&map, &mut state, &[], &[], 16);
    assert_eq!(outcome(r), ControlOutcome::Held);
    assert_eq!(current(&state), FighterMovement::Idle);
}

#[test]
fn in_air_on_the_floor_lands_in_idle() {
    let map = FighterMovementMap::default();
    let mut state = FighterRuntimeState::new(Fighter::IDF, FighterPosition { x: 0, y: 0, z: FLOOR });
    let r = tick(&map, &mut state, &[], &[], 16);
    assert_eq!(outcome(r), ControlOutcome::Entered(FighterMovement::Idle));
}

#[test]
fn in_air_off_the_floor_stays_in_air() {
    let map = FighterMovementMap::default();
    let mut state =
        FighterRuntimeState::new(Fighter::IDF, FighterPosition { x: 0, y: 0, z: FLOOR + 1 });
    let r = tick(&map, &mut state, &[KeyTarget::Right], &[KeyTarget::JumpJustPressed], 16);
    assert_eq!(outcome(r), ControlOutcome::Held);
    assert_eq!(current(&state), FighterMovement::InAir);
    assert_eq!(state.velocity, FighterVelocity { x: 0, y: 0, z: 0 });
}

#[test]
fn every_tick_puts_its_edges_on_the_history() {
    let map = FighterMovementMap::default();
    let mut state = fighter_in(FighterMovement::Idle, FLOOR);
    outcome(tick(&map, &mut state, &[], &[], 100));
    outcome(tick(&map, &mut state, &[], &[KeyTarget::DefendJustPressed], 100));
    outcome(tick(&map, &mut state, &[], &[], 100));
    let events: Vec<(KeyTargetSet, u64)> =
        state.event_keytargetset_stack.0.stack.iter().map(|e| (e.value, e.duration)).collect();
    assert_eq!(
        events,
        vec![
            (KeyTargetSet::empty(), 200),
            (keys(&[KeyTarget::DefendJustPressed]), 100),
            (KeyTargetSet::empty(), 0),
        ]
    );
    outcome(tick(&map, &mut state, &[], &[], 350));
    let events: Vec<u64> =
        state.event_keytargetset_stack.0.stack.iter().map(|e| e.duration).collect();
    assert_eq!(events, vec![450, 350, 0]);
    outcome(tick(&map, &mut state, &[], &[], 100));
    let events: Vec<u64> =
        state.event_keytargetset_stack.0.stack.iter().map(|e| e.duration).collect();
    assert_eq!(events, vec![450, 100, 0]);
}

#[test]
fn double_tap_right_starts_a_run() {
    let map = FighterMovementMap::default();
    let mut state = fighter_in(FighterMovement::Idle, FLOOR);
    let right = KeyTarget::Right;
    let press = KeyTarget::RightJustPressed;
    let r = tick(&map, &mut state, &[right], &[press], 16);
    assert_eq!(outcome(r), ControlOutcome::Entered(FighterMovement::WalkingEast));
    let r = tick(&map, &mut state, &[], &[], 50);
    assert_eq!(outcome(r), ControlOutcome::Entered(FighterMovement::Idle));
    let r = tick(&map, &mut state, &[right], &[press], 50);
    assert_eq!(outcome(r), ControlOutcome::Entered(FighterMovement::RunningEast));
    assert_eq!(current(&state), FighterMovement::RunningEast);
    assert_eq!(state.velocity.x, RUNNING_SPEED);
    assert_eq!(state.velocity.x, 200_000);
    assert_eq!(state.event_keytargetset_stack.0.stack.len(), 0);
}

#[test]
fn double_tap_from_a_walk_starts_a_run() {
    let map = FighterMovementMap::default();
    let mut state = fighter_in(FighterMovement::WalkingEast, FLOOR);
    let press = KeyTarget::RightJustPressed;
    state.event_keytargetset_stack.0.push(keys(&[press]));
    state.event_keytargetset_stack.0.push(keys(&[press]));
    let r = tick(&map, &mut state, &[KeyTarget::Right], &[press], 100);
    assert_eq!(outcome(r), ControlOutcome::Entered(FighterMovement::RunningEast));
    let left: Vec<(KeyTargetSet, u64)> =
        state.event_keytargetset_stack.0.stack.iter().map(|e| (e.value, e.duration)).collect();
    assert_eq!(left, vec![(keys(&[press]), 100)]);
}

#[test]
fn single_tap_right_starts_no_run() {
    let map = FighterMovementMap::default();
    let mut state = fighter_in(FighterMovement::Idle, FLOOR);
    let r = tick(&map, &mut state, &[KeyTarget::Right], &[KeyTarget::RightJustPressed], 16);
    assert_eq!(outcome(r), ControlOutcome::Entered(FighterMovement::WalkingEast));
    for _ in 0..40 {
        let r = tick(&map, &mut state, &[KeyTarget::Right], &[], 16);
        assert_eq!(outcome(r), ControlOutcome::Repeated);
        assert_eq!(current(&state), FighterMovement::WalkingEast);
    }
}

#[test]
fn taps_too_far_apart_start_no_run() {
    let map = FighterMovementMap::default();
    let mut state = fighter_in(FighterMovement::Idle, FLOOR);
    let right = KeyTarget::Right;
    let press = KeyTarget::RightJustPressed;
    outcome(tick(&map, &mut state, &[right], &[press], 16));
    outcome(tick(&map, &mut state, &[], &[], 200));
    let r = tick(&map, &mut state, &[right], &[press], 101);
    assert_eq!(outcome(r), ControlOutcome::Entered(FighterMovement::WalkingEast));
    assert_eq!(state.velocity.x, WALKING_SPEED);
}

#[test]
fn double_tap_left_from_walking_east_starts_no_run() {
    let map = FighterMovementMap::default();
    let mut state = fighter_in(FighterMovement::WalkingEast, FLOOR);
    let press = KeyTarget::LeftJustPressed;
    state.event_keytargetset_stack.0.push(keys(&[press]));
    let r = tick(&map, &mut state, &[KeyTarget::Left], &[press], 50);
    assert_eq!(outcome(r), ControlOutcome::Entered(FighterMovement::WalkingWest));
    assert_eq!(state.velocity.x, -WALKING_SPEED);
    assert_eq!(state.event_keytargetset_stack.0.stack.len(), 2);
}

#[test]
fn a_run_does_not_drop_to_a_walk_or_to_idle() {
    let map = FighterMovementMap::default();
    let mut state = fighter_in(FighterMovement::RunningEast, FLOOR);
    state.velocity = FighterVelocity { x: RUNNING_SPEED, y: 0, z: 0 };
    let r = tick(&map, &mut state, &[KeyTarget::Right], &[], 16);
    assert_eq!(outcome(r), ControlOutcome::Channelled);
    assert_eq!(current(&state), FighterMovement::RunningEast);
    assert_eq!(state.velocity, FighterVelocity { x: RUNNING_SPEED, y: 0, z: 0 });
    let r = tick(&map, &mut state, &[], &[], 16);
    assert_eq!(outcome(r), ControlOutcome::Channelled);
    assert_eq!(current(&state), FighterMovement::RunningEast);
    let r = tick(&map, &mut state, &[KeyTarget::Left], &[], 16);
    assert_eq!(outcome(r), ControlOutcome::Entered(FighterMovement::WalkingWest));
}

#[test]
fn a_run_drifts_with_up_and_down() {
    let map = FighterMovementMap::default();
    let mut state = fighter_in(FighterMovement::RunningEast, FLOOR);
    state.velocity = FighterVelocity { x: RUNNING_SPEED, y: 0, z: 0 };
    let r = tick(&map, &mut state, &[KeyTarget::Up], &[], 16);
    assert_eq!(outcome(r), ControlOutcome::Channelled);
    assert_eq!(state.velocity, FighterVelocity { x: RUNNING_SPEED, y: WALKING_SPEED, z: 0 });
    let r = tick(&map, &mut state, &[KeyTarget::Down], &[KeyTarget::DownJustPressed], 16);
    assert_eq!(outcome(r), ControlOutcome::Channelled);
    assert_eq!(state.velocity, FighterVelocity { x: RUNNING_SPEED, y: -WALKING_SPEED, z: 0 });
    assert_eq!(current(&state), FighterMovement::RunningEast);
}

#[test]
fn jump_press_on_the_floor_jumps() {
    let map = FighterMovementMap::default();
    let mut state = fighter_in(FighterMovement::WalkingEast, FLOOR);
    state.velocity = FighterVelocity { x: WALKING_SPEED, y: 0, z: 0 };
    let r = tick(&map, &mut state, &[KeyTarget::Right], &[KeyTarget::JumpJustPressed], 16);
    assert_eq!(outcome(r), ControlOutcome::Entered(FighterMovement::Jumping));
    assert_eq!(state.velocity, FighterVelocity { x: WALKING_SPEED, y: 0, z: JUMPING_SPEED });
}

#[test]
fn a_jump_in_the_air_only_yields_to_the_air_slash() {
    let map = FighterMovementMap::default();
    let mut state = fighter_in(FighterMovement::Jumping, FLOOR + 1_000_000);
    state.velocity = FighterVelocity { x: 0, y: 0, z: 1000 };
    let r = tick(&map, &mut state, &[KeyTarget::Right], &[], 16);
    assert_eq!(outcome(r), ControlOutcome::Held);
    assert_eq!(current(&state), FighterMovement::Jumping);
    let r = tick(&map, &mut state, &[], &[KeyTarget::AttackJustPressed], 16);
    assert_eq!(outcome(r), ControlOutcome::Entered(FighterMovement::JumpAttack));
    assert_eq!(state.velocity, FighterVelocity { x: 0, y: 0, z: 1000 });
    let r = tick(&map, &mut state, &[], &[], 16);
    assert_eq!(outcome(r), ControlOutcome::Held);
    assert_eq!(current(&state), FighterMovement::JumpAttack);
}

#[test]
fn a_jump_that_has_landed_returns_to_idle() {
    let map = FighterMovementMap::default();
    let mut state = fighter_in(FighterMovement::Jumping, FLOOR);
    let r = tick(&map, &mut state, &[], &[], 600);
    assert_eq!(outcome(r), ControlOutcome::Entered(FighterMovement::Idle));
}

#[test]
fn a_slash_holds_for_its_time() {
    let map = FighterMovementMap::default();
    let mut state = fighter_in(FighterMovement::Idle, FLOOR);
    state.velocity = FighterVelocity { x: 5, y: 6, z: 7 };
    let r = tick(&map, &mut state, &[KeyTarget::Attack], &[KeyTarget::AttackJustPressed], 16);
    assert_eq!(outcome(r), ControlOutcome::Entered(FighterMovement::Slashing));
    assert_eq!(state.velocity, FighterVelocity { x: 0, y: 0, z: 7 });
    let r = tick(&map, &mut state, &[KeyTarget::Right], &[], 250);
    assert_eq!(outcome(r), ControlOutcome::Held);
    let r = tick(&map, &mut state, &[KeyTarget::Right], &[], 250);
    assert_eq!(outcome(r), ControlOutcome::Held);
    assert_eq!(current(&state), FighterMovement::Slashing);
    let r = tick(&map, &mut state, &[KeyTarget::Right], &[], 1);
    assert_eq!(outcome(r), ControlOutcome::Entered(FighterMovement::WalkingEast));
}

#[test]
fn a_buffered_jump_press_acts_after_the_slash() {
    let map = FighterMovementMap::default();
    let mut state = fighter_in(FighterMovement::Slashing, FLOOR);
    let r = tick(&map, &mut state, &[], &[KeyTarget::JumpJustPressed], 300);
    assert_eq!(outcome(r), ControlOutcome::Held);
    let r = tick(&map, &mut state, &[], &[], 201);
    assert_eq!(outcome(r), ControlOutcome::Entered(FighterMovement::Jumping));
}

#[test]
fn defend_ducks_and_stops() {
    let map = FighterMovementMap::default();
    let mut state = fighter_in(FighterMovement::WalkingEast, FLOOR);
    state.velocity = FighterVelocity { x: 1, y: 2, z: 3 };
    let r = tick(&map, &mut state, &[KeyTarget::Defend], &[KeyTarget::DefendJustPressed], 16);
    assert_eq!(outcome(r), ControlOutcome::Entered(FighterMovement::Docking));
    assert_eq!(state.velocity, FighterVelocity { x: 0, y: 0, z: 0 });
}

#[test]
fn unknown_held_set_falls_back_to_idle() {
    let map = FighterMovementMap::default();
    let mut state = fighter_in(FighterMovement::WalkingEast, FLOOR);
    let r = tick(&map, &mut state, &[KeyTarget::Left, KeyTarget::Right], &[], 16);
    assert_eq!(outcome(r), ControlOutcome::Entered(FighterMovement::Idle));
}

#[test]
fn movement_history_keeps_its_bound() {
    let map = FighterMovementMap::default();
    let mut state = fighter_in(FighterMovement::Idle, FLOOR);
    for _ in 0..12 {
        outcome(tick(&map, &mut state, &[KeyTarget::Right], &[], 16));
        outcome(tick(&map, &mut state, &[], &[], 16));
    }
    assert_eq!(state.movement_stack.0.stack.len(), 10);
    assert_eq!(current(&state), FighterMovement::Idle);
    assert_eq!(state.event_keytargetset_stack.0.stack.len(), 10);
}

fn plain(movement: FighterMovement) -> FighterMovementNodeBase {
    FighterMovementNodeBase {
        movement,
        sprite_name: "Test",
        state_update: StateUpdate::Still,
        state_enter: StateEnter { x: Some(1), y: None, z: None },
    }
}

fn ambiguous_graph() -> FighterMovementMap {
    let mut map = FighterMovementMap::new();
    map.insert_to_uncontrollable_map(UncontrollableFighterMovementNode {
        base: plain(FighterMovement::Idle),
        player_can_enter: EntryRule::Grounded,
    });
    for movement in [FighterMovement::Slashing, FighterMovement::Jumping] {
        map.insert_to_event_map(
            keys(&[KeyTarget::AttackJustPressed]),
            EventFighterMovementNode {
                base: plain(movement),
                player_can_enter: EventEntryRule::Grounded,
                player_can_exit: ExitRule::Always,
                channel: None,
                duration_and_fallback: None,
            },
        );
    }
    for movement in [FighterMovement::WalkingEast, FighterMovement::WalkingWest] {
        map.insert_to_persistent_map(
            keys(&[KeyTarget::Right]),
            PersistentFighterMovementNode {
                base: plain(movement),
                player_can_enter: EntryRule::Grounded,
                player_can_exit: ExitRule::Always,
            },
        );
    }
    map
}

#[test]
fn two_event_nodes_at_once_are_an_error() {
    let map = ambiguous_graph();
    let mut state = fighter_in(FighterMovement::Idle, FLOOR);
    state.movement_stack.0.stack.remove(0);
    let r = tick(&map, &mut state, &[], &[KeyTarget::AttackJustPressed], 16);
    match r {
        Err(request) => {
            assert_eq!(request.culprits, vec![FighterMovement::Slashing, FighterMovement::Jumping])
        }
        Ok(outcome) => panic!("no error: {:?}", outcome),
    }
    assert_eq!(current(&state), FighterMovement::Idle);
    assert_eq!(state.movement_stack.0.stack.len(), 1);
    assert_eq!(state.velocity, FighterVelocity { x: 0, y: 0, z: 0 });
}

#[test]
fn two_persistent_nodes_at_once_are_an_error() {
    let map = ambiguous_graph();
    let mut state = fighter_in(FighterMovement::Idle, FLOOR);
    state.movement_stack.0.stack.remove(0);
    let r = tick(&map, &mut state, &[KeyTarget::Right], &[], 16);
    match r {
        Err(request) => assert_eq!(
            request.culprits,
            vec![FighterMovement::WalkingEast, FighterMovement::WalkingWest]
        ),
        Ok(outcome) => panic!("no error: {:?}", outcome),
    }
    assert_eq!(current(&state), FighterMovement::Idle);
}

#[test]
fn one_of_two_nodes_that_is_held_already_repeats() {
    let map = ambiguous_graph();
    let mut state = fighter_in(FighterMovement::WalkingWest, FLOOR);
    state.movement_stack.0.stack.remove(0);
    let r = tick(&map, &mut state, &[KeyTarget::Right], &[], 16);
    assert_eq!(outcome(r), ControlOutcome::Repeated);
    off_the_floor_nothing_is_ambiguous(&map);
}

fn off_the_floor_nothing_is_ambiguous(map: &FighterMovementMap) {
    let mut state = fighter_in(FighterMovement::Idle, FLOOR + 1);
    state.movement_stack.0.stack.remove(0);
    let r = tick(map, &mut state, &[KeyTarget::Right], &[KeyTarget::AttackJustPressed], 16);
    assert_eq!(outcome(r), ControlOutcome::Held);
}

#[test]
fn can_exit_node_asks_the_current_node() {
    let map = FighterMovementMap::default();
    let idle = map.get_uncontrollable_node(&FighterMovement::Idle).unwrap();
    let jumping = *map.get_node_by_movement(&FighterMovement::Jumping).unwrap();
    let walking = *map.get_node_by_movement(&FighterMovement::WalkingEast).unwrap();
    let in_air = *map.get_node_by_movement(&FighterMovement::InAir).unwrap();
    let attack = map.get_event_node_by_movement(&FighterMovement::JumpAttack).unwrap();
    assert!(!can_exit_node(&idle, &jumping, FLOOR, FLOOR + 1, 0));
    assert!(can_exit_node(&idle, &jumping, FLOOR, FLOOR, 0));
    assert!(can_exit_node(&attack, &jumping, FLOOR, FLOOR + 1, 0));
    assert!(can_exit_node(&idle, &walking, FLOOR, FLOOR + 1, 0));
    assert!(can_exit_node(&idle, &in_air, FLOOR, FLOOR + 1, 0));
    assert!(matches!(in_air, FighterMovementNode::Uncontrollable(_)));
}

#[test]
fn enter_requested_node_enters_the_only_node() {
    let map = FighterMovementMap::default();
    let jumping = map.get_event_node_by_movement(&FighterMovement::Jumping).unwrap();
    let mut state = fighter_in(FighterMovement::Idle, FLOOR);
    let none: Vec<EventFighterMovementNode> = Vec::new();
    assert_eq!(enter_requested_node(&none, &mut state), None);
    assert_eq!(current(&state), FighterMovement::Idle);
    assert_eq!(state.velocity, FighterVelocity { x: 0, y: 0, z: 0 });
    assert_eq!(enter_requested_node(&vec![jumping], &mut state), Some(FighterMovement::Jumping));
    assert_eq!(current(&state), FighterMovement::Jumping);
    assert_eq!(state.velocity, FighterVelocity { x: 0, y: 0, z: JUMPING_SPEED });
    assert_eq!(state.movement_stack.0.stack.len(), 3);
}
