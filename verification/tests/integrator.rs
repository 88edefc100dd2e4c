use pixel_punch::controls::KeyTargetSet;
use pixel_punch::fighters::{
    Arena, Fighter, FighterMovement, FighterPosition, FighterRuntimeState, FighterVelocity,
};
use pixel_punch::integrator::{clamped, update_state};
use pixel_punch::movement_graph::FighterMovementMap;
use pixel_punch::movement_rules::{GRAVITY, JUMPING_SPEED, WALKING_SPEED};
use pixel_punch::resolver::player_control;

const FLOOR: i64 = -335_000_000;
const CEILING: i64 = -100_000_000;

fn arena() -> Arena {
    Arena {
        west_wall_x: -600_000_000,
        east_wall_x: 600_000_000,
        south_wall_y: -80_000_000,
        north_wall_y: 80_000_000,
        floor_z: FLOOR,
        ceiling_z: CEILING,
    }
}

fn fighter(movement: FighterMovement, position: FighterPosition) -> FighterRuntimeState {
    let mut state = FighterRuntimeState::new(Fighter::IDF, position);
    state.movement_stack.push(movement);
    state
}

fn now(state: &FighterRuntimeState) -> FighterMovement {
    state.movement_stack.last().unwrap().value
}

#[test]
fn clamped_holds_a_value_between_its_bounds() {
    assert_eq!(clamped(5, 0, 10), 5);
    assert_eq!(clamped(-5, 0, 10), 0);
    assert_eq!(clamped(15, 0, 10), 10);
    assert_eq!(clamped(0, 0, 10), 0);
    assert_eq!(clamped(10, 0, 10), 10);
    assert_eq!(clamped(7, 3, 3), 3);
}

#[test]
fn a_jump_rises_and_gravity_slows_it() {
    let map = FighterMovementMap::default();
    let start = FighterPosition { x: 1_000, y: 2_000, z: FLOOR + 10_000_000 };
    let mut state = fighter(FighterMovement::Jumping, start);
    state.velocity = FighterVelocity { x: 50_000, y: -25_000, z: JUMPING_SPEED };
    update_state(&map, &arena(), &mut state, 16);
    assert_eq!(
        state.position,
        FighterPosition {
            x: 1_000 + 50_000 * 16,
            y: 2_000 - 25_000 * 16,
            z: FLOOR + 10_000_000 + 200_000 * 16,
        }
    );
    assert_eq!(state.velocity, FighterVelocity { x: 50_000, y: -25_000, z: 200_000 - 400 * 16 });
    assert_eq!(state.velocity.z, JUMPING_SPEED + GRAVITY * 16);
    assert_eq!(now(&state), FighterMovement::Jumping);
}

#[test]
fn the_ceiling_holds_a_jump() {
    let map = FighterMovementMap::default();
    let mut state =
        fighter(FighterMovement::Jumping, FighterPosition { x: 0, y: 0, z: CEILING - 1_000 });
    state.velocity = FighterVelocity { x: 0, y: 0, z: JUMPING_SPEED };
    update_state(&map, &arena(), &mut state, 16);
    assert_eq!(state.position.z, CEILING);
    assert_eq!(state.velocity.z, JUMPING_SPEED + GRAVITY * 16);
}

#[test]
fn the_floor_holds_a_fall() {
    let map = FighterMovementMap::default();
    let mut state =
        fighter(FighterMovement::InAir, FighterPosition { x: 0, y: 0, z: FLOOR + 1_000 });
    state.velocity = FighterVelocity { x: 0, y: 0, z: -100_000 };
    update_state(&map, &arena(), &mut state, 16);
    assert_eq!(state.position.z, FLOOR);
    assert_eq!(state.velocity.z, -100_000 + GRAVITY * 16);
}

#[test]
fn the_walls_hold_a_walk() {
    let map = FighterMovementMap::default();
    let mut state = fighter(
        FighterMovement::WalkingEast,
        FighterPosition { x: 599_000_000, y: 0, z: FLOOR },
    );
    state.velocity = FighterVelocity { x: WALKING_SPEED, y: 7, z: 9 };
    update_state(&map, &arena(), &mut state, 16);
    assert_eq!(state.position, FighterPosition { x: 600_000_000, y: 0, z: FLOOR });
    assert_eq!(state.velocity, FighterVelocity { x: WALKING_SPEED, y: 7, z: 9 });
    let mut state = fighter(
        FighterMovement::WalkingNorthWest,
        FighterPosition { x: -599_999_000, y: 79_999_000, z: FLOOR },
    );
    state.velocity = FighterVelocity { x: -70_922, y: 70_922, z: 0 };
    update_state(&map, &arena(), &mut state, 1000);
    assert_eq!(state.position, FighterPosition { x: -600_000_000, y: 80_000_000, z: FLOOR });
}

#[test]
fn a_position_outside_the_arena_is_brought_in() {
    let map = FighterMovementMap::default();
    let mut state = fighter(FighterMovement::Idle, FighterPosition { x: i64::MAX, y: i64::MIN, z: 0 });
    state.velocity = FighterVelocity { x: 1, y: 1, z: 1 };
    update_state(&map, &arena(), &mut state, 16);
    assert_eq!(state.position, FighterPosition { x: 600_000_000, y: -80_000_000, z: CEILING });
    assert_eq!(state.velocity, FighterVelocity { x: 1, y: 1, z: 1 });
}

#[test]
fn walking_moves_along_x_only() {
    let map = FighterMovementMap::default();
    let mut state = fighter(FighterMovement::WalkingEast, FighterPosition { x: 0, y: 0, z: FLOOR });
    state.velocity = FighterVelocity { x: WALKING_SPEED, y: 5_000, z: 5_000 };
    update_state(&map, &arena(), &mut state, 20);
    assert_eq!(state.position, FighterPosition { x: 2_000_000, y: 0, z: FLOOR });
}

#[test]
fn jump_attack_falls_back_to_jumping() {
    let map = FighterMovementMap::default();
    let start = FighterPosition { x: 0, y: 0, z: FLOOR + 50_000_000 };
    let mut state = fighter(FighterMovement::Jumping, start);
    state.movement_stack.push(FighterMovement::JumpAttack);
    state.velocity = FighterVelocity { x: 1, y: 2, z: 3 };
    state.movement_stack.0.update(501);
    update_state(&map, &arena(), &mut state, 16);
    assert_eq!(now(&state), FighterMovement::Jumping);
    assert_eq!(state.movement_stack.last().unwrap().duration, 0);
    assert_eq!(state.movement_stack.0.stack.len(), 4);
    assert_eq!(state.position, start);
    assert_eq!(state.velocity, FighterVelocity { x: 1, y: 2, z: 3 });
}

#[test]
fn jump_attack_lasts_up_to_its_time() {
    let map = FighterMovementMap::default();
    let start = FighterPosition { x: 0, y: 0, z: FLOOR + 50_000_000 };
    let mut state = fighter(FighterMovement::JumpAttack, start);
    state.velocity = FighterVelocity { x: 0, y: 0, z: 1_000 };
    state.movement_stack.0.update(500);
    update_state(&map, &arena(), &mut state, 10);
    assert_eq!(now(&state), FighterMovement::JumpAttack);
    assert_eq!(state.position.z, FLOOR + 50_000_000 + 10_000);
    assert_eq!(state.velocity.z, 1_000 - 4_000);
}

#[test]
fn jump_attack_falls_back_whatever_the_input() {
    let map = FighterMovementMap::default();
    let start = FighterPosition { x: 0, y: 0, z: FLOOR + 50_000_000 };
    let mut state = fighter(FighterMovement::JumpAttack, start);
    let held = KeyTargetSet::from([
        pixel_punch::controls::KeyTarget::Right,
        pixel_punch::controls::KeyTarget::Attack,
    ]);
    let edges = KeyTargetSet::from([pixel_punch::controls::KeyTarget::AttackJustPressed]);
    let r = player_control(&map, &arena(), &mut state, held, edges, 501);
    assert!(r.is_ok());
    assert_eq!(now(&state), FighterMovement::JumpAttack);
    update_state(&map, &arena(), &mut state, 501);
    assert_eq!(now(&state), FighterMovement::Jumping);
}

#[test]
fn a_fighter_without_a_motion_state_is_left_alone() {
    let map = FighterMovementMap::default();
    let mut state = FighterRuntimeState::new(Fighter::IDF, FighterPosition { x: 1, y: 2, z: 3 });
    state.movement_stack.0.pop();
    state.velocity = FighterVelocity { x: 9, y: 9, z: 9 };
    update_state(&map, &arena(), &mut state, 16);
    assert_eq!(state.position, FighterPosition { x: 1, y: 2, z: 3 });
    assert_eq!(state.velocity, FighterVelocity { x: 9, y: 9, z: 9 });
    assert_eq!(state.movement_stack.0.stack.len(), 0);
}

#[test]
fn a_whole_jump_lands_again() {
    let map = FighterMovementMap::default();
    let mut state = fighter(FighterMovement::Idle, FighterPosition { x: 0, y: 0, z: FLOOR });
    let jump = KeyTargetSet::from([pixel_punch::controls::KeyTarget::JumpJustPressed]);
    let r = player_control(&map, &arena(), &mut state, KeyTargetSet::empty(), jump, 10);
    assert!(r.is_ok());
    assert_eq!(now(&state), FighterMovement::Jumping);
    update_state(&map, &arena(), &mut state, 10);
    assert_eq!(state.position.z, FLOOR + 2_000_000);
    let mut ticks = 0;
    while now(&state) != FighterMovement::Idle {
        let r = player_control(
            &map,
            &arena(),
            &mut state,
            KeyTargetSet::empty(),
            KeyTargetSet::empty(),
            10,
        );
        assert!(r.is_ok());
        update_state(&map, &arena(), &mut state, 10);
        ticks += 1;
        assert!(ticks < 1000);
    }
    assert_eq!(state.position.z, FLOOR);
    assert_eq!(ticks, 101);
}
