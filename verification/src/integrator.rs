//! The step that moves a fighter once per tick: a motion state that has
//! lasted its time gives way to its fallback; else the motion state moves
//! the fighter, and the arena holds it in.

use vstd::prelude::*;
use crate::fighters::{Arena, FighterMovement, FighterPosition, FighterRuntimeState, FighterView};
use crate::history::spec_pushed;
use crate::movement_graph::{
    FighterMovementMap, FighterMovementNode, FighterMovementNodeTrait, MovementMapView,
};
use crate::movement_rules::spec_advanced;

verus! {

/// `value`, held between `low` and `high`.
pub open spec fn spec_clamped(value: i64, low: i64, high: i64) -> i64 {
    if value < low {
        low
    } else if value > high {
        high
    } else {
        value
    }
}

/// `value`, held between `low` and `high`.
pub fn clamped(value: i64, low: i64, high: i64) -> (r: i64)
    requires
        low <= high,
    ensures
        r == spec_clamped(value, low, high),
        low <= r <= high,
{
    if value < low {
        low
    } else if value > high {
        high
    } else {
        value
    }
}

/// Between the bounds of an arena, holding a position within what an `i64`
/// can be loses nothing: the fighter is where the exact sum, held between
/// the bounds, puts it.
pub proof fn lemma_clamped_advance(start: i64, rate: i64, delta_time: u64, low: i64, high: i64)
    requires
        low <= high,
    ensures
        spec_clamped(spec_advanced(start, rate, delta_time), low, high) == (if start + rate
            * delta_time < low {
            low as int
        } else if start + rate * delta_time > high {
            high as int
        } else {
            start + rate * delta_time
        }),
{
}

/// `position`, held within the bounds of `arena`.
pub open spec fn spec_within(arena: Arena, position: FighterPosition) -> FighterPosition {
    FighterPosition {
        x: spec_clamped(position.x, arena.west_wall_x, arena.east_wall_x),
        y: spec_clamped(position.y, arena.south_wall_y, arena.north_wall_y),
        z: spec_clamped(position.z, arena.floor_z, arena.ceiling_z),
    }
}

/// The motion state that `node` gives way to after `duration`: its
/// fallback, where an input edge brings the node on, it names one, and
/// `duration` is longer than the time it names.
pub open spec fn spec_due_fallback(node: FighterMovementNode, duration: u64) -> Option<
    FighterMovement,
> {
    match node {
        FighterMovementNode::EventTriggered(event_node) => match event_node.duration_and_fallback {
            Some(duration_and_fallback) => if duration > duration_and_fallback.duration {
                Some(duration_and_fallback.fallback)
            } else {
                None
            },
            None => None,
        },
        _ => None,
    }
}

/// A fighter after the step. One without a motion state is left as it is.
/// Where the motion state has lasted its time, the fallback is the newest
/// of the history, and nothing else changes: the velocity is not set anew,
/// and the fighter does not move in this tick. Else the motion state moves
/// the fighter for `delta_time`, and the position is held within the arena.
pub open spec fn spec_update_state(
    graph: MovementMapView,
    arena: Arena,
    state: FighterView,
    delta_time: u64,
) -> FighterView {
    if state.movements.len() == 0 {
        state
    } else {
        let node = graph.movement[state.current().value.spec_index()];
        match spec_due_fallback(node, state.current().duration) {
            Some(fallback) => FighterView {
                movements: spec_pushed(state.movements, state.movements_max_size, fallback),
                ..state
            },
            None => FighterView {
                position: spec_within(
                    arena,
                    node.base().state_update.spec_position(
                        state.position,
                        state.velocity,
                        delta_time,
                    ),
                ),
                velocity: node.base().state_update.spec_velocity(state.velocity, delta_time),
                ..state
            },
        }
    }
}

/// One step of the integrator for one fighter, as [`spec_update_state`]
/// says.
pub fn update_state(
    catalog: &FighterMovementMap,
    arena: &Arena,
    state: &mut FighterRuntimeState,
    delta_time: u64,
)
    requires
        arena.wf(),
        old(state)@.movements.len() <= old(state)@.movements_max_size,
        old(state)@.movements_max_size > 0,
        old(state)@.movements.len() > 0 ==> catalog@.contains(old(state)@.current().value),
    ensures
        final(state)@ == spec_update_state(catalog@, *arena, old(state)@, delta_time),
        final(state)@.movements.len() <= final(state)@.movements_max_size,
        old(state)@.wf() ==> final(state)@.wf(),
{
    if state.movement_stack.0.stack.len() == 0 {
        return ;
    }
    let current_movement: FighterMovement = state.movement_stack.0.stack[
        state.movement_stack.0.stack.len() - 1
    ].value;
    let current_duration: u64 = state.movement_stack.0.stack[state.movement_stack.0.stack.len()
        - 1].duration;
    let movement_node: FighterMovementNode = match catalog.get_node_by_movement(
        &current_movement,
    ) {
        Ok(node) => *node,
        Err(_) => vstd::pervasive::unreached(),
    };
    if let FighterMovementNode::EventTriggered(node) = movement_node {
        if let Some(duration_and_fallback) = node.duration_and_fallback {
            if current_duration > duration_and_fallback.duration {
                state.movement_stack.push(duration_and_fallback.fallback);
                return ;
            }
        }
    }
    movement_node.state_update(&mut state.position, &mut state.velocity, delta_time);
    state.position.x = clamped(state.position.x, arena.west_wall_x, arena.east_wall_x);
    state.position.y = clamped(state.position.y, arena.south_wall_y, arena.north_wall_y);
    state.position.z = clamped(state.position.z, arena.floor_z, arena.ceiling_z);
}

} // verus!
