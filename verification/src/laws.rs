//! What holds of the library as a whole: of every movement graph, of the
//! histories, and of the graph that the fighters are given.

use vstd::prelude::*;
use crate::controls::{spec_join, KeyTarget, KeyTargetSet};
use crate::default_graph::{
    spec_default_graph, spec_idle_node, spec_run_east_after, spec_running_east_node,
    spec_walking_node,
    DOUBLE_TAP_WINDOW, JUMP_ATTACK_TIME,
};
use crate::fighters::{lemma_movement_codes, Arena, FighterMovement, FighterView, MovementSet};
use crate::history::{spec_aged, spec_pushed, TimeTaggedValue};
use crate::integrator::spec_update_state;
use crate::movement_graph::{
    EventFighterMovementNode, FighterMovementNode, MovementMapView, PersistentFighterMovementNode,
    UncontrollableFighterMovementNode,
};
use crate::movement_rules::{
    spec_clip, spec_presses, spec_tap_span, StateUpdate, GRAVITY, RUNNING_SPEED, WALKING_SPEED,
};
use crate::resolver::{
    spec_event_scan, spec_event_step, spec_player_control, spec_repeating,
    spec_tick_start, ControlOutcome, Decision,
};

verus! {

/// A node for `movement` is filed among the nodes that input edges bring
/// on.
pub open spec fn spec_in_event(graph: MovementMapView, movement: FighterMovement) -> bool {
    exists|key: u16, i: int|
        graph.event.contains_key(key) && 0 <= i < graph.event[key].len() && (
        #[trigger] graph.event[key][i]).base.movement == movement
}

/// A node for `movement` is filed among the nodes that held input brings
/// on.
pub open spec fn spec_in_persistent(graph: MovementMapView, movement: FighterMovement) -> bool {
    exists|key: u16, i: int|
        graph.persistent.contains_key(key) && 0 <= i < graph.persistent[key].len() && (
        #[trigger] graph.persistent[key][i]).base.movement == movement
}

/// A node for `movement` is filed among the nodes that no input brings on.
pub open spec fn spec_in_uncontrollable(graph: MovementMapView, movement: FighterMovement)
    -> bool {
    graph.uncontrollable.contains_key(movement.spec_index())
}

/// In a graph whose tables agree, a motion state that has a node is filed
/// in exactly one of the three tables by kind, the one of its node's kind;
/// and one that has no node is filed in none.
pub proof fn law_one_category(graph: MovementMapView, movement: FighterMovement)
    requires
        graph.wf(),
    ensures
        spec_in_event(graph, movement) <==> graph.node(movement) matches Some(
            FighterMovementNode::EventTriggered(_),
        ),
        spec_in_persistent(graph, movement) <==> graph.node(movement) matches Some(
            FighterMovementNode::Persistent(_),
        ),
        spec_in_uncontrollable(graph, movement) <==> graph.node(movement) matches Some(
            FighterMovementNode::Uncontrollable(_),
        ),
{
    let k = movement.spec_index();
    if spec_in_event(graph, movement) {
        let (key, i) = choose|key: u16, i: int|
            graph.event.contains_key(key) && 0 <= i < graph.event[key].len() && (
            #[trigger] graph.event[key][i]).base.movement == movement;
        assert(graph.event_at(key, i, graph.event[key][i]));
    }
    if spec_in_persistent(graph, movement) {
        let (key, i) = choose|key: u16, i: int|
            graph.persistent.contains_key(key) && 0 <= i < graph.persistent[key].len() && (
            #[trigger] graph.persistent[key][i]).base.movement == movement;
        assert(graph.persistent_at(key, i, graph.persistent[key][i]));
    }
    if graph.contains(movement) {
        assert(graph.movement.contains_key(k));
        match graph.movement[k] {
            FighterMovementNode::EventTriggered(node) => {
                let (key, i) = choose|key: u16, i: int| graph.event_at(key, i, node);
                assert(graph.event_at(key, i, node));
                assert(graph.node(node.base.movement) == Some(graph.movement[k]));
                lemma_movement_codes(node.base.movement, movement);
                assert(graph.event[key][i].base.movement == movement);
            },
            FighterMovementNode::Persistent(node) => {
                let (key, i) = choose|key: u16, i: int| graph.persistent_at(key, i, node);
                assert(graph.persistent_at(key, i, node));
                assert(graph.node(node.base.movement) == Some(graph.movement[k]));
                lemma_movement_codes(node.base.movement, movement);
                assert(graph.persistent[key][i].base.movement == movement);
            },
            FighterMovementNode::Uncontrollable(node) => {},
        }
    }
}

/// In a graph whose tables agree, no motion state is filed at two places
/// of the table of the nodes that input edges bring on, nor of the table
/// of the nodes that held input brings on.
pub proof fn law_one_place(
    graph: MovementMapView,
    key: u16,
    i: int,
    other_key: u16,
    other_i: int,
)
    requires
        graph.wf(),
    ensures
        graph.event.contains_key(key) && 0 <= i < graph.event[key].len()
            && graph.event.contains_key(other_key) && 0 <= other_i < graph.event[other_key].len()
            && graph.event[key][i].base.movement == graph.event[other_key][other_i].base.movement
            ==> key == other_key && i == other_i,
        graph.persistent.contains_key(key) && 0 <= i < graph.persistent[key].len()
            && graph.persistent.contains_key(other_key) && 0 <= other_i
            < graph.persistent[other_key].len() && graph.persistent[key][i].base.movement
            == graph.persistent[other_key][other_i].base.movement ==> key == other_key && i
            == other_i,
{
    if graph.event.contains_key(key) && 0 <= i < graph.event[key].len()
        && graph.event.contains_key(other_key) && 0 <= other_i < graph.event[other_key].len() {
        assert(graph.event_at(key, i, graph.event[key][i]));
        assert(graph.event_at(other_key, other_i, graph.event[other_key][other_i]));
    }
    if graph.persistent.contains_key(key) && 0 <= i < graph.persistent[key].len()
        && graph.persistent.contains_key(other_key) && 0 <= other_i
        < graph.persistent[other_key].len() {
        assert(graph.persistent_at(key, i, graph.persistent[key][i]));
        assert(graph.persistent_at(other_key, other_i, graph.persistent[other_key][other_i]));
    }
}

/// A motion state that was put into a graph has a node there, whatever
/// its kind: it cannot be put in a second time, since putting in asks for
/// a motion state that the graph does not hold. What the graph held
/// before, it still holds.
pub proof fn law_put_in_once(
    graph: MovementMapView,
    keyset: KeyTargetSet,
    event: EventFighterMovementNode,
    persistent: PersistentFighterMovementNode,
    uncontrollable: UncontrollableFighterMovementNode,
    movement: FighterMovement,
)
    ensures
        graph.with_event(keyset, event).contains(event.base.movement),
        graph.with_persistent(keyset, persistent).contains(persistent.base.movement),
        graph.with_uncontrollable(uncontrollable).contains(uncontrollable.base.movement),
        graph.contains(movement) ==> graph.with_event(keyset, event).contains(movement)
            && graph.with_persistent(keyset, persistent).contains(movement)
            && graph.with_uncontrollable(uncontrollable).contains(movement),
{
}

/// A graph that the resolver takes has a node for `Idle` that no input
/// brings on, filed under `Idle` in both tables that hold it.
pub proof fn law_idle_present(graph: MovementMapView)
    requires
        graph.wf(),
        graph.node(FighterMovement::Idle) matches Some(FighterMovementNode::Uncontrollable(_)),
    ensures
        graph.contains(FighterMovement::Idle),
        graph.uncontrollable.contains_key(FighterMovement::Idle.spec_index()),
        graph.uncontrollable[FighterMovement::Idle.spec_index()].base.movement
            == FighterMovement::Idle,
        graph.node(FighterMovement::Idle) == Some(
            FighterMovementNode::Uncontrollable(
                graph.uncontrollable[FighterMovement::Idle.spec_index()],
            ),
        ),
{
    let k = FighterMovement::Idle.spec_index();
    assert(graph.movement.contains_key(k));
    lemma_movement_codes(graph.movement[k].base().movement, FighterMovement::Idle);
}

/// The graph that the fighters are given has its tables in agreement, has
/// a node for every motion state, and has for `Idle` a node that no input
/// brings on.
pub proof fn law_default_graph_complete(movement: FighterMovement)
    ensures
        spec_default_graph().wf(),
        spec_default_graph().contains(movement),
        spec_default_graph().node(FighterMovement::Idle) == Some(
            FighterMovementNode::Uncontrollable(spec_idle_node()),
        ),
{
    crate::default_graph::lemma_default_graph();
}

/// `stack` after the values of `values` were put on it one after the
/// other.
pub open spec fn spec_pushed_all<T>(
    stack: Seq<TimeTaggedValue<T>>,
    max_size: usize,
    values: Seq<T>,
) -> Seq<TimeTaggedValue<T>>
    decreases values.len(),
{
    if values.len() == 0 {
        stack
    } else {
        spec_pushed(spec_pushed_all(stack, max_size, values.drop_last()), max_size, values.last())
    }
}

/// A history that has taken at least as many values as its bound allows
/// holds exactly that many entries: the values that came last, in their
/// order. So one value more than the bound leaves all but the first.
pub proof fn law_push_evicts_oldest<T>(
    stack: Seq<TimeTaggedValue<T>>,
    max_size: usize,
    values: Seq<T>,
)
    requires
        max_size > 0,
        stack.len() <= max_size,
        values.len() >= max_size,
    ensures
        spec_pushed_all(stack, max_size, values).len() == max_size,
        forall|i: int|
            0 <= i < max_size ==> #[trigger] spec_pushed_all(stack, max_size, values)[i] == (
            TimeTaggedValue { value: values[values.len() - max_size + i], duration: 0 }),
{
    lemma_pushed_all(stack, max_size, values);
}

/// What a history holds after it has taken `values`: its own newest
/// entries as far as there is room left for them, then the newest values.
proof fn lemma_pushed_all<T>(stack: Seq<TimeTaggedValue<T>>, max_size: usize, values: Seq<T>)
    requires
        max_size > 0,
        stack.len() <= max_size,
    ensures
        spec_pushed_all(stack, max_size, values).len() == (if stack.len() + values.len()
            <= max_size {
            stack.len() + values.len()
        } else {
            max_size as nat
        }),
        forall|i: int|
            0 <= i < spec_pushed_all(stack, max_size, values).len() ==> #[trigger] spec_pushed_all(
                stack,
                max_size,
                values,
            )[i] == ({
                let all = spec_pushed_all(stack, max_size, values);
                let from_values = i - (all.len() - values.len());
                if from_values >= 0 {
                    TimeTaggedValue { value: values[from_values], duration: 0 }
                } else {
                    stack[stack.len() + from_values]
                }
            }),
    decreases values.len(),
{
    if values.len() > 0 {
        let front = values.drop_last();
        lemma_pushed_all(stack, max_size, front);
        let before = spec_pushed_all(stack, max_size, front);
        let all = spec_pushed_all(stack, max_size, values);
        assert forall|i: int| 0 <= i < all.len() implies #[trigger] all[i] == ({
            let from_values = i - (all.len() - values.len());
            if from_values >= 0 {
                TimeTaggedValue { value: values[from_values], duration: 0 }
            } else {
                stack[stack.len() + from_values]
            }
        }) by {
            if i < all.len() - 1 {
                if before.len() == max_size {
                    assert(all[i] == before[i + 1]);
                } else {
                    assert(all[i] == before[i]);
                }
                let from_front = i - (all.len() - values.len());
                if from_front >= 0 {
                    assert(front[from_front] == values[from_front]);
                }
            }
        }
    }
}

/// A fighter that is in the motion state that its held input asks for
/// stays as it is, where no input edge brings on another motion state: the
/// motion state is not entered anew, and the velocity and the position are
/// those of before the tick.
pub proof fn law_holding_repeats(
    graph: MovementMapView,
    floor_z: i64,
    state: FighterView,
    persistent: KeyTargetSet,
    event: KeyTargetSet,
    delta_time: u64,
)
    requires
        state.wf(),
        ({
            let started = spec_tick_start(state, event, delta_time);
            let current = graph.movement[started.current().value.spec_index()];
            let (first, after_first) = spec_event_step(
                graph,
                current,
                floor_z,
                started,
                event,
                false,
            );
            let (second, after_second) = spec_event_step(
                graph,
                current,
                floor_z,
                after_first,
                spec_join(after_first.events),
                true,
            );
            first.is_none() && second.is_none()
        }),
        spec_repeating(graph.persistent_candidates(persistent), state.current().value),
    ensures
        ({
            let after = spec_player_control(graph, floor_z, state, persistent, event, delta_time);
            &&& after.decision == Decision::Done(ControlOutcome::Repeated)
            &&& after.state.velocity == state.velocity
            &&& after.state.position == state.position
            &&& after.state.movements == spec_aged(state.movements, delta_time)
            &&& after.state.current().value == state.current().value
        }),
{
}

/// A motion state that has lasted longer than the time its node names
/// gives way to the fallback that the node names, whatever the input is:
/// the step takes none. The fallback's velocity is not applied, and the
/// fighter stays where it is.
pub proof fn law_duration_fallback(
    graph: MovementMapView,
    arena: Arena,
    state: FighterView,
    delta_time: u64,
)
    requires
        state.movements.len() > 0,
        graph.node(state.current().value) matches Some(FighterMovementNode::EventTriggered(node))
            && node.duration_and_fallback matches Some(named) && state.current().duration
            > named.duration,
    ensures
        ({
            let after = spec_update_state(graph, arena, state, delta_time);
            let node = graph.node(state.current().value)->Some_0->EventTriggered_0;
            &&& after.movements == spec_pushed(
                state.movements,
                state.movements_max_size,
                node.duration_and_fallback->Some_0.fallback,
            )
            &&& after.current().value == node.duration_and_fallback->Some_0.fallback
            &&& after.current().duration == 0
            &&& after.position == state.position
            &&& after.velocity == state.velocity
        }),
{
}

/// In the graph that the fighters are given, a slash in the air that has
/// lasted longer than half a second gives way to the jump.
pub proof fn law_jump_attack_ends(arena: Arena, state: FighterView, delta_time: u64)
    requires
        state.movements.len() > 0,
        state.current().value == FighterMovement::JumpAttack,
        state.current().duration > JUMP_ATTACK_TIME,
    ensures
        spec_update_state(spec_default_graph(), arena, state, delta_time).current().value
            == FighterMovement::Jumping,
{
    crate::default_graph::lemma_default_graph();
    law_duration_fallback(spec_default_graph(), arena, state, delta_time);
}

/// `value`, held between `low` and `high`.
pub open spec fn spec_held_between(value: int, low: int, high: int) -> int {
    if value < low {
        low
    } else if value > high {
        high
    } else {
        value
    }
}

/// In the graph that the fighters are given, a step of the integrator
/// moves a jumping fighter by its velocity times the time of the step, as
/// far as the arena lets it, and only then lets gravity change the upward
/// speed by `GRAVITY` times that time. A bound that holds the fighter
/// leaves the velocity as it is.
pub proof fn law_jump_integrates(arena: Arena, state: FighterView, delta_time: u64)
    requires
        arena.wf(),
        state.movements.len() > 0,
        state.current().value == FighterMovement::Jumping,
    ensures
        ({
            let after = spec_update_state(spec_default_graph(), arena, state, delta_time);
            &&& after.position.x == spec_held_between(
                state.position.x + state.velocity.x * delta_time,
                arena.west_wall_x as int,
                arena.east_wall_x as int,
            )
            &&& after.position.y == spec_held_between(
                state.position.y + state.velocity.y * delta_time,
                arena.south_wall_y as int,
                arena.north_wall_y as int,
            )
            &&& after.position.z == spec_held_between(
                state.position.z + state.velocity.z * delta_time,
                arena.floor_z as int,
                arena.ceiling_z as int,
            )
            &&& after.velocity.x == state.velocity.x
            &&& after.velocity.y == state.velocity.y
            &&& after.velocity.z == spec_clip(state.velocity.z + GRAVITY * delta_time)
            &&& after.movements == state.movements
        }),
{
    crate::default_graph::lemma_default_graph();
    crate::integrator::lemma_clamped_advance(
        state.position.x,
        state.velocity.x,
        delta_time,
        arena.west_wall_x,
        arena.east_wall_x,
    );
    crate::integrator::lemma_clamped_advance(
        state.position.y,
        state.velocity.y,
        delta_time,
        arena.south_wall_y,
        arena.north_wall_y,
    );
    crate::integrator::lemma_clamped_advance(
        state.position.z,
        state.velocity.z,
        delta_time,
        arena.floor_z,
        arena.ceiling_z,
    );
}

/// Two presses of `key`, the older of them and all that came after it no
/// older than `window`, make a double tap.
pub proof fn law_two_presses_tap(
    events: Seq<TimeTaggedValue<KeyTargetSet>>,
    key: KeyTarget,
    window: u64,
    older: int,
    newer: int,
)
    requires
        0 <= older < newer < events.len(),
        events[older].value@.contains(key),
        events[newer].value@.contains(key),
        forall|i: int| older <= i < events.len() ==> events[i].duration <= window,
    ensures
        spec_tap_span(events, key, window, 2).is_some(),
{
    lemma_presses_from(events, key, older, older, 1);
    lemma_presses_grow(events, key, older, older + 1, newer);
    lemma_presses_from(events, key, older, newer, 2);
    lemma_presses_tap(events, key, window, older, 2);
}

/// A press at `at` is counted among the entries from `from` on: they hold
/// one press more than the entries between `from` and `at` do, at least.
proof fn lemma_presses_from(
    events: Seq<TimeTaggedValue<KeyTargetSet>>,
    key: KeyTarget,
    from: int,
    at: int,
    count: nat,
)
    requires
        0 <= from <= at < events.len(),
        events[at].value@.contains(key),
        count >= 1,
        spec_presses(events.subrange(from, at), key) >= count - 1,
    ensures
        spec_presses(events.skip(from), key) >= count,
        at + 1 <= events.len() ==> spec_presses(events.subrange(from, at + 1), key) >= count,
    decreases events.len() - at,
{
    assert(events.subrange(from, at + 1).drop_last() =~= events.subrange(from, at));
    assert(events.subrange(from, at + 1).last() == events[at]);
    lemma_presses_grow(events, key, from, at + 1, events.len() as int);
    assert(events.subrange(from, events.len() as int) =~= events.skip(from));
}

/// A longer stretch of the history holds no fewer presses.
proof fn lemma_presses_grow(
    events: Seq<TimeTaggedValue<KeyTargetSet>>,
    key: KeyTarget,
    from: int,
    to: int,
    beyond: int,
)
    requires
        0 <= from <= to <= beyond <= events.len(),
    ensures
        spec_presses(events.subrange(from, to), key) <= spec_presses(
            events.subrange(from, beyond),
            key,
        ),
    decreases beyond - to,
{
    if to < beyond {
        lemma_presses_grow(events, key, from, to, beyond - 1);
        assert(events.subrange(from, beyond).drop_last() =~= events.subrange(from, beyond - 1));
    }
}

/// Where the entries from `from` on are no older than `window` and hold at
/// least `need` presses of `key`, `spec_tap_span` finds them.
proof fn lemma_presses_tap(
    events: Seq<TimeTaggedValue<KeyTargetSet>>,
    key: KeyTarget,
    window: u64,
    from: int,
    need: nat,
)
    requires
        0 <= from <= events.len(),
        forall|i: int| from <= i < events.len() ==> events[i].duration <= window,
        spec_presses(events.skip(from), key) >= need,
    ensures
        spec_tap_span(events, key, window, need).is_some(),
    decreases events.len(),
{
    if need > 0 {
        if from == events.len() {
            assert(events.skip(from) =~= Seq::empty());
        } else {
            let front = events.drop_last();
            let left = if events.last().value@.contains(key) {
                (need - 1) as nat
            } else {
                need
            };
            assert(events.skip(from).drop_last() =~= front.skip(from));
            assert(events.skip(from).last() == events.last());
            assert forall|i: int| from <= i < front.len() implies front[i].duration <= window by {
                assert(front[i] == events[i]);
            }
            lemma_presses_tap(front, key, window, from, left);
        }
    }
}

/// Fewer than two presses of `key` in the whole history make no double
/// tap.
pub proof fn law_one_press_is_no_tap(
    events: Seq<TimeTaggedValue<KeyTargetSet>>,
    key: KeyTarget,
    window: u64,
)
    requires
        spec_presses(events, key) < 2,
    ensures
        spec_tap_span(events, key, window, 2).is_none(),
{
    lemma_tap_needs_presses(events, key, window, 2);
}

proof fn lemma_tap_needs_presses(
    events: Seq<TimeTaggedValue<KeyTargetSet>>,
    key: KeyTarget,
    window: u64,
    need: nat,
)
    ensures
        spec_tap_span(events, key, window, need).is_some() ==> spec_presses(events, key) >= need,
    decreases events.len(),
{
    if need > 0 && events.len() > 0 && events.last().duration <= window {
        let left = if events.last().value@.contains(key) {
            (need - 1) as nat
        } else {
            need
        };
        lemma_tap_needs_presses(events.drop_last(), key, window, left);
    }
}

/// In the graph that the fighters are given: a fighter that stands on the
/// floor in `Idle` or `WalkingEast` starts to run to the east in the tick
/// in which `RightJustPressed` comes, where the input history, the press
/// of this tick counted in, holds a double tap of it and no other symbol.
/// The run takes the speed of a run along `x`, and the entries of the
/// double tap leave the input history.
pub proof fn law_double_tap_runs(
    floor_z: i64,
    state: FighterView,
    persistent: KeyTargetSet,
    delta_time: u64,
)
    requires
        state.wf(),
        state.position.z == floor_z,
        state.current().value == FighterMovement::Idle || state.current().value
            == FighterMovement::WalkingEast,
        ({
            let press = KeyTargetSet::spec_single(KeyTarget::RightJustPressed);
            let started = spec_tick_start(state, press, delta_time);
            &&& spec_join(started.events) == press
            &&& spec_tap_span(
                started.events,
                KeyTarget::RightJustPressed,
                DOUBLE_TAP_WINDOW,
                2,
            ).is_some()
        }),
    ensures
        ({
            let press = KeyTargetSet::spec_single(KeyTarget::RightJustPressed);
            let started = spec_tick_start(state, press, delta_time);
            let span = spec_tap_span(
                started.events,
                KeyTarget::RightJustPressed,
                DOUBLE_TAP_WINDOW,
                2,
            ).unwrap();
            let after = spec_player_control(
                spec_default_graph(),
                floor_z,
                state,
                persistent,
                press,
                delta_time,
            );
            &&& after.decision == Decision::Done(
                ControlOutcome::Entered(FighterMovement::RunningEast),
            )
            &&& after.state.current().value == FighterMovement::RunningEast
            &&& after.state.velocity.x == RUNNING_SPEED
            &&& after.state.events == started.events.take(started.events.len() - span)
        }),
{
    let graph = spec_default_graph();
    let press = KeyTargetSet::spec_single(KeyTarget::RightJustPressed);
    let started = spec_tick_start(state, press, delta_time);
    let current = graph.movement[started.current().value.spec_index()];
    let running = spec_running_east_node();
    crate::default_graph::lemma_default_graph();
    crate::default_graph::lemma_default_event_candidates(press);
    let from = seq![FighterMovement::Idle, FighterMovement::WalkingEast];
    MovementSet::lemma_of(from);
    assert(from[0] == FighterMovement::Idle && from[1] == FighterMovement::WalkingEast);
    assert(from.contains(FighterMovement::Idle) && from.contains(FighterMovement::WalkingEast));
    assert(started.current().value == state.current().value);
    let nodes = seq![running];
    reveal_with_fuel(spec_event_scan, 3);
    let first = spec_event_scan(nodes, 1, current, floor_z, started, false);
    assert(first.events == started.events);
    assert(first.survivors =~= Seq::empty());
    let after_first = FighterView { events: first.events, ..started };
    assert(after_first == started);
    let second = spec_event_scan(nodes, 1, current, floor_z, started, true);
    assert(spec_run_east_after()@.contains(state.current().value));
    assert(crate::resolver::spec_can_exit(
        current,
        floor_z,
        started.position.z,
        started.current().duration,
        FighterMovement::RunningEast,
    ));
    assert(running.player_can_enter.spec_admits(
        floor_z,
        started.position.z,
        started.movements,
        started.events,
        true,
    ).is_some());
    assert(second.survivors =~= seq![running]);
    assert(second.survivors.map_values(|node: EventFighterMovementNode| node.base) =~= seq![
        running.base,
    ]);
}

/// In the graph that the fighters are given, no tick brings a fighter to
/// run to the east where the input history, the input edges of the tick
/// counted in, holds no double tap of `RightJustPressed`: a single press
/// starts no run.
pub proof fn law_single_tap_does_not_run(
    floor_z: i64,
    state: FighterView,
    persistent: KeyTargetSet,
    event: KeyTargetSet,
    delta_time: u64,
)
    requires
        state.wf(),
        spec_tap_span(
            spec_tick_start(state, event, delta_time).events,
            KeyTarget::RightJustPressed,
            DOUBLE_TAP_WINDOW,
            2,
        ).is_none(),
    ensures
        spec_player_control(
            spec_default_graph(),
            floor_z,
            state,
            persistent,
            event,
            delta_time,
        ).decision != Decision::Done(ControlOutcome::Entered(FighterMovement::RunningEast)),
{
    let graph = spec_default_graph();
    let started = spec_tick_start(state, event, delta_time);
    let current = graph.movement[started.current().value.spec_index()];
    crate::default_graph::lemma_default_graph();
    lemma_default_scan(current, floor_z, started, event, false);
    let (first, after_first) = spec_event_step(graph, current, floor_z, started, event, false);
    assert(after_first == started);
    let joined = spec_join(after_first.events);
    lemma_default_scan(current, floor_z, started, joined, true);
    let (second, after_second) = spec_event_step(graph, current, floor_z, started, joined, true);
    if first.is_none() && second.is_none() {
        crate::default_graph::lemma_default_persistent_candidates(persistent);
        let nodes = graph.persistent_candidates(persistent);
        let survivors = crate::resolver::spec_persistent_survivors(
            nodes,
            current,
            floor_z,
            after_second,
        );
        lemma_filter_members(nodes, current, floor_z, after_second);
        if survivors.len() == 1 {
            assert(nodes.contains(survivors[0]));
            assert(survivors.map_values(|node: PersistentFighterMovementNode| node.base)[0]
                == survivors[0].base);
        }
    }
}

/// The nodes that ask to be entered are among those that were matched.
proof fn lemma_filter_members(
    nodes: Seq<PersistentFighterMovementNode>,
    current: FighterMovementNode,
    floor_z: i64,
    state: FighterView,
)
    ensures
        forall|i: int|
            0 <= i < crate::resolver::spec_persistent_survivors(
                nodes,
                current,
                floor_z,
                state,
            ).len() ==> nodes.contains(
                #[trigger] crate::resolver::spec_persistent_survivors(
                    nodes,
                    current,
                    floor_z,
                    state,
                )[i],
            ),
        crate::resolver::spec_persistent_survivors(nodes, current, floor_z, state).len()
            <= nodes.len(),
{
    let keep = |node: PersistentFighterMovementNode|
        node.player_can_enter.spec_admits(floor_z, state.position.z)
            && crate::resolver::spec_can_exit(
            current,
            floor_z,
            state.position.z,
            state.current().duration,
            node.base.movement,
        );
    nodes.lemma_filter_len(keep);
    let survivors = nodes.filter(keep);
    assert forall|i: int| 0 <= i < survivors.len() implies nodes.contains(
        #[trigger] survivors[i],
    ) by {
        assert(survivors.contains(survivors[i]));
        nodes.lemma_filter_contains_rev(keep, survivors[i]);
    }
}

/// What the matching of input edges against the default graph comes to.
/// Matching the edges of the tick itself uses up nothing of the input
/// history. No matching asks for more than one node; and the run to the
/// east is asked for only by the joined input `RightJustPressed`, with a
/// double tap in the history.
proof fn lemma_default_scan(
    current: FighterMovementNode,
    floor_z: i64,
    state: FighterView,
    keyset: KeyTargetSet,
    joined: bool,
)
    requires
        state.movements.len() > 0,
    ensures
        ({
            let (found, after) = spec_event_step(
                spec_default_graph(),
                current,
                floor_z,
                state,
                keyset,
                joined,
            );
            &&& !joined ==> after == state
            &&& found matches Some(resolution) ==> resolution.decision matches Decision::Done(
                ControlOutcome::Entered(movement),
            ) && (movement == FighterMovement::RunningEast ==> joined && spec_tap_span(
                state.events,
                KeyTarget::RightJustPressed,
                DOUBLE_TAP_WINDOW,
                2,
            ).is_some())
        }),
{
    let graph = spec_default_graph();
    crate::default_graph::lemma_default_event_candidates(keyset);
    let nodes = graph.event_candidates(keyset);
    reveal_with_fuel(spec_event_scan, 4);
    let scan = spec_event_scan(nodes, nodes.len(), current, floor_z, state, joined);
    let bases = scan.survivors.map_values(|node: EventFighterMovementNode| node.base);
    if nodes.len() == 0 {
        assert(bases =~= Seq::empty());
    } else if nodes.len() == 1 {
        let node = nodes[0];
        let zero = spec_event_scan(nodes, 0, current, floor_z, state, joined);
        assert(zero.events == state.events);
        if !joined {
            assert(node.player_can_enter.spec_admits(
                floor_z,
                state.position.z,
                state.movements,
                state.events,
                joined,
            ) matches Some(span) ==> span == 0);
            assert(state.events.take(state.events.len() as int) =~= state.events);
        }
        if scan.survivors.len() > 0 {
            assert(scan.survivors =~= seq![node]);
            assert(bases =~= seq![node.base]);
        } else {
            assert(bases =~= Seq::empty());
        }
    } else {
        let slashing = nodes[0];
        let jump_attack = nodes[1];
        assert(state.events.take(state.events.len() as int) =~= state.events);
        let zero = spec_event_scan(nodes, 0, current, floor_z, state, joined);
        let one = spec_event_scan(nodes, 1, current, floor_z, state, joined);
        assert(zero.events == state.events);
        assert(one.events == state.events);
        assert(scan.events == state.events);
        let slash_in = slashing.player_can_enter.spec_admits(
            floor_z,
            state.position.z,
            state.movements,
            state.events,
            joined,
        ).is_some();
        let air_in = jump_attack.player_can_enter.spec_admits(
            floor_z,
            state.position.z,
            state.movements,
            state.events,
            joined,
        ).is_some();
        assert(!(slash_in && air_in));
        assert(scan.survivors.len() <= 1);
        if scan.survivors.len() == 1 {
            assert(bases[0] == scan.survivors[0].base);
            assert(scan.survivors[0] == slashing || scan.survivors[0] == jump_attack);
        } else {
            assert(bases =~= Seq::empty());
        }
    }
}

/// The input history, joined, brings on a motion state by itself: it
/// holds a press of the jump and nothing else, or a double tap of `run`
/// and nothing else.
pub open spec fn spec_history_acts(
    events: Seq<TimeTaggedValue<KeyTargetSet>>,
    run: KeyTarget,
) -> bool {
    ||| spec_join(events) == KeyTargetSet::spec_single(KeyTarget::JumpJustPressed)
    ||| spec_join(events) == KeyTargetSet::spec_single(run) && spec_tap_span(
        events,
        run,
        DOUBLE_TAP_WINDOW,
        2,
    ).is_some()
}

/// In the graph that the fighters are given: a fighter that walks to the
/// east on the floor goes over to `Idle` in a tick without input, and
/// stops along `x` and `y`. Left out are the ticks in which the input
/// history still brings on a jump or a run to the east.
pub proof fn law_release_returns_to_idle(floor_z: i64, state: FighterView, delta_time: u64)
    requires
        state.wf(),
        state.position.z == floor_z,
        state.current().value == FighterMovement::WalkingEast,
        !spec_history_acts(
            spec_tick_start(state, KeyTargetSet::spec_empty(), delta_time).events,
            KeyTarget::RightJustPressed,
        ),
    ensures
        ({
            let after = spec_player_control(
                spec_default_graph(),
                floor_z,
                state,
                KeyTargetSet::spec_empty(),
                KeyTargetSet::spec_empty(),
                delta_time,
            );
            &&& after.decision == Decision::Done(ControlOutcome::Entered(FighterMovement::Idle))
            &&& after.state.current().value == FighterMovement::Idle
            &&& after.state.velocity.x == 0
            &&& after.state.velocity.y == 0
            &&& after.state.velocity.z == state.velocity.z
            &&& after.state.position == state.position
        }),
{
    let graph = spec_default_graph();
    let none = KeyTargetSet::spec_empty();
    let started = spec_tick_start(state, none, delta_time);
    let current = graph.movement[started.current().value.spec_index()];
    crate::default_graph::lemma_default_graph();
    lemma_quiet_events(current, floor_z, started, none, FighterMovement::WalkingEast);
    crate::default_graph::lemma_default_persistent_candidates(none);
    reveal(Seq::filter);
    let survivors = crate::resolver::spec_persistent_survivors(
        graph.persistent_candidates(none),
        current,
        floor_z,
        started,
    );
    assert(survivors.map_values(|node: PersistentFighterMovementNode| node.base)
        =~= Seq::empty());
}

/// In the graph that the fighters are given: a fighter that stands in
/// `Idle` on the floor walks to the east in a tick in which `Right` alone
/// is held and nothing went down, at the speed of a walk along `x`. Left
/// out are the ticks in which the input history still brings on a jump or
/// a run.
pub proof fn law_right_walks_east(floor_z: i64, state: FighterView, delta_time: u64)
    requires
        state.wf(),
        state.position.z == floor_z,
        state.current().value == FighterMovement::Idle,
        !spec_history_acts(
            spec_tick_start(state, KeyTargetSet::spec_empty(), delta_time).events,
            KeyTarget::RightJustPressed,
        ),
        !spec_history_acts(
            spec_tick_start(state, KeyTargetSet::spec_empty(), delta_time).events,
            KeyTarget::LeftJustPressed,
        ),
    ensures
        ({
            let after = spec_player_control(
                spec_default_graph(),
                floor_z,
                state,
                KeyTargetSet::spec_single(KeyTarget::Right),
                KeyTargetSet::spec_empty(),
                delta_time,
            );
            &&& after.decision == Decision::Done(
                ControlOutcome::Entered(FighterMovement::WalkingEast),
            )
            &&& after.state.current().value == FighterMovement::WalkingEast
            &&& after.state.velocity.x == WALKING_SPEED
            &&& after.state.velocity.y == 0
            &&& after.state.velocity.z == state.velocity.z
            &&& after.state.position == state.position
        }),
{
    let graph = spec_default_graph();
    let none = KeyTargetSet::spec_empty();
    let held = KeyTargetSet::spec_single(KeyTarget::Right);
    let started = spec_tick_start(state, none, delta_time);
    let current = graph.movement[started.current().value.spec_index()];
    crate::default_graph::lemma_default_graph();
    lemma_quiet_events(current, floor_z, started, none, FighterMovement::Idle);
    crate::default_graph::lemma_default_persistent_candidates(held);
    reveal_with_fuel(Seq::filter, 3);
    let walking = spec_walking_node(
        FighterMovement::WalkingEast,
        StateUpdate::AlongX,
        WALKING_SPEED,
        0,
    );
    let nodes = graph.persistent_candidates(held);
    assert(nodes =~= seq![walking]);
    assert(nodes.drop_last() =~= Seq::empty());
    let survivors = crate::resolver::spec_persistent_survivors(nodes, current, floor_z, started);
    assert(survivors =~= seq![walking]);
    assert(survivors.map_values(|node: PersistentFighterMovementNode| node.base) =~= seq![
        walking.base,
    ]);
    assert(!spec_repeating(nodes, FighterMovement::Idle));
}

/// In the graph that the fighters are given: a fighter that walks to the
/// east and keeps `Right` held stays in its walk, tick after tick, and its
/// velocity is not set anew: whatever it was before the tick, it is after
/// it. Left out are the ticks in which the input history still brings on a
/// jump or a run to the east.
pub proof fn law_walking_is_not_entered_anew(
    floor_z: i64,
    state: FighterView,
    delta_time: u64,
)
    requires
        state.wf(),
        state.position.z == floor_z,
        state.current().value == FighterMovement::WalkingEast,
        !spec_history_acts(
            spec_tick_start(state, KeyTargetSet::spec_empty(), delta_time).events,
            KeyTarget::RightJustPressed,
        ),
    ensures
        ({
            let after = spec_player_control(
                spec_default_graph(),
                floor_z,
                state,
                KeyTargetSet::spec_single(KeyTarget::Right),
                KeyTargetSet::spec_empty(),
                delta_time,
            );
            &&& after.decision == Decision::Done(ControlOutcome::Repeated)
            &&& after.state.velocity == state.velocity
            &&& after.state.position == state.position
            &&& after.state.movements == spec_aged(state.movements, delta_time)
        }),
{
    let graph = spec_default_graph();
    let none = KeyTargetSet::spec_empty();
    let held = KeyTargetSet::spec_single(KeyTarget::Right);
    let started = spec_tick_start(state, none, delta_time);
    let current = graph.movement[started.current().value.spec_index()];
    crate::default_graph::lemma_default_graph();
    lemma_quiet_events(current, floor_z, started, none, FighterMovement::WalkingEast);
    crate::default_graph::lemma_default_persistent_candidates(held);
    let nodes = graph.persistent_candidates(held);
    assert(nodes[0].base.movement == FighterMovement::WalkingEast);
    law_holding_repeats(graph, floor_z, state, held, none, delta_time);
}

/// No entry of the input history holds a symbol.
pub open spec fn spec_quiet(events: Seq<TimeTaggedValue<KeyTargetSet>>) -> bool {
    forall|i: int| 0 <= i < events.len() ==> (#[trigger] events[i]).value == KeyTargetSet::spec_empty()
}

/// The fighter after as many ticks as `ticks` has times, each as long as
/// its time says, with `persistent` held throughout and no input edge.
pub open spec fn spec_held_for(
    graph: MovementMapView,
    floor_z: i64,
    state: FighterView,
    persistent: KeyTargetSet,
    ticks: Seq<u64>,
) -> FighterView
    decreases ticks.len(),
{
    if ticks.len() == 0 {
        state
    } else {
        spec_player_control(
            graph,
            floor_z,
            spec_held_for(graph, floor_z, state, persistent, ticks.drop_last()),
            persistent,
            KeyTargetSet::spec_empty(),
            ticks.last(),
        ).state
    }
}

/// In the graph that the fighters are given: a fighter that walks to the
/// east on the floor with a quiet input history, and keeps `Right` held
/// for any number of ticks of any length, walks on with the velocity it
/// had, and its walk is entered once only.
pub proof fn law_walking_on(floor_z: i64, state: FighterView, ticks: Seq<u64>)
    requires
        state.wf(),
        state.position.z == floor_z,
        state.current().value == FighterMovement::WalkingEast,
        spec_quiet(state.events),
    ensures
        ({
            let after = spec_held_for(
                spec_default_graph(),
                floor_z,
                state,
                KeyTargetSet::spec_single(KeyTarget::Right),
                ticks,
            );
            &&& after.wf()
            &&& after.velocity == state.velocity
            &&& after.position == state.position
            &&& after.current().value == FighterMovement::WalkingEast
            &&& after.movements.len() == state.movements.len()
            &&& spec_quiet(after.events)
        }),
    decreases ticks.len(),
{
    if ticks.len() > 0 {
        let held = KeyTargetSet::spec_single(KeyTarget::Right);
        law_walking_on(floor_z, state, ticks.drop_last());
        let before = spec_held_for(spec_default_graph(), floor_z, state, held, ticks.drop_last());
        lemma_quiet_start(before, ticks.last());
        law_walking_is_not_entered_anew(floor_z, before, ticks.last());
    }
}

/// A quiet input history stays quiet through the start of a tick without
/// input edges, joins to the empty set, and keeps within its bound.
proof fn lemma_quiet_start(state: FighterView, delta_time: u64)
    requires
        state.wf(),
        spec_quiet(state.events),
    ensures
        ({
            let started = spec_tick_start(state, KeyTargetSet::spec_empty(), delta_time);
            &&& spec_quiet(started.events)
            &&& started.wf()
            &&& spec_join(started.events) == KeyTargetSet::spec_empty()
            &&& !spec_history_acts(started.events, KeyTarget::RightJustPressed)
            &&& !spec_history_acts(started.events, KeyTarget::LeftJustPressed)
        }),
{
    let started = spec_tick_start(state, KeyTargetSet::spec_empty(), delta_time);
    let aged = spec_aged(state.events, delta_time);
    crate::history::lemma_fresh_len(aged, state.events_max_duration);
    lemma_quiet_join(started.events);
}

/// A quiet input history joins to the empty set.
proof fn lemma_quiet_join(events: Seq<TimeTaggedValue<KeyTargetSet>>)
    requires
        spec_quiet(events),
    ensures
        spec_join(events) == KeyTargetSet::spec_empty(),
    decreases events.len(),
{
    if events.len() > 0 {
        assert(events[events.len() - 1].value == KeyTargetSet::spec_empty());
        assert forall|i: int| 0 <= i < events.drop_last().len() implies (
        #[trigger] events.drop_last()[i]).value == KeyTargetSet::spec_empty() by {
            assert(events[i].value == KeyTargetSet::spec_empty());
        }
        lemma_quiet_join(events.drop_last());
        assert(0u16 | 0u16 == 0u16) by (bit_vector);
    }
}

/// In the default graph, the two matchings of input edges find nothing
/// for a fighter on the floor in `Idle` or in a walk along `x`, in a tick
/// in which nothing went down and the input history does not act.
proof fn lemma_quiet_events(
    current: FighterMovementNode,
    floor_z: i64,
    started: FighterView,
    none: KeyTargetSet,
    movement: FighterMovement,
)
    requires
        started.movements.len() > 0,
        started.position.z == floor_z,
        none == KeyTargetSet::spec_empty(),
        started.current().value == movement,
        movement == FighterMovement::Idle || movement == FighterMovement::WalkingEast || movement
            == FighterMovement::WalkingWest,
        spec_default_graph().node(movement) == Some(current),
        !(current is EventTriggered),
        movement != FighterMovement::WalkingWest ==> !spec_history_acts(
            started.events,
            KeyTarget::RightJustPressed,
        ),
        movement != FighterMovement::WalkingEast ==> !spec_history_acts(
            started.events,
            KeyTarget::LeftJustPressed,
        ),
        spec_join(started.events) != KeyTargetSet::spec_single(KeyTarget::JumpJustPressed),
    ensures
        ({
            let (first, after_first) = spec_event_step(
                spec_default_graph(),
                current,
                floor_z,
                started,
                none,
                false,
            );
            let (second, after_second) = spec_event_step(
                spec_default_graph(),
                current,
                floor_z,
                after_first,
                spec_join(after_first.events),
                true,
            );
            first.is_none() && second.is_none() && after_first == started && after_second == started
        }),
{
    let graph = spec_default_graph();
    crate::default_graph::lemma_default_event_candidates(none);
    reveal_with_fuel(spec_event_scan, 4);
    let first_nodes = graph.event_candidates(none);
    assert(first_nodes =~= Seq::empty());
    let first = spec_event_scan(first_nodes, 0, current, floor_z, started, false);
    assert(first.survivors.map_values(|node: EventFighterMovementNode| node.base)
        =~= Seq::empty());
    let joined = spec_join(started.events);
    crate::default_graph::lemma_default_event_candidates(joined);
    let nodes = graph.event_candidates(joined);
    let scan = spec_event_scan(nodes, nodes.len(), current, floor_z, started, true);
    assert(started.events.take(started.events.len() as int) =~= started.events);
    let east = seq![FighterMovement::Idle, FighterMovement::WalkingEast];
    MovementSet::lemma_of(east);
    let west = seq![FighterMovement::Idle, FighterMovement::WalkingWest];
    MovementSet::lemma_of(west);
    assert(!east.contains(FighterMovement::WalkingWest));
    assert(!west.contains(FighterMovement::WalkingEast));
    if nodes.len() == 1 {
        assert(scan.survivors =~= Seq::empty());
    } else if nodes.len() == 2 {
        let one = spec_event_scan(nodes, 1, current, floor_z, started, true);
        assert(one.survivors =~= Seq::empty());
        assert(scan.survivors =~= Seq::empty());
    }
    assert(scan.survivors.map_values(|node: EventFighterMovementNode| node.base)
        =~= Seq::empty());
    assert(scan.events == started.events);
}

} // verus!
