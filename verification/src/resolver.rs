//! The decision that is taken for a fighter once per tick: given the input
//! of the tick, the input of the last moments and the motion state the
//! fighter is in, which motion state it goes over to.
//!
//! Where more than one node of a category asks to be entered in the same
//! tick, the graph is at fault. The resolver then enters none of them and
//! hands back the motion states that asked.

use vstd::prelude::*;
use crate::controls::{spec_join, KeyTargetSet};
use crate::fighters::{Arena, FighterMovement, FighterRuntimeState, FighterView};
use crate::history::{spec_aged, spec_fresh, spec_pushed, TimeTaggedValue};
use crate::movement_graph::{
    EventFighterMovementNode, FighterMovementMap, FighterMovementNode, FighterMovementNodeBase,
    FighterMovementNodeTrait, MovementMapView, PersistentFighterMovementNode,
    UncontrollableFighterMovementNode,
};

verus! {

/// Whether the node of the motion state a fighter is in lets it go over to
/// `request`. A node that no input brings on always does.
pub open spec fn spec_can_exit(
    current: FighterMovementNode,
    floor_z: i64,
    position_z: i64,
    movement_duration: u64,
    request: FighterMovement,
) -> bool {
    match current {
        FighterMovementNode::EventTriggered(node) => node.player_can_exit.spec_permits(
            floor_z,
            position_z,
            movement_duration,
            request,
        ),
        FighterMovementNode::Persistent(node) => node.player_can_exit.spec_permits(
            floor_z,
            position_z,
            movement_duration,
            request,
        ),
        FighterMovementNode::Uncontrollable(_) => true,
    }
}

/// Whether the node of the motion state a fighter is in lets it go over to
/// the motion state of `request_movement_node`.
pub fn can_exit_node<T: FighterMovementNodeTrait>(
    request_movement_node: &T,
    current_movement_node: &FighterMovementNode,
    floor_z: i64,
    pos_z: i64,
    current_movement_duration: u64,
) -> (r: bool)
    ensures
        r == spec_can_exit(
            *current_movement_node,
            floor_z,
            pos_z,
            current_movement_duration,
            request_movement_node.spec_base().movement,
        ),
{
    match current_movement_node {
        FighterMovementNode::EventTriggered(node) => node.player_can_exit.permits(
            floor_z,
            pos_z,
            current_movement_duration,
            &request_movement_node.movement(),
        ),
        FighterMovementNode::Persistent(node) => node.player_can_exit.permits(
            floor_z,
            pos_z,
            current_movement_duration,
            &request_movement_node.movement(),
        ),
        FighterMovementNode::Uncontrollable(_) => true,
    }
}

/// The fighter after it has entered the motion state of `base`: the motion
/// state is the newest of its history, and the velocity is what entering
/// asks for.
pub open spec fn spec_entered(state: FighterView, base: FighterMovementNodeBase) -> FighterView {
    FighterView {
        movements: spec_pushed(state.movements, state.movements_max_size, base.movement),
        velocity: base.state_enter.spec_velocity(state.velocity),
        ..state
    }
}

/// Enters the one node of `request_movement_nodes`, if there is one, and
/// tells which motion state was entered.
pub fn enter_requested_node<T: FighterMovementNodeTrait>(
    request_movement_nodes: &Vec<T>,
    state: &mut FighterRuntimeState,
) -> (r: Option<FighterMovement>)
    requires
        request_movement_nodes@.len() <= 1,
        old(state)@.wf(),
    ensures
        request_movement_nodes@.len() == 0 ==> r.is_none() && final(state)@ == old(state)@,
        request_movement_nodes@.len() == 1 ==> r == Some(
            request_movement_nodes@[0].spec_base().movement,
        ) && final(state)@ == spec_entered(old(state)@, request_movement_nodes@[0].spec_base()),
        final(state)@.wf(),
{
    if request_movement_nodes.len() == 0 {
        None
    } else {
        let new_movement_node = &request_movement_nodes[0];
        state.movement_stack.push(new_movement_node.movement());
        new_movement_node.state_enter(&mut state.position, &mut state.velocity);
        Some(new_movement_node.movement())
    }
}

/// What is left of a tick's matching of input edges: the nodes that ask to
/// be entered, and the input history after the nodes that were let in have
/// used up the entries they matched.
pub struct EventScan {
    pub survivors: Seq<EventFighterMovementNode>,
    pub events: Seq<TimeTaggedValue<KeyTargetSet>>,
}

/// The matching of the first `upto` nodes of `nodes`, one after the other.
/// A node whose entry rule lets the fighter in uses up the entries that the
/// rule matched, whether or not the fighter can leave the motion state it
/// is in; the node asks to be entered where the fighter can.
pub open spec fn spec_event_scan(
    nodes: Seq<EventFighterMovementNode>,
    upto: nat,
    current: FighterMovementNode,
    floor_z: i64,
    state: FighterView,
    joined: bool,
) -> EventScan
    decreases upto,
{
    if upto == 0 {
        EventScan { survivors: Seq::empty(), events: state.events }
    } else {
        let before = spec_event_scan(nodes, (upto - 1) as nat, current, floor_z, state, joined);
        let node = nodes[upto - 1];
        match node.player_can_enter.spec_admits(
            floor_z,
            state.position.z,
            state.movements,
            before.events,
            joined,
        ) {
            Some(span) => EventScan {
                survivors: if spec_can_exit(
                    current,
                    floor_z,
                    state.position.z,
                    state.current().duration,
                    node.base.movement,
                ) {
                    before.survivors.push(node)
                } else {
                    before.survivors
                },
                events: before.events.take(before.events.len() - span),
            },
            None => before,
        }
    }
}

/// The scan never makes the input history longer.
pub proof fn lemma_event_scan(
    nodes: Seq<EventFighterMovementNode>,
    upto: nat,
    current: FighterMovementNode,
    floor_z: i64,
    state: FighterView,
    joined: bool,
)
    requires
        upto <= nodes.len(),
    ensures
        spec_event_scan(nodes, upto, current, floor_z, state, joined).events.len()
            <= state.events.len(),
        spec_event_scan(nodes, upto, current, floor_z, state, joined).survivors.len() <= upto,
        forall|i: int|
            0 <= i < spec_event_scan(
                nodes,
                upto,
                current,
                floor_z,
                state,
                joined,
            ).survivors.len() ==> nodes.contains(
                #[trigger] spec_event_scan(nodes, upto, current, floor_z, state, joined).survivors[i],
            ),
    decreases upto,
{
    if upto > 0 {
        lemma_event_scan(nodes, (upto - 1) as nat, current, floor_z, state, joined);
        let before = spec_event_scan(nodes, (upto - 1) as nat, current, floor_z, state, joined);
        let node = nodes[upto - 1];
        crate::movement_rules::lemma_tap_span_bound(
            node.player_can_enter,
            floor_z,
            state.position.z,
            state.movements,
            before.events,
            joined,
        );
        assert(nodes.contains(node));
    }
}

/// The nodes of `nodes` that the fighter may enter and for which it may
/// leave the motion state it is in.
pub open spec fn spec_persistent_survivors(
    nodes: Seq<PersistentFighterMovementNode>,
    current: FighterMovementNode,
    floor_z: i64,
    state: FighterView,
) -> Seq<PersistentFighterMovementNode> {
    nodes.filter(
        |node: PersistentFighterMovementNode|
            node.player_can_enter.spec_admits(floor_z, state.position.z) && spec_can_exit(
                current,
                floor_z,
                state.position.z,
                state.current().duration,
                node.base.movement,
            ),
    )
}

/// A node of `nodes` is for the motion state `movement`.
pub open spec fn spec_repeating(
    nodes: Seq<PersistentFighterMovementNode>,
    movement: FighterMovement,
) -> bool {
    exists|i: int| 0 <= i < nodes.len() && #[trigger] nodes[i].base.movement == movement
}

/// What a tick decided.
#[derive(Clone, Copy, Debug, PartialEq, Eq, Structural)]
pub enum ControlOutcome {
    /// The fighter went over to the motion state given.
    Entered(FighterMovement),
    /// The input that is held asks for the motion state the fighter is in:
    /// it stays there, and nothing is set anew.
    Repeated,
    /// The fighter stays in its motion state, which let the input change
    /// its velocity.
    Channelled,
    /// The fighter stays in its motion state.
    Held,
}

/// More than one node asked to be entered in the same tick.
#[derive(Debug)]
pub struct AmbiguousRequest {
    /// The motion states that asked, in the order in which the graph holds
    /// their nodes.
    pub culprits: Vec<FighterMovement>,
}

/// What a tick decided, or the motion states that asked to be entered
/// together.
pub enum Decision {
    Done(ControlOutcome),
    Ambiguous(Seq<FighterMovement>),
}

/// A fighter after a tick, and what the tick decided.
pub struct Resolution {
    pub state: FighterView,
    pub decision: Decision,
}

/// The start of a tick: both histories get older by `delta_time`, the input
/// history loses what is too old, and the input edges of the tick are put
/// on it, also where there are none.
pub open spec fn spec_tick_start(state: FighterView, event: KeyTargetSet, delta_time: u64)
    -> FighterView {
    FighterView {
        movements: spec_aged(state.movements, delta_time),
        events: spec_pushed(
            spec_fresh(spec_aged(state.events, delta_time), state.events_max_duration),
            state.events_max_size,
            event,
        ),
        ..state
    }
}

/// What follows from the nodes that ask to be entered: with one, the
/// fighter enters it; with more, nothing is entered; with none, `None`.
pub open spec fn spec_settle(state: FighterView, bases: Seq<FighterMovementNodeBase>) -> Option<
    Resolution,
> {
    if bases.len() == 0 {
        None
    } else if bases.len() == 1 {
        Some(
            Resolution {
                state: spec_entered(state, bases[0]),
                decision: Decision::Done(ControlOutcome::Entered(bases[0].movement)),
            },
        )
    } else {
        Some(
            Resolution {
                state,
                decision: Decision::Ambiguous(
                    bases.map_values(|base: FighterMovementNodeBase| base.movement),
                ),
            },
        )
    }
}

/// The matching of the input edges `keyset` against the graph, and what
/// follows from it; `None`, with the input history that the matching left,
/// where no node asks to be entered.
pub open spec fn spec_event_step(
    graph: MovementMapView,
    current: FighterMovementNode,
    floor_z: i64,
    state: FighterView,
    keyset: KeyTargetSet,
    joined: bool,
) -> (Option<Resolution>, FighterView) {
    let nodes = graph.event_candidates(keyset);
    let scan = spec_event_scan(nodes, nodes.len(), current, floor_z, state, joined);
    let after = FighterView { events: scan.events, ..state };
    (
        spec_settle(
            after,
            scan.survivors.map_values(|node: EventFighterMovementNode| node.base),
        ),
        after,
    )
}

/// The last steps of a tick, for a fighter that no input has moved to
/// another motion state: it goes over to `Idle` where it is not there, may
/// enter it and may leave the motion state it is in; else the node it is
/// in, where an input edge brought it on and it has a channel, lets the
/// input change the velocity.
pub open spec fn spec_rest_step(
    graph: MovementMapView,
    current: FighterMovementNode,
    floor_z: i64,
    state: FighterView,
    full: KeyTargetSet,
) -> Resolution {
    let idle = graph.uncontrollable[FighterMovement::Idle.spec_index()];
    if state.current().value != FighterMovement::Idle && idle.player_can_enter.spec_admits(
        floor_z,
        state.position.z,
    ) && spec_can_exit(
        current,
        floor_z,
        state.position.z,
        state.current().duration,
        FighterMovement::Idle,
    ) {
        Resolution {
            state: spec_entered(state, idle.base),
            decision: Decision::Done(ControlOutcome::Entered(FighterMovement::Idle)),
        }
    } else {
        match current {
            FighterMovementNode::EventTriggered(
                EventFighterMovementNode { channel: Some(channel), .. },
            ) => Resolution {
                state: FighterView {
                    velocity: channel.spec_velocity(full, state.velocity),
                    ..state
                },
                decision: Decision::Done(ControlOutcome::Channelled),
            },
            _ => Resolution { state, decision: Decision::Done(ControlOutcome::Held) },
        }
    }
}

/// The matching of the input that is held: where a node filed under it is
/// for the motion state the fighter is in, nothing happens; else what
/// follows from the nodes that ask to be entered, and with none of them
/// the last steps.
pub open spec fn spec_persistent_step(
    graph: MovementMapView,
    current: FighterMovementNode,
    floor_z: i64,
    state: FighterView,
    persistent: KeyTargetSet,
    full: KeyTargetSet,
) -> Resolution {
    let nodes = graph.persistent_candidates(persistent);
    if spec_repeating(nodes, state.current().value) {
        Resolution { state, decision: Decision::Done(ControlOutcome::Repeated) }
    } else {
        match spec_settle(
            state,
            spec_persistent_survivors(nodes, current, floor_z, state).map_values(
                |node: PersistentFighterMovementNode| node.base,
            ),
        ) {
            Some(resolution) => resolution,
            None => spec_rest_step(graph, current, floor_z, state, full),
        }
    }
}

/// A tick of the resolver, in the order of its steps: the histories get
/// older and take the input edges of the tick; these edges are matched
/// against the graph; then the union of the input history is; then the
/// input that is held; then the fighter falls back to `Idle`; then its
/// motion state lets the input change the velocity. The first step that
/// finds a node to enter, or more than one, ends the tick.
pub open spec fn spec_player_control(
    graph: MovementMapView,
    floor_z: i64,
    state: FighterView,
    persistent: KeyTargetSet,
    event: KeyTargetSet,
    delta_time: u64,
) -> Resolution {
    let started = spec_tick_start(state, event, delta_time);
    let current = graph.movement[started.current().value.spec_index()];
    let (first, after_first) = spec_event_step(graph, current, floor_z, started, event, false);
    match first {
        Some(resolution) => resolution,
        None => {
            let (second, after_second) = spec_event_step(
                graph,
                current,
                floor_z,
                after_first,
                spec_join(after_first.events),
                true,
            );
            match second {
                Some(resolution) => resolution,
                None => spec_persistent_step(
                    graph,
                    current,
                    floor_z,
                    after_second,
                    persistent,
                    persistent.spec_union(event),
                ),
            }
        },
    }
}

/// Whether what the resolver hands back says what `decision` says.
pub open spec fn spec_reports(
    r: Result<ControlOutcome, AmbiguousRequest>,
    decision: Decision,
) -> bool {
    match (r, decision) {
        (Ok(outcome), Decision::Done(done)) => outcome == done,
        (Err(request), Decision::Ambiguous(culprits)) => request.culprits@ == culprits,
        _ => false,
    }
}

/// Takes the `span` newest entries off the input history.
fn consume(state: &mut FighterRuntimeState, span: usize)
    requires
        span <= old(state)@.events.len(),
    ensures
        final(state)@ == (FighterView {
            events: old(state)@.events.take(old(state)@.events.len() - span),
            ..old(state)@
        }),
{
    let ghost events = state@.events;
    let mut done: usize = 0;
    proof {
        assert(events.take(events.len() as int) =~= events);
    }
    while done < span
        invariant
            done <= span <= events.len(),
            state@ == (FighterView { events: events.take(events.len() - done), ..old(state)@ }),
            events == old(state)@.events,
        decreases span - done,
    {
        state.event_keytargetset_stack.0.pop();
        proof {
            assert(events.take(events.len() - done).drop_last() =~= events.take(
                events.len() - (done + 1),
            ));
        }
        done += 1;
    }
}

/// Matches `nodes` one after the other, as [`spec_event_scan`] says, and
/// hands back those that ask to be entered.
fn scan_event_nodes(
    nodes: &Vec<EventFighterMovementNode>,
    current_movement_node: &FighterMovementNode,
    floor_z: i64,
    state: &mut FighterRuntimeState,
    joined: bool,
) -> (survivors: Vec<EventFighterMovementNode>)
    requires
        old(state)@.movements.len() > 0,
    ensures
        survivors@ == spec_event_scan(
            nodes@,
            nodes@.len(),
            *current_movement_node,
            floor_z,
            old(state)@,
            joined,
        ).survivors,
        final(state)@ == (FighterView {
            events: spec_event_scan(
                nodes@,
                nodes@.len(),
                *current_movement_node,
                floor_z,
                old(state)@,
                joined,
            ).events,
            ..old(state)@
        }),
{
    let current_duration: u64 = state.movement_stack.0.stack[state.movement_stack.0.stack.len()
        - 1].duration;
    let mut survivors: Vec<EventFighterMovementNode> = Vec::new();
    let n: usize = nodes.len();
    let mut i: usize = 0;
    while i < n
        invariant
            i <= n,
            n == nodes@.len(),
            old(state)@.movements.len() > 0,
            current_duration == old(state)@.current().duration,
            survivors@ == spec_event_scan(
                nodes@,
                i as nat,
                *current_movement_node,
                floor_z,
                old(state)@,
                joined,
            ).survivors,
            state@ == (FighterView {
                events: spec_event_scan(
                    nodes@,
                    i as nat,
                    *current_movement_node,
                    floor_z,
                    old(state)@,
                    joined,
                ).events,
                ..old(state)@
            }),
        decreases n - i,
    {
        let request_movement_node = &nodes[i];
        let can_enter = request_movement_node.player_can_enter.admits(
            floor_z,
            state.position.z,
            &state.movement_stack.0.stack,
            &state.event_keytargetset_stack.0.stack,
            joined,
        );
        let can_exit = can_exit_node(
            request_movement_node,
            current_movement_node,
            floor_z,
            state.position.z,
            current_duration,
        );
        if let Some(span) = can_enter {
            consume(state, span);
            if can_exit {
                survivors.push(*request_movement_node);
            }
        }
        i += 1;
    }
    survivors
}

/// The nodes of `nodes` that the fighter may enter and for which it may
/// leave the motion state it is in.
fn filter_persistent_nodes(
    nodes: &Vec<PersistentFighterMovementNode>,
    current_movement_node: &FighterMovementNode,
    floor_z: i64,
    state: &FighterRuntimeState,
) -> (survivors: Vec<PersistentFighterMovementNode>)
    requires
        state@.movements.len() > 0,
    ensures
        survivors@ == spec_persistent_survivors(nodes@, *current_movement_node, floor_z, state@),
        forall|j: int| 0 <= j < survivors@.len() ==> nodes@.contains(#[trigger] survivors@[j]),
{
    let current_duration: u64 = state.movement_stack.0.stack[state.movement_stack.0.stack.len()
        - 1].duration;
    let ghost keep = |node: PersistentFighterMovementNode|
        node.player_can_enter.spec_admits(floor_z, state@.position.z) && spec_can_exit(
            *current_movement_node,
            floor_z,
            state@.position.z,
            state@.current().duration,
            node.base.movement,
        );
    let mut survivors: Vec<PersistentFighterMovementNode> = Vec::new();
    let n: usize = nodes.len();
    let mut i: usize = 0;
    proof {
        reveal(Seq::filter);
        assert(nodes@.take(0) =~= Seq::empty());
    }
    while i < n
        invariant
            i <= n,
            n == nodes@.len(),
            state@.movements.len() > 0,
            current_duration == state@.current().duration,
            keep == |node: PersistentFighterMovementNode|
                node.player_can_enter.spec_admits(floor_z, state@.position.z) && spec_can_exit(
                    *current_movement_node,
                    floor_z,
                    state@.position.z,
                    state@.current().duration,
                    node.base.movement,
                ),
            survivors@ == nodes@.take(i as int).filter(keep),
            forall|j: int| 0 <= j < survivors@.len() ==> nodes@.contains(#[trigger] survivors@[j]),
        decreases n - i,
    {
        let request_movement_node = &nodes[i];
        let can_enter = request_movement_node.player_can_enter.admits(floor_z, state.position.z);
        let can_exit = can_exit_node(
            request_movement_node,
            current_movement_node,
            floor_z,
            state.position.z,
            current_duration,
        );
        proof {
            reveal(Seq::filter);
            assert(nodes@.take(i + 1).drop_last() =~= nodes@.take(i as int));
            assert(nodes@.take(i + 1).last() == nodes@[i as int]);
        }
        if can_enter && can_exit {
            survivors.push(*request_movement_node);
        }
        i += 1;
    }
    proof {
        assert(nodes@.take(n as int) =~= nodes@);
    }
    survivors
}

/// Tells whether a node of `nodes` is for the motion state `movement`.
fn is_repeating(nodes: &Vec<PersistentFighterMovementNode>, movement: FighterMovement) -> (r:
    bool)
    ensures
        r == spec_repeating(nodes@, movement),
{
    let n: usize = nodes.len();
    let mut i: usize = 0;
    while i < n
        invariant
            i <= n,
            n == nodes@.len(),
            forall|j: int| 0 <= j < i ==> (#[trigger] nodes@[j]).base.movement != movement,
        decreases n - i,
    {
        if nodes[i].base.movement == movement {
            return true;
        }
        i += 1;
    }
    false
}

/// The motion states of `nodes`.
fn movements_of<T: FighterMovementNodeTrait>(nodes: &Vec<T>) -> (movements: Vec<FighterMovement>)
    ensures
        movements@ == nodes@.map_values(|node: T| node.spec_base().movement),
{
    let mut movements: Vec<FighterMovement> = Vec::new();
    let n: usize = nodes.len();
    let mut i: usize = 0;
    while i < n
        invariant
            i <= n,
            n == nodes@.len(),
            movements@ == nodes@.take(i as int).map_values(|node: T| node.spec_base().movement),
        decreases n - i,
    {
        movements.push(nodes[i].movement());
        proof {
            assert(movements@ =~= nodes@.take(i + 1).map_values(
                |node: T| node.spec_base().movement,
            ));
        }
        i += 1;
    }
    proof {
        assert(nodes@.take(n as int) =~= nodes@);
    }
    movements
}

/// Acts on the nodes that ask to be entered, as [`spec_settle`] says.
fn settle<T: FighterMovementNodeTrait>(
    request_movement_nodes: &Vec<T>,
    state: &mut FighterRuntimeState,
) -> (r: Option<Result<ControlOutcome, AmbiguousRequest>>)
    requires
        old(state)@.wf(),
    ensures
        final(state)@.wf(),
        match spec_settle(
            old(state)@,
            request_movement_nodes@.map_values(|node: T| node.spec_base()),
        ) {
            Some(resolution) => final(state)@ == resolution.state && r.is_some() && spec_reports(
                r.unwrap(),
                resolution.decision,
            ),
            None => final(state)@ == old(state)@ && r.is_none(),
        },
{
    if request_movement_nodes.len() > 1 {
        let culprits = movements_of(request_movement_nodes);
        proof {
            assert(culprits@ =~= request_movement_nodes@.map_values(
                |node: T| node.spec_base(),
            ).map_values(|base: FighterMovementNodeBase| base.movement));
        }
        Some(Err(AmbiguousRequest { culprits }))
    } else {
        match enter_requested_node(request_movement_nodes, state) {
            Some(movement) => Some(Ok(ControlOutcome::Entered(movement))),
            None => None,
        }
    }
}

/// A node that the graph holds for an input is among its nodes by motion
/// state.
proof fn lemma_event_candidate(
    graph: MovementMapView,
    keyset: KeyTargetSet,
    node: EventFighterMovementNode,
)
    requires
        graph.wf(),
        graph.event_candidates(keyset).contains(node),
    ensures
        graph.contains(node.base.movement),
{
    let nodes = graph.event_candidates(keyset);
    let i = choose|i: int| 0 <= i < nodes.len() && nodes[i] == node;
    assert(graph.event_at(keyset.bits, i, node));
}

/// A node that the graph holds for an input is among its nodes by motion
/// state.
proof fn lemma_persistent_candidate(
    graph: MovementMapView,
    keyset: KeyTargetSet,
    node: PersistentFighterMovementNode,
)
    requires
        graph.wf(),
        graph.persistent_candidates(keyset).contains(node),
    ensures
        graph.contains(node.base.movement),
{
    let nodes = graph.persistent_candidates(keyset);
    let i = choose|i: int| 0 <= i < nodes.len() && nodes[i] == node;
    assert(graph.persistent_at(keyset.bits, i, node));
}

/// One tick of the resolver for one fighter, as [`spec_player_control`]
/// says. `persistent_keytargetset` holds what is held, `event_keytargetset`
/// what went down in this tick.
///
/// The fighter's motion state has a node in the graph before the tick, and
/// has one after it. Where more than one node asks to be entered, none is,
/// and the motion states that asked are handed back as the error.
pub fn player_control(
    catalog: &FighterMovementMap,
    arena: &Arena,
    state: &mut FighterRuntimeState,
    persistent_keytargetset: KeyTargetSet,
    event_keytargetset: KeyTargetSet,
    delta_time: u64,
) -> (r: Result<ControlOutcome, AmbiguousRequest>)
    requires
        catalog.valid(),
        old(state)@.wf(),
        catalog@.contains(old(state)@.current().value),
    ensures
        final(state)@ == spec_player_control(
            catalog@,
            arena.floor_z,
            old(state)@,
            persistent_keytargetset,
            event_keytargetset,
            delta_time,
        ).state,
        spec_reports(
            r,
            spec_player_control(
                catalog@,
                arena.floor_z,
                old(state)@,
                persistent_keytargetset,
                event_keytargetset,
                delta_time,
            ).decision,
        ),
        final(state)@.wf(),
        catalog@.contains(final(state)@.current().value),
{
    let floor_z: i64 = arena.floor_z;
    state.movement_stack.0.update(delta_time);
    state.event_keytargetset_stack.0.update(delta_time);
    proof {
        crate::history::lemma_fresh_len(
            spec_aged(old(state)@.events, delta_time),
            old(state)@.events_max_duration,
        );
    }
    state.event_keytargetset_stack.0.push(event_keytargetset);
    let ghost started = state@;
    assert(started == spec_tick_start(old(state)@, event_keytargetset, delta_time));

    let current_movement: FighterMovement = state.movement_stack.0.stack[
        state.movement_stack.0.stack.len() - 1
    ].value;
    let current_duration: u64 = state.movement_stack.0.stack[state.movement_stack.0.stack.len()
        - 1].duration;
    let current_movement_node: FighterMovementNode = match catalog.get_node_by_movement(
        &current_movement,
    ) {
        Ok(node) => *node,
        Err(_) => vstd::pervasive::unreached(),
    };

    if let Some(movement_nodes) = catalog.get_event_candidates(&event_keytargetset) {
        let filtered_request_nodes = scan_event_nodes(
            movement_nodes,
            &current_movement_node,
            floor_z,
            state,
            false,
        );
        proof {
            lemma_event_scan(
                movement_nodes@,
                movement_nodes@.len(),
                current_movement_node,
                floor_z,
                started,
                false,
            );
            if filtered_request_nodes@.len() == 1 {
                lemma_event_candidate(catalog@, event_keytargetset, filtered_request_nodes@[0]);
            }
            assert(filtered_request_nodes@.map_values(
                |node: EventFighterMovementNode| node.spec_base(),
            ) =~= filtered_request_nodes@.map_values(|node: EventFighterMovementNode| node.base));
        }
        if let Some(r) = settle(&filtered_request_nodes, state) {
            return r;
        }
    }
    let ghost after_first = state@;

    let joined_event_keytargetset = state.event_keytargetset_stack.join();
    if let Some(movement_nodes) = catalog.get_event_candidates(&joined_event_keytargetset) {
        let filtered_request_nodes = scan_event_nodes(
            movement_nodes,
            &current_movement_node,
            floor_z,
            state,
            true,
        );
        proof {
            lemma_event_scan(
                movement_nodes@,
                movement_nodes@.len(),
                current_movement_node,
                floor_z,
                after_first,
                true,
            );
            if filtered_request_nodes@.len() == 1 {
                lemma_event_candidate(
                    catalog@,
                    joined_event_keytargetset,
                    filtered_request_nodes@[0],
                );
            }
            assert(filtered_request_nodes@.map_values(
                |node: EventFighterMovementNode| node.spec_base(),
            ) =~= filtered_request_nodes@.map_values(|node: EventFighterMovementNode| node.base));
        }
        if let Some(r) = settle(&filtered_request_nodes, state) {
            return r;
        }
    }
    let ghost after_second = state@;

    if let Some(movement_nodes) = catalog.get_persistent_candidates(&persistent_keytargetset) {
        if is_repeating(movement_nodes, current_movement) {
            return Ok(ControlOutcome::Repeated);
        }
        let filtered_request_nodes = filter_persistent_nodes(
            movement_nodes,
            &current_movement_node,
            floor_z,
            state,
        );
        proof {
            if filtered_request_nodes@.len() == 1 {
                lemma_persistent_candidate(
                    catalog@,
                    persistent_keytargetset,
                    filtered_request_nodes@[0],
                );
            }
            assert(filtered_request_nodes@.map_values(
                |node: PersistentFighterMovementNode| node.spec_base(),
            ) =~= filtered_request_nodes@.map_values(
                |node: PersistentFighterMovementNode| node.base,
            ));
        }
        if let Some(r) = settle(&filtered_request_nodes, state) {
            return r;
        }
    } else {
        proof {
            reveal(Seq::filter);
        }
    }

    if current_movement != FighterMovement::Idle {
        let idle_node: UncontrollableFighterMovementNode = match catalog.get_uncontrollable_node(
            &FighterMovement::Idle,
        ) {
            Ok(node) => node,
            Err(_) => vstd::pervasive::unreached(),
        };
        let can_enter = idle_node.player_can_enter.admits(floor_z, state.position.z);
        let can_exit = can_exit_node(
            &idle_node,
            &current_movement_node,
            floor_z,
            state.position.z,
            current_duration,
        );
        if can_enter && can_exit {
            state.movement_stack.push(FighterMovement::Idle);
            idle_node.state_enter(&mut state.position, &mut state.velocity);
            return Ok(ControlOutcome::Entered(FighterMovement::Idle));
        }
    }

    let full_keytargetset = persistent_keytargetset + event_keytargetset;
    if let FighterMovementNode::EventTriggered(node) = current_movement_node {
        if let Some(channel) = node.channel {
            channel.apply(&full_keytargetset, &mut state.velocity);
            return Ok(ControlOutcome::Channelled);
        }
    }
    Ok(ControlOutcome::Held)
}

} // verus!
