//! The movement graph that both fighter archetypes are given.

use vstd::prelude::*;
use std::collections::HashMap;
use crate::controls::{KeyTarget, KeyTargetSet};
use crate::fighters::{Fighter, FighterMovement, MovementSet};
use crate::movement_graph::{
    EventFighterMovementNode, FighterMovementMap, FighterMovementNode, FighterMovementNodeBase,
    MovementMapView, PersistentFighterMovementNode, UncontrollableFighterMovementNode,
};
use crate::movement_rules::{
    Channel, DurationAndFallback, EntryRule, EventEntryRule, ExitRule, StateEnter, StateUpdate,
    DIAGONAL_WALKING_SPEED, JUMPING_SPEED, RUNNING_SPEED, WALKING_SPEED,
};

verus! {

/// Two presses of a direction count as a double tap where both came within
/// this time.
pub const DOUBLE_TAP_WINDOW: u64 = 300;

/// A slash lasts longer than this time before the fighter can leave it.
pub const SLASHING_TIME: u64 = 500;

/// A slash in the air gives way to the jump after this time.
pub const JUMP_ATTACK_TIME: u64 = 500;

/// Standing: the fighter stops along `x` and `y`.
pub open spec fn spec_idle_node() -> UncontrollableFighterMovementNode {
    UncontrollableFighterMovementNode {
        base: FighterMovementNodeBase {
            movement: FighterMovement::Idle,
            sprite_name: "Idle",
            state_update: StateUpdate::Still,
            state_enter: StateEnter { x: Some(0), y: Some(0), z: None },
        },
        player_can_enter: EntryRule::Grounded,
    }
}

/// Off the floor without a jump.
pub open spec fn spec_in_air_node() -> UncontrollableFighterMovementNode {
    UncontrollableFighterMovementNode {
        base: FighterMovementNodeBase {
            movement: FighterMovement::InAir,
            sprite_name: "JumpLoop",
            state_update: StateUpdate::Airborne,
            state_enter: StateEnter { x: None, y: None, z: None },
        },
        player_can_enter: EntryRule::OffGround,
    }
}

/// A walk at the speeds `x` and `y`.
pub open spec fn spec_walking_node(
    movement: FighterMovement,
    state_update: StateUpdate,
    x: i64,
    y: i64,
) -> PersistentFighterMovementNode {
    PersistentFighterMovementNode {
        base: FighterMovementNodeBase {
            movement,
            sprite_name: "Walking",
            state_update,
            state_enter: StateEnter { x: Some(x), y: Some(y), z: None },
        },
        player_can_enter: EntryRule::Grounded,
        player_can_exit: ExitRule::Always,
    }
}

/// Ducking: the fighter stops.
pub open spec fn spec_docking_node() -> PersistentFighterMovementNode {
    PersistentFighterMovementNode {
        base: FighterMovementNodeBase {
            movement: FighterMovement::Docking,
            sprite_name: "Sliding",
            state_update: StateUpdate::Still,
            state_enter: StateEnter { x: Some(0), y: Some(0), z: Some(0) },
        },
        player_can_enter: EntryRule::Grounded,
        player_can_exit: ExitRule::Always,
    }
}

/// A jump from the floor. It ends on the floor, or in a slash in the air.
pub open spec fn spec_jumping_node() -> EventFighterMovementNode {
    EventFighterMovementNode {
        base: FighterMovementNodeBase {
            movement: FighterMovement::Jumping,
            sprite_name: "JumpLoop",
            state_update: StateUpdate::Airborne,
            state_enter: StateEnter { x: None, y: None, z: Some(JUMPING_SPEED) },
        },
        player_can_enter: EventEntryRule::Grounded,
        player_can_exit: ExitRule::GroundedOrTo(FighterMovement::JumpAttack),
        channel: None,
        duration_and_fallback: None,
    }
}

/// A run along `x` at `speed`, brought on by a double tap of `key` from one
/// of the motion states `after`. It does not go over to the motion states
/// `not_to`; `Up` and `Down` make it drift.
pub open spec fn spec_running_node(
    movement: FighterMovement,
    speed: i64,
    key: KeyTarget,
    after: MovementSet,
    not_to: MovementSet,
) -> EventFighterMovementNode {
    EventFighterMovementNode {
        base: FighterMovementNodeBase {
            movement,
            sprite_name: "Running",
            state_update: StateUpdate::OnGround,
            state_enter: StateEnter { x: Some(speed), y: None, z: None },
        },
        player_can_enter: EventEntryRule::DoubleTap { key, window: DOUBLE_TAP_WINDOW, after },
        player_can_exit: ExitRule::NotTo(not_to),
        channel: Some(Channel::Drift { up: WALKING_SPEED, down: (-WALKING_SPEED) as i64 }),
        duration_and_fallback: None,
    }
}

/// A slash on the floor.
pub open spec fn spec_slashing_node() -> EventFighterMovementNode {
    EventFighterMovementNode {
        base: FighterMovementNodeBase {
            movement: FighterMovement::Slashing,
            sprite_name: "Slashing",
            state_update: StateUpdate::Still,
            state_enter: StateEnter { x: Some(0), y: Some(0), z: None },
        },
        player_can_enter: EventEntryRule::GroundedThisTick,
        player_can_exit: ExitRule::After(SLASHING_TIME),
        channel: None,
        duration_and_fallback: None,
    }
}

/// A slash in the air, out of a jump.
pub open spec fn spec_jump_attack_node() -> EventFighterMovementNode {
    EventFighterMovementNode {
        base: FighterMovementNodeBase {
            movement: FighterMovement::JumpAttack,
            sprite_name: "AirSlashing",
            state_update: StateUpdate::Airborne,
            state_enter: StateEnter { x: None, y: None, z: None },
        },
        player_can_enter: EventEntryRule::OffGroundAfter(FighterMovement::Jumping),
        player_can_exit: ExitRule::Grounded,
        channel: None,
        duration_and_fallback: Some(
            DurationAndFallback {
                duration: JUMP_ATTACK_TIME,
                fallback: FighterMovement::Jumping,
                apply_enter_state_fcn: false,
            },
        ),
    }
}

/// The motion states from which a double tap to the east starts a run.
pub open spec fn spec_run_east_after() -> MovementSet {
    MovementSet::spec_of(seq![FighterMovement::Idle, FighterMovement::WalkingEast])
}

/// The motion states that a run to the east does not go over to.
pub open spec fn spec_run_east_not_to() -> MovementSet {
    MovementSet::spec_of(
        seq![
            FighterMovement::WalkingEast,
            FighterMovement::WalkingNorth,
            FighterMovement::WalkingSouth,
            FighterMovement::WalkingNorthEast,
            FighterMovement::WalkingSouthEast,
            FighterMovement::Idle,
        ],
    )
}

/// The motion states from which a double tap to the west starts a run.
pub open spec fn spec_run_west_after() -> MovementSet {
    MovementSet::spec_of(seq![FighterMovement::Idle, FighterMovement::WalkingWest])
}

/// The motion states that a run to the west does not go over to.
pub open spec fn spec_run_west_not_to() -> MovementSet {
    MovementSet::spec_of(
        seq![
            FighterMovement::WalkingWest,
            FighterMovement::WalkingNorth,
            FighterMovement::WalkingSouth,
            FighterMovement::WalkingNorthWest,
            FighterMovement::WalkingSouthWest,
            FighterMovement::Idle,
        ],
    )
}

/// The nodes that no input brings on.
pub open spec fn spec_default_uncontrollable() -> MovementMapView {
    MovementMapView::empty().with_uncontrollable(spec_idle_node()).with_uncontrollable(
        spec_in_air_node(),
    )
}

/// The walks, put in after the nodes that no input brings on.
pub open spec fn spec_default_walking() -> MovementMapView {
    spec_default_uncontrollable().with_persistent(
        KeyTargetSet::spec_single(KeyTarget::Right),
        spec_walking_node(FighterMovement::WalkingEast, StateUpdate::AlongX, WALKING_SPEED, 0),
    ).with_persistent(
        KeyTargetSet::spec_single(KeyTarget::Left),
        spec_walking_node(FighterMovement::WalkingWest, StateUpdate::AlongX, (-WALKING_SPEED) as i64, 0),
    ).with_persistent(
        KeyTargetSet::spec_single(KeyTarget::Up),
        spec_walking_node(FighterMovement::WalkingNorth, StateUpdate::AlongY, 0, WALKING_SPEED),
    ).with_persistent(
        KeyTargetSet::spec_single(KeyTarget::Down),
        spec_walking_node(FighterMovement::WalkingSouth, StateUpdate::AlongY, 0, (-WALKING_SPEED) as i64),
    ).with_persistent(
        KeyTargetSet::spec_pair(KeyTarget::Up, KeyTarget::Right),
        spec_walking_node(
            FighterMovement::WalkingNorthEast,
            StateUpdate::OnGround,
            DIAGONAL_WALKING_SPEED,
            DIAGONAL_WALKING_SPEED,
        ),
    ).with_persistent(
        KeyTargetSet::spec_pair(KeyTarget::Up, KeyTarget::Left),
        spec_walking_node(
            FighterMovement::WalkingNorthWest,
            StateUpdate::OnGround,
            (-DIAGONAL_WALKING_SPEED) as i64,
            DIAGONAL_WALKING_SPEED,
        ),
    ).with_persistent(
        KeyTargetSet::spec_pair(KeyTarget::Down, KeyTarget::Right),
        spec_walking_node(
            FighterMovement::WalkingSouthEast,
            StateUpdate::OnGround,
            DIAGONAL_WALKING_SPEED,
            (-DIAGONAL_WALKING_SPEED) as i64,
        ),
    ).with_persistent(
        KeyTargetSet::spec_pair(KeyTarget::Down, KeyTarget::Left),
        spec_walking_node(
            FighterMovement::WalkingSouthWest,
            StateUpdate::OnGround,
            (-DIAGONAL_WALKING_SPEED) as i64,
            (-DIAGONAL_WALKING_SPEED) as i64,
        ),
    )
}

/// What the graph of [`FighterMovementMap::default`] holds: the nodes that
/// no input brings on, the walks, the jump, the two runs, ducking, and the
/// two slashes, put in in this order.
pub open spec fn spec_default_graph() -> MovementMapView {
    spec_default_walking().with_event(
        KeyTargetSet::spec_single(KeyTarget::JumpJustPressed),
        spec_jumping_node(),
    ).with_event(
        KeyTargetSet::spec_single(KeyTarget::RightJustPressed),
        spec_running_node(
            FighterMovement::RunningEast,
            RUNNING_SPEED,
            KeyTarget::RightJustPressed,
            spec_run_east_after(),
            spec_run_east_not_to(),
        ),
    ).with_event(
        KeyTargetSet::spec_single(KeyTarget::LeftJustPressed),
        spec_running_node(
            FighterMovement::RunningWest,
            (-RUNNING_SPEED) as i64,
            KeyTarget::LeftJustPressed,
            spec_run_west_after(),
            spec_run_west_not_to(),
        ),
    ).with_persistent(KeyTargetSet::spec_single(KeyTarget::Defend), spec_docking_node()).with_event(
        KeyTargetSet::spec_single(KeyTarget::AttackJustPressed),
        spec_slashing_node(),
    ).with_event(
        KeyTargetSet::spec_single(KeyTarget::AttackJustPressed),
        spec_jump_attack_node(),
    )
}

fn one_key(symbol: KeyTarget) -> (r: KeyTargetSet)
    ensures
        r == KeyTargetSet::spec_single(symbol),
{
    let array = [symbol];
    proof {
        KeyTargetSet::lemma_single(symbol);
        assert(array@.drop_last() =~= Seq::<KeyTarget>::empty());
        reveal_with_fuel(KeyTargetSet::spec_of, 3);
    }
    KeyTargetSet::from(array)
}

fn two_keys(a: KeyTarget, b: KeyTarget) -> (r: KeyTargetSet)
    requires
        a != b,
    ensures
        r == KeyTargetSet::spec_pair(a, b),
{
    let array = [a, b];
    proof {
        KeyTargetSet::lemma_pair(a, b);
        assert(array@.drop_last() =~= seq![a]);
        assert(array@.drop_last().drop_last() =~= Seq::<KeyTarget>::empty());
        reveal_with_fuel(KeyTargetSet::spec_of, 4);
    }
    KeyTargetSet::from(array)
}

fn walking_node(movement: FighterMovement, state_update: StateUpdate, x: i64, y: i64) -> (r:
    PersistentFighterMovementNode)
    ensures
        r == spec_walking_node(movement, state_update, x, y),
{
    PersistentFighterMovementNode {
        base: FighterMovementNodeBase {
            movement,
            sprite_name: "Walking",
            state_update,
            state_enter: StateEnter { x: Some(x), y: Some(y), z: None },
        },
        player_can_enter: EntryRule::Grounded,
        player_can_exit: ExitRule::Always,
    }
}

fn running_node(
    movement: FighterMovement,
    speed: i64,
    key: KeyTarget,
    after: MovementSet,
    not_to: MovementSet,
) -> (r: EventFighterMovementNode)
    ensures
        r == spec_running_node(movement, speed, key, after, not_to),
{
    EventFighterMovementNode {
        base: FighterMovementNodeBase {
            movement,
            sprite_name: "Running",
            state_update: StateUpdate::OnGround,
            state_enter: StateEnter { x: Some(speed), y: None, z: None },
        },
        player_can_enter: EventEntryRule::DoubleTap { key, window: DOUBLE_TAP_WINDOW, after },
        player_can_exit: ExitRule::NotTo(not_to),
        channel: Some(Channel::Drift { up: WALKING_SPEED, down: -WALKING_SPEED }),
        duration_and_fallback: None,
    }
}

/// Puts in the nodes that no input brings on, and the walks.
fn insert_walking(map: &mut FighterMovementMap)
    requires
        old(map)@ == MovementMapView::empty(),
    ensures
        final(map)@ == spec_default_walking(),
        final(map)@.wf(),
{
    proof {
        assert(MovementMapView::empty().wf());
    }
    map.insert_to_uncontrollable_map(
        UncontrollableFighterMovementNode {
            base: FighterMovementNodeBase {
                movement: FighterMovement::Idle,
                sprite_name: "Idle",
                state_update: StateUpdate::Still,
                state_enter: StateEnter { x: Some(0), y: Some(0), z: None },
            },
            player_can_enter: EntryRule::Grounded,
        },
    );
    map.insert_to_uncontrollable_map(
        UncontrollableFighterMovementNode {
            base: FighterMovementNodeBase {
                movement: FighterMovement::InAir,
                sprite_name: "JumpLoop",
                state_update: StateUpdate::Airborne,
                state_enter: StateEnter { x: None, y: None, z: None },
            },
            player_can_enter: EntryRule::OffGround,
        },
    );
    map.insert_to_persistent_map(
        one_key(KeyTarget::Right),
        walking_node(FighterMovement::WalkingEast, StateUpdate::AlongX, WALKING_SPEED, 0),
    );
    map.insert_to_persistent_map(
        one_key(KeyTarget::Left),
        walking_node(FighterMovement::WalkingWest, StateUpdate::AlongX, -WALKING_SPEED, 0),
    );
    map.insert_to_persistent_map(
        one_key(KeyTarget::Up),
        walking_node(FighterMovement::WalkingNorth, StateUpdate::AlongY, 0, WALKING_SPEED),
    );
    map.insert_to_persistent_map(
        one_key(KeyTarget::Down),
        walking_node(FighterMovement::WalkingSouth, StateUpdate::AlongY, 0, -WALKING_SPEED),
    );
    map.insert_to_persistent_map(
        two_keys(KeyTarget::Up, KeyTarget::Right),
        walking_node(
            FighterMovement::WalkingNorthEast,
            StateUpdate::OnGround,
            DIAGONAL_WALKING_SPEED,
            DIAGONAL_WALKING_SPEED,
        ),
    );
    map.insert_to_persistent_map(
        two_keys(KeyTarget::Up, KeyTarget::Left),
        walking_node(
            FighterMovement::WalkingNorthWest,
            StateUpdate::OnGround,
            -DIAGONAL_WALKING_SPEED,
            DIAGONAL_WALKING_SPEED,
        ),
    );
    map.insert_to_persistent_map(
        two_keys(KeyTarget::Down, KeyTarget::Right),
        walking_node(
            FighterMovement::WalkingSouthEast,
            StateUpdate::OnGround,
            DIAGONAL_WALKING_SPEED,
            -DIAGONAL_WALKING_SPEED,
        ),
    );
    map.insert_to_persistent_map(
        two_keys(KeyTarget::Down, KeyTarget::Left),
        walking_node(
            FighterMovement::WalkingSouthWest,
            StateUpdate::OnGround,
            -DIAGONAL_WALKING_SPEED,
            -DIAGONAL_WALKING_SPEED,
        ),
    );
}

/// Puts in the jump, the runs, ducking and the slashes.
fn insert_actions(map: &mut FighterMovementMap)
    requires
        old(map)@ == spec_default_walking(),
        old(map)@.wf(),
    ensures
        final(map)@ == spec_default_graph(),
        final(map)@.wf(),
{
    map.insert_to_event_map(
        one_key(KeyTarget::JumpJustPressed),
        EventFighterMovementNode {
            base: FighterMovementNodeBase {
                movement: FighterMovement::Jumping,
                sprite_name: "JumpLoop",
                state_update: StateUpdate::Airborne,
                state_enter: StateEnter { x: None, y: None, z: Some(JUMPING_SPEED) },
            },
            player_can_enter: EventEntryRule::Grounded,
            player_can_exit: ExitRule::GroundedOrTo(FighterMovement::JumpAttack),
            channel: None,
            duration_and_fallback: None,
        },
    );
    let east_after = [FighterMovement::Idle, FighterMovement::WalkingEast];
    let east_not_to = [
        FighterMovement::WalkingEast,
        FighterMovement::WalkingNorth,
        FighterMovement::WalkingSouth,
        FighterMovement::WalkingNorthEast,
        FighterMovement::WalkingSouthEast,
        FighterMovement::Idle,
    ];
    proof {
        assert(east_after@ =~= seq![FighterMovement::Idle, FighterMovement::WalkingEast]);
        assert(east_not_to@ =~= seq![
            FighterMovement::WalkingEast,
            FighterMovement::WalkingNorth,
            FighterMovement::WalkingSouth,
            FighterMovement::WalkingNorthEast,
            FighterMovement::WalkingSouthEast,
            FighterMovement::Idle,
        ]);
    }
    map.insert_to_event_map(
        one_key(KeyTarget::RightJustPressed),
        running_node(
            FighterMovement::RunningEast,
            RUNNING_SPEED,
            KeyTarget::RightJustPressed,
            MovementSet::from(east_after),
            MovementSet::from(east_not_to),
        ),
    );
    let west_after = [FighterMovement::Idle, FighterMovement::WalkingWest];
    let west_not_to = [
        FighterMovement::WalkingWest,
        FighterMovement::WalkingNorth,
        FighterMovement::WalkingSouth,
        FighterMovement::WalkingNorthWest,
        FighterMovement::WalkingSouthWest,
        FighterMovement::Idle,
    ];
    proof {
        assert(west_after@ =~= seq![FighterMovement::Idle, FighterMovement::WalkingWest]);
        assert(west_not_to@ =~= seq![
            FighterMovement::WalkingWest,
            FighterMovement::WalkingNorth,
            FighterMovement::WalkingSouth,
            FighterMovement::WalkingNorthWest,
            FighterMovement::WalkingSouthWest,
            FighterMovement::Idle,
        ]);
    }
    map.insert_to_event_map(
        one_key(KeyTarget::LeftJustPressed),
        running_node(
            FighterMovement::RunningWest,
            -RUNNING_SPEED,
            KeyTarget::LeftJustPressed,
            MovementSet::from(west_after),
            MovementSet::from(west_not_to),
        ),
    );
    map.insert_to_persistent_map(
        one_key(KeyTarget::Defend),
        PersistentFighterMovementNode {
            base: FighterMovementNodeBase {
                movement: FighterMovement::Docking,
                sprite_name: "Sliding",
                state_update: StateUpdate::Still,
                state_enter: StateEnter { x: Some(0), y: Some(0), z: Some(0) },
            },
            player_can_enter: EntryRule::Grounded,
            player_can_exit: ExitRule::Always,
        },
    );
    map.insert_to_event_map(
        one_key(KeyTarget::AttackJustPressed),
        EventFighterMovementNode {
            base: FighterMovementNodeBase {
                movement: FighterMovement::Slashing,
                sprite_name: "Slashing",
                state_update: StateUpdate::Still,
                state_enter: StateEnter { x: Some(0), y: Some(0), z: None },
            },
            player_can_enter: EventEntryRule::GroundedThisTick,
            player_can_exit: ExitRule::After(SLASHING_TIME),
            channel: None,
            duration_and_fallback: None,
        },
    );
    map.insert_to_event_map(
        one_key(KeyTarget::AttackJustPressed),
        EventFighterMovementNode {
            base: FighterMovementNodeBase {
                movement: FighterMovement::JumpAttack,
                sprite_name: "AirSlashing",
                state_update: StateUpdate::Airborne,
                state_enter: StateEnter { x: None, y: None, z: None },
            },
            player_can_enter: EventEntryRule::OffGroundAfter(FighterMovement::Jumping),
            player_can_exit: ExitRule::Grounded,
            channel: None,
            duration_and_fallback: Some(
                DurationAndFallback {
                    duration: JUMP_ATTACK_TIME,
                    fallback: FighterMovement::Jumping,
                    apply_enter_state_fcn: false,
                },
            ),
        },
    );
}

impl Default for FighterMovementMap {
    /// The graph that both archetypes are given.
    fn default() -> (r: FighterMovementMap)
        ensures
            r@ == spec_default_graph(),
            r.valid(),
            forall|movement: FighterMovement| r@.contains(movement),
    {
        let mut map = FighterMovementMap::new();
        insert_walking(&mut map);
        insert_actions(&mut map);
        proof {
            assert forall|movement: FighterMovement| map@.contains(movement) by {
                lemma_default_movements(movement);
            }
        }
        map
    }
}

/// The movement graphs of all fighter archetypes, each filed under the
/// number of its archetype.
pub struct FighterMovementMapCollection(pub HashMap<u8, FighterMovementMap>);

impl FighterMovementMapCollection {
    /// The graph of `fighter`, where the collection has one.
    pub open spec fn spec_get(&self, fighter: Fighter) -> Option<FighterMovementMap> {
        if self.0@.contains_key(fighter.spec_index()) {
            Some(self.0@[fighter.spec_index()])
        } else {
            None
        }
    }

    /// The graph of `fighter`, where the collection has one.
    pub fn get(&self, fighter: &Fighter) -> (r: Option<&FighterMovementMap>)
        ensures
            match r {
                Some(map) => self.spec_get(*fighter) == Some(*map),
                None => self.spec_get(*fighter).is_none(),
            },
    {
        let k: u8 = fighter.index();
        self.0.get(&k)
    }
}

impl Default for FighterMovementMapCollection {
    /// Every archetype with the default graph.
    fn default() -> (r: FighterMovementMapCollection)
        ensures
            forall|fighter: Fighter|
                (#[trigger] r.spec_get(fighter)) matches Some(map) && map@ == spec_default_graph()
                    && map.valid(),
    {
        let mut hashmap: HashMap<u8, FighterMovementMap> = HashMap::new();
        hashmap.insert(
            Fighter::IDF.index(),
            FighterMovementMap::default().ensure_must_exists_movements(),
        );
        hashmap.insert(
            Fighter::HAMAS.index(),
            FighterMovementMap::default().ensure_must_exists_movements(),
        );
        FighterMovementMapCollection(hashmap)
    }
}

/// Of the default graph: its tables agree, it has a node for every
/// motion state, and the node for each motion state is the one that the
/// table above names.
pub proof fn lemma_default_graph()
    ensures
        spec_default_graph().wf(),
        forall|movement: FighterMovement| spec_default_graph().contains(movement),
        spec_default_graph().node(FighterMovement::Idle) == Some(
            FighterMovementNode::Uncontrollable(spec_idle_node()),
        ),
        spec_default_graph().node(FighterMovement::InAir) == Some(
            FighterMovementNode::Uncontrollable(spec_in_air_node()),
        ),
        spec_default_graph().node(FighterMovement::Jumping) == Some(
            FighterMovementNode::EventTriggered(spec_jumping_node()),
        ),
        spec_default_graph().node(FighterMovement::JumpAttack) == Some(
            FighterMovementNode::EventTriggered(spec_jump_attack_node()),
        ),
        spec_default_graph().node(FighterMovement::Slashing) == Some(
            FighterMovementNode::EventTriggered(spec_slashing_node()),
        ),
        spec_default_graph().node(FighterMovement::Docking) == Some(
            FighterMovementNode::Persistent(spec_docking_node()),
        ),
        spec_default_graph().node(FighterMovement::WalkingEast) == Some(
            FighterMovementNode::Persistent(
                spec_walking_node(
                    FighterMovement::WalkingEast,
                    StateUpdate::AlongX,
                    WALKING_SPEED,
                    0,
                ),
            ),
        ),
{
    let u = spec_default_uncontrollable();
    MovementMapView::empty().lemma_with_uncontrollable(spec_idle_node());
    MovementMapView::empty().with_uncontrollable(spec_idle_node()).lemma_with_uncontrollable(
        spec_in_air_node(),
    );
    assert(u.wf());
    lemma_default_walking();
    lemma_default_actions();
    assert forall|movement: FighterMovement| spec_default_graph().contains(movement) by {
        lemma_default_movements(movement);
    }
}

proof fn lemma_default_walking()
    requires
        spec_default_uncontrollable().wf(),
    ensures
        spec_default_walking().wf(),
{
    let g0 = spec_default_uncontrollable();
    let k1 = KeyTargetSet::spec_single(KeyTarget::Right);
    let n1 = spec_walking_node(FighterMovement::WalkingEast, StateUpdate::AlongX, WALKING_SPEED, 0);
    g0.lemma_with_persistent(k1, n1);
    let g1 = g0.with_persistent(k1, n1);
    let k2 = KeyTargetSet::spec_single(KeyTarget::Left);
    let n2 = spec_walking_node(
        FighterMovement::WalkingWest,
        StateUpdate::AlongX,
        (-WALKING_SPEED) as i64,
        0,
    );
    g1.lemma_with_persistent(k2, n2);
    let g2 = g1.with_persistent(k2, n2);
    let k3 = KeyTargetSet::spec_single(KeyTarget::Up);
    let n3 = spec_walking_node(FighterMovement::WalkingNorth, StateUpdate::AlongY, 0, WALKING_SPEED);
    g2.lemma_with_persistent(k3, n3);
    let g3 = g2.with_persistent(k3, n3);
    let k4 = KeyTargetSet::spec_single(KeyTarget::Down);
    let n4 = spec_walking_node(
        FighterMovement::WalkingSouth,
        StateUpdate::AlongY,
        0,
        (-WALKING_SPEED) as i64,
    );
    g3.lemma_with_persistent(k4, n4);
    let g4 = g3.with_persistent(k4, n4);
    let k5 = KeyTargetSet::spec_pair(KeyTarget::Up, KeyTarget::Right);
    let n5 = spec_walking_node(
        FighterMovement::WalkingNorthEast,
        StateUpdate::OnGround,
        DIAGONAL_WALKING_SPEED,
        DIAGONAL_WALKING_SPEED,
    );
    g4.lemma_with_persistent(k5, n5);
    let g5 = g4.with_persistent(k5, n5);
    let k6 = KeyTargetSet::spec_pair(KeyTarget::Up, KeyTarget::Left);
    let n6 = spec_walking_node(
        FighterMovement::WalkingNorthWest,
        StateUpdate::OnGround,
        (-DIAGONAL_WALKING_SPEED) as i64,
        DIAGONAL_WALKING_SPEED,
    );
    g5.lemma_with_persistent(k6, n6);
    let g6 = g5.with_persistent(k6, n6);
    let k7 = KeyTargetSet::spec_pair(KeyTarget::Down, KeyTarget::Right);
    let n7 = spec_walking_node(
        FighterMovement::WalkingSouthEast,
        StateUpdate::OnGround,
        DIAGONAL_WALKING_SPEED,
        (-DIAGONAL_WALKING_SPEED) as i64,
    );
    g6.lemma_with_persistent(k7, n7);
    let g7 = g6.with_persistent(k7, n7);
    let k8 = KeyTargetSet::spec_pair(KeyTarget::Down, KeyTarget::Left);
    let n8 = spec_walking_node(
        FighterMovement::WalkingSouthWest,
        StateUpdate::OnGround,
        (-DIAGONAL_WALKING_SPEED) as i64,
        (-DIAGONAL_WALKING_SPEED) as i64,
    );
    g7.lemma_with_persistent(k8, n8);
}

proof fn lemma_default_actions()
    requires
        spec_default_walking().wf(),
    ensures
        spec_default_graph().wf(),
{
    let g0 = spec_default_walking();
    let k1 = KeyTargetSet::spec_single(KeyTarget::JumpJustPressed);
    g0.lemma_with_event(k1, spec_jumping_node());
    let g1 = g0.with_event(k1, spec_jumping_node());
    let k2 = KeyTargetSet::spec_single(KeyTarget::RightJustPressed);
    let n2 = spec_running_node(
        FighterMovement::RunningEast,
        RUNNING_SPEED,
        KeyTarget::RightJustPressed,
        spec_run_east_after(),
        spec_run_east_not_to(),
    );
    g1.lemma_with_event(k2, n2);
    let g2 = g1.with_event(k2, n2);
    let k3 = KeyTargetSet::spec_single(KeyTarget::LeftJustPressed);
    let n3 = spec_running_node(
        FighterMovement::RunningWest,
        (-RUNNING_SPEED) as i64,
        KeyTarget::LeftJustPressed,
        spec_run_west_after(),
        spec_run_west_not_to(),
    );
    g2.lemma_with_event(k3, n3);
    let g3 = g2.with_event(k3, n3);
    let k4 = KeyTargetSet::spec_single(KeyTarget::Defend);
    g3.lemma_with_persistent(k4, spec_docking_node());
    let g4 = g3.with_persistent(k4, spec_docking_node());
    let k5 = KeyTargetSet::spec_single(KeyTarget::AttackJustPressed);
    g4.lemma_with_event(k5, spec_slashing_node());
    let g5 = g4.with_event(k5, spec_slashing_node());
    g5.lemma_with_event(k5, spec_jump_attack_node());
}

/// The run to the east, as the default graph has it.
pub open spec fn spec_running_east_node() -> EventFighterMovementNode {
    spec_running_node(
        FighterMovement::RunningEast,
        RUNNING_SPEED,
        KeyTarget::RightJustPressed,
        spec_run_east_after(),
        spec_run_east_not_to(),
    )
}

/// The run to the west, as the default graph has it.
pub open spec fn spec_running_west_node() -> EventFighterMovementNode {
    spec_running_node(
        FighterMovement::RunningWest,
        (-RUNNING_SPEED) as i64,
        KeyTarget::LeftJustPressed,
        spec_run_west_after(),
        spec_run_west_not_to(),
    )
}

/// The nodes that the default graph holds for the input edges `keyset`:
/// the jump for `JumpJustPressed` alone, a run for `RightJustPressed` or
/// `LeftJustPressed` alone, the two slashes for `AttackJustPressed` alone,
/// and none for any other set.
pub proof fn lemma_default_event_candidates(keyset: KeyTargetSet)
    ensures
        spec_default_graph().event_candidates(keyset) == (if keyset == KeyTargetSet::spec_single(
            KeyTarget::JumpJustPressed,
        ) {
            seq![spec_jumping_node()]
        } else if keyset == KeyTargetSet::spec_single(KeyTarget::RightJustPressed) {
            seq![spec_running_east_node()]
        } else if keyset == KeyTargetSet::spec_single(KeyTarget::LeftJustPressed) {
            seq![spec_running_west_node()]
        } else if keyset == KeyTargetSet::spec_single(KeyTarget::AttackJustPressed) {
            seq![spec_slashing_node(), spec_jump_attack_node()]
        } else {
            Seq::empty()
        }),
{
    let nodes = spec_default_graph().event_candidates(keyset);
    if keyset == KeyTargetSet::spec_single(KeyTarget::JumpJustPressed) {
        assert(nodes =~= seq![spec_jumping_node()]);
    } else if keyset == KeyTargetSet::spec_single(KeyTarget::RightJustPressed) {
        assert(nodes =~= seq![spec_running_east_node()]);
    } else if keyset == KeyTargetSet::spec_single(KeyTarget::LeftJustPressed) {
        assert(nodes =~= seq![spec_running_west_node()]);
    } else if keyset == KeyTargetSet::spec_single(KeyTarget::AttackJustPressed) {
        assert(nodes =~= seq![spec_slashing_node(), spec_jump_attack_node()]);
    } else {
        assert(nodes =~= Seq::empty());
    }
}

/// The nodes that the default graph holds for the held input `keyset`: one
/// walk for each of the four directions alone and for each pair of a
/// direction along `y` with one along `x`, ducking for `Defend` alone, and
/// none for any other set.
pub proof fn lemma_default_persistent_candidates(keyset: KeyTargetSet)
    ensures
        spec_default_graph().persistent_candidates(keyset).len() <= 1,
        forall|i: int|
            0 <= i < spec_default_graph().persistent_candidates(keyset).len() ==> {
                let node = #[trigger] spec_default_graph().persistent_candidates(keyset)[i];
                &&& node.player_can_enter == EntryRule::Grounded
                &&& node.player_can_exit == ExitRule::Always
                &&& node.base.movement != FighterMovement::RunningEast
                &&& node.base.movement != FighterMovement::RunningWest
                &&& node.base.movement != FighterMovement::Idle
            },
        keyset == KeyTargetSet::spec_empty() ==> spec_default_graph().persistent_candidates(keyset)
            == Seq::<PersistentFighterMovementNode>::empty(),
        keyset == KeyTargetSet::spec_single(KeyTarget::Right)
            ==> spec_default_graph().persistent_candidates(keyset) == seq![
            spec_walking_node(FighterMovement::WalkingEast, StateUpdate::AlongX, WALKING_SPEED, 0),
        ],
        keyset == KeyTargetSet::spec_single(KeyTarget::Left)
            ==> spec_default_graph().persistent_candidates(keyset) == seq![
            spec_walking_node(
                FighterMovement::WalkingWest,
                StateUpdate::AlongX,
                (-WALKING_SPEED) as i64,
                0,
            ),
        ],
        keyset == KeyTargetSet::spec_single(KeyTarget::Up)
            ==> spec_default_graph().persistent_candidates(keyset) == seq![
            spec_walking_node(FighterMovement::WalkingNorth, StateUpdate::AlongY, 0, WALKING_SPEED),
        ],
        keyset == KeyTargetSet::spec_single(KeyTarget::Down)
            ==> spec_default_graph().persistent_candidates(keyset) == seq![
            spec_walking_node(
                FighterMovement::WalkingSouth,
                StateUpdate::AlongY,
                0,
                (-WALKING_SPEED) as i64,
            ),
        ],
        keyset == KeyTargetSet::spec_single(KeyTarget::Defend)
            ==> spec_default_graph().persistent_candidates(keyset) == seq![spec_docking_node()],
{
    let nodes = spec_default_graph().persistent_candidates(keyset);
    if keyset == KeyTargetSet::spec_empty() {
        assert(nodes =~= Seq::empty());
    }
    if keyset == KeyTargetSet::spec_single(KeyTarget::Right) {
        assert(nodes =~= seq![
            spec_walking_node(FighterMovement::WalkingEast, StateUpdate::AlongX, WALKING_SPEED, 0),
        ]);
    }
    if keyset == KeyTargetSet::spec_single(KeyTarget::Left) {
        assert(nodes =~= seq![
            spec_walking_node(
                FighterMovement::WalkingWest,
                StateUpdate::AlongX,
                (-WALKING_SPEED) as i64,
                0,
            ),
        ]);
    }
    if keyset == KeyTargetSet::spec_single(KeyTarget::Up) {
        assert(nodes =~= seq![
            spec_walking_node(FighterMovement::WalkingNorth, StateUpdate::AlongY, 0, WALKING_SPEED),
        ]);
    }
    if keyset == KeyTargetSet::spec_single(KeyTarget::Down) {
        assert(nodes =~= seq![
            spec_walking_node(
                FighterMovement::WalkingSouth,
                StateUpdate::AlongY,
                0,
                (-WALKING_SPEED) as i64,
            ),
        ]);
    }
    if keyset == KeyTargetSet::spec_single(KeyTarget::Defend) {
        assert(nodes =~= seq![spec_docking_node()]);
    }
}

/// The default graph has a node for every motion state.
pub proof fn lemma_default_movements(movement: FighterMovement)
    ensures
        spec_default_graph().contains(movement),
        movement == FighterMovement::Idle ==> spec_default_graph().node(movement) == Some(
            FighterMovementNode::Uncontrollable(spec_idle_node()),
        ),
{
}

} // verus!
