//! Movement nodes and the movement graph of a fighter archetype: every
//! motion state the archetype has, filed by the input that brings it on and
//! by the motion state itself.

use vstd::prelude::*;
use std::collections::HashMap;
use crate::controls::KeyTargetSet;
use crate::fighters::{lemma_movement_codes, FighterMovement, FighterPosition, FighterVelocity};
use crate::movement_rules::{
    Channel, DurationAndFallback, EntryRule, EventEntryRule, ExitRule, StateEnter, StateUpdate,
};

verus! {

/// What every movement node has: the motion state it describes, the name
/// under which its sprites are filed, and what it does to the fighter on
/// entry and while it lasts.
#[derive(Clone, Copy, Debug)]
pub struct FighterMovementNodeBase {
    pub movement: FighterMovement,
    pub sprite_name: &'static str,
    pub state_update: StateUpdate,
    pub state_enter: StateEnter,
}

/// A motion state that an input edge brings on.
#[derive(Clone, Copy, Debug)]
pub struct EventFighterMovementNode {
    pub base: FighterMovementNodeBase,
    pub player_can_enter: EventEntryRule,
    pub player_can_exit: ExitRule,
    pub channel: Option<Channel>,
    pub duration_and_fallback: Option<DurationAndFallback>,
}

/// A motion state that lasts while its input is held.
#[derive(Clone, Copy, Debug)]
pub struct PersistentFighterMovementNode {
    pub base: FighterMovementNodeBase,
    pub player_can_enter: EntryRule,
    pub player_can_exit: ExitRule,
}

/// A motion state that no input brings on.
#[derive(Clone, Copy, Debug)]
pub struct UncontrollableFighterMovementNode {
    pub base: FighterMovementNodeBase,
    pub player_can_enter: EntryRule,
}

/// What the three kinds of movement node have in common.
pub trait FighterMovementNodeTrait {
    spec fn spec_base(&self) -> FighterMovementNodeBase;

    fn movement(&self) -> (r: FighterMovement)
        ensures
            r == self.spec_base().movement,
    ;

    /// Sets the velocity as entering the motion state asks. The position
    /// stays.
    fn state_enter(
        &self,
        fighter_position: &mut FighterPosition,
        fighter_velocity: &mut FighterVelocity,
    )
        ensures
            *final(fighter_position) == *old(fighter_position),
            *final(fighter_velocity) == self.spec_base().state_enter.spec_velocity(
                *old(fighter_velocity),
            ),
    ;

    /// Moves the fighter for `delta_time`.
    fn state_update(
        &self,
        fighter_position: &mut FighterPosition,
        fighter_velocity: &mut FighterVelocity,
        delta_time: u64,
    )
        ensures
            *final(fighter_position) == self.spec_base().state_update.spec_position(
                *old(fighter_position),
                *old(fighter_velocity),
                delta_time,
            ),
            *final(fighter_velocity) == self.spec_base().state_update.spec_velocity(
                *old(fighter_velocity),
                delta_time,
            ),
    ;

    fn sprite_name(&self) -> (r: &'static str)
        ensures
            r == self.spec_base().sprite_name,
    ;
}

impl FighterMovementNodeTrait for EventFighterMovementNode {
    open spec fn spec_base(&self) -> FighterMovementNodeBase {
        self.base
    }

    fn movement(&self) -> (r: FighterMovement) {
        self.base.movement
    }

    fn state_enter(
        &self,
        fighter_position: &mut FighterPosition,
        fighter_velocity: &mut FighterVelocity,
    ) {
        self.base.state_enter.apply(fighter_velocity);
    }

    fn state_update(
        &self,
        fighter_position: &mut FighterPosition,
        fighter_velocity: &mut FighterVelocity,
        delta_time: u64,
    ) {
        self.base.state_update.apply(fighter_position, fighter_velocity, delta_time);
    }

    fn sprite_name(&self) -> (r: &'static str) {
        self.base.sprite_name
    }
}

impl FighterMovementNodeTrait for PersistentFighterMovementNode {
    open spec fn spec_base(&self) -> FighterMovementNodeBase {
        self.base
    }

    fn movement(&self) -> (r: FighterMovement) {
        self.base.movement
    }

    fn state_enter(
        &self,
        fighter_position: &mut FighterPosition,
        fighter_velocity: &mut FighterVelocity,
    ) {
        self.base.state_enter.apply(fighter_velocity);
    }

    fn state_update(
        &self,
        fighter_position: &mut FighterPosition,
        fighter_velocity: &mut FighterVelocity,
        delta_time: u64,
    ) {
        self.base.state_update.apply(fighter_position, fighter_velocity, delta_time);
    }

    fn sprite_name(&self) -> (r: &'static str) {
        self.base.sprite_name
    }
}

impl FighterMovementNodeTrait for UncontrollableFighterMovementNode {
    open spec fn spec_base(&self) -> FighterMovementNodeBase {
        self.base
    }

    fn movement(&self) -> (r: FighterMovement) {
        self.base.movement
    }

    fn state_enter(
        &self,
        fighter_position: &mut FighterPosition,
        fighter_velocity: &mut FighterVelocity,
    ) {
        self.base.state_enter.apply(fighter_velocity);
    }

    fn state_update(
        &self,
        fighter_position: &mut FighterPosition,
        fighter_velocity: &mut FighterVelocity,
        delta_time: u64,
    ) {
        self.base.state_update.apply(fighter_position, fighter_velocity, delta_time);
    }

    fn sprite_name(&self) -> (r: &'static str) {
        self.base.sprite_name
    }
}

/// A movement node of any of the three kinds.
#[derive(Clone, Copy, Debug)]
pub enum FighterMovementNode {
    EventTriggered(EventFighterMovementNode),
    Persistent(PersistentFighterMovementNode),
    Uncontrollable(UncontrollableFighterMovementNode),
}

impl FighterMovementNode {
    /// What the node has in common with the nodes of the other kinds.
    pub open spec fn base(self) -> FighterMovementNodeBase {
        match self {
            FighterMovementNode::EventTriggered(node) => node.base,
            FighterMovementNode::Persistent(node) => node.base,
            FighterMovementNode::Uncontrollable(node) => node.base,
        }
    }
}

impl FighterMovementNodeTrait for FighterMovementNode {
    open spec fn spec_base(&self) -> FighterMovementNodeBase {
        self.base()
    }

    fn movement(&self) -> (r: FighterMovement) {
        match self {
            FighterMovementNode::EventTriggered(node) => node.movement(),
            FighterMovementNode::Persistent(node) => node.movement(),
            FighterMovementNode::Uncontrollable(node) => node.movement(),
        }
    }

    fn state_enter(
        &self,
        fighter_position: &mut FighterPosition,
        fighter_velocity: &mut FighterVelocity,
    ) {
        match self {
            FighterMovementNode::EventTriggered(node) => node.state_enter(
                fighter_position,
                fighter_velocity,
            ),
            FighterMovementNode::Persistent(node) => node.state_enter(
                fighter_position,
                fighter_velocity,
            ),
            FighterMovementNode::Uncontrollable(node) => node.state_enter(
                fighter_position,
                fighter_velocity,
            ),
        }
    }

    fn state_update(
        &self,
        fighter_position: &mut FighterPosition,
        fighter_velocity: &mut FighterVelocity,
        delta_time: u64,
    ) {
        match self {
            FighterMovementNode::EventTriggered(node) => node.state_update(
                fighter_position,
                fighter_velocity,
                delta_time,
            ),
            FighterMovementNode::Persistent(node) => node.state_update(
                fighter_position,
                fighter_velocity,
                delta_time,
            ),
            FighterMovementNode::Uncontrollable(node) => node.state_update(
                fighter_position,
                fighter_velocity,
                delta_time,
            ),
        }
    }

    fn sprite_name(&self) -> (r: &'static str) {
        match self {
            FighterMovementNode::EventTriggered(node) => node.sprite_name(),
            FighterMovementNode::Persistent(node) => node.sprite_name(),
            FighterMovementNode::Uncontrollable(node) => node.sprite_name(),
        }
    }
}

/// A lookup in a movement graph found nothing.
#[derive(Clone, Copy, Debug, PartialEq, Eq, Structural)]
pub enum FighterMovementError {
    MovementNotFound(FighterMovement),
}

/// What a movement graph holds. The nodes that input brings on are filed
/// under the bits of the set of input symbols, in the order in which they
/// were put in; every node is filed under the number of its motion state.
pub struct MovementMapView {
    pub event: Map<u16, Seq<EventFighterMovementNode>>,
    pub persistent: Map<u16, Seq<PersistentFighterMovementNode>>,
    pub uncontrollable: Map<u8, UncontrollableFighterMovementNode>,
    pub movement: Map<u8, FighterMovementNode>,
}

impl MovementMapView {
    pub open spec fn empty() -> MovementMapView {
        MovementMapView {
            event: Map::empty(),
            persistent: Map::empty(),
            uncontrollable: Map::empty(),
            movement: Map::empty(),
        }
    }

    /// The graph has a node for `movement`.
    pub open spec fn contains(self, movement: FighterMovement) -> bool {
        self.movement.contains_key(movement.spec_index())
    }

    /// The node for `movement`.
    pub open spec fn node(self, movement: FighterMovement) -> Option<FighterMovementNode> {
        if self.contains(movement) {
            Some(self.movement[movement.spec_index()])
        } else {
            None
        }
    }

    /// The nodes that the input edges `keyset` may bring on.
    pub open spec fn event_candidates(self, keyset: KeyTargetSet) -> Seq<
        EventFighterMovementNode,
    > {
        if self.event.contains_key(keyset.bits) {
            self.event[keyset.bits]
        } else {
            Seq::empty()
        }
    }

    /// The nodes that holding `keyset` may bring on.
    pub open spec fn persistent_candidates(self, keyset: KeyTargetSet) -> Seq<
        PersistentFighterMovementNode,
    > {
        if self.persistent.contains_key(keyset.bits) {
            self.persistent[keyset.bits]
        } else {
            Seq::empty()
        }
    }

    /// The graph with `node` put in under `keyset`, after the nodes that
    /// are filed there.
    pub open spec fn with_event(self, keyset: KeyTargetSet, node: EventFighterMovementNode)
        -> MovementMapView {
        MovementMapView {
            event: self.event.insert(keyset.bits, self.event_candidates(keyset).push(node)),
            movement: self.movement.insert(
                node.base.movement.spec_index(),
                FighterMovementNode::EventTriggered(node),
            ),
            ..self
        }
    }

    /// The graph with `node` put in under `keyset`, after the nodes that
    /// are filed there.
    pub open spec fn with_persistent(
        self,
        keyset: KeyTargetSet,
        node: PersistentFighterMovementNode,
    ) -> MovementMapView {
        MovementMapView {
            persistent: self.persistent.insert(
                keyset.bits,
                self.persistent_candidates(keyset).push(node),
            ),
            movement: self.movement.insert(
                node.base.movement.spec_index(),
                FighterMovementNode::Persistent(node),
            ),
            ..self
        }
    }

    /// The graph with `node` put in.
    pub open spec fn with_uncontrollable(self, node: UncontrollableFighterMovementNode)
        -> MovementMapView {
        MovementMapView {
            uncontrollable: self.uncontrollable.insert(node.base.movement.spec_index(), node),
            movement: self.movement.insert(
                node.base.movement.spec_index(),
                FighterMovementNode::Uncontrollable(node),
            ),
            ..self
        }
    }

    /// `node` stands at the place `i` under `key` among the nodes that
    /// input edges bring on.
    pub open spec fn event_at(self, key: u16, i: int, node: EventFighterMovementNode) -> bool {
        self.event.contains_key(key) && 0 <= i < self.event[key].len() && self.event[key][i]
            == node
    }

    /// `node` stands at the place `i` under `key` among the nodes that
    /// held input brings on.
    pub open spec fn persistent_at(self, key: u16, i: int, node: PersistentFighterMovementNode)
        -> bool {
        self.persistent.contains_key(key) && 0 <= i < self.persistent[key].len()
            && self.persistent[key][i] == node
    }

    /// The four tables agree: a node is filed under its own motion state;
    /// what one of the three tables by kind holds, the table by motion
    /// state holds as a node of that kind, and the other way round; and no
    /// motion state is filed twice in a table by kind.
    pub open spec fn wf(self) -> bool {
        &&& forall|k: u8| #[trigger]
            self.movement.contains_key(k) ==> self.movement[k].base().movement.spec_index()
                == k
        &&& forall|key: u16, i: int, node: EventFighterMovementNode| #[trigger]
            self.event_at(key, i, node) ==> self.node(node.base.movement) == Some(
                FighterMovementNode::EventTriggered(node),
            )
        &&& forall|key: u16, i: int, node: PersistentFighterMovementNode| #[trigger]
            self.persistent_at(key, i, node) ==> self.node(node.base.movement) == Some(
                FighterMovementNode::Persistent(node),
            )
        &&& forall|k: u8| #[trigger]
            self.uncontrollable.contains_key(k) ==> self.movement.contains_key(k)
                && self.movement[k] == FighterMovementNode::Uncontrollable(self.uncontrollable[k])
        &&& forall|k: u8| #[trigger]
            self.movement.contains_key(k) ==> match self.movement[k] {
                FighterMovementNode::EventTriggered(node) => exists|key: u16, i: int|
                    self.event_at(key, i, node),
                FighterMovementNode::Persistent(node) => exists|key: u16, i: int|
                    self.persistent_at(key, i, node),
                FighterMovementNode::Uncontrollable(node) => self.uncontrollable.contains_key(k)
                    && self.uncontrollable[k] == node,
            }
        &&& forall|
            key: u16,
            i: int,
            node: EventFighterMovementNode,
            key2: u16,
            i2: int,
            node2: EventFighterMovementNode,
        |
            #[trigger] self.event_at(key, i, node) && #[trigger] self.event_at(key2, i2, node2)
                && node.base.movement == node2.base.movement ==> key == key2 && i == i2
        &&& forall|
            key: u16,
            i: int,
            node: PersistentFighterMovementNode,
            key2: u16,
            i2: int,
            node2: PersistentFighterMovementNode,
        |
            #[trigger] self.persistent_at(key, i, node) && #[trigger] self.persistent_at(
                key2,
                i2,
                node2,
            ) && node.base.movement == node2.base.movement ==> key == key2 && i == i2
    }

    /// Putting in a node for a motion state that the graph does not hold
    /// keeps the tables in agreement.
    pub proof fn lemma_with_event(self, keyset: KeyTargetSet, node: EventFighterMovementNode)
        requires
            self.wf(),
            !self.contains(node.base.movement),
        ensures
            self.with_event(keyset, node).wf(),
    {
        let next = self.with_event(keyset, node);
        let idx = node.base.movement.spec_index();
        let last = self.event_candidates(keyset).len() as int;
        assert(next.event_at(keyset.bits, last, node));
        assert forall|m: FighterMovement| #[trigger] m.spec_index() == idx implies m
            == node.base.movement by {
            lemma_movement_codes(m, node.base.movement);
        }
        assert forall|key: u16, i: int, n: EventFighterMovementNode| #[trigger]
            next.event_at(key, i, n) implies (self.event_at(key, i, n) || (key == keyset.bits && i
            == last && n == node)) by {}
        assert forall|key: u16, i: int, n: EventFighterMovementNode| #[trigger]
            self.event_at(key, i, n) implies next.event_at(key, i, n) by {}
        assert forall|key: u16, i: int, n: PersistentFighterMovementNode| #[trigger]
            next.persistent_at(key, i, n) <==> self.persistent_at(key, i, n) by {}
        assert forall|k: u8| #[trigger] next.movement.contains_key(k) implies match next.movement[k] {
            FighterMovementNode::EventTriggered(n) => exists|key: u16, i: int|
                next.event_at(key, i, n),
            FighterMovementNode::Persistent(n) => exists|key: u16, i: int|
                next.persistent_at(key, i, n),
            FighterMovementNode::Uncontrollable(n) => next.uncontrollable.contains_key(k)
                && next.uncontrollable[k] == n,
        } by {
            if k != idx {
                assert(self.movement.contains_key(k));
                match self.movement[k] {
                    FighterMovementNode::EventTriggered(n) => {
                        let (key, i) = choose|key: u16, i: int| self.event_at(key, i, n);
                        assert(next.event_at(key, i, n));
                    },
                    FighterMovementNode::Persistent(n) => {
                        let (key, i) = choose|key: u16, i: int| self.persistent_at(key, i, n);
                        assert(next.persistent_at(key, i, n));
                    },
                    FighterMovementNode::Uncontrollable(n) => {},
                }
            }
        }
    }

    /// Putting in a node for a motion state that the graph does not hold
    /// keeps the tables in agreement.
    pub proof fn lemma_with_persistent(
        self,
        keyset: KeyTargetSet,
        node: PersistentFighterMovementNode,
    )
        requires
            self.wf(),
            !self.contains(node.base.movement),
        ensures
            self.with_persistent(keyset, node).wf(),
    {
        let next = self.with_persistent(keyset, node);
        let idx = node.base.movement.spec_index();
        let last = self.persistent_candidates(keyset).len() as int;
        assert(next.persistent_at(keyset.bits, last, node));
        assert forall|m: FighterMovement| #[trigger] m.spec_index() == idx implies m
            == node.base.movement by {
            lemma_movement_codes(m, node.base.movement);
        }
        assert forall|key: u16, i: int, n: PersistentFighterMovementNode| #[trigger]
            next.persistent_at(key, i, n) implies (self.persistent_at(key, i, n) || (key
            == keyset.bits && i == last && n == node)) by {}
        assert forall|key: u16, i: int, n: PersistentFighterMovementNode| #[trigger]
            self.persistent_at(key, i, n) implies next.persistent_at(key, i, n) by {}
        assert forall|key: u16, i: int, n: EventFighterMovementNode| #[trigger]
            next.event_at(key, i, n) <==> self.event_at(key, i, n) by {}
        assert forall|k: u8| #[trigger] next.movement.contains_key(k) implies match next.movement[k] {
            FighterMovementNode::EventTriggered(n) => exists|key: u16, i: int|
                next.event_at(key, i, n),
            FighterMovementNode::Persistent(n) => exists|key: u16, i: int|
                next.persistent_at(key, i, n),
            FighterMovementNode::Uncontrollable(n) => next.uncontrollable.contains_key(k)
                && next.uncontrollable[k] == n,
        } by {
            if k != idx {
                assert(self.movement.contains_key(k));
                match self.movement[k] {
                    FighterMovementNode::EventTriggered(n) => {
                        let (key, i) = choose|key: u16, i: int| self.event_at(key, i, n);
                        assert(next.event_at(key, i, n));
                    },
                    FighterMovementNode::Persistent(n) => {
                        let (key, i) = choose|key: u16, i: int| self.persistent_at(key, i, n);
                        assert(next.persistent_at(key, i, n));
                    },
                    FighterMovementNode::Uncontrollable(n) => {},
                }
            }
        }
    }

    /// Putting in a node for a motion state that the graph does not hold
    /// keeps the tables in agreement.
    pub proof fn lemma_with_uncontrollable(self, node: UncontrollableFighterMovementNode)
        requires
            self.wf(),
            !self.contains(node.base.movement),
        ensures
            self.with_uncontrollable(node).wf(),
    {
        let next = self.with_uncontrollable(node);
        let idx = node.base.movement.spec_index();
        assert forall|m: FighterMovement| #[trigger] m.spec_index() == idx implies m
            == node.base.movement by {
            lemma_movement_codes(m, node.base.movement);
        }
        assert forall|key: u16, i: int, n: PersistentFighterMovementNode| #[trigger]
            next.persistent_at(key, i, n) <==> self.persistent_at(key, i, n) by {}
        assert forall|key: u16, i: int, n: EventFighterMovementNode| #[trigger]
            next.event_at(key, i, n) <==> self.event_at(key, i, n) by {}
        assert forall|k: u8| #[trigger] next.movement.contains_key(k) implies match next.movement[k] {
            FighterMovementNode::EventTriggered(n) => exists|key: u16, i: int|
                next.event_at(key, i, n),
            FighterMovementNode::Persistent(n) => exists|key: u16, i: int|
                next.persistent_at(key, i, n),
            FighterMovementNode::Uncontrollable(n) => next.uncontrollable.contains_key(k)
                && next.uncontrollable[k] == n,
        } by {
            if k != idx {
                assert(self.movement.contains_key(k));
                match self.movement[k] {
                    FighterMovementNode::EventTriggered(n) => {
                        let (key, i) = choose|key: u16, i: int| self.event_at(key, i, n);
                        assert(next.event_at(key, i, n));
                    },
                    FighterMovementNode::Persistent(n) => {
                        let (key, i) = choose|key: u16, i: int| self.persistent_at(key, i, n);
                        assert(next.persistent_at(key, i, n));
                    },
                    FighterMovementNode::Uncontrollable(n) => {},
                }
            }
        }
    }
}

/// The movement graph of a fighter archetype.
pub struct FighterMovementMap {
    pub event_map: HashMap<u16, Vec<EventFighterMovementNode>>,
    pub persistent_map: HashMap<u16, Vec<PersistentFighterMovementNode>>,
    pub uncontrollable_map: HashMap<u8, UncontrollableFighterMovementNode>,
    pub movement_map: HashMap<u8, FighterMovementNode>,
}

impl View for FighterMovementMap {
    type V = MovementMapView;

    open spec fn view(&self) -> MovementMapView {
        MovementMapView {
            event: Map::new(
                |k: u16| self.event_map@.contains_key(k),
                |k: u16| self.event_map@[k]@,
            ),
            persistent: Map::new(
                |k: u16| self.persistent_map@.contains_key(k),
                |k: u16| self.persistent_map@[k]@,
            ),
            uncontrollable: self.uncontrollable_map@,
            movement: self.movement_map@,
        }
    }
}

impl FighterMovementMap {
    /// The tables agree, and the graph has a node for `Idle` that no input
    /// brings on: what the resolver falls back to.
    pub open spec fn valid(&self) -> bool {
        &&& self@.wf()
        &&& self@.node(FighterMovement::Idle) matches Some(FighterMovementNode::Uncontrollable(_))
    }

    /// A graph without nodes.
    pub fn new() -> (r: Self)
        ensures
            r@ == MovementMapView::empty(),
            r@.wf(),
    {
        let r = FighterMovementMap {
            event_map: HashMap::new(),
            persistent_map: HashMap::new(),
            uncontrollable_map: HashMap::new(),
            movement_map: HashMap::new(),
        };
        proof {
            assert(r@.event =~= Map::empty());
            assert(r@.persistent =~= Map::empty());
        }
        r
    }

    /// The node for `movement`, of whatever kind it is.
    pub fn get_node_by_movement(&self, movement: &FighterMovement) -> (r: Result<
        &FighterMovementNode,
        FighterMovementError,
    >)
        ensures
            match r {
                Ok(node) => self@.node(*movement) == Some(*node),
                Err(e) => self@.node(*movement).is_none() && e
                    == FighterMovementError::MovementNotFound(*movement),
            },
    {
        let k: u8 = movement.index();
        match self.movement_map.get(&k) {
            Some(node) => Ok(node),
            None => Err(FighterMovementError::MovementNotFound(*movement)),
        }
    }

    /// The node for `movement`, where no input brings that motion state on.
    pub fn get_uncontrollable_node(&self, movement: &FighterMovement) -> (r: Result<
        UncontrollableFighterMovementNode,
        FighterMovementError,
    >)
        ensures
            match r {
                Ok(node) => self@.node(*movement) == Some(
                    FighterMovementNode::Uncontrollable(node),
                ),
                Err(e) => !(self@.node(*movement) matches Some(
                    FighterMovementNode::Uncontrollable(_),
                )) && e == FighterMovementError::MovementNotFound(*movement),
            },
    {
        let k: u8 = movement.index();
        match self.movement_map.get(&k) {
            Some(FighterMovementNode::Uncontrollable(node)) => Ok(*node),
            _ => Err(FighterMovementError::MovementNotFound(*movement)),
        }
    }

    /// The node for `movement`, where an input edge brings that motion
    /// state on.
    pub fn get_event_node_by_movement(&self, movement: &FighterMovement) -> (r: Result<
        EventFighterMovementNode,
        FighterMovementError,
    >)
        ensures
            match r {
                Ok(node) => self@.node(*movement) == Some(
                    FighterMovementNode::EventTriggered(node),
                ),
                Err(e) => !(self@.node(*movement) matches Some(
                    FighterMovementNode::EventTriggered(_),
                )) && e == FighterMovementError::MovementNotFound(*movement),
            },
    {
        let k: u8 = movement.index();
        match self.movement_map.get(&k) {
            Some(FighterMovementNode::EventTriggered(node)) => Ok(*node),
            _ => Err(FighterMovementError::MovementNotFound(*movement)),
        }
    }

    /// The node for `movement`, where held input brings that motion state
    /// on.
    pub fn get_persistent_node_by_movement(&self, movement: &FighterMovement) -> (r: Result<
        PersistentFighterMovementNode,
        FighterMovementError,
    >)
        ensures
            match r {
                Ok(node) => self@.node(*movement) == Some(FighterMovementNode::Persistent(node)),
                Err(e) => !(self@.node(*movement) matches Some(
                    FighterMovementNode::Persistent(_),
                )) && e == FighterMovementError::MovementNotFound(*movement),
            },
    {
        let k: u8 = movement.index();
        match self.movement_map.get(&k) {
            Some(FighterMovementNode::Persistent(node)) => Ok(*node),
            _ => Err(FighterMovementError::MovementNotFound(*movement)),
        }
    }

    /// The nodes that the input edges `keyset` may bring on, in the order
    /// in which they were put in; `None` where nothing is filed under
    /// `keyset`.
    pub fn get_event_candidates(&self, keyset: &KeyTargetSet) -> (r: Option<
        &Vec<EventFighterMovementNode>,
    >)
        ensures
            match r {
                Some(nodes) => self@.event.contains_key(keyset.bits) && nodes@
                    == self@.event_candidates(*keyset),
                None => !self@.event.contains_key(keyset.bits) && self@.event_candidates(*keyset)
                    == Seq::<EventFighterMovementNode>::empty(),
            },
    {
        self.event_map.get(&keyset.bits)
    }

    /// The nodes that holding `keyset` may bring on, in the order in which
    /// they were put in; `None` where nothing is filed under `keyset`.
    pub fn get_persistent_candidates(&self, keyset: &KeyTargetSet) -> (r: Option<
        &Vec<PersistentFighterMovementNode>,
    >)
        ensures
            match r {
                Some(nodes) => self@.persistent.contains_key(keyset.bits) && nodes@
                    == self@.persistent_candidates(*keyset),
                None => !self@.persistent.contains_key(keyset.bits)
                    && self@.persistent_candidates(*keyset) == Seq::<
                    PersistentFighterMovementNode,
                >::empty(),
            },
    {
        self.persistent_map.get(&keyset.bits)
    }

    /// Tells whether the graph has no node for `movement` yet, so that one
    /// can be put in.
    pub fn check_if_can_insert_node(&self, movement: &FighterMovement) -> (r: bool)
        ensures
            r == !self@.contains(*movement),
    {
        let k: u8 = movement.index();
        !self.movement_map.contains_key(&k)
    }

    /// Hands the graph back. It is for a graph that has a node for every
    /// motion state that must exist, which is `Idle`.
    pub fn ensure_must_exists_movements(self) -> (r: Self)
        requires
            self@.contains(FighterMovement::Idle),
        ensures
            r == self,
    {
        self
    }

    /// Puts `node` in among the nodes that the input edges `keyset` bring
    /// on.
    pub fn insert_to_event_map(&mut self, keyset: KeyTargetSet, node: EventFighterMovementNode)
        requires
            !old(self)@.contains(node.base.movement),
        ensures
            final(self)@ == old(self)@.with_event(keyset, node),
            old(self)@.wf() ==> final(self)@.wf(),
    {
        let k: u8 = node.base.movement.index();
        self.movement_map.insert(k, FighterMovementNode::EventTriggered(node));
        let mut nodes = match self.event_map.remove(&keyset.bits) {
            Some(nodes) => nodes,
            None => Vec::new(),
        };
        nodes.push(node);
        self.event_map.insert(keyset.bits, nodes);
        proof {
            let want = old(self)@.with_event(keyset, node);
            assert(self@.event =~= want.event);
            assert(self@.persistent =~= want.persistent);
            if old(self)@.wf() {
                old(self)@.lemma_with_event(keyset, node);
            }
        }
    }

    /// Puts `node` in among the nodes that holding `keyset` brings on.
    pub fn insert_to_persistent_map(
        &mut self,
        keyset: KeyTargetSet,
        node: PersistentFighterMovementNode,
    )
        requires
            !old(self)@.contains(node.base.movement),
        ensures
            final(self)@ == old(self)@.with_persistent(keyset, node),
            old(self)@.wf() ==> final(self)@.wf(),
    {
        let k: u8 = node.base.movement.index();
        self.movement_map.insert(k, FighterMovementNode::Persistent(node));
        let mut nodes = match self.persistent_map.remove(&keyset.bits) {
            Some(nodes) => nodes,
            None => Vec::new(),
        };
        nodes.push(node);
        self.persistent_map.insert(keyset.bits, nodes);
        proof {
            let want = old(self)@.with_persistent(keyset, node);
            assert(self@.event =~= want.event);
            assert(self@.persistent =~= want.persistent);
            if old(self)@.wf() {
                old(self)@.lemma_with_persistent(keyset, node);
            }
        }
    }

    /// Puts `node` in among the nodes that no input brings on.
    pub fn insert_to_uncontrollable_map(&mut self, node: UncontrollableFighterMovementNode)
        requires
            !old(self)@.contains(node.base.movement),
        ensures
            final(self)@ == old(self)@.with_uncontrollable(node),
            old(self)@.wf() ==> final(self)@.wf(),
    {
        let k: u8 = node.base.movement.index();
        self.movement_map.insert(k, FighterMovementNode::Uncontrollable(node));
        self.uncontrollable_map.insert(k, node);
        proof {
            let want = old(self)@.with_uncontrollable(node);
            assert(self@.event =~= want.event);
            assert(self@.persistent =~= want.persistent);
            if old(self)@.wf() {
                old(self)@.lemma_with_uncontrollable(node);
            }
        }
    }
}

} // verus!
