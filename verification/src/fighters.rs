//! Fighters, their motion states, and what a fighter carries from tick to
//! tick.
//!
//! Speeds are counted in thousandths of a length unit per second, positions
//! in millionths of a length unit: with time in milliseconds, a speed times
//! a time is a distance, with nothing rounded.

use vstd::prelude::*;
use crate::bitmask::{lemma_member_bit, lemma_member_or, lemma_member_zero, member, one_hot};
use crate::controls::{KeyTargetSet, KeyTargetSetStack};
use crate::history::{spec_pushed, TimeTaggedStack, TimeTaggedValue};

verus! {

/// A fighter archetype. Each has a movement graph of its own.
#[derive(Clone, Copy, Debug, PartialEq, Eq, Hash, Structural)]
pub enum Fighter {
    IDF,
    HAMAS,
}

impl Fighter {
    pub open spec fn spec_name(self) -> &'static str {
        match self {
            Fighter::IDF => "IDF",
            Fighter::HAMAS => "HAMAS",
        }
    }

    /// The archetype's name, as its sprites are filed.
    pub fn name(self) -> (r: &'static str)
        ensures
            r == self.spec_name(),
    {
        match self {
            Fighter::IDF => "IDF",
            Fighter::HAMAS => "HAMAS",
        }
    }

    pub open spec fn spec_index(self) -> u8 {
        match self {
            Fighter::IDF => 0,
            Fighter::HAMAS => 1,
        }
    }

    /// The number under which tables file this archetype.
    pub fn index(self) -> (r: u8)
        ensures
            r == self.spec_index(),
    {
        match self {
            Fighter::IDF => 0,
            Fighter::HAMAS => 1,
        }
    }
}

/// A motion state of a fighter.
#[derive(Clone, Copy, Debug, PartialEq, Eq, Hash, Structural)]
pub enum FighterMovement {
    Idle,
    Slashing,
    Jumping,
    RunningEast,
    RunningWest,
    WalkingEast,
    WalkingWest,
    WalkingNorth,
    WalkingSouth,
    WalkingNorthEast,
    WalkingNorthWest,
    WalkingSouthEast,
    WalkingSouthWest,
    Docking,
    InAir,
    JumpAttack,
}

impl FighterMovement {
    pub open spec fn spec_index(self) -> u8 {
        match self {
            FighterMovement::Idle => 0,
            FighterMovement::Slashing => 1,
            FighterMovement::Jumping => 2,
            FighterMovement::RunningEast => 3,
            FighterMovement::RunningWest => 4,
            FighterMovement::WalkingEast => 5,
            FighterMovement::WalkingWest => 6,
            FighterMovement::WalkingNorth => 7,
            FighterMovement::WalkingSouth => 8,
            FighterMovement::WalkingNorthEast => 9,
            FighterMovement::WalkingNorthWest => 10,
            FighterMovement::WalkingSouthEast => 11,
            FighterMovement::WalkingSouthWest => 12,
            FighterMovement::Docking => 13,
            FighterMovement::InAir => 14,
            FighterMovement::JumpAttack => 15,
        }
    }

    /// The number under which tables file this motion state.
    pub fn index(self) -> (r: u8)
        ensures
            r == self.spec_index(),
    {
        match self {
            FighterMovement::Idle => 0,
            FighterMovement::Slashing => 1,
            FighterMovement::Jumping => 2,
            FighterMovement::RunningEast => 3,
            FighterMovement::RunningWest => 4,
            FighterMovement::WalkingEast => 5,
            FighterMovement::WalkingWest => 6,
            FighterMovement::WalkingNorth => 7,
            FighterMovement::WalkingSouth => 8,
            FighterMovement::WalkingNorthEast => 9,
            FighterMovement::WalkingNorthWest => 10,
            FighterMovement::WalkingSouthEast => 11,
            FighterMovement::WalkingSouthWest => 12,
            FighterMovement::Docking => 13,
            FighterMovement::InAir => 14,
            FighterMovement::JumpAttack => 15,
        }
    }

    /// The bit that stands for this motion state in a [`MovementSet`].
    pub open spec fn spec_bit(self) -> u16 {
        match self {
            FighterMovement::Idle => 0x0001,
            FighterMovement::Slashing => 0x0002,
            FighterMovement::Jumping => 0x0004,
            FighterMovement::RunningEast => 0x0008,
            FighterMovement::RunningWest => 0x0010,
            FighterMovement::WalkingEast => 0x0020,
            FighterMovement::WalkingWest => 0x0040,
            FighterMovement::WalkingNorth => 0x0080,
            FighterMovement::WalkingSouth => 0x0100,
            FighterMovement::WalkingNorthEast => 0x0200,
            FighterMovement::WalkingNorthWest => 0x0400,
            FighterMovement::WalkingSouthEast => 0x0800,
            FighterMovement::WalkingSouthWest => 0x1000,
            FighterMovement::Docking => 0x2000,
            FighterMovement::InAir => 0x4000,
            FighterMovement::JumpAttack => 0x8000,
        }
    }

    pub fn bit(self) -> (b: u16)
        ensures
            b == self.spec_bit(),
    {
        match self {
            FighterMovement::Idle => 0x0001,
            FighterMovement::Slashing => 0x0002,
            FighterMovement::Jumping => 0x0004,
            FighterMovement::RunningEast => 0x0008,
            FighterMovement::RunningWest => 0x0010,
            FighterMovement::WalkingEast => 0x0020,
            FighterMovement::WalkingWest => 0x0040,
            FighterMovement::WalkingNorth => 0x0080,
            FighterMovement::WalkingSouth => 0x0100,
            FighterMovement::WalkingNorthEast => 0x0200,
            FighterMovement::WalkingNorthWest => 0x0400,
            FighterMovement::WalkingSouthEast => 0x0800,
            FighterMovement::WalkingSouthWest => 0x1000,
            FighterMovement::Docking => 0x2000,
            FighterMovement::InAir => 0x4000,
            FighterMovement::JumpAttack => 0x8000,
        }
    }

    pub open spec fn spec_name(self) -> &'static str {
        match self {
            FighterMovement::Idle => "Idle",
            FighterMovement::Slashing => "Slashing",
            FighterMovement::Jumping => "Jumping",
            FighterMovement::RunningEast => "RunningEast",
            FighterMovement::RunningWest => "RunningWest",
            FighterMovement::WalkingEast => "WalkingEast",
            FighterMovement::WalkingWest => "WalkingWest",
            FighterMovement::WalkingNorth => "WalkingNorth",
            FighterMovement::WalkingSouth => "WalkingSouth",
            FighterMovement::WalkingNorthEast => "WalkingNorthEast",
            FighterMovement::WalkingNorthWest => "WalkingNorthWest",
            FighterMovement::WalkingSouthEast => "WalkingSouthEast",
            FighterMovement::WalkingSouthWest => "WalkingSouthWest",
            FighterMovement::Docking => "Docking",
            FighterMovement::InAir => "InAir",
            FighterMovement::JumpAttack => "JumpAttack",
        }
    }

    /// The motion state's name.
    pub fn name(self) -> (r: &'static str)
        ensures
            r == self.spec_name(),
    {
        match self {
            FighterMovement::Idle => "Idle",
            FighterMovement::Slashing => "Slashing",
            FighterMovement::Jumping => "Jumping",
            FighterMovement::RunningEast => "RunningEast",
            FighterMovement::RunningWest => "RunningWest",
            FighterMovement::WalkingEast => "WalkingEast",
            FighterMovement::WalkingWest => "WalkingWest",
            FighterMovement::WalkingNorth => "WalkingNorth",
            FighterMovement::WalkingSouth => "WalkingSouth",
            FighterMovement::WalkingNorthEast => "WalkingNorthEast",
            FighterMovement::WalkingNorthWest => "WalkingNorthWest",
            FighterMovement::WalkingSouthEast => "WalkingSouthEast",
            FighterMovement::WalkingSouthWest => "WalkingSouthWest",
            FighterMovement::Docking => "Docking",
            FighterMovement::InAir => "InAir",
            FighterMovement::JumpAttack => "JumpAttack",
        }
    }
}

/// Every motion state has a number and a bit of its own.
pub proof fn lemma_movement_codes(a: FighterMovement, b: FighterMovement)
    ensures
        a.spec_index() < 16,
        one_hot(a.spec_bit()),
        a.spec_index() == b.spec_index() <==> a == b,
        a.spec_bit() == b.spec_bit() <==> a == b,
{
}

/// A set of motion states.
#[derive(Clone, Copy, Debug, PartialEq, Eq, Hash, Structural)]
pub struct MovementSet {
    pub bits: u16,
}

impl View for MovementSet {
    type V = Set<FighterMovement>;

    open spec fn view(&self) -> Set<FighterMovement> {
        Set::new(|m: FighterMovement| member(self.bits, m.spec_bit()))
    }
}

impl MovementSet {
    pub open spec fn spec_empty() -> MovementSet {
        MovementSet { bits: 0 }
    }

    pub open spec fn spec_insert(self, movement: FighterMovement) -> MovementSet {
        MovementSet { bits: self.bits | movement.spec_bit() }
    }

    /// The set of the motion states of `movements`, built one by one.
    pub open spec fn spec_of(movements: Seq<FighterMovement>) -> MovementSet
        decreases movements.len(),
    {
        if movements.len() == 0 {
            MovementSet::spec_empty()
        } else {
            MovementSet::spec_of(movements.drop_last()).spec_insert(movements.last())
        }
    }

    pub proof fn lemma_empty()
        ensures
            MovementSet::spec_empty()@ == Set::<FighterMovement>::empty(),
    {
        assert forall|m: FighterMovement| !MovementSet::spec_empty()@.contains(m) by {
            lemma_member_zero(m.spec_bit());
        }
        assert(MovementSet::spec_empty()@ =~= Set::<FighterMovement>::empty());
    }

    pub proof fn lemma_insert(self, movement: FighterMovement)
        ensures
            self.spec_insert(movement)@ == self@.insert(movement),
    {
        let r = self.spec_insert(movement);
        assert forall|m: FighterMovement| r@.contains(m) <==> self@.insert(movement).contains(
            m,
        ) by {
            lemma_member_or(self.bits, movement.spec_bit(), m.spec_bit());
            lemma_member_bit(movement.spec_bit(), m.spec_bit());
        }
        assert(r@ =~= self@.insert(movement));
    }

    /// `spec_of` holds a motion state exactly where the sequence does.
    pub proof fn lemma_of(movements: Seq<FighterMovement>)
        ensures
            forall|m: FighterMovement|
                MovementSet::spec_of(movements)@.contains(m) <==> movements.contains(m),
        decreases movements.len(),
    {
        if movements.len() == 0 {
            MovementSet::lemma_empty();
        } else {
            let front = movements.drop_last();
            MovementSet::lemma_of(front);
            MovementSet::spec_of(front).lemma_insert(movements.last());
            assert forall|m: FighterMovement|
                MovementSet::spec_of(movements)@.contains(m) <==> movements.contains(m) by {
                if movements.contains(m) {
                    let i = choose|i: int| 0 <= i < movements.len() && movements[i] == m;
                    if i < movements.len() - 1 {
                        assert(front[i] == m);
                    }
                }
                if front.contains(m) {
                    let i = choose|i: int| 0 <= i < front.len() && front[i] == m;
                    assert(movements[i] == m);
                }
                if m == movements.last() {
                    assert(movements[movements.len() - 1] == m);
                }
            }
        }
    }

    pub fn empty() -> (r: Self)
        ensures
            r == MovementSet::spec_empty(),
            r@ == Set::<FighterMovement>::empty(),
    {
        proof {
            MovementSet::lemma_empty();
        }
        MovementSet { bits: 0 }
    }

    pub fn insert(self, movement: FighterMovement) -> (r: Self)
        ensures
            r == self.spec_insert(movement),
            r@ == self@.insert(movement),
    {
        proof {
            self.lemma_insert(movement);
        }
        MovementSet { bits: self.bits | movement.bit() }
    }

    pub fn contains(&self, movement: &FighterMovement) -> (r: bool)
        ensures
            r == self@.contains(*movement),
    {
        self.bits & movement.bit() != 0
    }
}

impl<const N: usize> From<[FighterMovement; N]> for MovementSet {
    /// The set of the motion states of `array`.
    fn from(array: [FighterMovement; N]) -> (r: MovementSet)
        ensures
            r@ == array@.to_set(),
    {
        let mut r = MovementSet::empty();
        let mut i: usize = 0;
        while i < N
            invariant
                i <= N,
                N == array@.len(),
                r == MovementSet::spec_of(array@.take(i as int)),
            decreases N - i,
        {
            proof {
                assert(array@.take(i + 1).drop_last() =~= array@.take(i as int));
            }
            r = r.insert(array[i]);
            i += 1;
        }
        proof {
            assert(array@.take(N as int) =~= array@);
            MovementSet::lemma_of(array@);
            assert(r@ =~= array@.to_set());
        }
        r
    }
}

impl<const N: usize> vstd::std_specs::convert::FromSpecImpl<[FighterMovement; N]> for MovementSet {
    open spec fn obeys_from_spec() -> bool {
        true
    }

    open spec fn from_spec(array: [FighterMovement; N]) -> MovementSet {
        MovementSet::spec_of(array@)
    }
}

/// Where a fighter is: `x` to the right, `y` into the screen, `z` up.
#[derive(Clone, Copy, Debug, PartialEq, Eq, Structural)]
pub struct FighterPosition {
    pub x: i64,
    pub y: i64,
    pub z: i64,
}

/// How fast a fighter moves along each axis.
#[derive(Clone, Copy, Debug, PartialEq, Eq, Structural)]
pub struct FighterVelocity {
    pub x: i64,
    pub y: i64,
    pub z: i64,
}

/// The bounds of the arena.
#[derive(Clone, Copy, Debug, PartialEq, Eq, Structural)]
pub struct Arena {
    pub west_wall_x: i64,
    pub east_wall_x: i64,
    pub south_wall_y: i64,
    pub north_wall_y: i64,
    pub floor_z: i64,
    pub ceiling_z: i64,
}

impl Arena {
    /// No bound lies beyond the one across from it.
    pub open spec fn wf(&self) -> bool {
        &&& self.west_wall_x <= self.east_wall_x
        &&& self.south_wall_y <= self.north_wall_y
        &&& self.floor_z <= self.ceiling_z
    }
}

/// The motion states a fighter has been in, the one it is in now at the
/// tail.
pub struct FighterMovementStack(pub TimeTaggedStack<FighterMovement>);

impl View for FighterMovementStack {
    type V = Seq<TimeTaggedValue<FighterMovement>>;

    open spec fn view(&self) -> Seq<TimeTaggedValue<FighterMovement>> {
        self.0@
    }
}

impl FighterMovementStack {
    pub fn new(max_size: usize) -> (r: Self)
        ensures
            r@ == Seq::<TimeTaggedValue<FighterMovement>>::empty(),
            r.0.max_size == max_size,
            r.0.wf(),
    {
        FighterMovementStack(TimeTaggedStack::new(max_size))
    }

    /// The motion state the fighter is in, and for how long.
    pub fn last(&self) -> (r: Option<&TimeTaggedValue<FighterMovement>>)
        ensures
            self@.len() == 0 ==> r.is_none(),
            self@.len() > 0 ==> r == Some(&self@.last()),
    {
        self.0.stack.last()
    }

    pub fn push(&mut self, value: FighterMovement)
        requires
            old(self).0.max_size > 0,
            old(self).0.wf(),
        ensures
            final(self).0.max_size == old(self).0.max_size,
            final(self)@ == spec_pushed(old(self)@, old(self).0.max_size, value),
            final(self).0.wf(),
    {
        self.0.push(value);
    }
}

/// What a fighter carries from tick to tick.
pub struct FighterRuntimeState {
    pub fighter: Fighter,
    pub position: FighterPosition,
    pub velocity: FighterVelocity,
    pub movement_stack: FighterMovementStack,
    pub event_keytargetset_stack: KeyTargetSetStack,
}

/// What a [`FighterRuntimeState`] holds, with the two histories as
/// sequences and their bounds beside them.
pub struct FighterView {
    pub fighter: Fighter,
    pub position: FighterPosition,
    pub velocity: FighterVelocity,
    pub movements: Seq<TimeTaggedValue<FighterMovement>>,
    pub movements_max_size: usize,
    pub events: Seq<TimeTaggedValue<KeyTargetSet>>,
    pub events_max_size: usize,
    pub events_max_duration: u64,
}

impl FighterView {
    /// Both histories keep within bounds that let them take an entry, and
    /// the fighter is in a motion state.
    pub open spec fn wf(self) -> bool {
        &&& 0 < self.movements.len() <= self.movements_max_size
        &&& self.events.len() <= self.events_max_size
        &&& self.events_max_size > 0
    }

    /// The motion state the fighter is in, and for how long.
    pub open spec fn current(self) -> TimeTaggedValue<FighterMovement> {
        self.movements.last()
    }
}

impl View for FighterRuntimeState {
    type V = FighterView;

    open spec fn view(&self) -> FighterView {
        FighterView {
            fighter: self.fighter,
            position: self.position,
            velocity: self.velocity,
            movements: self.movement_stack@,
            movements_max_size: self.movement_stack.0.max_size,
            events: self.event_keytargetset_stack@,
            events_max_size: self.event_keytargetset_stack.0.max_size,
            events_max_duration: self.event_keytargetset_stack.0.max_duration,
        }
    }
}

impl FighterRuntimeState {
    /// A fighter as it enters the arena: at rest at `position`, in the
    /// motion state `InAir`, with room for ten motion states and for the
    /// input of the last half second, ten entries at most.
    pub fn new(fighter: Fighter, position: FighterPosition) -> (r: Self)
        ensures
            r@ == (FighterView {
                fighter,
                position,
                velocity: FighterVelocity { x: 0, y: 0, z: 0 },
                movements: seq![TimeTaggedValue { value: FighterMovement::InAir, duration: 0 }],
                movements_max_size: 10,
                events: Seq::empty(),
                events_max_size: 10,
                events_max_duration: 500,
            }),
            r@.wf(),
    {
        let mut movement_stack = FighterMovementStack::new(10);
        movement_stack.push(FighterMovement::InAir);
        proof {
            assert(movement_stack@ =~= seq![
                TimeTaggedValue { value: FighterMovement::InAir, duration: 0 },
            ]);
        }
        FighterRuntimeState {
            fighter,
            position,
            velocity: FighterVelocity { x: 0, y: 0, z: 0 },
            movement_stack,
            event_keytargetset_stack: KeyTargetSetStack::new(10, 500),
        }
    }
}

} // verus!
