//! The rules that a movement node is made of: how a motion state is
//! entered and left, what entering it does to the velocity, and how it
//! moves the fighter while it lasts.

use vstd::prelude::*;
use crate::controls::{KeyTarget, KeyTargetSet};
use crate::fighters::{FighterMovement, FighterPosition, FighterVelocity, MovementSet};
use crate::history::TimeTaggedValue;

verus! {

/// Speed of a walk along one axis.
pub const WALKING_SPEED: i64 = 100_000;

/// Speed along each axis of a walk along both.
pub const DIAGONAL_WALKING_SPEED: i64 = 70_922;

/// Speed of a run.
pub const RUNNING_SPEED: i64 = 200_000;

/// Upward speed at the start of a jump.
pub const JUMPING_SPEED: i64 = 200_000;

/// What a millisecond in the air adds to the upward speed.
pub const GRAVITY: i64 = -400;

/// `value`, held within what an `i64` can be.
pub open spec fn spec_clip(value: int) -> i64 {
    if value < i64::MIN {
        i64::MIN
    } else if value > i64::MAX {
        i64::MAX
    } else {
        value as i64
    }
}

/// `start + rate * delta_time`, held within what an `i64` can be.
pub open spec fn spec_advanced(start: i64, rate: i64, delta_time: u64) -> i64 {
    spec_clip(start + rate * delta_time)
}

/// `start + rate * delta_time`, held within what an `i64` can be.
pub fn advanced(start: i64, rate: i64, delta_time: u64) -> (r: i64)
    ensures
        r == spec_advanced(start, rate, delta_time),
{
    proof {
        assert(-0x8000_0000_0000_0000 * 0xFFFF_FFFF_FFFF_FFFF <= rate * delta_time
            <= 0x7FFF_FFFF_FFFF_FFFF * 0xFFFF_FFFF_FFFF_FFFF) by (nonlinear_arith)
            requires
                -0x8000_0000_0000_0000 <= rate <= 0x7FFF_FFFF_FFFF_FFFF,
                0 <= delta_time <= 0xFFFF_FFFF_FFFF_FFFF,
        ;
    }
    let change: i128 = (rate as i128) * (delta_time as i128);
    let sum: i128 = (start as i128) + change;
    if sum < i64::MIN as i128 {
        i64::MIN
    } else if sum > i64::MAX as i128 {
        i64::MAX
    } else {
        sum as i64
    }
}

/// How a motion state moves the fighter while it lasts.
#[derive(Clone, Copy, Debug, PartialEq, Eq, Structural)]
pub enum StateUpdate {
    /// Nothing moves.
    Still,
    /// The fighter moves along `x`.
    AlongX,
    /// The fighter moves along `y`.
    AlongY,
    /// The fighter moves along `x` and `y`.
    OnGround,
    /// The fighter moves along all three axes, and gravity pulls at its
    /// upward speed.
    Airborne,
}

impl StateUpdate {
    pub open spec fn spec_position(
        self,
        position: FighterPosition,
        velocity: FighterVelocity,
        delta_time: u64,
    ) -> FighterPosition {
        let x = spec_advanced(position.x, velocity.x, delta_time);
        let y = spec_advanced(position.y, velocity.y, delta_time);
        let z = spec_advanced(position.z, velocity.z, delta_time);
        match self {
            StateUpdate::Still => position,
            StateUpdate::AlongX => FighterPosition { x, ..position },
            StateUpdate::AlongY => FighterPosition { y, ..position },
            StateUpdate::OnGround => FighterPosition { x, y, ..position },
            StateUpdate::Airborne => FighterPosition { x, y, z },
        }
    }

    pub open spec fn spec_velocity(self, velocity: FighterVelocity, delta_time: u64)
        -> FighterVelocity {
        match self {
            StateUpdate::Airborne => FighterVelocity {
                z: spec_advanced(velocity.z, GRAVITY, delta_time),
                ..velocity
            },
            _ => velocity,
        }
    }

    /// Moves the fighter for `delta_time` at the speed it had before the
    /// call, then lets gravity change that speed.
    pub fn apply(
        &self,
        fighter_position: &mut FighterPosition,
        fighter_velocity: &mut FighterVelocity,
        delta_time: u64,
    )
        ensures
            *final(fighter_position) == self.spec_position(
                *old(fighter_position),
                *old(fighter_velocity),
                delta_time,
            ),
            *final(fighter_velocity) == self.spec_velocity(*old(fighter_velocity), delta_time),
    {
        match self {
            StateUpdate::Still => {},
            StateUpdate::AlongX => {
                fighter_position.x = advanced(fighter_position.x, fighter_velocity.x, delta_time);
            },
            StateUpdate::AlongY => {
                fighter_position.y = advanced(fighter_position.y, fighter_velocity.y, delta_time);
            },
            StateUpdate::OnGround => {
                fighter_position.x = advanced(fighter_position.x, fighter_velocity.x, delta_time);
                fighter_position.y = advanced(fighter_position.y, fighter_velocity.y, delta_time);
            },
            StateUpdate::Airborne => {
                fighter_position.x = advanced(fighter_position.x, fighter_velocity.x, delta_time);
                fighter_position.y = advanced(fighter_position.y, fighter_velocity.y, delta_time);
                fighter_position.z = advanced(fighter_position.z, fighter_velocity.z, delta_time);
                fighter_velocity.z = advanced(fighter_velocity.z, GRAVITY, delta_time);
            },
        }
    }
}

/// What entering a motion state does to the velocity: each axis is set to
/// the speed given for it, or left as it is.
#[derive(Clone, Copy, Debug, PartialEq, Eq, Structural)]
pub struct StateEnter {
    pub x: Option<i64>,
    pub y: Option<i64>,
    pub z: Option<i64>,
}

impl StateEnter {
    pub open spec fn spec_velocity(self, velocity: FighterVelocity) -> FighterVelocity {
        FighterVelocity {
            x: match self.x {
                Some(speed) => speed,
                None => velocity.x,
            },
            y: match self.y {
                Some(speed) => speed,
                None => velocity.y,
            },
            z: match self.z {
                Some(speed) => speed,
                None => velocity.z,
            },
        }
    }

    pub fn apply(&self, fighter_velocity: &mut FighterVelocity)
        ensures
            *final(fighter_velocity) == self.spec_velocity(*old(fighter_velocity)),
    {
        if let Some(speed) = self.x {
            fighter_velocity.x = speed;
        }
        if let Some(speed) = self.y {
            fighter_velocity.y = speed;
        }
        if let Some(speed) = self.z {
            fighter_velocity.z = speed;
        }
    }
}

/// When a motion state that no input edge triggers may be entered.
#[derive(Clone, Copy, Debug, PartialEq, Eq, Structural)]
pub enum EntryRule {
    /// The fighter stands on the floor.
    Grounded,
    /// The fighter is off the floor.
    OffGround,
}

impl EntryRule {
    pub open spec fn spec_admits(self, floor_z: i64, position_z: i64) -> bool {
        match self {
            EntryRule::Grounded => floor_z == position_z,
            EntryRule::OffGround => floor_z != position_z,
        }
    }

    pub fn admits(&self, floor_z: i64, position_z: i64) -> (r: bool)
        ensures
            r == self.spec_admits(floor_z, position_z),
    {
        match self {
            EntryRule::Grounded => floor_z == position_z,
            EntryRule::OffGround => floor_z != position_z,
        }
    }
}

/// The number of entries at the newer end of `events` that hold the `need`
/// newest presses of `key`, where every one of these entries is no older
/// than `window`; `None` where the entries no older than `window`, taken
/// from the newest on without a gap, hold fewer presses.
pub open spec fn spec_tap_span(
    events: Seq<TimeTaggedValue<KeyTargetSet>>,
    key: KeyTarget,
    window: u64,
    need: nat,
) -> Option<nat>
    decreases events.len(),
{
    if need == 0 {
        Some(0)
    } else if events.len() == 0 || events.last().duration > window {
        None
    } else {
        let left = if events.last().value@.contains(key) {
            (need - 1) as nat
        } else {
            need
        };
        match spec_tap_span(events.drop_last(), key, window, left) {
            Some(span) => Some(span + 1),
            None => None,
        }
    }
}

/// The span that `spec_tap_span` gives lies within the history, covers
/// entries no older than `window` only, holds `need` presses, and starts
/// at a press.
pub proof fn lemma_tap_span(
    events: Seq<TimeTaggedValue<KeyTargetSet>>,
    key: KeyTarget,
    window: u64,
    need: nat,
)
    ensures
        match spec_tap_span(events, key, window, need) {
            Some(span) => {
                &&& span <= events.len()
                &&& forall|i: int|
                    events.len() - span <= i < events.len() ==> events[i].duration <= window
                &&& spec_presses(events.skip(events.len() - span), key) == need
                &&& need > 0 ==> span > 0 && events[events.len() - span].value@.contains(key)
            },
            None => true,
        },
    decreases events.len(),
{
    if need == 0 {
        assert(events.skip(events.len() as int) =~= Seq::empty());
    } else if events.len() == 0 || events.last().duration > window {
    } else {
        let front = events.drop_last();
        let left = if events.last().value@.contains(key) {
            (need - 1) as nat
        } else {
            need
        };
        lemma_tap_span(front, key, window, left);
        match spec_tap_span(front, key, window, left) {
            Some(span) => {
                assert(events.skip(events.len() - (span + 1)).drop_last() =~= front.skip(
                    front.len() - span,
                ));
                assert forall|i: int| events.len() - (span + 1) <= i < events.len() implies events[i].duration
                    <= window by {
                    if i < events.len() - 1 {
                        assert(front[i] == events[i]);
                    }
                }
                if left > 0 {
                    assert(front[front.len() - span] == events[events.len() - (span + 1)]);
                } else {
                    assert(span == 0);
                }
            },
            None => {},
        }
    }
}

/// The number of entries of `events` that hold `key`.
pub open spec fn spec_presses(events: Seq<TimeTaggedValue<KeyTargetSet>>, key: KeyTarget) -> nat
    decreases events.len(),
{
    if events.len() == 0 {
        0
    } else {
        spec_presses(events.drop_last(), key) + if events.last().value@.contains(key) {
            1nat
        } else {
            0nat
        }
    }
}

/// The number of entries at the newer end of `events` that hold the two
/// newest presses of `key`, where all of them are no older than `window`.
pub fn double_tap_span(events: &Vec<TimeTaggedValue<KeyTargetSet>>, key: KeyTarget, window: u64)
    -> (r: Option<usize>)
    ensures
        match r {
            Some(span) => spec_tap_span(events@, key, window, 2) == Some(span as nat),
            None => spec_tap_span(events@, key, window, 2).is_none(),
        },
{
    let n: usize = events.len();
    let mut pressed: usize = 0;
    let mut elements: usize = 0;
    proof {
        assert(events@.take(n as int) =~= events@);
    }
    while elements < n && events[n - 1 - elements].duration <= window && pressed <= 1
        invariant
            elements <= n,
            n == events@.len(),
            pressed <= 2,
            match spec_tap_span(events@.take(n - elements), key, window, (2 - pressed) as nat) {
                Some(span) => spec_tap_span(events@, key, window, 2) == Some((span + elements) as nat),
                None => spec_tap_span(events@, key, window, 2).is_none(),
            },
        decreases n - elements,
    {
        proof {
            assert(events@.take(n - elements).drop_last() =~= events@.take(n - elements - 1));
        }
        if events[n - 1 - elements].value.contains(&key) {
            pressed += 1;
        }
        elements += 1;
    }
    if pressed > 1 {
        Some(elements)
    } else {
        None
    }
}

/// When a motion state that an input edge triggers may be entered.
#[derive(Clone, Copy, Debug, PartialEq, Eq, Structural)]
pub enum EventEntryRule {
    /// The fighter stands on the floor.
    Grounded,
    /// The fighter stands on the floor, and the edge came this very tick.
    GroundedThisTick,
    /// The fighter stands on the floor and is in one of the motion states
    /// `after`, and `key` went down twice within `window`. The matching
    /// looks at the joined input only.
    DoubleTap { key: KeyTarget, window: u64, after: MovementSet },
    /// The fighter is off the floor and in the motion state given.
    OffGroundAfter(FighterMovement),
}

impl EventEntryRule {
    /// `None` where the rule keeps the fighter out; else the number of
    /// entries, from the newest on, that entering uses up in the input
    /// history.
    pub open spec fn spec_admits(
        self,
        floor_z: i64,
        position_z: i64,
        movements: Seq<TimeTaggedValue<FighterMovement>>,
        events: Seq<TimeTaggedValue<KeyTargetSet>>,
        queried_by_joined_keytargetset: bool,
    ) -> Option<nat> {
        match self {
            EventEntryRule::Grounded => if floor_z == position_z {
                Some(0)
            } else {
                None
            },
            EventEntryRule::GroundedThisTick => if !queried_by_joined_keytargetset && floor_z
                == position_z {
                Some(0)
            } else {
                None
            },
            EventEntryRule::DoubleTap { key, window, after } => if queried_by_joined_keytargetset
                && floor_z == position_z && (movements.len() == 0 || after@.contains(
                movements.last().value,
            )) {
                spec_tap_span(events, key, window, 2)
            } else {
                None
            },
            EventEntryRule::OffGroundAfter(movement) => if movements.len() > 0 && floor_z
                != position_z && movements.last().value == movement {
                Some(0)
            } else {
                None
            },
        }
    }

    /// Tells whether the rule lets the fighter in, and how many entries of
    /// the input history, from the newest on, entering uses up.
    pub fn admits(
        &self,
        floor_z: i64,
        position_z: i64,
        movements: &Vec<TimeTaggedValue<FighterMovement>>,
        events: &Vec<TimeTaggedValue<KeyTargetSet>>,
        queried_by_joined_keytargetset: bool,
    ) -> (r: Option<usize>)
        ensures
            match r {
                Some(span) => self.spec_admits(
                    floor_z,
                    position_z,
                    movements@,
                    events@,
                    queried_by_joined_keytargetset,
                ) == Some(span as nat) && span <= events@.len(),
                None => self.spec_admits(
                    floor_z,
                    position_z,
                    movements@,
                    events@,
                    queried_by_joined_keytargetset,
                ).is_none(),
            },
    {
        match self {
            EventEntryRule::Grounded => if floor_z == position_z {
                Some(0)
            } else {
                None
            },
            EventEntryRule::GroundedThisTick => if !queried_by_joined_keytargetset && floor_z
                == position_z {
                Some(0)
            } else {
                None
            },
            EventEntryRule::DoubleTap { key, window, after } => {
                if !queried_by_joined_keytargetset {
                    return None;
                }
                if floor_z != position_z {
                    return None;
                }
                if movements.len() > 0 && !after.contains(&movements[movements.len() - 1].value) {
                    return None;
                }
                proof {
                    lemma_tap_span(events@, *key, *window, 2);
                }
                double_tap_span(events, *key, *window)
            },
            EventEntryRule::OffGroundAfter(movement) => {
                if movements.len() > 0 && floor_z != position_z && movements[movements.len()
                    - 1].value == *movement {
                    Some(0)
                } else {
                    None
                }
            },
        }
    }
}

/// What an entry rule uses up lies within the input history.
pub proof fn lemma_tap_span_bound(
    rule: EventEntryRule,
    floor_z: i64,
    position_z: i64,
    movements: Seq<TimeTaggedValue<FighterMovement>>,
    events: Seq<TimeTaggedValue<KeyTargetSet>>,
    queried_by_joined_keytargetset: bool,
)
    ensures
        match rule.spec_admits(
            floor_z,
            position_z,
            movements,
            events,
            queried_by_joined_keytargetset,
        ) {
            Some(span) => span <= events.len(),
            None => true,
        },
{
    match rule {
        EventEntryRule::DoubleTap { key, window, after } => {
            lemma_tap_span(events, key, window, 2);
        },
        _ => {},
    }
}

/// When the motion state a fighter is in lets it go over to another.
#[derive(Clone, Copy, Debug, PartialEq, Eq, Structural)]
pub enum ExitRule {
    /// At any time, to any motion state.
    Always,
    /// To the motion state given at any time, to another once the fighter
    /// stands on the floor.
    GroundedOrTo(FighterMovement),
    /// To any motion state but those given.
    NotTo(MovementSet),
    /// Once the fighter has been in the motion state for longer than the
    /// time given.
    After(u64),
    /// Once the fighter stands on the floor.
    Grounded,
}

impl ExitRule {
    pub open spec fn spec_permits(
        self,
        floor_z: i64,
        position_z: i64,
        movement_duration: u64,
        movement_request: FighterMovement,
    ) -> bool {
        match self {
            ExitRule::Always => true,
            ExitRule::GroundedOrTo(movement) => movement_request == movement || position_z
                == floor_z,
            ExitRule::NotTo(movements) => !movements@.contains(movement_request),
            ExitRule::After(duration) => movement_duration > duration,
            ExitRule::Grounded => floor_z == position_z,
        }
    }

    pub fn permits(
        &self,
        floor_z: i64,
        position_z: i64,
        movement_duration: u64,
        movement_request: &FighterMovement,
    ) -> (r: bool)
        ensures
            r == self.spec_permits(floor_z, position_z, movement_duration, *movement_request),
    {
        match self {
            ExitRule::Always => true,
            ExitRule::GroundedOrTo(movement) => *movement_request == *movement || position_z
                == floor_z,
            ExitRule::NotTo(movements) => !movements.contains(movement_request),
            ExitRule::After(duration) => movement_duration > *duration,
            ExitRule::Grounded => floor_z == position_z,
        }
    }
}

/// How input changes the velocity of a fighter that stays in its motion
/// state.
#[derive(Clone, Copy, Debug, PartialEq, Eq, Structural)]
pub enum Channel {
    /// `Up` sets the speed along `y` to `up`, `Down` sets it to `down`;
    /// with both held, `Down` wins.
    Drift { up: i64, down: i64 },
}

impl Channel {
    pub open spec fn spec_velocity(self, full_keyset: KeyTargetSet, velocity: FighterVelocity)
        -> FighterVelocity {
        match self {
            Channel::Drift { up, down } => if full_keyset@.contains(KeyTarget::Down) {
                FighterVelocity { y: down, ..velocity }
            } else if full_keyset@.contains(KeyTarget::Up) {
                FighterVelocity { y: up, ..velocity }
            } else {
                velocity
            },
        }
    }

    pub fn apply(&self, full_keyset: &KeyTargetSet, fighter_velocity: &mut FighterVelocity)
        ensures
            *final(fighter_velocity) == self.spec_velocity(*full_keyset, *old(fighter_velocity)),
    {
        match self {
            Channel::Drift { up, down } => {
                if full_keyset.contains(&KeyTarget::Up) {
                    fighter_velocity.y = *up;
                }
                if full_keyset.contains(&KeyTarget::Down) {
                    fighter_velocity.y = *down;
                }
            },
        }
    }
}

/// A time after which a motion state gives way to another by itself.
#[derive(Clone, Copy, Debug, PartialEq, Eq, Structural)]
pub struct DurationAndFallback {
    pub duration: u64,
    pub fallback: FighterMovement,
    /// Says whether giving way is meant to set the velocity as entering the
    /// fallback does. The integrator does not read it: giving way leaves
    /// the velocity as it is.
    pub apply_enter_state_fcn: bool,
}

} // verus!
