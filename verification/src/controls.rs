//! Input symbols, sets of them, and the mapping from a player's keys to the
//! three symbol sets that the resolver reads each tick.

use vstd::prelude::*;
use vstd::string::StringExecFns;
use crate::history::{DurativeStack, TimeTaggedValue};
use crate::bitmask::{
    lemma_low_mask, lemma_member_bit, lemma_member_both, lemma_member_or, lemma_member_some,
    lemma_member_subset, lemma_member_zero, lemma_same_members, member, one_hot,
};

verus! {

/// One abstract input symbol: a direction or an action that is held, or the
/// edge on which it went down.
#[derive(Clone, Copy, Debug, PartialEq, Eq, Hash, PartialOrd, Ord, Structural)]
pub enum KeyTarget {
    Up,
    UpJustPressed,
    Down,
    DownJustPressed,
    Left,
    LeftJustPressed,
    Right,
    RightJustPressed,
    Attack,
    AttackJustPressed,
    Jump,
    JumpJustPressed,
    Defend,
    DefendJustPressed,
}

impl KeyTarget {
    /// The bit that stands for this symbol in a [`KeyTargetSet`].
    pub open spec fn spec_bit(self) -> u16 {
        match self {
            KeyTarget::Up => 0x0001,
            KeyTarget::UpJustPressed => 0x0002,
            KeyTarget::Down => 0x0004,
            KeyTarget::DownJustPressed => 0x0008,
            KeyTarget::Left => 0x0010,
            KeyTarget::LeftJustPressed => 0x0020,
            KeyTarget::Right => 0x0040,
            KeyTarget::RightJustPressed => 0x0080,
            KeyTarget::Attack => 0x0100,
            KeyTarget::AttackJustPressed => 0x0200,
            KeyTarget::Jump => 0x0400,
            KeyTarget::JumpJustPressed => 0x0800,
            KeyTarget::Defend => 0x1000,
            KeyTarget::DefendJustPressed => 0x2000,
        }
    }

    #[verifier::when_used_as_spec(spec_bit)]
    pub fn bit(self) -> (b: u16)
        ensures
            b == self.spec_bit(),
    {
        match self {
            KeyTarget::Up => 0x0001,
            KeyTarget::UpJustPressed => 0x0002,
            KeyTarget::Down => 0x0004,
            KeyTarget::DownJustPressed => 0x0008,
            KeyTarget::Left => 0x0010,
            KeyTarget::LeftJustPressed => 0x0020,
            KeyTarget::Right => 0x0040,
            KeyTarget::RightJustPressed => 0x0080,
            KeyTarget::Attack => 0x0100,
            KeyTarget::AttackJustPressed => 0x0200,
            KeyTarget::Jump => 0x0400,
            KeyTarget::JumpJustPressed => 0x0800,
            KeyTarget::Defend => 0x1000,
            KeyTarget::DefendJustPressed => 0x2000,
        }
    }

    pub open spec fn spec_name(self) -> &'static str {
        match self {
            KeyTarget::Up => "Up",
            KeyTarget::UpJustPressed => "UpJustPressed",
            KeyTarget::Down => "Down",
            KeyTarget::DownJustPressed => "DownJustPressed",
            KeyTarget::Left => "Left",
            KeyTarget::LeftJustPressed => "LeftJustPressed",
            KeyTarget::Right => "Right",
            KeyTarget::RightJustPressed => "RightJustPressed",
            KeyTarget::Attack => "Attack",
            KeyTarget::AttackJustPressed => "AttackJustPressed",
            KeyTarget::Jump => "Jump",
            KeyTarget::JumpJustPressed => "JumpJustPressed",
            KeyTarget::Defend => "Defend",
            KeyTarget::DefendJustPressed => "DefendJustPressed",
        }
    }

    /// The symbol's name.
    pub fn name(self) -> (r: &'static str)
        ensures
            r == self.spec_name(),
    {
        match self {
            KeyTarget::Up => "Up",
            KeyTarget::UpJustPressed => "UpJustPressed",
            KeyTarget::Down => "Down",
            KeyTarget::DownJustPressed => "DownJustPressed",
            KeyTarget::Left => "Left",
            KeyTarget::LeftJustPressed => "LeftJustPressed",
            KeyTarget::Right => "Right",
            KeyTarget::RightJustPressed => "RightJustPressed",
            KeyTarget::Attack => "Attack",
            KeyTarget::AttackJustPressed => "AttackJustPressed",
            KeyTarget::Jump => "Jump",
            KeyTarget::JumpJustPressed => "JumpJustPressed",
            KeyTarget::Defend => "Defend",
            KeyTarget::DefendJustPressed => "DefendJustPressed",
        }
    }

    /// The symbol at the place `i` of the order in which the symbols are
    /// declared; the last one for a place beyond.
    pub open spec fn spec_nth(i: int) -> KeyTarget {
        if i <= 0 {
            KeyTarget::Up
        } else if i == 1 {
            KeyTarget::UpJustPressed
        } else if i == 2 {
            KeyTarget::Down
        } else if i == 3 {
            KeyTarget::DownJustPressed
        } else if i == 4 {
            KeyTarget::Left
        } else if i == 5 {
            KeyTarget::LeftJustPressed
        } else if i == 6 {
            KeyTarget::Right
        } else if i == 7 {
            KeyTarget::RightJustPressed
        } else if i == 8 {
            KeyTarget::Attack
        } else if i == 9 {
            KeyTarget::AttackJustPressed
        } else if i == 10 {
            KeyTarget::Jump
        } else if i == 11 {
            KeyTarget::JumpJustPressed
        } else if i == 12 {
            KeyTarget::Defend
        } else {
            KeyTarget::DefendJustPressed
        }
    }

    /// The symbol at the place `i` of the order in which the symbols are
    /// declared.
    pub fn nth(i: usize) -> (r: KeyTarget)
        ensures
            r == KeyTarget::spec_nth(i as int),
    {
        if i == 0 {
            KeyTarget::Up
        } else if i == 1 {
            KeyTarget::UpJustPressed
        } else if i == 2 {
            KeyTarget::Down
        } else if i == 3 {
            KeyTarget::DownJustPressed
        } else if i == 4 {
            KeyTarget::Left
        } else if i == 5 {
            KeyTarget::LeftJustPressed
        } else if i == 6 {
            KeyTarget::Right
        } else if i == 7 {
            KeyTarget::RightJustPressed
        } else if i == 8 {
            KeyTarget::Attack
        } else if i == 9 {
            KeyTarget::AttackJustPressed
        } else if i == 10 {
            KeyTarget::Jump
        } else if i == 11 {
            KeyTarget::JumpJustPressed
        } else if i == 12 {
            KeyTarget::Defend
        } else {
            KeyTarget::DefendJustPressed
        }
    }

    /// The symbol says that something is held, not that it just went down.
    pub open spec fn spec_is_hold(self) -> bool {
        self == KeyTarget::Up || self == KeyTarget::Down || self == KeyTarget::Left
            || self == KeyTarget::Right || self == KeyTarget::Attack || self == KeyTarget::Jump
            || self == KeyTarget::Defend
    }
}

/// A set of input symbols. Two sets with the same symbols are the same
/// value, so a set can key a table.
#[derive(Clone, Copy, Debug, PartialEq, Eq, Hash, Structural)]
pub struct KeyTargetSet {
    pub bits: u16,
}

impl View for KeyTargetSet {
    type V = Set<KeyTarget>;

    open spec fn view(&self) -> Set<KeyTarget> {
        Set::new(|k: KeyTarget| member(self.bits, k.spec_bit()))
    }
}

impl KeyTargetSet {
    /// Only bits that stand for a symbol are set.
    pub open spec fn wf(self) -> bool {
        self.bits < 0x4000
    }

    pub open spec fn spec_empty() -> KeyTargetSet {
        KeyTargetSet { bits: 0 }
    }

    pub open spec fn spec_insert(self, symbol: KeyTarget) -> KeyTargetSet {
        KeyTargetSet { bits: self.bits | symbol.spec_bit() }
    }

    pub open spec fn spec_union(self, other: KeyTargetSet) -> KeyTargetSet {
        KeyTargetSet { bits: self.bits | other.bits }
    }

    /// The set of the symbols of `symbols`, built one by one.
    pub open spec fn spec_of(symbols: Seq<KeyTarget>) -> KeyTargetSet
        decreases symbols.len(),
    {
        if symbols.len() == 0 {
            KeyTargetSet::spec_empty()
        } else {
            KeyTargetSet::spec_of(symbols.drop_last()).spec_insert(symbols.last())
        }
    }

    /// The set that holds `symbol` alone.
    pub open spec fn spec_single(symbol: KeyTarget) -> KeyTargetSet {
        KeyTargetSet { bits: symbol.spec_bit() }
    }

    /// The set that holds the two different symbols `a` and `b`.
    pub open spec fn spec_pair(a: KeyTarget, b: KeyTarget) -> KeyTargetSet {
        KeyTargetSet { bits: (a.spec_bit() + b.spec_bit()) as u16 }
    }

    pub proof fn lemma_empty()
        ensures
            KeyTargetSet::spec_empty().wf(),
            KeyTargetSet::spec_empty()@ == Set::<KeyTarget>::empty(),
    {
        assert forall|k: KeyTarget| !KeyTargetSet::spec_empty()@.contains(k) by {
            lemma_member_zero(k.spec_bit());
        }
        assert(KeyTargetSet::spec_empty()@ =~= Set::<KeyTarget>::empty());
    }

    pub proof fn lemma_insert(self, symbol: KeyTarget)
        ensures
            self.spec_insert(symbol)@ == self@.insert(symbol),
            self.wf() ==> self.spec_insert(symbol).wf(),
    {
        let r = self.spec_insert(symbol);
        assert forall|k: KeyTarget| r@.contains(k) <==> self@.insert(symbol).contains(k) by {
            lemma_member_or(self.bits, symbol.spec_bit(), k.spec_bit());
            lemma_member_bit(symbol.spec_bit(), k.spec_bit());
        }
        assert(r@ =~= self@.insert(symbol));
        if self.wf() {
            lemma_low_mask(self.bits);
            lemma_low_mask(symbol.spec_bit());
            lemma_low_mask(r.bits);
            lemma_member_or(self.bits, symbol.spec_bit(), 0x4000);
            lemma_member_or(self.bits, symbol.spec_bit(), 0x8000);
        }
    }

    pub proof fn lemma_union(self, other: KeyTargetSet)
        ensures
            self.spec_union(other)@ == self@.union(other@),
            self.wf() && other.wf() ==> self.spec_union(other).wf(),
    {
        let r = self.spec_union(other);
        assert forall|k: KeyTarget| r@.contains(k) <==> self@.union(other@).contains(k) by {
            lemma_member_or(self.bits, other.bits, k.spec_bit());
        }
        assert(r@ =~= self@.union(other@));
        if self.wf() && other.wf() {
            lemma_low_mask(self.bits);
            lemma_low_mask(other.bits);
            lemma_low_mask(r.bits);
            lemma_member_or(self.bits, other.bits, 0x4000);
            lemma_member_or(self.bits, other.bits, 0x8000);
        }
    }

    pub proof fn lemma_of(symbols: Seq<KeyTarget>)
        ensures
            KeyTargetSet::spec_of(symbols).wf(),
            KeyTargetSet::spec_of(symbols)@ == symbols.to_set(),
        decreases symbols.len(),
    {
        if symbols.len() == 0 {
            KeyTargetSet::lemma_empty();
            assert(symbols.to_set() =~= Set::<KeyTarget>::empty());
        } else {
            let front = symbols.drop_last();
            KeyTargetSet::lemma_of(front);
            KeyTargetSet::spec_of(front).lemma_insert(symbols.last());
            assert forall|k: KeyTarget| symbols.to_set().contains(k) <==> front.to_set().insert(
                symbols.last(),
            ).contains(k) by {
                if symbols.contains(k) {
                    let i = choose|i: int| 0 <= i < symbols.len() && symbols[i] == k;
                    if i < symbols.len() - 1 {
                        assert(front[i] == k);
                    }
                }
                if front.contains(k) {
                    let i = choose|i: int| 0 <= i < front.len() && front[i] == k;
                    assert(symbols[i] == k);
                }
                if k == symbols.last() {
                    assert(symbols[symbols.len() - 1] == k);
                }
            }
            assert(symbols.to_set() =~= front.to_set().insert(symbols.last()));
        }
    }

    pub proof fn lemma_single(symbol: KeyTarget)
        ensures
            KeyTargetSet::spec_single(symbol).wf(),
            KeyTargetSet::spec_single(symbol)@ == set![symbol],
            KeyTargetSet::spec_single(symbol) == KeyTargetSet::spec_empty().spec_insert(symbol),
    {
        let r = KeyTargetSet::spec_single(symbol);
        let x = symbol.spec_bit();
        assert(0u16 | x == x) by (bit_vector);
        assert forall|k: KeyTarget| r@.contains(k) <==> k == symbol by {
            lemma_member_bit(symbol.spec_bit(), k.spec_bit());
        }
        assert(r@ =~= set![symbol]);
    }

    pub proof fn lemma_pair(a: KeyTarget, b: KeyTarget)
        requires
            a != b,
        ensures
            KeyTargetSet::spec_pair(a, b).wf(),
            KeyTargetSet::spec_pair(a, b)@ == set![a, b],
            KeyTargetSet::spec_pair(a, b) == KeyTargetSet::spec_empty().spec_insert(a).spec_insert(b),
    {
        let x = a.spec_bit();
        let y = b.spec_bit();
        assert(x + y == (0u16 | x) | y && x + y < 0x4000) by (bit_vector)
            requires
                x != y,
                x == 0x0001 || x == 0x0002 || x == 0x0004 || x == 0x0008
                || x == 0x0010 || x == 0x0020 || x == 0x0040 || x == 0x0080
                || x == 0x0100 || x == 0x0200 || x == 0x0400 || x == 0x0800
                || x == 0x1000 || x == 0x2000,
                y == 0x0001 || y == 0x0002 || y == 0x0004 || y == 0x0008
                || y == 0x0010 || y == 0x0020 || y == 0x0040 || y == 0x0080
                || y == 0x0100 || y == 0x0200 || y == 0x0400 || y == 0x0800
                || y == 0x1000 || y == 0x2000,
        ;
        KeyTargetSet::lemma_empty();
        KeyTargetSet::spec_empty().lemma_insert(a);
        KeyTargetSet::spec_empty().spec_insert(a).lemma_insert(b);
        assert(KeyTargetSet::spec_pair(a, b)@ =~= set![a, b]);
    }

    /// Sets with the same symbols are the same value.
    pub proof fn lemma_structural(self, other: KeyTargetSet)
        requires
            self.wf(),
            other.wf(),
        ensures
            self@ == other@ <==> self == other,
    {
        if self@ == other@ {
            assert forall|m: u16| one_hot(m) implies (#[trigger] member(self.bits, m) <==> member(
                other.bits,
                m,
            )) by {
                lemma_low_mask(self.bits);
                lemma_low_mask(other.bits);
                if m < 0x4000 {
                    let k = key_of_bit(m);
                    assert(self@.contains(k) <==> other@.contains(k));
                }
            }
            lemma_same_members(self.bits, other.bits);
        }
    }

    pub fn empty() -> (r: Self)
        ensures
            r == KeyTargetSet::spec_empty(),
            r.wf(),
            r@ == Set::<KeyTarget>::empty(),
    {
        proof {
            KeyTargetSet::lemma_empty();
        }
        KeyTargetSet { bits: 0 }
    }

    pub fn insert(self, symbol: KeyTarget) -> (r: Self)
        ensures
            r == self.spec_insert(symbol),
            r@ == self@.insert(symbol),
            self.wf() ==> r.wf(),
    {
        proof {
            self.lemma_insert(symbol);
        }
        KeyTargetSet { bits: self.bits | symbol.bit() }
    }

    pub fn union(self, other: Self) -> (r: Self)
        ensures
            r == self.spec_union(other),
            r@ == self@.union(other@),
            self.wf() && other.wf() ==> r.wf(),
    {
        proof {
            self.lemma_union(other);
        }
        KeyTargetSet { bits: self.bits | other.bits }
    }

    pub fn contains(&self, other: &KeyTarget) -> (r: bool)
        ensures
            r == self@.contains(*other),
    {
        self.bits & other.bit() != 0
    }

    /// One of the first `upto` symbols, in the order in which the symbols
    /// are declared, is in the set.
    pub open spec fn spec_holds_before(self, upto: int) -> bool
        decreases upto,
    {
        if upto <= 0 {
            false
        } else {
            self.spec_holds_before(upto - 1) || self@.contains(KeyTarget::spec_nth(upto - 1))
        }
    }

    /// The names of those of the first `upto` symbols that are in the set,
    /// in the order in which the symbols are declared, with a comma and a
    /// blank between one name and the next.
    pub open spec fn spec_listed(self, upto: int) -> Seq<char>
        decreases upto,
    {
        if upto <= 0 {
            Seq::empty()
        } else if !self@.contains(KeyTarget::spec_nth(upto - 1)) {
            self.spec_listed(upto - 1)
        } else if self.spec_holds_before(upto - 1) {
            self.spec_listed(upto - 1) + ", "@ + KeyTarget::spec_nth(upto - 1).spec_name()@
        } else {
            self.spec_listed(upto - 1) + KeyTarget::spec_nth(upto - 1).spec_name()@
        }
    }

    /// The names of the symbols of the set, in the order in which the
    /// symbols are declared, with a comma and a blank between one name and
    /// the next.
    pub fn to_string(&self) -> (text: String)
        ensures
            text@ == self.spec_listed(14),
    {
        let mut text = String::new();
        let mut first = true;
        let mut i: usize = 0;
        while i < 14
            invariant
                i <= 14,
                text@ == self.spec_listed(i as int),
                first == !self.spec_holds_before(i as int),
            decreases 14 - i,
        {
            let key = KeyTarget::nth(i);
            if self.contains(&key) {
                if first {
                    first = false;
                } else {
                    text.append(", ");
                }
                text.append(key.name());
            }
            i += 1;
        }
        text
    }

    /// Every symbol of `self` is in `other`.
    pub fn is_subset(&self, other: &Self) -> (r: bool)
        requires
            self.wf(),
        ensures
            r == self@.subset_of(other@),
    {
        let r = self.bits & other.bits == self.bits;
        proof {
            if r {
                assert forall|k: KeyTarget| self@.contains(k) implies other@.contains(k) by {
                    lemma_member_subset(self.bits, other.bits, k.spec_bit());
                }
            } else {
                let k = lemma_missing(self.bits, other.bits);
                assert(self@.contains(k) && !other@.contains(k));
            }
        }
        r
    }

    /// Every symbol of `other` is in `self`.
    pub fn is_superset(&self, other: &Self) -> (r: bool)
        requires
            other.wf(),
        ensures
            r == other@.subset_of(self@),
    {
        other.is_subset(self)
    }

    /// The two sets share a symbol.
    pub fn overlaps(&self, other: &Self) -> (r: bool)
        requires
            self.wf(),
        ensures
            r == !self@.disjoint(other@),
    {
        let r = self.bits & other.bits != 0;
        proof {
            let a = self.bits;
            let b = other.bits;
            if r {
                let both: u16 = a & b;
                assert(both & a == both && both & b == both) by (bit_vector)
                    requires
                        both == a & b,
                ;
                let m = lemma_member_some(both);
                lemma_member_subset(both, a, m);
                lemma_member_subset(both, b, m);
                lemma_low_mask(a);
                let k = key_of_bit(m);
                assert(self@.contains(k) && other@.contains(k));
            } else {
                assert forall|k: KeyTarget| !(self@.contains(k) && other@.contains(k)) by {
                    if member(a, k.spec_bit()) && member(b, k.spec_bit()) {
                        lemma_member_both(a, b, k.spec_bit());
                    }
                }
            }
        }
        r
    }
}

/// The symbol whose bit is `m`.
pub open spec fn key_of_bit(m: u16) -> KeyTarget {
    if m == 0x0001 {
        KeyTarget::Up
    } else if m == 0x0002 {
        KeyTarget::UpJustPressed
    } else if m == 0x0004 {
        KeyTarget::Down
    } else if m == 0x0008 {
        KeyTarget::DownJustPressed
    } else if m == 0x0010 {
        KeyTarget::Left
    } else if m == 0x0020 {
        KeyTarget::LeftJustPressed
    } else if m == 0x0040 {
        KeyTarget::Right
    } else if m == 0x0080 {
        KeyTarget::RightJustPressed
    } else if m == 0x0100 {
        KeyTarget::Attack
    } else if m == 0x0200 {
        KeyTarget::AttackJustPressed
    } else if m == 0x0400 {
        KeyTarget::Jump
    } else if m == 0x0800 {
        KeyTarget::JumpJustPressed
    } else if m == 0x1000 {
        KeyTarget::Defend
    } else {
        KeyTarget::DefendJustPressed
    }
}

/// Where `a` is not within `b`, a symbol of `a` is missing from `b`.
proof fn lemma_missing(a: u16, b: u16) -> (k: KeyTarget)
    requires
        a < 0x4000,
        a & b != a,
    ensures
        member(a, k.spec_bit()),
        !member(b, k.spec_bit()),
{
    let lost: u16 = a & !b;
    assert(lost != 0 && lost & b == 0 && lost & a == lost) by (bit_vector)
        requires
            a & b != a,
            lost == a & !b,
    ;
    let m = lemma_member_some(lost);
    lemma_member_subset(lost, a, m);
    if member(b, m) {
        lemma_member_both(lost, b, m);
    }
    lemma_low_mask(a);
    key_of_bit(m)
}

impl core::ops::Add for KeyTargetSet {
    type Output = KeyTargetSet;

    /// The union of the two sets.
    fn add(self, rhs: KeyTargetSet) -> (r: KeyTargetSet)
        ensures
            r@ == self@.union(rhs@),
            self.wf() && rhs.wf() ==> r.wf(),
    {
        self.union(rhs)
    }
}

impl vstd::std_specs::ops::AddSpecImpl for KeyTargetSet {
    open spec fn obeys_add_spec() -> bool {
        true
    }

    open spec fn add_req(self, rhs: KeyTargetSet) -> bool {
        true
    }

    open spec fn add_spec(self, rhs: KeyTargetSet) -> KeyTargetSet {
        self.spec_union(rhs)
    }
}

impl core::ops::Add<KeyTarget> for KeyTargetSet {
    type Output = KeyTargetSet;

    /// The set with `rhs` put in.
    fn add(self, rhs: KeyTarget) -> (r: KeyTargetSet)
        ensures
            r@ == self@.insert(rhs),
            self.wf() ==> r.wf(),
    {
        self.insert(rhs)
    }
}

impl vstd::std_specs::ops::AddSpecImpl<KeyTarget> for KeyTargetSet {
    open spec fn obeys_add_spec() -> bool {
        true
    }

    open spec fn add_req(self, rhs: KeyTarget) -> bool {
        true
    }

    open spec fn add_spec(self, rhs: KeyTarget) -> KeyTargetSet {
        self.spec_insert(rhs)
    }
}

impl<const N: usize> From<[KeyTarget; N]> for KeyTargetSet {
    /// The set of the symbols of `array`.
    fn from(array: [KeyTarget; N]) -> (r: KeyTargetSet)
        ensures
            r.wf(),
            r@ == array@.to_set(),
    {
        let mut r = KeyTargetSet::empty();
        let mut i: usize = 0;
        while i < N
            invariant
                i <= N,
                N == array@.len(),
                r == KeyTargetSet::spec_of(array@.take(i as int)),
            decreases N - i,
        {
            proof {
                assert(array@.take(i + 1).drop_last() =~= array@.take(i as int));
            }
            r = r.insert(array[i]);
            i += 1;
        }
        proof {
            assert(array@.take(N as int) =~= array@);
            KeyTargetSet::lemma_of(array@);
        }
        r
    }
}

impl<const N: usize> vstd::std_specs::convert::FromSpecImpl<[KeyTarget; N]> for KeyTargetSet {
    open spec fn obeys_from_spec() -> bool {
        true
    }

    open spec fn from_spec(array: [KeyTarget; N]) -> KeyTargetSet {
        KeyTargetSet::spec_of(array@)
    }
}

/// The union of the sets of `stack`, taken from the oldest on.
pub open spec fn spec_join(stack: Seq<TimeTaggedValue<KeyTargetSet>>) -> KeyTargetSet
    decreases stack.len(),
{
    if stack.len() == 0 {
        KeyTargetSet::spec_empty()
    } else {
        spec_join(stack.drop_last()).spec_union(stack.last().value)
    }
}

/// A symbol is in the joined set exactly where an entry holds it.
pub proof fn lemma_join(stack: Seq<TimeTaggedValue<KeyTargetSet>>)
    ensures
        forall|k: KeyTarget|
            spec_join(stack)@.contains(k) <==> exists|i: int|
                0 <= i < stack.len() && #[trigger] stack[i].value@.contains(k),
        (forall|i: int| 0 <= i < stack.len() ==> #[trigger] stack[i].value.wf()) ==> spec_join(
            stack,
        ).wf(),
    decreases stack.len(),
{
    if stack.len() == 0 {
        KeyTargetSet::lemma_empty();
    } else {
        let front = stack.drop_last();
        lemma_join(front);
        spec_join(front).lemma_union(stack.last().value);
        assert forall|k: KeyTarget|
            spec_join(stack)@.contains(k) <==> exists|i: int|
                0 <= i < stack.len() && #[trigger] stack[i].value@.contains(k) by {
            if spec_join(front)@.contains(k) {
                let i = choose|i: int| 0 <= i < front.len() && #[trigger] front[i].value@.contains(k);
                assert(stack[i].value@.contains(k));
            }
            if stack.last().value@.contains(k) {
                assert(stack[stack.len() - 1].value@.contains(k));
            }
            if exists|i: int| 0 <= i < stack.len() && #[trigger] stack[i].value@.contains(k) {
                let i = choose|i: int| 0 <= i < stack.len() && #[trigger] stack[i].value@.contains(k);
                if i < stack.len() - 1 {
                    assert(front[i].value@.contains(k));
                }
            }
        }
        if forall|i: int| 0 <= i < stack.len() ==> #[trigger] stack[i].value.wf() {
            assert forall|i: int| 0 <= i < front.len() implies #[trigger] front[i].value.wf() by {
                assert(stack[i].value.wf());
            }
            assert(stack[stack.len() - 1].value.wf());
        }
    }
}

/// The sets of input symbols that were applied of late, the newest at the
/// tail.
pub struct KeyTargetSetStack(pub DurativeStack<KeyTargetSet>);

impl View for KeyTargetSetStack {
    type V = Seq<TimeTaggedValue<KeyTargetSet>>;

    open spec fn view(&self) -> Seq<TimeTaggedValue<KeyTargetSet>> {
        self.0@
    }
}

impl KeyTargetSetStack {
    pub fn new(max_size: usize, max_duration: u64) -> (r: Self)
        ensures
            r@ == Seq::<TimeTaggedValue<KeyTargetSet>>::empty(),
            r.0.max_size == max_size,
            r.0.max_duration == max_duration,
            r.0.wf(),
    {
        KeyTargetSetStack(DurativeStack::new(max_size, max_duration))
    }

    /// The union of all the sets that the history holds; the empty set where
    /// it holds none.
    pub fn join(&self) -> (joined: KeyTargetSet)
        ensures
            joined == spec_join(self@),
            forall|k: KeyTarget|
                joined@.contains(k) <==> exists|i: int|
                    0 <= i < self@.len() && #[trigger] self@[i].value@.contains(k),
    {
        let mut joined = KeyTargetSet::empty();
        let n: usize = self.0.stack.len();
        let mut i: usize = 0;
        while i < n
            invariant
                i <= n,
                n == self@.len(),
                joined == spec_join(self@.take(i as int)),
            decreases n - i,
        {
            proof {
                assert(self@.take(i + 1).drop_last() =~= self@.take(i as int));
            }
            joined = joined + self.0.stack[i].value;
            i += 1;
        }
        proof {
            assert(self@.take(n as int) =~= self@);
            lemma_join(self@);
        }
        joined
    }
}

/// The number of a physical key, as the input provider counts keys.
pub type KeyCode = u32;

/// The state of the keyboard in one tick: the keys that are down, and
/// those that went down in this tick.
pub struct KeyboardInput {
    pub pressed: Vec<KeyCode>,
    pub just_pressed: Vec<KeyCode>,
}

/// Tells whether `key` is among `keys`.
fn holds_key(keys: &Vec<KeyCode>, key: KeyCode) -> (r: bool)
    ensures
        r == keys@.contains(key),
{
    let n: usize = keys.len();
    let mut i: usize = 0;
    while i < n
        invariant
            i <= n,
            n == keys@.len(),
            forall|j: int| 0 <= j < i ==> keys@[j] != key,
        decreases n - i,
    {
        if keys[i] == key {
            return true;
        }
        i += 1;
    }
    false
}

impl KeyboardInput {
    pub open spec fn spec_pressed(&self, key: KeyCode) -> bool {
        self.pressed@.contains(key)
    }

    pub open spec fn spec_just_pressed(&self, key: KeyCode) -> bool {
        self.just_pressed@.contains(key)
    }

    /// `key` is down.
    pub fn pressed(&self, key: KeyCode) -> (r: bool)
        ensures
            r == self.spec_pressed(key),
    {
        holds_key(&self.pressed, key)
    }

    /// `key` went down in this tick.
    pub fn just_pressed(&self, key: KeyCode) -> (r: bool)
        ensures
            r == self.spec_just_pressed(key),
    {
        holds_key(&self.just_pressed, key)
    }
}

/// The keys of one player: one physical key for each direction and action.
#[derive(Clone, Copy, Debug, PartialEq, Eq, Structural)]
pub struct PlayerControls {
    pub up: KeyCode,
    pub down: KeyCode,
    pub left: KeyCode,
    pub right: KeyCode,
    pub attack: KeyCode,
    pub jump: KeyCode,
    pub defend: KeyCode,
}

impl Default for PlayerControls {
    /// The keys `W`, `S`, `A`, `D` for the directions and `G`, `H`, `J` for
    /// attack, jump and defend, each counted as its capital letter is in
    /// ASCII.
    fn default() -> (r: PlayerControls)
        ensures
            r == (PlayerControls {
                up: 87,
                down: 83,
                left: 65,
                right: 68,
                attack: 71,
                jump: 72,
                defend: 74,
            }),
    {
        PlayerControls { up: 87, down: 83, left: 65, right: 68, attack: 71, jump: 72, defend: 74 }
    }
}

impl PlayerControls {
    /// The key that stands for `symbol`: the same one for a hold and for
    /// its edge.
    pub open spec fn spec_key(&self, symbol: KeyTarget) -> KeyCode {
        match symbol {
            KeyTarget::Up | KeyTarget::UpJustPressed => self.up,
            KeyTarget::Down | KeyTarget::DownJustPressed => self.down,
            KeyTarget::Left | KeyTarget::LeftJustPressed => self.left,
            KeyTarget::Right | KeyTarget::RightJustPressed => self.right,
            KeyTarget::Attack | KeyTarget::AttackJustPressed => self.attack,
            KeyTarget::Jump | KeyTarget::JumpJustPressed => self.jump,
            KeyTarget::Defend | KeyTarget::DefendJustPressed => self.defend,
        }
    }

    /// The symbols that are held: those that say so and whose key is down.
    pub open spec fn spec_persistent(&self, keyboard_input: &KeyboardInput) -> Set<KeyTarget> {
        Set::new(
            |symbol: KeyTarget|
                symbol.spec_is_hold() && keyboard_input.spec_pressed(self.spec_key(symbol)),
        )
    }

    /// The symbols of this tick's edges: those that stand for an edge and
    /// whose key went down in this tick.
    pub open spec fn spec_event(&self, keyboard_input: &KeyboardInput) -> Set<KeyTarget> {
        Set::new(
            |symbol: KeyTarget|
                !symbol.spec_is_hold() && keyboard_input.spec_just_pressed(self.spec_key(symbol)),
        )
    }

    /// The set of the symbols that are held.
    pub fn into_persistent_keytargetset(&self, keyboard_input: &KeyboardInput) -> (pressed_keys:
        KeyTargetSet)
        ensures
            pressed_keys.wf(),
            pressed_keys@ == self.spec_persistent(keyboard_input),
    {
        let mut pressed_keys = KeyTargetSet::empty();
        if keyboard_input.pressed(self.up) {
            pressed_keys = pressed_keys + KeyTarget::Up;
        }
        if keyboard_input.pressed(self.down) {
            pressed_keys = pressed_keys + KeyTarget::Down;
        }
        if keyboard_input.pressed(self.left) {
            pressed_keys = pressed_keys + KeyTarget::Left;
        }
        if keyboard_input.pressed(self.right) {
            pressed_keys = pressed_keys + KeyTarget::Right;
        }
        if keyboard_input.pressed(self.attack) {
            pressed_keys = pressed_keys + KeyTarget::Attack;
        }
        if keyboard_input.pressed(self.jump) {
            pressed_keys = pressed_keys + KeyTarget::Jump;
        }
        if keyboard_input.pressed(self.defend) {
            pressed_keys = pressed_keys + KeyTarget::Defend;
        }
        proof {
            assert(pressed_keys@ =~= self.spec_persistent(keyboard_input));
        }
        pressed_keys
    }

    /// The set of the symbols of this tick's edges.
    pub fn into_event_keytargetset(&self, keyboard_input: &KeyboardInput) -> (just_pressed_keys:
        KeyTargetSet)
        ensures
            just_pressed_keys.wf(),
            just_pressed_keys@ == self.spec_event(keyboard_input),
    {
        let mut just_pressed_keys = KeyTargetSet::empty();
        if keyboard_input.just_pressed(self.up) {
            just_pressed_keys = just_pressed_keys + KeyTarget::UpJustPressed;
        }
        if keyboard_input.just_pressed(self.down) {
            just_pressed_keys = just_pressed_keys + KeyTarget::DownJustPressed;
        }
        if keyboard_input.just_pressed(self.left) {
            just_pressed_keys = just_pressed_keys + KeyTarget::LeftJustPressed;
        }
        if keyboard_input.just_pressed(self.right) {
            just_pressed_keys = just_pressed_keys + KeyTarget::RightJustPressed;
        }
        if keyboard_input.just_pressed(self.attack) {
            just_pressed_keys = just_pressed_keys + KeyTarget::AttackJustPressed;
        }
        if keyboard_input.just_pressed(self.jump) {
            just_pressed_keys = just_pressed_keys + KeyTarget::JumpJustPressed;
        }
        if keyboard_input.just_pressed(self.defend) {
            just_pressed_keys = just_pressed_keys + KeyTarget::DefendJustPressed;
        }
        proof {
            assert(just_pressed_keys@ =~= self.spec_event(keyboard_input));
        }
        just_pressed_keys
    }

    /// The set of the symbols that are held together with those of this
    /// tick's edges.
    pub fn into_full_keytargetset(&self, keyboard_input: &KeyboardInput) -> (full: KeyTargetSet)
        ensures
            full.wf(),
            full@ == self.spec_persistent(keyboard_input).union(self.spec_event(keyboard_input)),
    {
        self.into_persistent_keytargetset(keyboard_input) + self.into_event_keytargetset(
            keyboard_input,
        )
    }
}

} // verus!
