//! Bounded histories of time-stamped values, newest at the tail.
//!
//! Time is counted in milliseconds. An entry's age grows with every update
//! and stops growing at `u64::MAX`.

use vstd::prelude::*;

verus! {

/// A value and the time that has passed since it was put in.
#[derive(Debug)]
pub struct TimeTaggedValue<T> {
    pub value: T,
    pub duration: u64,
}

/// `duration + delta_time`, held at `u64::MAX`.
pub open spec fn spec_later(duration: u64, delta_time: u64) -> u64 {
    if duration + delta_time > u64::MAX {
        u64::MAX
    } else {
        (duration + delta_time) as u64
    }
}

/// The entries of `stack`, each older by `delta_time`.
pub open spec fn spec_aged<T>(stack: Seq<TimeTaggedValue<T>>, delta_time: u64) -> Seq<
    TimeTaggedValue<T>,
> {
    Seq::new(
        stack.len(),
        |i: int|
            TimeTaggedValue {
                value: stack[i].value,
                duration: spec_later(stack[i].duration, delta_time),
            },
    )
}

/// `stack` after `value` was put on it with age zero; where `stack` was
/// full, its oldest entry has left first.
pub open spec fn spec_pushed<T>(stack: Seq<TimeTaggedValue<T>>, max_size: usize, value: T) -> Seq<
    TimeTaggedValue<T>,
> {
    let kept = if stack.len() == max_size {
        stack.drop_first()
    } else {
        stack
    };
    kept.push(TimeTaggedValue { value, duration: 0 })
}

/// The number of entries at the newer end of `stack`, taken without a gap,
/// that are no older than `max_duration`.
pub open spec fn spec_fresh_len<T>(stack: Seq<TimeTaggedValue<T>>, max_duration: u64) -> nat
    decreases stack.len(),
{
    if stack.len() == 0 || stack.last().duration > max_duration {
        0
    } else {
        1 + spec_fresh_len(stack.drop_last(), max_duration)
    }
}

/// `stack` without the entries at its older end up to the newest one that
/// is older than `max_duration`.
pub open spec fn spec_fresh<T>(stack: Seq<TimeTaggedValue<T>>, max_duration: u64) -> Seq<
    TimeTaggedValue<T>,
> {
    stack.skip(stack.len() - spec_fresh_len(stack, max_duration))
}

/// No entry of `stack` is older than the entry before it.
pub open spec fn spec_ordered<T>(stack: Seq<TimeTaggedValue<T>>) -> bool {
    forall|i: int, j: int| 0 <= i <= j < stack.len() ==> stack[i].duration >= stack[j].duration
}

/// What `spec_fresh_len` counts: the entries it covers are fresh, and the
/// one before them, if there is one, is not.
pub proof fn lemma_fresh_len<T>(stack: Seq<TimeTaggedValue<T>>, max_duration: u64)
    ensures
        spec_fresh_len(stack, max_duration) <= stack.len(),
        forall|i: int|
            stack.len() - spec_fresh_len(stack, max_duration) <= i < stack.len()
                ==> stack[i].duration <= max_duration,
        spec_fresh_len(stack, max_duration) < stack.len() ==> stack[stack.len() - spec_fresh_len(
            stack,
            max_duration,
        ) - 1].duration > max_duration,
    decreases stack.len(),
{
    if !(stack.len() == 0 || stack.last().duration > max_duration) {
        let front = stack.drop_last();
        lemma_fresh_len(front, max_duration);
        assert forall|i: int|
            stack.len() - spec_fresh_len(stack, max_duration) <= i < stack.len() implies stack[i].duration
            <= max_duration by {
            if i < stack.len() - 1 {
                assert(front[i] == stack[i]);
            }
        }
        if spec_fresh_len(stack, max_duration) < stack.len() {
            assert(front[front.len() - spec_fresh_len(front, max_duration) - 1] == stack[stack.len()
                - spec_fresh_len(stack, max_duration) - 1]);
        }
    }
}

/// In a history whose entries are in the order of their ages, the entries
/// that stay are exactly those that are no older than `max_duration`.
pub proof fn lemma_fresh_of_ordered<T>(stack: Seq<TimeTaggedValue<T>>, max_duration: u64)
    requires
        spec_ordered(stack),
    ensures
        spec_fresh(stack, max_duration) == stack.filter(
            |e: TimeTaggedValue<T>| e.duration <= max_duration,
        ),
    decreases stack.len(),
{
    let keep = |e: TimeTaggedValue<T>| e.duration <= max_duration;
    lemma_fresh_len(stack, max_duration);
    if stack.len() == 0 {
        assert(spec_fresh(stack, max_duration) =~= stack.filter(keep));
    } else {
        let front = stack.drop_last();
        assert(spec_ordered(front));
        reveal(Seq::filter);
        if stack.last().duration > max_duration {
            lemma_none_fresh(front, max_duration, stack.last().duration);
            assert(stack.filter(keep) =~= front.filter(keep));
            assert(spec_fresh(stack, max_duration) =~= stack.filter(keep));
        } else {
            lemma_fresh_of_ordered(front, max_duration);
            lemma_fresh_len(front, max_duration);
            assert(stack.filter(keep) =~= front.filter(keep).push(stack.last()));
            assert(spec_fresh(stack, max_duration) =~= spec_fresh(front, max_duration).push(
                stack.last(),
            ));
        }
    }
}

proof fn lemma_none_fresh<T>(stack: Seq<TimeTaggedValue<T>>, max_duration: u64, floor: u64)
    requires
        floor > max_duration,
        forall|i: int| 0 <= i < stack.len() ==> stack[i].duration >= floor,
    ensures
        stack.filter(|e: TimeTaggedValue<T>| e.duration <= max_duration) == Seq::<
            TimeTaggedValue<T>,
        >::empty(),
    decreases stack.len(),
{
    let keep = |e: TimeTaggedValue<T>| e.duration <= max_duration;
    reveal(Seq::filter);
    if stack.len() > 0 {
        lemma_none_fresh(stack.drop_last(), max_duration, floor);
        assert(stack.filter(keep) =~= stack.drop_last().filter(keep));
    }
}

/// A history bounded by a number of entries.
pub struct TimeTaggedStack<T> {
    pub stack: Vec<TimeTaggedValue<T>>,
    pub max_size: usize,
}

impl<T> View for TimeTaggedStack<T> {
    type V = Seq<TimeTaggedValue<T>>;

    open spec fn view(&self) -> Seq<TimeTaggedValue<T>> {
        self.stack@
    }
}

/// Every entry of `stack` gets older by `delta_time`.
fn age_entries<T>(stack: &mut Vec<TimeTaggedValue<T>>, delta_time: u64)
    ensures
        final(stack)@ == spec_aged(old(stack)@, delta_time),
{
    let n: usize = stack.len();
    let mut i: usize = 0;
    while i < n
        invariant
            i <= n,
            stack@.len() == n,
            n == old(stack)@.len(),
            forall|j: int| 0 <= j < i ==> stack@[j] == spec_aged(old(stack)@, delta_time)[j],
            forall|j: int| i <= j < n ==> stack@[j] == old(stack)@[j],
        decreases n - i,
    {
        let later: u64 = stack[i].duration.saturating_add(delta_time);
        stack[i].duration = later;
        i += 1;
    }
    proof {
        assert(stack@ =~= spec_aged(old(stack)@, delta_time));
    }
}

impl<T> TimeTaggedStack<T> {
    /// No more entries than the bound allows.
    pub open spec fn wf(&self) -> bool {
        self.stack@.len() <= self.max_size
    }

    pub fn new(max_size: usize) -> (r: Self)
        ensures
            r@ == Seq::<TimeTaggedValue<T>>::empty(),
            r.max_size == max_size,
            r.wf(),
    {
        TimeTaggedStack { stack: Vec::with_capacity(max_size), max_size }
    }

    /// Takes the newest entry off.
    pub fn pop(&mut self) -> (r: Option<TimeTaggedValue<T>>)
        ensures
            final(self).max_size == old(self).max_size,
            old(self)@.len() == 0 ==> r.is_none() && final(self)@ == old(self)@,
            old(self)@.len() > 0 ==> r == Some(old(self)@.last()) && final(self)@ == old(
                self,
            )@.drop_last(),
            old(self).wf() ==> final(self).wf(),
    {
        self.stack.pop()
    }

    /// Puts `value` on as the newest entry, with age zero. A full history
    /// loses its oldest entry first.
    pub fn push(&mut self, value: T)
        requires
            old(self).max_size > 0,
            old(self).wf(),
        ensures
            final(self).max_size == old(self).max_size,
            final(self)@ == spec_pushed(old(self)@, old(self).max_size, value),
            final(self).wf(),
    {
        if self.stack.len() == self.max_size {
            self.stack.remove(0);
        }
        self.stack.push(TimeTaggedValue { value: value, duration: 0 });
    }

    /// Every entry gets older by `delta_time`.
    pub fn update(&mut self, delta_time: u64)
        ensures
            final(self).max_size == old(self).max_size,
            final(self)@ == spec_aged(old(self)@, delta_time),
            old(self).wf() ==> final(self).wf(),
    {
        age_entries(&mut self.stack, delta_time);
    }
}

/// A history bounded by a number of entries and by their age.
pub struct DurativeStack<T> {
    pub stack: Vec<TimeTaggedValue<T>>,
    pub max_size: usize,
    pub max_duration: u64,
}

impl<T> View for DurativeStack<T> {
    type V = Seq<TimeTaggedValue<T>>;

    open spec fn view(&self) -> Seq<TimeTaggedValue<T>> {
        self.stack@
    }
}

impl<T> DurativeStack<T> {
    /// No more entries than the bound allows.
    pub open spec fn wf(&self) -> bool {
        self.stack@.len() <= self.max_size
    }

    pub fn new(max_size: usize, max_duration: u64) -> (r: Self)
        ensures
            r@ == Seq::<TimeTaggedValue<T>>::empty(),
            r.max_size == max_size,
            r.max_duration == max_duration,
            r.wf(),
    {
        DurativeStack { stack: Vec::with_capacity(max_size), max_size, max_duration }
    }

    /// Takes the newest entry off.
    pub fn pop(&mut self) -> (r: Option<TimeTaggedValue<T>>)
        ensures
            final(self).max_size == old(self).max_size,
            final(self).max_duration == old(self).max_duration,
            old(self)@.len() == 0 ==> r.is_none() && final(self)@ == old(self)@,
            old(self)@.len() > 0 ==> r == Some(old(self)@.last()) && final(self)@ == old(
                self,
            )@.drop_last(),
            old(self).wf() ==> final(self).wf(),
    {
        self.stack.pop()
    }

    /// Puts `value` on as the newest entry, with age zero. A full history
    /// loses its oldest entry first.
    pub fn push(&mut self, value: T)
        requires
            old(self).max_size > 0,
            old(self).wf(),
        ensures
            final(self).max_size == old(self).max_size,
            final(self).max_duration == old(self).max_duration,
            final(self)@ == spec_pushed(old(self)@, old(self).max_size, value),
            final(self).wf(),
    {
        if self.stack.len() == self.max_size {
            self.stack.remove(0);
        }
        self.stack.push(TimeTaggedValue { value: value, duration: 0 });
    }

    /// Every entry gets older by `delta_time`; then the entries at the older
    /// end leave, up to the newest one that is older than `max_duration`.
    pub fn update(&mut self, delta_time: u64)
        ensures
            final(self).max_size == old(self).max_size,
            final(self).max_duration == old(self).max_duration,
            final(self)@ == spec_fresh(spec_aged(old(self)@, delta_time), old(self).max_duration),
            forall|i: int| 0 <= i < final(self)@.len() ==> final(self)@[i].duration <= old(
                self,
            ).max_duration,
            old(self).wf() ==> final(self).wf(),
    {
        age_entries(&mut self.stack, delta_time);
        let ghost aged = self.stack@;
        let n: usize = self.stack.len();
        let mut keep_values: usize = 0;
        proof {
            assert(aged.take(n as int) =~= aged);
        }
        while keep_values < n && self.stack[n - 1 - keep_values].duration <= self.max_duration
            invariant
                keep_values <= n,
                n == aged.len(),
                self.stack@ == aged,
                self.max_duration == old(self).max_duration,
                self.max_size == old(self).max_size,
                spec_fresh_len(aged, self.max_duration) == keep_values + spec_fresh_len(
                    aged.take(n - keep_values),
                    self.max_duration,
                ),
            decreases n - keep_values,
        {
            proof {
                assert(aged.take(n - keep_values).drop_last() =~= aged.take(
                    n - keep_values - 1,
                ));
            }
            keep_values += 1;
        }
        proof {
            assert(spec_fresh_len(aged.take(n - keep_values), self.max_duration) == 0);
            lemma_fresh_len(aged, self.max_duration);
        }
        let popout_values: usize = n - keep_values;
        let mut done: usize = 0;
        while done < popout_values
            invariant
                done <= popout_values,
                popout_values + keep_values == n,
                n == aged.len(),
                self.stack@ == aged.skip(done as int),
                self.max_duration == old(self).max_duration,
                self.max_size == old(self).max_size,
            decreases popout_values - done,
        {
            self.stack.remove(0);
            proof {
                assert(self.stack@ =~= aged.skip(done + 1));
            }
            done += 1;
        }
    }
}

} // verus!
