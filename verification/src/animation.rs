//! Where the frames of a motion state lie in a sprite sheet, and which
//! frame comes next.

use vstd::prelude::*;

verus! {

/// The sum of the first `upto` numbers of `lengths`.
pub open spec fn spec_frames_before(lengths: Seq<usize>, upto: int) -> int
    decreases upto,
{
    if upto <= 0 {
        0
    } else {
        spec_frames_before(lengths, upto - 1) + lengths[upto - 1]
    }
}

/// The frame that follows `index` in an animation whose frames run from
/// `movement_indicies[0]` to `movement_indicies[1]`: the next one, or the
/// first where `index` lies outside or is the last.
pub open spec fn spec_next_sprite_index(index: usize, movement_indicies: [usize; 2]) -> usize {
    if index < movement_indicies[0] || index >= movement_indicies[1] {
        movement_indicies[0]
    } else {
        (index + 1) as usize
    }
}

/// The frame to show after `index`. The animation does not end at the
/// very first frame of the sheet.
pub fn next_sprite_index(index: usize, movement_indicies: [usize; 2]) -> (r: usize)
    requires
        movement_indicies[1] > 0,
    ensures
        r == spec_next_sprite_index(index, movement_indicies),
        movement_indicies[0] <= movement_indicies[1] ==> movement_indicies[0] <= r
            <= movement_indicies[1],
{
    if index < movement_indicies[0] || index > movement_indicies[1] - 1 {
        movement_indicies[0]
    } else {
        index + 1
    }
}

/// The first and the last frame of each animation in a sheet that holds the
/// animations one after the other, the animation `i` with `lengths[i]`
/// frames.
pub fn sprite_ranges(lengths: &Vec<usize>) -> (ranges: Vec<[usize; 2]>)
    requires
        spec_frames_before(lengths@, lengths@.len() as int) <= usize::MAX,
        forall|i: int| 1 <= i <= lengths@.len() ==> #[trigger] spec_frames_before(lengths@, i) >= 1,
    ensures
        ranges@.len() == lengths@.len(),
        forall|i: int|
            0 <= i < ranges@.len() ==> (#[trigger] ranges@[i])[0] == spec_frames_before(
                lengths@,
                i,
            ) && ranges@[i][1] == spec_frames_before(lengths@, i + 1) - 1,
{
    let mut ranges: Vec<[usize; 2]> = Vec::new();
    let n: usize = lengths.len();
    let mut index: usize = 0;
    let mut i: usize = 0;
    while i < n
        invariant
            i <= n,
            n == lengths@.len(),
            index == spec_frames_before(lengths@, i as int),
            spec_frames_before(lengths@, n as int) <= usize::MAX,
            forall|j: int| 1 <= j <= n ==> #[trigger] spec_frames_before(lengths@, j) >= 1,
            ranges@.len() == i,
            forall|j: int|
                0 <= j < i ==> (#[trigger] ranges@[j])[0] == spec_frames_before(lengths@, j)
                    && ranges@[j][1] == spec_frames_before(lengths@, j + 1) - 1,
        decreases n - i,
    {
        proof {
            lemma_frames_grow(lengths@, i + 1, n as int);
            assert(spec_frames_before(lengths@, i + 1) >= 1);
        }
        let next: usize = index + lengths[i];
        ranges.push([index, next - 1]);
        index = next;
        i += 1;
    }
    ranges
}

/// More animations hold no fewer frames.
proof fn lemma_frames_grow(lengths: Seq<usize>, upto: int, beyond: int)
    requires
        0 <= upto <= beyond <= lengths.len(),
    ensures
        spec_frames_before(lengths, upto) <= spec_frames_before(lengths, beyond),
    decreases beyond - upto,
{
    if upto < beyond {
        lemma_frames_grow(lengths, upto, beyond - 1);
    }
}

} // verus!
