//! Facts about sixteen-bit masks, shared by the two bit-set types of the
//! library. A mask stands for a set of at most sixteen members, one bit each.

use vstd::prelude::*;

verus! {

/// `m` has exactly one of its sixteen bits set.
pub open spec fn one_hot(m: u16) -> bool {
    m == 0x0001 || m == 0x0002 || m == 0x0004 || m == 0x0008
    || m == 0x0010 || m == 0x0020 || m == 0x0040 || m == 0x0080
    || m == 0x0100 || m == 0x0200 || m == 0x0400 || m == 0x0800
    || m == 0x1000 || m == 0x2000 || m == 0x4000 || m == 0x8000
}

/// Membership of the bit `m` in the mask `a`.
pub open spec fn member(a: u16, m: u16) -> bool {
    a & m != 0
}

pub proof fn lemma_member_zero(m: u16)
    ensures
        !member(0, m),
{
    assert(0u16 & m == 0) by (bit_vector);
}

pub proof fn lemma_member_or(a: u16, b: u16, m: u16)
    ensures
        member(a | b, m) <==> (member(a, m) || member(b, m)),
{
    assert(((a | b) & m != 0) <==> (a & m != 0 || b & m != 0)) by (bit_vector);
}

pub proof fn lemma_member_bit(p: u16, m: u16)
    requires
        one_hot(p),
        one_hot(m),
    ensures
        member(p, m) <==> p == m,
{
    assert((p & m != 0) <==> p == m) by (bit_vector)
        requires
            p == 0x0001 || p == 0x0002 || p == 0x0004 || p == 0x0008
            || p == 0x0010 || p == 0x0020 || p == 0x0040 || p == 0x0080
            || p == 0x0100 || p == 0x0200 || p == 0x0400 || p == 0x0800
            || p == 0x1000 || p == 0x2000 || p == 0x4000 || p == 0x8000,
            m == 0x0001 || m == 0x0002 || m == 0x0004 || m == 0x0008
            || m == 0x0010 || m == 0x0020 || m == 0x0040 || m == 0x0080
            || m == 0x0100 || m == 0x0200 || m == 0x0400 || m == 0x0800
            || m == 0x1000 || m == 0x2000 || m == 0x4000 || m == 0x8000,
    ;
}

pub proof fn lemma_member_subset(a: u16, b: u16, m: u16)
    requires
        a & b == a,
        member(a, m),
    ensures
        member(b, m),
{
    assert(b & m != 0) by (bit_vector)
        requires
            a & b == a,
            a & m != 0,
    ;
}

pub proof fn lemma_member_both(a: u16, b: u16, m: u16)
    requires
        member(a, m),
        member(b, m),
        one_hot(m),
    ensures
        a & b != 0,
{
    assert(a & b != 0) by (bit_vector)
        requires
            a & m != 0,
            b & m != 0,
            m == 0x0001 || m == 0x0002 || m == 0x0004 || m == 0x0008
            || m == 0x0010 || m == 0x0020 || m == 0x0040 || m == 0x0080
            || m == 0x0100 || m == 0x0200 || m == 0x0400 || m == 0x0800
            || m == 0x1000 || m == 0x2000 || m == 0x4000 || m == 0x8000,
    ;
}

/// A mask that is not zero has one of its sixteen bits set.
pub proof fn lemma_member_some(a: u16) -> (m: u16)
    requires
        a != 0,
    ensures
        one_hot(m),
        member(a, m),
{
    assert(a & 0x0001 != 0 || a & 0x0002 != 0 || a & 0x0004 != 0 || a & 0x0008 != 0
        || a & 0x0010 != 0 || a & 0x0020 != 0 || a & 0x0040 != 0 || a & 0x0080 != 0
        || a & 0x0100 != 0 || a & 0x0200 != 0 || a & 0x0400 != 0 || a & 0x0800 != 0
        || a & 0x1000 != 0 || a & 0x2000 != 0 || a & 0x4000 != 0 || a & 0x8000 != 0)
        by (bit_vector)
        requires
            a != 0,
    ;
    if a & 0x0001 != 0 { 0x0001 }
    else if a & 0x0002 != 0 { 0x0002 }
    else if a & 0x0004 != 0 { 0x0004 }
    else if a & 0x0008 != 0 { 0x0008 }
    else if a & 0x0010 != 0 { 0x0010 }
    else if a & 0x0020 != 0 { 0x0020 }
    else if a & 0x0040 != 0 { 0x0040 }
    else if a & 0x0080 != 0 { 0x0080 }
    else if a & 0x0100 != 0 { 0x0100 }
    else if a & 0x0200 != 0 { 0x0200 }
    else if a & 0x0400 != 0 { 0x0400 }
    else if a & 0x0800 != 0 { 0x0800 }
    else if a & 0x1000 != 0 { 0x1000 }
    else if a & 0x2000 != 0 { 0x2000 }
    else if a & 0x4000 != 0 { 0x4000 }
    else { 0x8000 }
}

/// Two masks with the same members are the same mask.
pub proof fn lemma_same_members(a: u16, b: u16)
    requires
        forall|m: u16| one_hot(m) ==> (#[trigger] member(a, m) <==> member(b, m)),
    ensures
        a == b,
{
    assert(member(a, 0x0001) <==> member(b, 0x0001));
    assert(member(a, 0x0002) <==> member(b, 0x0002));
    assert(member(a, 0x0004) <==> member(b, 0x0004));
    assert(member(a, 0x0008) <==> member(b, 0x0008));
    assert(member(a, 0x0010) <==> member(b, 0x0010));
    assert(member(a, 0x0020) <==> member(b, 0x0020));
    assert(member(a, 0x0040) <==> member(b, 0x0040));
    assert(member(a, 0x0080) <==> member(b, 0x0080));
    assert(member(a, 0x0100) <==> member(b, 0x0100));
    assert(member(a, 0x0200) <==> member(b, 0x0200));
    assert(member(a, 0x0400) <==> member(b, 0x0400));
    assert(member(a, 0x0800) <==> member(b, 0x0800));
    assert(member(a, 0x1000) <==> member(b, 0x1000));
    assert(member(a, 0x2000) <==> member(b, 0x2000));
    assert(member(a, 0x4000) <==> member(b, 0x4000));
    assert(member(a, 0x8000) <==> member(b, 0x8000));
    assert(a == b) by (bit_vector)
        requires
            (a & 0x0001 != 0) <==> (b & 0x0001 != 0),
            (a & 0x0002 != 0) <==> (b & 0x0002 != 0),
            (a & 0x0004 != 0) <==> (b & 0x0004 != 0),
            (a & 0x0008 != 0) <==> (b & 0x0008 != 0),
            (a & 0x0010 != 0) <==> (b & 0x0010 != 0),
            (a & 0x0020 != 0) <==> (b & 0x0020 != 0),
            (a & 0x0040 != 0) <==> (b & 0x0040 != 0),
            (a & 0x0080 != 0) <==> (b & 0x0080 != 0),
            (a & 0x0100 != 0) <==> (b & 0x0100 != 0),
            (a & 0x0200 != 0) <==> (b & 0x0200 != 0),
            (a & 0x0400 != 0) <==> (b & 0x0400 != 0),
            (a & 0x0800 != 0) <==> (b & 0x0800 != 0),
            (a & 0x1000 != 0) <==> (b & 0x1000 != 0),
            (a & 0x2000 != 0) <==> (b & 0x2000 != 0),
            (a & 0x4000 != 0) <==> (b & 0x4000 != 0),
            (a & 0x8000 != 0) <==> (b & 0x8000 != 0),
    ;
}

/// The two bits of a mask below `0x4000` that lie above it are clear, and
/// the other way round.
pub proof fn lemma_low_mask(a: u16)
    ensures
        a < 0x4000 <==> !member(a, 0x4000) && !member(a, 0x8000),
{
    assert(a < 0x4000 <==> (a & 0x4000 == 0 && a & 0x8000 == 0)) by (bit_vector);
}

} // verus!
