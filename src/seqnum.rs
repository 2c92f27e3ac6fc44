//! Sequence numbers live on a circle of 2^32 values; every comparison here
//! measures the forward distance from one number to another.
use vstd::prelude::*;

verus! {

/// The number of distinct sequence numbers.
pub const SEQ_SPACE: u64 = 0x1_0000_0000;

/// Half the sequence circle: a forward distance below it means "after".
pub const SEQ_HALF: u32 = 0x8000_0000;

/// How far `to` lies ahead of `from` when walking forward around the circle.
pub open spec fn seq_dist(from: u32, to: u32) -> nat {
    if to >= from {
        (to - from) as nat
    } else {
        (to - from + 0x1_0000_0000) as nat
    }
}

/// `a` comes strictly before `b` in serial-number order.
pub open spec fn seq_lt(a: u32, b: u32) -> bool {
    0 < seq_dist(a, b) && seq_dist(a, b) < 0x8000_0000
}

/// `a` comes before `b` or equals it in serial-number order.
pub open spec fn seq_le(a: u32, b: u32) -> bool {
    seq_dist(a, b) < 0x8000_0000
}

/// The sequence number `n` positions after `a`.
pub open spec fn seq_plus(a: u32, n: nat) -> u32 {
    ((a as nat + n) % 0x1_0000_0000) as u32
}

/// Forward distance from `from` to `to`.
pub fn distance(from: u32, to: u32) -> (r: u32)
    ensures
        r as nat == seq_dist(from, to),
{
    to.wrapping_sub(from)
}

/// The sequence number `n` positions after `a`.
pub fn advance(a: u32, n: u32) -> (r: u32)
    ensures
        r == seq_plus(a, n as nat),
{
    let r = a.wrapping_add(n);
    r
}

/// `a` comes strictly before `b` in serial-number order.
pub fn is_before(a: u32, b: u32) -> (r: bool)
    ensures
        r == seq_lt(a, b),
{
    let d = distance(a, b);
    0 < d && d < SEQ_HALF
}

/// `a` comes before `b` or equals it in serial-number order.
pub fn is_before_or_at(a: u32, b: u32) -> (r: bool)
    ensures
        r == seq_le(a, b),
{
    distance(a, b) < SEQ_HALF
}

/// `x` lies strictly after `start` and no further than `end`, walking forward
/// from `start`: the half-open range `(start, end]` on the circle.
pub fn is_in_range_incl(start: u32, x: u32, end: u32) -> (r: bool)
    ensures
        r == (0 < seq_dist(start, x) && seq_dist(start, x) <= seq_dist(start, end)),
{
    let dx = distance(start, x);
    0 < dx && dx <= distance(start, end)
}

} // verus!
