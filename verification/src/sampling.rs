use vstd::prelude::*;

verus! {

/// Only every `SAMPLE_INTERVAL`-th checkpoint is indexed: about one hundred
/// samples a day at roughly 345k checkpoints a day.
pub const SAMPLE_INTERVAL: u64 = 3455;

/// A checkpoint is sampled when its sequence number is a multiple of
/// `SAMPLE_INTERVAL`, is at least `start`, and, unless `end` is zero
/// (no upper bound), is at most `end`.
pub open spec fn sampled(seq: u64, start: u64, end: u64) -> bool {
    &&& seq % SAMPLE_INTERVAL == 0
    &&& seq >= start
    &&& (end == 0 || seq <= end)
}

/// Decides whether the checkpoint with sequence number `seq` is indexed
/// for the configured range `start..=end` (`end == 0` leaves it open).
pub fn is_sampled(seq: u64, start: u64, end: u64) -> (r: bool)
    ensures
        r == sampled(seq, start, end),
{
    if seq % SAMPLE_INTERVAL != 0 {
        return false;
    }
    if seq < start {
        return false;
    }
    if end > 0 && seq > end {
        return false;
    }
    true
}

/// Two different sampled checkpoints are at least `SAMPLE_INTERVAL`
/// sequence numbers apart, and every sampled checkpoint lies in the
/// configured range.
pub proof fn lemma_samples_are_spaced(a: u64, b: u64, start: u64, end: u64)
    requires
        sampled(a, start, end),
        sampled(b, start, end),
        a < b,
    ensures
        b - a >= SAMPLE_INTERVAL,
        start <= a,
        end != 0 ==> b <= end,
{
    let p = a / SAMPLE_INTERVAL;
    let q = b / SAMPLE_INTERVAL;
    assert(a == SAMPLE_INTERVAL * p) by (nonlinear_arith)
        requires
            a % SAMPLE_INTERVAL == 0,
            p == a / SAMPLE_INTERVAL,
    ;
    assert(b == SAMPLE_INTERVAL * q) by (nonlinear_arith)
        requires
            b % SAMPLE_INTERVAL == 0,
            q == b / SAMPLE_INTERVAL,
    ;
    assert(b - a >= SAMPLE_INTERVAL) by (nonlinear_arith)
        requires
            a == SAMPLE_INTERVAL * p,
            b == SAMPLE_INTERVAL * q,
            a < b,
    ;
}

/// A closed range whose end lies before its start samples nothing.
pub proof fn lemma_inverted_range_samples_nothing(seq: u64, start: u64, end: u64)
    requires
        end != 0,
        end < start,
    ensures
        !sampled(seq, start, end),
{
}

/// Exactly the multiples of 3455 within the range are sampled: with no
/// upper bound (`end == 0`) every multiple from `start` on, otherwise every
/// multiple from `start` up to and including `end`.
pub proof fn lemma_sampled_exactly_multiples_in_range(q: u64, r: u64, start: u64, end: u64)
    requires
        3455 * q + r <= u64::MAX,
        r < 3455,
    ensures
        r != 0 ==> !sampled((3455 * q + r) as u64, start, end),
        r == 0 ==> (sampled((3455 * q) as u64, start, end) <==> (start <= 3455 * q && (end == 0 || 3455 * q <= end))),
{
    let seq = (3455 * q + r) as u64;
    assert(seq % 3455 == r) by (nonlinear_arith)
        requires
            seq == 3455 * q + r,
            r < 3455,
    ;
}

} // verus!
