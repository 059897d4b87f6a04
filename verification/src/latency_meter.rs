//! The latency meter's aggregation step.
//!
//! Producers send over-threshold latency samples to a channel; one
//! background task buffers them, and another wakes on a timer, reports
//! the arithmetic mean with the sample count, and clears the buffer.
//! The channel, the buffer lock and the timer live in the surrounding
//! process; the aggregate it reports is computed here.

use vstd::prelude::*;

verus! {

/// The exact sum of a sample buffer.
pub open spec fn sum_of(s: Seq<u64>) -> int
    decreases s.len(),
{
    if s.len() == 0 {
        0
    } else {
        sum_of(s.drop_last()) + s.last()
    }
}

/// The arithmetic mean of the buffered latency samples, in milliseconds;
/// nothing when the buffer is empty (the meter stays silent then).
pub fn mean_latency_ms(samples: &Vec<u64>) -> (r: Option<u64>)
    ensures
        samples@.len() == 0 ==> r is None,
        samples@.len() > 0 ==> r == Some((sum_of(samples@) / samples@.len() as int) as u64),
{
    if samples.len() == 0 {
        return None;
    }
    let mut acc: u128 = 0;
    let mut i: usize = 0;
    while i < samples.len()
        invariant
            i <= samples@.len(),
            acc == sum_of(samples@.take(i as int)),
            acc <= i * (u64::MAX as u128),
        decreases samples@.len() - i,
    {
        proof {
            let post = samples@.take(i + 1 as int);
            assert(post.drop_last() =~= samples@.take(i as int));
            assert(post.last() == samples@[i as int]);
        }
        acc = acc + samples[i] as u128;
        i = i + 1;
    }
    proof {
        assert(samples@.take(samples@.len() as int) =~= samples@);
    }
    let n = samples.len() as u128;
    let mean = acc / n;
    proof {
        assert(mean <= u64::MAX) by (nonlinear_arith)
            requires
                n > 0,
                acc <= n * (u64::MAX as u128),
                mean == acc / n,
        {}
    }
    Some(mean as u64)
}

} // verus!
