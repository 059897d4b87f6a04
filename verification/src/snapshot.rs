//! The REST depth snapshot and the request weight its fetch costs.
//!
//! The fetch itself is an HTTPS call made by the surrounding process;
//! before it, one permit is taken from the raw-request bucket and
//! `snapshot_weight(depth)` permits from the request-weight bucket.

use vstd::prelude::*;

use crate::book::Order;

verus! {

/// A full depth snapshot, tagged with the venue's monotonic update id.
/// Both sides are sorted in their direction, best price first.
pub struct Snapshot {
    pub last_update_id: u64,
    pub bids: Vec<Order>,
    pub asks: Vec<Order>,
}

/// The venue's request weight for a depth snapshot of `size` levels.
pub open spec fn spec_snapshot_weight(size: usize) -> u64 {
    if size <= 100 {
        5
    } else if size <= 500 {
        25
    } else if size <= 1000 {
        50
    } else {
        250
    }
}

/// How many request-weight permits a depth snapshot of `size` levels
/// costs.
pub fn snapshot_weight(size: usize) -> (w: u64)
    ensures
        w == spec_snapshot_weight(size),
{
    if size <= 100 {
        5
    } else if size <= 500 {
        25
    } else if size <= 1000 {
        50
    } else {
        250
    }
}

} // verus!
