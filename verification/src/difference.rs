//! Reconciliation of a REST depth snapshot with the stream of diff
//! events, per pair.
//!
//! The worker that owns a pair's book runs this state machine: replace
//! the book from a snapshot, discard events the snapshot already covers,
//! find the bridging event, then demand gap-free update ids. The
//! surrounding process fetches snapshots, receives events and holds the
//! book's lock; every decision and every book mutation is made here.

use vstd::prelude::*;

use crate::book::Book;
use crate::book::Order;
use crate::book::cap_of;
use crate::book::diff_updated;
use crate::book::price_sorted;
use crate::pair::Pair;
use crate::snapshot::Snapshot;

verus! {

/// One incremental depth event. `first_update_id ..= final_update_id`
/// is the inclusive span of book mutations the event carries; `symbol`
/// is the venue's event-symbol form of the pair.
pub struct DiffEvent {
    pub event_time_ms: u64,
    pub symbol: String,
    pub first_update_id: u64,
    pub final_update_id: u64,
    pub bids: Vec<Order>,
    pub asks: Vec<Order>,
}

/// Where a pair's worker stands between snapshots and events.
#[derive(Debug, Clone, Copy, PartialEq, Eq, Structural)]
pub enum SyncState {
    /// A fresh snapshot must be fetched before any event is applied.
    NeedSnapshot,
    /// A snapshot with id `snapshot_id` is in the book; the bridging
    /// event has not arrived yet.
    Aligning { snapshot_id: u64 },
    /// Bridged; `prev_u` is the last applied event's final update id.
    Streaming { prev_u: u64 },
}

/// What became of one inbound event.
#[derive(Debug, Clone, Copy, PartialEq, Eq, Structural)]
pub enum EventOutcome {
    /// The snapshot already covers the event; it was dropped.
    Discarded,
    /// An update-id gap: the book is stale and a fresh snapshot is due.
    Gap,
    /// The event's updates were applied to the book.
    Applied,
}

/// A side's contents after applying a sequence of incremental updates
/// in order.
pub open spec fn apply_diffs(rev: bool, cap: usize, s: Seq<Order>, updates: Seq<Order>) -> Seq<
    Order,
>
    decreases updates.len(),
{
    if updates.len() == 0 {
        s
    } else {
        diff_updated(rev, cap, apply_diffs(rev, cap, s, updates.drop_last()), updates.last())
    }
}

/// How `on_event` treats one event in state `state`; `true` only for
/// the reading states.
pub open spec fn event_transition(
    state: SyncState,
    book_before: Book,
    book_after: Book,
    event: &DiffEvent,
    r: (SyncState, EventOutcome),
) -> bool {
    match state {
        SyncState::NeedSnapshot => false,
        SyncState::Aligning { snapshot_id } => {
            if event.final_update_id <= snapshot_id {
                r == (state, EventOutcome::Discarded) && book_after == book_before
            } else if event.first_update_id > snapshot_id + 1 {
                r == (SyncState::NeedSnapshot, EventOutcome::Gap) && book_after == book_before
            } else {
                r == (
                    SyncState::Streaming { prev_u: event.final_update_id },
                    EventOutcome::Applied,
                ) && book_applied(book_before, book_after, event)
            }
        },
        SyncState::Streaming { prev_u } => {
            if event.first_update_id != prev_u + 1 {
                r == (SyncState::NeedSnapshot, EventOutcome::Gap) && book_after == book_before
            } else {
                r == (
                    SyncState::Streaming { prev_u: event.final_update_id },
                    EventOutcome::Applied,
                ) && book_applied(book_before, book_after, event)
            }
        },
    }
}

/// `after` is `before` with one event's bid and ask updates applied.
pub open spec fn book_applied(before: Book, after: Book, event: &DiffEvent) -> bool {
    &&& after.bids@ == apply_diffs(true, cap_of(&before), before.bids@, event.bids@)
    &&& after.asks@ == apply_diffs(false, cap_of(&before), before.asks@, event.asks@)
    &&& cap_of(&after) == cap_of(&before)
}

/// Replace the whole book from a snapshot. The caller (the venue feed)
/// guarantees both snapshot sides are sorted and within the book's
/// depth bound. Leaves the worker aligning against the snapshot's id.
pub fn apply_snapshot(book: &mut Book, snapshot: Snapshot) -> (r: SyncState)
    requires
        old(book).wf(),
        price_sorted(true, snapshot.bids@),
        price_sorted(false, snapshot.asks@),
        snapshot.bids@.len() <= cap_of(old(book)),
        snapshot.asks@.len() <= cap_of(old(book)),
    ensures
        final(book).bids@ == snapshot.bids@,
        final(book).asks@ == snapshot.asks@,
        cap_of(final(book)) == cap_of(old(book)),
        final(book).wf(),
        r == (SyncState::Aligning { snapshot_id: snapshot.last_update_id }),
{
    book.bids.shot_update(snapshot.bids);
    book.asks.shot_update(snapshot.asks);
    SyncState::Aligning { snapshot_id: snapshot.last_update_id }
}

/// Apply one event's updates to the book: each bid update onto the bid
/// side, then each ask update onto the ask side, in event order.
pub fn apply_event(book: &mut Book, event: &DiffEvent)
    requires
        old(book).wf(),
    ensures
        book_applied(*old(book), *final(book), event),
        final(book).wf(),
{
    let ghost bids0 = book.bids@;
    let ghost asks0 = book.asks@;
    let ghost cap = cap_of(book);
    let mut i: usize = 0;
    while i < event.bids.len()
        invariant
            old(book).wf(),
            book.wf(),
            i <= event.bids@.len(),
            cap == cap_of(old(book)),
            cap_of(book) == cap,
            book.bids@ == apply_diffs(true, cap, bids0, event.bids@.take(i as int)),
            book.asks@ == asks0,
        decreases event.bids@.len() - i,
    {
        proof {
            let post = event.bids@.take(i + 1 as int);
            assert(post.drop_last() =~= event.bids@.take(i as int));
            assert(post.last() == event.bids@[i as int]);
        }
        book.bids.diff_update(event.bids[i]);
        i = i + 1;
    }
    proof {
        assert(event.bids@.take(event.bids@.len() as int) =~= event.bids@);
    }
    let mut j: usize = 0;
    while j < event.asks.len()
        invariant
            old(book).wf(),
            book.wf(),
            j <= event.asks@.len(),
            cap == cap_of(old(book)),
            cap_of(book) == cap,
            book.bids@ == apply_diffs(true, cap, bids0, event.bids@),
            book.asks@ == apply_diffs(false, cap, asks0, event.asks@.take(j as int)),
        decreases event.asks@.len() - j,
    {
        proof {
            let post = event.asks@.take(j + 1 as int);
            assert(post.drop_last() =~= event.asks@.take(j as int));
            assert(post.last() == event.asks@[j as int]);
        }
        book.asks.diff_update(event.asks[j]);
        j = j + 1;
    }
    proof {
        assert(event.asks@.take(event.asks@.len() as int) =~= event.asks@);
    }
}

/// Take one inbound event in a reading state: discard what the snapshot
/// covers, fall back to a fresh snapshot on an update-id gap, and apply
/// the bridging event and every gap-free successor.
pub fn on_event(state: SyncState, book: &mut Book, event: &DiffEvent) -> (r: (
    SyncState,
    EventOutcome,
))
    requires
        old(book).wf(),
        !(state is NeedSnapshot),
    ensures
        final(book).wf(),
        event_transition(state, *old(book), *final(book), event, r),
{
    match state {
        SyncState::NeedSnapshot => {
            // Unreachable by the precondition; events are only read while
            // aligning or streaming.
            (SyncState::NeedSnapshot, EventOutcome::Discarded)
        },
        SyncState::Aligning { snapshot_id } => {
            if event.final_update_id <= snapshot_id {
                (state, EventOutcome::Discarded)
            } else if snapshot_id < u64::MAX && event.first_update_id > snapshot_id + 1 {
                (SyncState::NeedSnapshot, EventOutcome::Gap)
            } else {
                apply_event(book, event);
                (SyncState::Streaming { prev_u: event.final_update_id }, EventOutcome::Applied)
            }
        },
        SyncState::Streaming { prev_u } => {
            if !(prev_u < u64::MAX && event.first_update_id == prev_u + 1) {
                (SyncState::NeedSnapshot, EventOutcome::Gap)
            } else {
                apply_event(book, event);
                (SyncState::Streaming { prev_u: event.final_update_id }, EventOutcome::Applied)
            }
        },
    }
}

/// One pair's entry in the multiplex subscription: the fused symbol,
/// the depth-stream name, and the update-speed suffix.
pub open spec fn spec_stream_item(p: Pair, speed: Seq<char>) -> Seq<char> {
    p.ba@ + p.qa@ + "@depth@"@ + speed
}

/// The `/`-joined stream list of a chunk of pairs, in chunk order.
pub open spec fn spec_streams(ps: Seq<Pair>, speed: Seq<char>) -> Seq<char>
    decreases ps.len(),
{
    if ps.len() == 0 {
        Seq::empty()
    } else if ps.len() == 1 {
        spec_stream_item(ps[0], speed)
    } else {
        spec_streams(ps.drop_last(), speed) + "/"@ + spec_stream_item(ps.last(), speed)
    }
}

/// The multiplex websocket URL one connection subscribes with, carrying
/// every pair of its chunk at the configured update speed.
pub fn stream_url(pairs: &Vec<Pair>, update_speed: &str) -> (r: String)
    ensures
        r@ == "wss://data-stream.binance.vision/stream?streams="@ + spec_streams(
            pairs@,
            update_speed@,
        ),
{
    let mut s = "wss://data-stream.binance.vision/stream?streams=".to_owned();
    let ghost prefix = s@;
    let mut i: usize = 0;
    while i < pairs.len()
        invariant
            i <= pairs@.len(),
            s@ == prefix + spec_streams(pairs@.take(i as int), update_speed@),
        decreases pairs@.len() - i,
    {
        proof {
            let post = pairs@.take(i + 1 as int);
            assert(post.drop_last() =~= pairs@.take(i as int));
            assert(post.last() == pairs@[i as int]);
        }
        if i > 0 {
            s.append("/");
        }
        let p = &pairs[i];
        let f = p.fused();
        s.append(f.as_str());
        s.append("@depth@");
        s.append(update_speed);
        proof {
            if i == 0 {
                assert(pairs@.take(1).len() == 1);
                assert(s@ =~= prefix + spec_streams(pairs@.take(1), update_speed@));
            } else {
                assert(s@ =~= prefix + spec_streams(pairs@.take(i + 1 as int), update_speed@));
            }
        }
        i = i + 1;
    }
    proof {
        assert(pairs@.take(pairs@.len() as int) =~= pairs@);
    }
    s
}

/// How far behind (or ahead of) the wall clock an event is, against the
/// configured thresholds.
#[derive(Debug, Clone, Copy, PartialEq, Eq, Structural)]
pub enum LatencyVerdict {
    /// Within both thresholds; nothing to report.
    Acceptable,
    /// The event is older than `max_latency_ms`: one sample for the
    /// latency meter.
    Slow { latency_ms: u64 },
    /// The event is ahead of the wall clock by more than
    /// `max_latency_error_ms`: a per-pair error to log.
    Skewed { skew_ms: u64 },
}

/// The verdict on an event stamped `event_time_ms` seen at `now_ms`.
pub open spec fn spec_classify_latency(
    now_ms: u64,
    event_time_ms: u64,
    max_latency_ms: u64,
    max_latency_error_ms: u64,
) -> LatencyVerdict {
    if now_ms >= event_time_ms {
        if now_ms - event_time_ms > max_latency_ms {
            LatencyVerdict::Slow { latency_ms: (now_ms - event_time_ms) as u64 }
        } else {
            LatencyVerdict::Acceptable
        }
    } else {
        if event_time_ms - now_ms > max_latency_error_ms {
            LatencyVerdict::Skewed { skew_ms: (event_time_ms - now_ms) as u64 }
        } else {
            LatencyVerdict::Acceptable
        }
    }
}

/// Decide what the latency check reports for one event: a meter sample
/// when the event is over `max_latency_ms` old, an error when the wall
/// clock is behind the event by more than `max_latency_error_ms`, and
/// nothing otherwise.
pub fn classify_latency(
    now_ms: u64,
    event_time_ms: u64,
    max_latency_ms: u64,
    max_latency_error_ms: u64,
) -> (r: LatencyVerdict)
    ensures
        r == spec_classify_latency(now_ms, event_time_ms, max_latency_ms, max_latency_error_ms),
{
    if now_ms >= event_time_ms {
        let latency = now_ms - event_time_ms;
        if latency > max_latency_ms {
            LatencyVerdict::Slow { latency_ms: latency }
        } else {
            LatencyVerdict::Acceptable
        }
    } else {
        let skew = event_time_ms - now_ms;
        if skew > max_latency_error_ms {
            LatencyVerdict::Skewed { skew_ms: skew }
        } else {
            LatencyVerdict::Acceptable
        }
    }
}

} // verus!
