//! Venue rate-limit metadata and the token buckets built from it.
//!
//! The venue's exchange-information endpoint lists rate-limit rows; the
//! surrounding process fetches and decodes them and hands the rows here.
//! Two buckets come back: one for raw requests, one for request weight.

use vstd::prelude::*;

use crate::token_bucket::TokenBucket;

verus! {

/// One rate-limit row of the venue's exchange information.
pub struct RateLimit {
    /// Which limit the row sets, e.g. `RAW_REQUESTS` or `REQUEST_WEIGHT`.
    pub rate_limit_type: String,
    /// The unit of the row's interval: `SECOND`, `MINUTE`, `HOUR` or `DAY`.
    pub interval: String,
    /// How many units make one interval.
    pub interval_num: u32,
    /// Permits per interval.
    pub limit: u64,
}

/// Milliseconds in one interval unit; nothing for an unknown unit.
pub open spec fn spec_interval_ms(s: Seq<char>) -> Option<u64> {
    if s == "SECOND"@ {
        Some(1000u64)
    } else if s == "MINUTE"@ {
        Some(60_000u64)
    } else if s == "HOUR"@ {
        Some(3_600_000u64)
    } else if s == "DAY"@ {
        Some(86_400_000u64)
    } else {
        None
    }
}

/// Capacity and refill interval of the bucket one row asks for; nothing
/// when the row's interval unit is unknown (a malformed listing).
pub open spec fn spec_bucket_params(rl: RateLimit) -> Option<(u64, u64)> {
    match spec_interval_ms(rl.interval@) {
        Some(ms) => Some((rl.limit, (rl.interval_num * ms) as u64)),
        None => None,
    }
}

/// The row that decides a limit type: the last row listed under it, as a
/// keyed collection built from the listing would keep it.
pub open spec fn spec_last_of_type(limits: Seq<RateLimit>, t: Seq<char>) -> Option<RateLimit>
    decreases limits.len(),
{
    if limits.len() == 0 {
        None
    } else if limits.last().rate_limit_type@ == t {
        Some(limits.last())
    } else {
        spec_last_of_type(limits.drop_last(), t)
    }
}

/// The bucket parameters a listing yields for limit type `t`.
pub open spec fn spec_params_of_type(limits: Seq<RateLimit>, t: Seq<char>) -> Option<(u64, u64)> {
    match spec_last_of_type(limits, t) {
        Some(rl) => spec_bucket_params(rl),
        None => None,
    }
}

/// Milliseconds in one interval unit, by the venue's unit name.
pub fn interval_ms(interval: &String) -> (r: Option<u64>)
    ensures
        r == spec_interval_ms(interval@),
{
    if *interval == "SECOND".to_owned() {
        Some(1000)
    } else if *interval == "MINUTE".to_owned() {
        Some(60_000)
    } else if *interval == "HOUR".to_owned() {
        Some(3_600_000)
    } else if *interval == "DAY".to_owned() {
        Some(86_400_000)
    } else {
        None
    }
}

/// Capacity and refill interval of the bucket one row asks for.
fn bucket_params(rl: &RateLimit) -> (r: Option<(u64, u64)>)
    ensures
        r == spec_bucket_params(*rl),
{
    match interval_ms(&rl.interval) {
        Some(ms) => {
            proof {
                assert(ms <= 86_400_000);
                assert((rl.interval_num as u64) * ms <= u64::MAX) by (nonlinear_arith)
                    requires
                        rl.interval_num <= u32::MAX,
                        ms <= 86_400_000u64,
                {}
            }
            Some((rl.limit, (rl.interval_num as u64) * ms))
        },
        None => None,
    }
}

/// Build the raw-request and request-weight buckets from the venue's
/// rate-limit listing. For each of the two required limit types the last
/// row listed under it decides; nothing comes back when either type is
/// missing or its row carries an unknown interval unit (the caller
/// treats that as a malformed listing).
pub fn rate_limit_buckets(limits: &Vec<RateLimit>) -> (r: Option<(TokenBucket, TokenBucket)>)
    ensures
        ({
            let rp = spec_params_of_type(limits@, "RAW_REQUESTS"@);
            let wp = spec_params_of_type(limits@, "REQUEST_WEIGHT"@);
            match r {
                Some((rb, wb)) => {
                    &&& rp matches Some(p) && rb.spec_cap() == p.0 && rb.spec_refill_interval_ms()
                        == p.1
                    &&& wp matches Some(q) && wb.spec_cap() == q.0 && wb.spec_refill_interval_ms()
                        == q.1
                    &&& rb.spec_permits() == rb.spec_cap() && rb.wf()
                    &&& wb.spec_permits() == wb.spec_cap() && wb.wf()
                },
                None => rp is None || wp is None,
            }
        }),
{
    let raw_key = "RAW_REQUESTS".to_owned();
    let weight_key = "REQUEST_WEIGHT".to_owned();
    let mut raw: Option<(u64, u64)> = None;
    let mut weight: Option<(u64, u64)> = None;
    let mut i: usize = 0;
    while i < limits.len()
        invariant
            i <= limits@.len(),
            raw_key@ == "RAW_REQUESTS"@,
            weight_key@ == "REQUEST_WEIGHT"@,
            raw == spec_params_of_type(limits@.take(i as int), "RAW_REQUESTS"@),
            weight == spec_params_of_type(limits@.take(i as int), "REQUEST_WEIGHT"@),
        decreases limits@.len() - i,
    {
        proof {
            reveal_strlit("RAW_REQUESTS");
            reveal_strlit("REQUEST_WEIGHT");
            assert("RAW_REQUESTS"@.len() == 12);
            assert("REQUEST_WEIGHT"@.len() == 14);
            let post = limits@.take(i + 1 as int);
            assert(post.drop_last() =~= limits@.take(i as int));
            assert(post.last() == limits@[i as int]);
        }
        let rl = &limits[i];
        if rl.rate_limit_type == raw_key {
            raw = bucket_params(rl);
        } else if rl.rate_limit_type == weight_key {
            weight = bucket_params(rl);
        }
        i = i + 1;
    }
    proof {
        assert(limits@.take(limits@.len() as int) =~= limits@);
    }
    match (raw, weight) {
        (Some(rp), Some(wp)) => Some(
            (TokenBucket::new(rp.0, rp.1), TokenBucket::new(wp.0, wp.1)),
        ),
        _ => None,
    }
}

} // verus!
