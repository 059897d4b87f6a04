//! Price-sorted book sides and the two-sided book.
//!
//! Prices and sizes are fixed-point integers: the number of smallest
//! representable price (or size) units. Callers pick the unit; the book
//! only compares prices and tests sizes against zero, so any fixed
//! scaling works.

use vstd::prelude::*;

verus! {

/// One price level: a price and the size resting at it.
/// A size of zero never rests in a side; it is the removal sentinel
/// in diff streams.
#[derive(Debug, Clone, Copy, PartialEq, Eq, Structural)]
pub struct Order {
    pub price: u64,
    pub size: u64,
}

/// `a` sorts strictly before `b` on a side: descending for bids
/// (`rev` true), ascending for asks (`rev` false).
pub open spec fn price_before(rev: bool, a: u64, b: u64) -> bool {
    if rev {
        a > b
    } else {
        a < b
    }
}

/// Prices are strictly monotonic in the side's direction; strictness
/// also rules out duplicate prices.
pub open spec fn price_sorted(rev: bool, s: Seq<Order>) -> bool {
    forall|i: int, j: int|
        0 <= i < j < s.len() ==> price_before(rev, s[i].price, s[j].price)
}

/// Index at which `p` resides or would be inserted: the length of the
/// prefix of entries sorting strictly before `p`.
pub open spec fn ins_index(rev: bool, s: Seq<Order>, p: u64) -> int
    decreases s.len(),
{
    if s.len() == 0 {
        0
    } else if price_before(rev, s[0].price, p) {
        1 + ins_index(rev, s.drop_first(), p)
    } else {
        0
    }
}

/// The side's contents after one incremental update, mirroring
/// `Side::diff_update`: a zero size removes the entry at that price (a
/// no-op if absent); otherwise the entry is overwritten in place, or
/// inserted at its sort position, dropping it if it would land outside
/// the depth bound and evicting the worst entry first when the side is
/// full.
pub open spec fn diff_updated(rev: bool, cap: usize, s: Seq<Order>, o: Order) -> Seq<Order> {
    let k = ins_index(rev, s, o.price);
    let hit = k < s.len() && s[k].price == o.price;
    if o.size == 0 {
        if hit {
            s.remove(k)
        } else {
            s
        }
    } else if hit {
        s.update(k, o)
    } else if k >= cap {
        s
    } else if s.len() == cap {
        s.drop_last().insert(k, o)
    } else {
        s.insert(k, o)
    }
}

/// `ins_index` is the unique cut point: everything before it sorts
/// strictly before `p`, and the entry at it (if any) does not.
proof fn lemma_ins_index_char(rev: bool, s: Seq<Order>, p: u64, k: int)
    requires
        0 <= k <= s.len(),
        forall|j: int| 0 <= j < k ==> price_before(rev, s[j].price, p),
        k < s.len() ==> !price_before(rev, s[k].price, p),
    ensures
        ins_index(rev, s, p) == k,
    decreases s.len(),
{
    if k == 0 {
        if s.len() > 0 {
            assert(!price_before(rev, s[0].price, p));
        }
    } else {
        assert(price_before(rev, s[0].price, p));
        let t = s.drop_first();
        assert forall|j: int| 0 <= j < k - 1 implies price_before(rev, t[j].price, p) by {
            assert(t[j] == s[j + 1]);
        }
        if k - 1 < t.len() {
            assert(t[k - 1] == s[k as int]);
        }
        lemma_ins_index_char(rev, t, p, k - 1);
    }
}

/// Removing an entry keeps a side sorted.
proof fn lemma_sorted_remove(rev: bool, s: Seq<Order>, k: int)
    requires
        price_sorted(rev, s),
        0 <= k < s.len(),
    ensures
        price_sorted(rev, s.remove(k)),
{
    let r = s.remove(k);
    assert forall|i: int, j: int| 0 <= i < j < r.len() implies price_before(
        rev,
        r[i].price,
        r[j].price,
    ) by {
        let i0: int = if i < k { i } else { i + 1 };
        let j0: int = if j < k { j } else { j + 1 };
        assert(r[i] == s[i0]);
        assert(r[j] == s[j0]);
        assert(price_before(rev, s[i0].price, s[j0].price));
    }
}

/// Inserting at the cut point keeps a side sorted.
proof fn lemma_sorted_insert(rev: bool, s: Seq<Order>, k: int, o: Order)
    requires
        price_sorted(rev, s),
        0 <= k <= s.len(),
        forall|j: int| 0 <= j < k ==> price_before(rev, s[j].price, o.price),
        forall|j: int| k <= j < s.len() ==> price_before(rev, o.price, s[j].price),
    ensures
        price_sorted(rev, s.insert(k, o)),
{
    let r = s.insert(k, o);
    assert forall|i: int, j: int| 0 <= i < j < r.len() implies price_before(
        rev,
        r[i].price,
        r[j].price,
    ) by {
        if i < k {
            assert(r[i] == s[i]);
        } else if i > k {
            assert(r[i] == s[i - 1]);
        }
        if j < k {
            assert(r[j] == s[j]);
        } else if j > k {
            assert(r[j] == s[j - 1]);
        }
    }
}

/// One half of a book: entries strictly sorted by price in the side's
/// direction, at most `cap` of them. `REV` is true for bids (descending
/// prices) and false for asks (ascending prices).
#[derive(Debug, Clone)]
pub struct Side<const REV: bool> {
    vec: Vec<Order>,
    cap: usize,
}

impl<const REV: bool> View for Side<REV> {
    type V = Seq<Order>;

    closed spec fn view(&self) -> Seq<Order> {
        self.vec@
    }
}

impl<const REV: bool> Side<REV> {
    /// Depth bound `C` of this side.
    pub closed spec fn spec_cap(&self) -> usize {
        self.cap
    }

    /// The side's invariant: sorted in direction, within capacity.
    pub open spec fn wf(&self) -> bool {
        price_sorted(REV, self@) && self@.len() <= self.spec_cap()
    }

    /// An empty side with depth bound `cap`.
    pub fn new(cap: usize) -> (r: Self)
        ensures
            r@ =~= Seq::<Order>::empty(),
            r.spec_cap() == cap,
            r.wf(),
    {
        Self { vec: Vec::with_capacity(cap), cap }
    }

    /// The resting orders, best price first.
    pub fn orders(&self) -> (r: &Vec<Order>)
        ensures
            r@ == self@,
    {
        &self.vec
    }

    /// Replace the whole side with `orders`, which the caller guarantees
    /// to be sorted in the side's direction and within capacity.
    pub fn shot_update(&mut self, orders: Vec<Order>)
        requires
            price_sorted(REV, orders@),
            orders@.len() <= old(self).spec_cap(),
        ensures
            final(self)@ == orders@,
            final(self).spec_cap() == old(self).spec_cap(),
            final(self).wf(),
    {
        self.vec = orders;
    }

    /// Apply one incremental update: remove on a zero size, otherwise
    /// overwrite or insert at the sort position, within the depth bound.
    pub fn diff_update(&mut self, order: Order)
        requires
            old(self).wf(),
        ensures
            final(self)@ == diff_updated(REV, old(self).spec_cap(), old(self)@, order),
            final(self).spec_cap() == old(self).spec_cap(),
            final(self).wf(),
    {
        let ghost s = self@;
        let ghost k = ins_index(REV, s, order.price);
        if order.size == 0 {
            match self.search(&order) {
                Ok(idx) => {
                    proof {
                        lemma_ins_index_char(REV, s, order.price, idx as int);
                        lemma_sorted_remove(REV, s, idx as int);
                    }
                    self.vec.remove(idx);
                },
                Err(idx) => {
                    proof {
                        lemma_ins_index_char(REV, s, order.price, idx as int);
                    }
                },
            }
        } else {
            match self.search(&order) {
                Ok(idx) => {
                    proof {
                        lemma_ins_index_char(REV, s, order.price, idx as int);
                    }
                    self.vec.set(idx, order);
                    proof {
                        assert forall|i: int, j: int|
                            0 <= i < j < self@.len() implies price_before(
                            REV,
                            self@[i].price,
                            self@[j].price,
                        ) by {
                            assert(self@[i].price == s[i].price);
                            assert(self@[j].price == s[j].price);
                        }
                    }
                },
                Err(idx) => {
                    proof {
                        lemma_ins_index_char(REV, s, order.price, idx as int);
                    }
                    if idx < self.cap {
                        if self.vec.len() == self.cap {
                            self.vec.pop();
                            proof {
                                assert(self@ =~= s.drop_last());
                            }
                        }
                        proof {
                            lemma_sorted_insert(REV, self@, idx as int, order);
                        }
                        self.vec.insert(idx, order);
                    }
                },
            }
        }
    }

    /// Binary search by price in the side's direction. `Ok(i)` holds the
    /// index of the entry at `order.price`; `Err(i)` the index where such
    /// an entry would be inserted.
    pub fn search(&self, order: &Order) -> (r: Result<usize, usize>)
        requires
            price_sorted(REV, self@),
        ensures
            match r {
                Ok(i) => i < self@.len() && self@[i as int].price == order.price,
                Err(i) => {
                    &&& i <= self@.len()
                    &&& forall|j: int| 0 <= j < i ==> price_before(REV, self@[j].price, order.price)
                    &&& forall|j: int|
                        i <= j < self@.len() ==> price_before(REV, order.price, self@[j].price)
                },
            },
            (r is Ok) <==> exists|j: int| 0 <= j < self@.len() && self@[j].price == order.price,
    {
        let p = order.price;
        let mut lo: usize = 0;
        let mut hi: usize = self.vec.len();
        while lo < hi
            invariant
                p == order.price,
                lo <= hi <= self@.len(),
                price_sorted(REV, self@),
                forall|j: int| 0 <= j < lo ==> price_before(REV, self@[j].price, p),
                forall|j: int| hi <= j < self@.len() ==> price_before(REV, p, self@[j].price),
            decreases hi - lo,
        {
            let mid = lo + (hi - lo) / 2;
            let mp = self.vec[mid].price;
            if mp == p {
                return Ok(mid);
            }
            let mid_first = if REV { mp > p } else { mp < p };
            if mid_first {
                proof {
                    assert forall|j: int| 0 <= j <= mid implies price_before(
                        REV,
                        self@[j].price,
                        p,
                    ) by {
                        if j < mid {
                            assert(price_before(REV, self@[j].price, self@[mid as int].price));
                        }
                    }
                }
                lo = mid + 1;
            } else {
                proof {
                    assert forall|j: int| mid <= j < self@.len() implies price_before(
                        REV,
                        p,
                        self@[j].price,
                    ) by {
                        if j > mid {
                            assert(price_before(REV, self@[mid as int].price, self@[j].price));
                        }
                    }
                }
                hi = mid;
            }
        }
        Err(lo)
    }
}

/// Strict order between every adjacent pair extends to every pair.
proof fn lemma_adjacent_before(rev: bool, s: Seq<Order>, i: int, j: int)
    requires
        forall|k: int| 0 <= k < s.len() - 1 ==> price_before(rev, #[trigger] s[k].price, s[k + 1].price),
        0 <= i < j < s.len(),
    ensures
        price_before(rev, s[i].price, s[j].price),
    decreases j - i,
{
    if j > i + 1 {
        lemma_adjacent_before(rev, s, i, j - 1);
        assert(price_before(rev, s[j - 1].price, s[j].price));
    }
}

/// Decide whether `orders` is strictly sorted in the direction `rev`
/// (descending for bids, ascending for asks), as a depth snapshot must
/// be before it may replace a side.
pub fn check_price_sorted(rev: bool, orders: &Vec<Order>) -> (r: bool)
    ensures
        r == price_sorted(rev, orders@),
{
    if orders.len() <= 1 {
        return true;
    }
    let mut i: usize = 0;
    while i < orders.len() - 1
        invariant
            orders@.len() >= 2,
            i <= orders@.len() - 1,
            forall|k: int| 0 <= k < i ==> price_before(rev, #[trigger] orders@[k].price, orders@[k + 1].price),
        decreases orders@.len() - i,
    {
        let a = orders[i].price;
        let b = orders[i + 1].price;
        let good = if rev {
            a > b
        } else {
            a < b
        };
        if !good {
            proof {
                assert(!price_before(rev, orders@[i as int].price, orders@[i + 1].price));
            }
            return false;
        }
        i = i + 1;
    }
    proof {
        assert forall|p: int, q: int|
            0 <= p < q < orders@.len() implies price_before(
            rev,
            orders@[p].price,
            orders@[q].price,
        ) by {
            lemma_adjacent_before(rev, orders@, p, q);
        }
    }
    true
}

/// Both halves of one pair's depth replica. The two sides share one
/// depth bound; the book does not arbitrate crossed feeds.
#[derive(Debug, Clone)]
pub struct Book {
    pub bids: Side<true>,
    pub asks: Side<false>,
}

impl Book {
    /// Both sides well-formed, with one shared depth bound.
    pub open spec fn wf(&self) -> bool {
        &&& self.bids.wf()
        &&& self.asks.wf()
        &&& self.bids.spec_cap() == cap_of(self)
        &&& self.asks.spec_cap() == cap_of(self)
    }

    /// An empty book with per-side depth bound `cap`.
    pub fn new(cap: usize) -> (r: Self)
        ensures
            r.bids@ =~= Seq::<Order>::empty(),
            r.asks@ =~= Seq::<Order>::empty(),
            cap_of(&r) == cap,
            r.wf(),
    {
        Self { bids: Side::new(cap), asks: Side::new(cap) }
    }

    /// The per-side depth bound.
    pub fn capacity(&self) -> (r: usize)
        ensures
            r == self.bids.spec_cap(),
    {
        self.bids.cap
    }
}

/// The book's per-side depth bound, as the bid side carries it.
pub open spec fn cap_of(book: &Book) -> usize {
    book.bids.spec_cap()
}

/// `ins_index` lands inside the sequence, everything before it sorts
/// strictly before `p`, and the entry at it (if any) does not.
pub proof fn lemma_ins_index_props(rev: bool, s: Seq<Order>, p: u64)
    ensures
        0 <= ins_index(rev, s, p) <= s.len(),
        forall|j: int| 0 <= j < ins_index(rev, s, p) ==> price_before(rev, s[j].price, p),
        ins_index(rev, s, p) < s.len() ==> !price_before(rev, s[ins_index(rev, s, p)].price, p),
    decreases s.len(),
{
    if s.len() > 0 && price_before(rev, s[0].price, p) {
        let t = s.drop_first();
        lemma_ins_index_props(rev, t, p);
        assert forall|j: int| 0 <= j < ins_index(rev, s, p) implies price_before(
            rev,
            s[j].price,
            p,
        ) by {
            if j > 0 {
                assert(s[j] == t[j - 1]);
            }
        }
        if ins_index(rev, s, p) < s.len() {
            assert(s[ins_index(rev, s, p)] == t[ins_index(rev, t, p)]);
        }
    }
}

/// A well-formed side is strictly monotonic in its direction, holds no
/// two entries at one price, and stays within its depth bound. Since
/// `new`, `shot_update` and `diff_update` each keep `wf`, this holds
/// after any sequence of those operations.
pub proof fn lemma_side_well_formed<const REV: bool>(s: &Side<REV>)
    requires
        s.wf(),
    ensures
        forall|i: int, j: int|
            0 <= i < j < s@.len() ==> price_before(REV, s@[i].price, s@[j].price),
        forall|i: int, j: int| 0 <= i < j < s@.len() ==> s@[i].price != s@[j].price,
        s@.len() <= s.spec_cap(),
{
    assert forall|i: int, j: int| 0 <= i < j < s@.len() implies s@[i].price != s@[j].price by {
        assert(price_before(REV, s@[i].price, s@[j].price));
    }
}

/// A zero-size update at a price the side does not hold leaves the side
/// exactly as it was.
pub proof fn lemma_remove_absent_noop(rev: bool, cap: usize, s: Seq<Order>, o: Order)
    requires
        o.size == 0,
        forall|i: int| 0 <= i < s.len() ==> s[i].price != o.price,
    ensures
        diff_updated(rev, cap, s, o) == s,
{
    lemma_ins_index_props(rev, s, o.price);
}

/// A new price that would land at or beyond the depth bound is dropped:
/// the side, and so its top entries, are unchanged.
pub proof fn lemma_insert_beyond_depth_noop(rev: bool, cap: usize, s: Seq<Order>, o: Order)
    requires
        o.size != 0,
        s.len() <= cap,
        ins_index(rev, s, o.price) >= cap,
    ensures
        diff_updated(rev, cap, s, o) == s,
{
    lemma_ins_index_props(rev, s, o.price);
}

/// A new price landing inside a full side evicts the worst entry: the
/// result is still full and its last entry sorts strictly better than
/// the entry that was last before.
pub proof fn lemma_full_insert_evicts_worst(rev: bool, cap: usize, s: Seq<Order>, o: Order)
    requires
        price_sorted(rev, s),
        s.len() == cap,
        o.size != 0,
        ins_index(rev, s, o.price) < cap,
        forall|i: int| 0 <= i < s.len() ==> s[i].price != o.price,
    ensures
        diff_updated(rev, cap, s, o).len() == cap,
        price_before(rev, diff_updated(rev, cap, s, o).last().price, s.last().price),
{
    lemma_ins_index_props(rev, s, o.price);
    let k = ins_index(rev, s, o.price);
    let r = diff_updated(rev, cap, s, o);
    assert(r == s.drop_last().insert(k, o));
    if k == s.len() - 1 {
        assert(r.last() == o);
        assert(!price_before(rev, s[k].price, o.price));
        assert(price_before(rev, o.price, s[k].price));
    } else {
        assert(r.last() == s[s.len() - 2]);
    }
}

} // verus!

