//! The order book of one market, the changes seen in it, and its price history.

use std::collections::VecDeque;
use vstd::prelude::*;

use crate::bits::{highest, holds, is_top, lemma_below, lemma_empty, lemma_insert, lemma_remove, lemma_same_set};
use crate::seqs::lemma_filter_none;
use crate::time::Timestamp;

verus! {

/// The two contracts of a market.
#[derive(Debug, Clone, Copy, PartialEq, Eq, Structural)]
pub enum Side {
    Yes,
    No,
}

/// Prices at which an order can rest.
pub open spec fn tradable(price: int) -> bool {
    1 <= price <= 99
}

/// The resting bids for one contract, by price in cents.
#[derive(Debug, Clone)]
pub struct BookSide {
    pub quantities: [i64; 100],
    pub occupied: u128,
    pub best_bid: i64,
    pub total_qty: i64,
}

/// The quantity that a snapshot leaves at `price`: that of the last level
/// given for it, or none.
pub open spec fn snapshot_quantity(levels: Seq<(i64, i64)>, price: int) -> i64
    decreases levels.len(),
{
    if levels.len() == 0 {
        0
    } else if levels.last().0 == price {
        levels.last().1
    } else {
        snapshot_quantity(levels.drop_last(), price)
    }
}

/// Whether a snapshot names a price.
pub open spec fn named(levels: Seq<(i64, i64)>, price: int) -> bool {
    exists|i: int| 0 <= i < levels.len() && (#[trigger] levels[i]).0 == price
}

/// Whether the price of a level is not named again after it.
pub open spec fn named_last(levels: Seq<(i64, i64)>, i: int) -> bool {
    forall|j: int| i < j < levels.len() ==> (#[trigger] levels[j]).0 != levels[i].0
}

proof fn lemma_last_named(levels: Seq<(i64, i64)>, i: int)
    requires
        0 <= i < levels.len(),
        named_last(levels, i),
    ensures
        snapshot_quantity(levels, levels[i].0 as int) == levels[i].1,
    decreases levels.len(),
{
    let t = levels.drop_last();
    if i < t.len() {
        assert forall|j: int| i < j < t.len() implies (#[trigger] t[j]).0 != t[i].0 by {
            assert(levels[j] == t[j]);
        }
        lemma_last_named(t, i);
        assert(levels[levels.len() - 1].0 != levels[i].0);
    }
}

proof fn lemma_not_named(levels: Seq<(i64, i64)>, p: int)
    requires
        !named(levels, p),
    ensures
        snapshot_quantity(levels, p) == 0,
    decreases levels.len(),
{
    if levels.len() > 0 {
        let t = levels.drop_last();
        assert(levels[levels.len() - 1].0 != p);
        assert forall|i: int| 0 <= i < t.len() implies (#[trigger] t[i]).0 != p by {
            assert(levels[i] == t[i]);
        }
        lemma_not_named(t, p);
    }
}

/// Whether a snapshot gives some quantity at `price`.
pub open spec fn snapshot_occupies(levels: Seq<(i64, i64)>, price: int) -> bool {
    exists|i: int| 0 <= i < levels.len() && (#[trigger] levels[i]).0 == price && levels[i].1 > 0
}

/// The sum of the quantities that a snapshot gives at tradable prices.
pub open spec fn snapshot_total(levels: Seq<(i64, i64)>) -> int
    decreases levels.len(),
{
    if levels.len() == 0 {
        0
    } else {
        snapshot_total(levels.drop_last()) + if tradable(levels.last().0 as int) {
            levels.last().1 as int
        } else {
            0
        }
    }
}

/// Whether `x` is a value of `i64`.
pub open spec fn fits(x: int) -> bool {
    i64::MIN <= x <= i64::MAX
}

/// Whether the quantities of a snapshot can be added up one by one.
pub open spec fn snapshot_fits(levels: Seq<(i64, i64)>) -> bool {
    forall|k: int| 0 <= k <= levels.len() ==> fits(#[trigger] snapshot_total(levels.take(k)))
}

/// The sum of the quantities at the prices from `lo` up to, not including, `hi`.
pub open spec fn depth(quantities: Seq<i64>, lo: int, hi: int) -> int
    decreases hi - lo,
{
    if lo >= hi {
        0
    } else {
        depth(quantities, lo, hi - 1) + quantities[hi - 1]
    }
}

impl BookSide {
    /// Only tradable prices are marked, and the best bid is the highest of them.
    pub open spec fn wf(&self) -> bool {
        &&& forall|p: int| #[trigger] holds(self.occupied, p) ==> tradable(p)
        &&& is_top(self.occupied, self.best_bid as int)
    }

    /// The marks, the quantities and the total agree with each other.
    pub open spec fn consistent(&self) -> bool {
        &&& self.wf()
        &&& forall|p: int| tradable(p) ==> (holds(self.occupied, p) <==> self.quantities@[p] > 0)
        &&& forall|p: int| 0 <= p < 100 ==> self.quantities@[p] >= 0
        &&& self.quantities@[0] == 0
        &&& self.total_qty == depth(self.quantities@, 0, 100)
    }

    /// Whether this is the side that a snapshot describes.
    pub open spec fn is_snapshot(&self, levels: Seq<(i64, i64)>) -> bool {
        &&& self.wf()
        &&& self.quantities@ == Seq::new(
            100,
            |p: int|
                if tradable(p) {
                    snapshot_quantity(levels, p)
                } else {
                    0
                },
        )
        &&& forall|p: int|
            #[trigger] holds(self.occupied, p) <==> tradable(p) && snapshot_occupies(levels, p)
        &&& self.total_qty == snapshot_total(levels)
    }

    /// Whether a change of quantity can be computed in 64 bits.
    pub open spec fn delta_fits(&self, price: i64, delta: i64) -> bool {
        tradable(price as int) ==> {
            let was = self.quantities@[price as int];
            let now = changed_quantity(was, delta);
            fits(was + delta) && fits(now - was) && fits(self.total_qty + (now - was))
        }
    }

    /// Whether this is the side `before` with the quantity at one price changed.
    pub open spec fn is_change_of(&self, before: &BookSide, price: i64, delta: i64) -> bool {
        let was = before.quantities@[price as int];
        let now = changed_quantity(was, delta);
        &&& self.wf()
        &&& !tradable(price as int) ==> *self == *before
        &&& tradable(price as int) ==> {
            &&& self.quantities@ == before.quantities@.update(price as int, now as i64)
            &&& self.total_qty == before.total_qty + (now - was)
            &&& forall|p: int|
                #[trigger] holds(self.occupied, p) <==> if p == price {
                    now > 0
                } else {
                    holds(before.occupied, p)
                }
        }
    }

    /// The `n` best levels at or below `price`, best first.
    pub open spec fn levels_from(&self, price: int, n: int) -> Seq<(i64, i64)>
        decreases price + 1,
    {
        if price < 0 || n <= 0 {
            seq![]
        } else if holds(self.occupied, price) {
            seq![(price as i64, self.quantities@[price])] + self.levels_from(price - 1, n - 1)
        } else {
            self.levels_from(price - 1, n)
        }
    }

    /// An empty side.
    pub fn new() -> (r: BookSide)
        ensures
            r.consistent(),
            r.quantities@ == Seq::new(100, |p: int| 0i64),
            r.occupied == 0,
            r.best_bid == 0,
            r.total_qty == 0,
    {
        let r = BookSide { quantities: [0;100], occupied: 0, best_bid: 0, total_qty: 0 };
        proof {
            lemma_empty();
            lemma_depth_zero(r.quantities@, 100);
        }
        r
    }

    fn recompute_best_bid(&mut self)
        requires
            forall|p: int| #[trigger] holds(old(self).occupied, p) ==> tradable(p),
        ensures
            final(self).wf(),
            final(self).quantities == old(self).quantities,
            final(self).occupied == old(self).occupied,
            final(self).total_qty == old(self).total_qty,
    {
        if self.occupied == 0 {
            proof {
                lemma_empty();
            }
            self.best_bid = 0;
        } else {
            self.best_bid = highest(self.occupied);
        }
    }

    /// Replaces the side by a list of levels. Levels at prices that cannot be
    /// traded are left out; of several levels at one price the last one counts
    /// for the quantity, any for the mark, and all of them for the total.
    pub fn apply_snapshot(&mut self, levels: &[(i64, i64)])
        requires
            snapshot_fits(levels@),
        ensures
            final(self).is_snapshot(levels@),
            forall|i: int|
                0 <= i < levels@.len() && 1 <= levels@[i].0 <= 99 && named_last(levels@, i)
                    ==> final(self).quantities@[(#[trigger] levels@[i]).0 as int] == levels@[i].1,
            forall|p: int|
                0 <= p < 100 && (p == 0 || !named(levels@, p))
                    ==> #[trigger] final(self).quantities@[p] == 0,
            forall|p: int|
                #[trigger] holds(final(self).occupied, p) <==> 1 <= p <= 99 && exists|i: int|
                    0 <= i < levels@.len() && (#[trigger] levels@[i]).0 == p && levels@[i].1 > 0,
            forall|p: int| #[trigger] holds(final(self).occupied, p) ==> p <= final(self).best_bid,
            final(self).best_bid != 0 ==> holds(
                final(self).occupied,
                final(self).best_bid as int,
            ),
    {
        self.quantities = [0;100];
        self.occupied = 0;
        self.total_qty = 0;
        proof {
            lemma_empty();
            assert(levels@.take(0) =~= seq![]);
        }
        let mut i: usize = 0;
        while i < levels.len()
            invariant
                i <= levels@.len(),
                snapshot_fits(levels@),
                self.quantities@ == Seq::new(
                    100,
                    |p: int|
                        if tradable(p) {
                            snapshot_quantity(levels@.take(i as int), p)
                        } else {
                            0
                        },
                ),
                forall|p: int|
                    #[trigger] holds(self.occupied, p) <==> tradable(p) && snapshot_occupies(
                        levels@.take(i as int),
                        p,
                    ),
                self.total_qty == snapshot_total(levels@.take(i as int)),
            decreases levels@.len() - i,
        {
            let price: i64 = levels[i].0;
            let qty: i64 = levels[i].1;
            let ghost before = levels@.take(i as int);
            let ghost upto = levels@.take(i + 1);
            let ghost was = *self;
            proof {
                assert(upto.drop_last() =~= before);
                assert(upto.last() == levels@[i as int]);
                assert(fits(snapshot_total(upto)));
            }
            if price >= 1 && price <= 99 {
                self.quantities[price as usize] = qty;
                self.total_qty = self.total_qty + qty;
                if qty > 0 {
                    self.occupied = self.occupied | (1u128 << (price as u128));
                }
            }
            proof {
                if tradable(price as int) && qty > 0 {
                    lemma_insert(was.occupied, price as u128);
                }
                assert forall|p: int| tradable(p) implies (snapshot_occupies(upto, p) <==> (
                snapshot_occupies(before, p) || (p == price && qty > 0))) by {
                    if snapshot_occupies(before, p) {
                        let k = choose|k: int|
                            0 <= k < before.len() && (#[trigger] before[k]).0 == p && before[k].1
                                > 0;
                        assert(upto[k] == before[k]);
                    }
                    if p == price && qty > 0 {
                        assert(upto[i as int] == levels@[i as int]);
                    }
                    if snapshot_occupies(upto, p) {
                        let k = choose|k: int|
                            0 <= k < upto.len() && (#[trigger] upto[k]).0 == p && upto[k].1 > 0;
                        if k < i {
                            assert(before[k] == upto[k]);
                        }
                    }
                }
                assert(self.quantities@ =~= Seq::new(
                    100,
                    |p: int|
                        if tradable(p) {
                            snapshot_quantity(upto, p)
                        } else {
                            0
                        },
                ));
            }
            i += 1;
        }
        assert(levels@.take(levels@.len() as int) =~= levels@);
        self.recompute_best_bid();
        proof {
            assert forall|i: int|
                0 <= i < levels@.len() && 1 <= levels@[i].0 <= 99 && named_last(
                    levels@,
                    i,
                ) implies self.quantities@[(#[trigger] levels@[i]).0 as int] == levels@[i].1 by {
                lemma_last_named(levels@, i);
            }
            assert forall|p: int| 0 <= p < 100 && (p == 0 || !named(levels@, p)) implies
                #[trigger] self.quantities@[p] == 0 by {
                if p > 0 {
                    lemma_not_named(levels@, p);
                }
            }
        }
    }

    /// Changes the quantity at one price, down to none at the least. Prices
    /// that cannot be traded change nothing.
    pub fn apply_delta(&mut self, price: i64, delta: i64)
        requires
            old(self).wf(),
            old(self).delta_fits(price, delta),
        ensures
            final(self).is_change_of(old(self), price, delta),
            old(self).consistent() ==> final(self).consistent(),
            price < 1 || price > 99 ==> *final(self) == *old(self),
            1 <= price <= 99 ==> ({
                let q = old(self).quantities@[price as int];
                &&& q + delta >= 0 ==> final(self).quantities@[price as int] == q + delta
                &&& q + delta < 0 ==> final(self).quantities@[price as int] == 0
                &&& final(self).total_qty - old(self).total_qty
                    == final(self).quantities@[price as int] - q
                &&& holds(final(self).occupied, price as int) <==> q + delta > 0
            }),
            forall|p: int|
                0 <= p < 100 && p != price ==> #[trigger] final(self).quantities@[p]
                    == old(self).quantities@[p],
            forall|p: int|
                p != price ==> (#[trigger] holds(final(self).occupied, p) <==> holds(
                    old(self).occupied,
                    p,
                )),
            forall|p: int| #[trigger] holds(final(self).occupied, p) ==> p <= final(self).best_bid,
            final(self).best_bid != 0 ==> holds(
                final(self).occupied,
                final(self).best_bid as int,
            ),
    {
        if price < 1 || price > 99 {
            return;
        }
        let idx: usize = price as usize;
        let old_qty: i64 = self.quantities[idx];
        let sum: i64 = old_qty + delta;
        let new_qty: i64 = if sum > 0 {
            sum
        } else {
            0
        };
        self.quantities[idx] = new_qty;
        self.total_qty = self.total_qty + (new_qty - old_qty);
        let bit: u128 = price as u128;
        proof {
            lemma_insert(self.occupied, bit);
            lemma_remove(self.occupied, bit);
            if old(self).consistent() {
                lemma_depth_update(old(self).quantities@, idx as int, new_qty, 100);
            }
        }
        if new_qty > 0 {
            self.occupied = self.occupied | (1u128 << bit);
        } else {
            self.occupied = self.occupied & !(1u128 << bit);
        }
        if new_qty == 0 && price == self.best_bid {
            self.recompute_best_bid();
        } else if new_qty > 0 && price > self.best_bid {
            self.best_bid = price;
        }
    }

    /// Whether a change of quantity can be computed in 64 bits.
    pub fn can_apply_delta(&self, price: i64, delta: i64) -> (r: bool)
        ensures
            r == self.delta_fits(price, delta),
            price < 1 || price > 99 ==> r,
            1 <= price <= 99 ==> ({
                let q = self.quantities@[price as int];
                let n = if q + delta >= 0 {
                    q + delta
                } else {
                    0
                };
                r <==> i64::MIN <= q + delta <= i64::MAX && i64::MIN <= n - q <= i64::MAX
                    && i64::MIN <= self.total_qty + (n - q) <= i64::MAX
            }),
    {
        if price < 1 || price > 99 {
            return true;
        }
        let was: i64 = self.quantities[price as usize];
        match was.checked_add(delta) {
            Some(sum) => {
                let now: i64 = if sum > 0 {
                    sum
                } else {
                    0
                };
                match now.checked_sub(was) {
                    Some(change) => self.total_qty.checked_add(change).is_some(),
                    None => false,
                }
            },
            None => false,
        }
    }

    /// Whether the quantities of a snapshot can be added up in 64 bits.
    pub fn can_apply_snapshot(levels: &[(i64, i64)]) -> (r: bool)
        ensures
            r == snapshot_fits(levels@),
    {
        let mut total: i64 = 0;
        let mut i: usize = 0;
        assert(levels@.take(0) =~= seq![]);
        while i < levels.len()
            invariant
                i <= levels@.len(),
                total == snapshot_total(levels@.take(i as int)),
                forall|k: int| 0 <= k <= i ==> fits(#[trigger] snapshot_total(levels@.take(k))),
            decreases levels@.len() - i,
        {
            let price: i64 = levels[i].0;
            let qty: i64 = levels[i].1;
            assert(levels@.take(i + 1).drop_last() =~= levels@.take(i as int));
            if price >= 1 && price <= 99 {
                match total.checked_add(qty) {
                    Some(sum) => {
                        total = sum;
                    },
                    None => {
                        assert(!fits(snapshot_total(levels@.take(i + 1))));
                        return false;
                    },
                }
            }
            i += 1;
        }
        true
    }

    /// The quantity at the best bid; none on an empty side.
    pub fn best_bid_qty(&self) -> (r: i64)
        ensures
            r == if tradable(self.best_bid as int) {
                self.quantities@[self.best_bid as int]
            } else {
                0
            },
    {
        if self.best_bid >= 1 && self.best_bid <= 99 {
            self.quantities[self.best_bid as usize]
        } else {
            0
        }
    }

    /// The best bid below a price, or 0 where there is none.
    pub fn best_bid_below(&self, below_price: i64) -> (r: i64)
        requires
            below_price < 128,
        ensures
            r == 0 || (r < below_price && holds(self.occupied, r as int)),
            forall|p: int| r < p < below_price ==> !holds(self.occupied, p),
    {
        if below_price <= 1 {
            return 0;
        }
        let bit: u128 = below_price as u128;
        proof {
            lemma_below(self.occupied, bit);
            lemma_empty();
        }
        let mask: u128 = self.occupied & ((1u128 << bit) - 1);
        let r: i64 = if mask == 0 {
            0
        } else {
            highest(mask)
        };
        assert forall|p: int| r < p < below_price implies !holds(self.occupied, p) by {
            assert(!holds(mask, p));
        }
        r
    }

    /// The `n` best levels, best first: price and quantity of each.
    pub fn top_n(&self, n: usize) -> (r: Vec<(i64, i64)>)
        requires
            forall|p: int| #[trigger] holds(self.occupied, p) ==> p <= 99,
        ensures
            r@ == self.levels_from(99, n as int),
    {
        let mut result: Vec<(i64, i64)> = Vec::new();
        let mut remaining: u128 = self.occupied;
        let ghost mut cur: int = 99;
        assert(result@ + self.levels_from(99, n as int) =~= self.levels_from(99, n as int));
        while result.len() < n && remaining != 0
            invariant
                forall|p: int| #[trigger] holds(self.occupied, p) ==> p <= 99,
                result@.len() <= n,
                -1 <= cur <= 99,
                forall|q: int|
                    #[trigger] holds(remaining, q) <==> holds(self.occupied, q) && q <= cur,
                result@ + self.levels_from(cur, n - result@.len()) == self.levels_from(
                    99,
                    n as int,
                ),
            decreases n - result@.len(),
        {
            let p: i64 = highest(remaining);
            proof {
                assert(holds(remaining, p as int));
                lemma_remove(remaining, p as u128);
                assert forall|q: int| p < q <= cur implies !holds(self.occupied, q) by {
                    assert(!holds(remaining, q));
                }
                self.lemma_levels_skip(cur, p as int, n - result@.len());
            }
            let ghost rest = self.levels_from(p - 1, n - result@.len() - 1);
            let ghost before = result@;
            let level: (i64, i64) = (p, self.quantities[p as usize]);
            result.push(level);
            remaining = remaining & !(1u128 << (p as u128));
            proof {
                cur = p - 1;
                assert(before + (seq![level] + rest) =~= result@ + rest);
            }
        }
        proof {
            if result@.len() < n {
                lemma_empty();
                assert forall|q: int| -1 < q <= cur implies !holds(self.occupied, q) by {
                    assert(!holds(remaining, q));
                }
                self.lemma_levels_skip(cur, -1, n - result@.len());
            }
            assert(result@ + seq![] =~= result@);
        }
        result
    }

    proof fn lemma_levels_skip(&self, from: int, to: int, n: int)
        requires
            -1 <= to <= from,
            forall|q: int| to < q <= from ==> !holds(self.occupied, q),
        ensures
            self.levels_from(from, n) == self.levels_from(to, n),
        decreases from - to,
    {
        if from > to {
            assert(!holds(self.occupied, from));
            self.lemma_levels_skip(from - 1, to, n);
        }
    }
}

/// A quantity after a change, which takes it down to none at the least.
pub open spec fn changed_quantity(quantity: i64, delta: i64) -> int {
    if quantity + delta > 0 {
        quantity + delta
    } else {
        0
    }
}

proof fn lemma_depth_update(quantities: Seq<i64>, p: int, q: i64, hi: int)
    requires
        0 <= p < quantities.len(),
        hi <= quantities.len(),
    ensures
        depth(quantities.update(p, q), 0, hi) == depth(quantities, 0, hi) + if p < hi {
            q - quantities[p]
        } else {
            0
        },
    decreases hi,
{
    if hi > 0 {
        lemma_depth_update(quantities, p, q, hi - 1);
    }
}

/// Both sides of a market, fed by one numbered stream of updates.
#[derive(Debug, Clone)]
pub struct OrderBook {
    pub yes_bids: BookSide,
    pub no_bids: BookSide,
    pub last_update: Timestamp,
    pub seq: u64,
    pub initialized: bool,
}

/// The price at which one contract can be bought, given the best bid for the
/// other one: what is left of a dollar; 0 where nobody bids.
pub open spec fn ask_against(bid: int) -> int {
    if bid > 0 {
        100 - bid
    } else {
        0
    }
}

impl OrderBook {
    pub open spec fn wf(&self) -> bool {
        self.yes_bids.wf() && self.no_bids.wf()
    }

    /// On both sides marks, quantities and total agree.
    pub open spec fn consistent(&self) -> bool {
        self.yes_bids.consistent() && self.no_bids.consistent()
    }

    /// The best bid for the yes contract; 0 where there is none.
    pub open spec fn bid(&self) -> int {
        self.yes_bids.best_bid as int
    }

    /// The best offer of the yes contract; 0 where there is none.
    pub open spec fn ask(&self) -> int {
        ask_against(self.no_bids.best_bid as int)
    }

    /// Whether there are a bid and an offer, the bid below the offer.
    pub open spec fn two_sided(&self) -> bool {
        0 < self.bid() < self.ask()
    }

    /// A book that has seen no update yet.
    pub fn new(now: Timestamp) -> (r: OrderBook)
        ensures
            r.wf(),
            r.consistent(),
            r.yes_bids.occupied == 0 && r.no_bids.occupied == 0,
            r.last_update == now,
            r.seq == 0,
            !r.initialized,
    {
        OrderBook {
            yes_bids: BookSide::new(),
            no_bids: BookSide::new(),
            last_update: now,
            seq: 0,
            initialized: false,
        }
    }

    /// Replaces both sides; the stream goes on from number `seq`.
    pub fn apply_snapshot(
        &mut self,
        yes_levels: &[(i64, i64)],
        no_levels: &[(i64, i64)],
        seq: u64,
        now: Timestamp,
    )
        requires
            snapshot_fits(yes_levels@),
            snapshot_fits(no_levels@),
        ensures
            final(self).wf(),
            final(self).yes_bids.is_snapshot(yes_levels@),
            final(self).no_bids.is_snapshot(no_levels@),
            final(self).seq == seq,
            final(self).last_update == now,
            final(self).initialized,
    {
        self.yes_bids.apply_snapshot(yes_levels);
        self.no_bids.apply_snapshot(no_levels);
        self.seq = seq;
        self.last_update = now;
        self.initialized = true;
    }

    /// Whether this is the book `before` with one numbered change applied.
    pub open spec fn is_change_of(
        &self,
        before: &OrderBook,
        side: Side,
        price: i64,
        delta: i64,
        now: Timestamp,
    ) -> bool {
        &&& self.wf()
        &&& match side {
            Side::Yes => self.yes_bids.is_change_of(&before.yes_bids, price, delta)
                && self.no_bids == before.no_bids,
            Side::No => self.no_bids.is_change_of(&before.no_bids, price, delta) && self.yes_bids
                == before.yes_bids,
        }
        &&& self.seq == before.seq + 1
        &&& self.last_update == now
        &&& self.initialized == before.initialized
    }

    /// Whether a change of quantity on one side can be computed in 64 bits.
    pub open spec fn delta_fits(&self, side: Side, price: i64, delta: i64) -> bool {
        match side {
            Side::Yes => self.yes_bids.delta_fits(price, delta),
            Side::No => self.no_bids.delta_fits(price, delta),
        }
    }

    /// Applies one change, if its number is the next one; otherwise the book
    /// stays as it is and the answer is `false`.
    pub fn apply_delta(
        &mut self,
        side: Side,
        price: i64,
        delta: i64,
        seq: u64,
        now: Timestamp,
    ) -> (r: bool)
        requires
            old(self).wf(),
            old(self).seq < u64::MAX,
            seq == old(self).seq + 1 ==> old(self).delta_fits(side, price, delta),
        ensures
            r == (seq == old(self).seq + 1),
            !r ==> *final(self) == *old(self),
            r ==> final(self).is_change_of(old(self), side, price, delta, now),
            old(self).consistent() ==> final(self).consistent(),
            r ==> final(self).seq == seq && final(self).last_update == now,
            final(self).initialized == old(self).initialized,
            side == Side::Yes ==> final(self).no_bids == old(self).no_bids,
            side == Side::No ==> final(self).yes_bids == old(self).yes_bids,
            r && side == Side::Yes && 1 <= price <= 99 ==> ({
                let q = old(self).yes_bids.quantities@[price as int];
                let n = final(self).yes_bids.quantities@[price as int];
                &&& q + delta >= 0 ==> n == q + delta
                &&& q + delta < 0 ==> n == 0
            }),
            r && side == Side::No && 1 <= price <= 99 ==> ({
                let q = old(self).no_bids.quantities@[price as int];
                let n = final(self).no_bids.quantities@[price as int];
                &&& q + delta >= 0 ==> n == q + delta
                &&& q + delta < 0 ==> n == 0
            }),
    {
        if seq != self.seq + 1 {
            return false;
        }
        match side {
            Side::Yes => self.yes_bids.apply_delta(price, delta),
            Side::No => self.no_bids.apply_delta(price, delta),
        }
        self.seq = seq;
        self.last_update = now;
        true
    }

    /// The best bid for the yes contract; 0 where there is none.
    pub fn best_yes_bid(&self) -> (r: i64)
        ensures
            r == self.bid(),
            r == self.yes_bids.best_bid,
    {
        self.yes_bids.best_bid
    }

    /// The best offer of the yes contract; 0 where there is none.
    pub fn best_yes_ask(&self) -> (r: i64)
        requires
            self.wf(),
        ensures
            r == self.ask(),
            0 <= r <= 99,
            self.no_bids.best_bid > 0 ==> r + self.no_bids.best_bid == 100,
            self.no_bids.best_bid == 0 ==> r == 0,
    {
        if self.no_bids.best_bid > 0 {
            100 - self.no_bids.best_bid
        } else {
            0
        }
    }

    /// The best bid for the no contract; 0 where there is none.
    pub fn best_no_bid(&self) -> (r: i64)
        ensures
            r == self.no_bids.best_bid,
    {
        self.no_bids.best_bid
    }

    /// The best offer of the no contract; 0 where there is none.
    pub fn best_no_ask(&self) -> (r: i64)
        requires
            self.wf(),
        ensures
            r == ask_against(self.bid()),
            0 <= r <= 99,
            self.yes_bids.best_bid > 0 ==> r + self.yes_bids.best_bid == 100,
            self.yes_bids.best_bid == 0 ==> r == 0,
    {
        if self.yes_bids.best_bid > 0 {
            100 - self.yes_bids.best_bid
        } else {
            0
        }
    }

    /// The distance from the bid to the offer, or the greatest number where one is missing.
    pub fn yes_spread(&self) -> (r: i64)
        requires
            self.wf(),
        ensures
            r == if self.ask() > 0 && self.bid() > 0 {
                self.ask() - self.bid()
            } else {
                i64::MAX as int
            },
            self.yes_bids.best_bid > 0 && self.no_bids.best_bid > 0 ==> r == 100
                - self.no_bids.best_bid - self.yes_bids.best_bid,
            self.yes_bids.best_bid == 0 || self.no_bids.best_bid == 0 ==> r == i64::MAX,
    {
        let ask: i64 = self.best_yes_ask();
        let bid: i64 = self.best_yes_bid();
        if ask > 0 && bid > 0 {
            ask - bid
        } else {
            i64::MAX
        }
    }

    /// The middle between bid and offer.
    pub fn midprice(&self) -> (r: Option<HalfCents>)
        requires
            self.wf(),
        ensures
            match r {
                Some(m) => self.two_sided() && m.halves == self.bid() + self.ask() && m.wf(),
                None => !self.two_sided(),
            },
            r is Some <==> self.yes_bids.best_bid > 0 && self.no_bids.best_bid > 0
                && self.yes_bids.best_bid + self.no_bids.best_bid < 100,
            r matches Some(m) ==> m.halves == 100 + self.yes_bids.best_bid
                - self.no_bids.best_bid,
    {
        let bid: i64 = self.best_yes_bid();
        let ask: i64 = self.best_yes_ask();
        if bid > 0 && ask > 0 && ask > bid {
            Some(HalfCents { halves: bid + ask })
        } else {
            None
        }
    }

    /// What the quantity-weighted middle is made of: bid and offer, and the
    /// quantities behind them.
    pub fn microprice(&self) -> (r: Option<QuoteWeights>)
        requires
            self.wf(),
        ensures
            match r {
                Some(q) => {
                    &&& self.two_sided()
                    &&& q.bid == self.bid()
                    &&& q.ask == self.ask()
                    &&& q.bid_qty == self.yes_bids.quantities@[self.bid()]
                    &&& q.ask_qty == self.no_bids.quantities@[self.no_bids.best_bid as int]
                },
                None => !self.two_sided(),
            },
    {
        let bid: i64 = self.best_yes_bid();
        let ask: i64 = self.best_yes_ask();
        if bid <= 0 || ask <= 0 || ask <= bid {
            return None;
        }
        Some(
            QuoteWeights {
                bid,
                ask,
                bid_qty: self.yes_bids.best_bid_qty(),
                ask_qty: self.no_bids.best_bid_qty(),
            },
        )
    }

    /// How the quantity at the best bid stands to that at the best offer.
    pub fn imbalance_ratio(&self) -> (r: Option<Imbalance>)
        requires
            self.wf(),
        ensures
            ({
                let b = if self.yes_bids.best_bid == 0 {
                    0
                } else {
                    self.yes_bids.quantities@[self.yes_bids.best_bid as int]
                };
                let a = if self.no_bids.best_bid == 0 {
                    0
                } else {
                    self.no_bids.quantities@[self.no_bids.best_bid as int]
                };
                r == if a > 0 {
                    Some(Imbalance::Ratio { bid_qty: b, ask_qty: a })
                } else if b > 0 {
                    Some(Imbalance::Unbounded)
                } else {
                    None
                }
            }),
    {
        let bid_qty: i64 = self.yes_bids.best_bid_qty();
        let ask_qty: i64 = self.no_bids.best_bid_qty();
        if ask_qty > 0 {
            Some(Imbalance::Ratio { bid_qty, ask_qty })
        } else if bid_qty > 0 {
            Some(Imbalance::Unbounded)
        } else {
            None
        }
    }

    /// The lowest price within `range` of a best bid.
    pub open spec fn near(best: int, range: int) -> int {
        if best - range > 1 {
            best - range
        } else {
            1
        }
    }

    /// Whether the quantities near both best bids can be added up one by one.
    pub open spec fn depth_fits(&self, range: i64) -> bool {
        let yb = self.yes_bids.best_bid as int;
        let nb = self.no_bids.best_bid as int;
        let yes = if yb > 0 {
            depth(self.yes_bids.quantities@, Self::near(yb, range as int), yb + 1)
        } else {
            0
        };
        &&& yb > 0 ==> fits(yb - range) && forall|k: int|
            k <= yb + 1 ==> fits(
                #[trigger] depth(self.yes_bids.quantities@, Self::near(yb, range as int), k),
            )
        &&& nb > 0 ==> fits(nb - range) && forall|k: int|
            k <= nb + 1 ==> fits(
                yes + #[trigger] depth(self.no_bids.quantities@, Self::near(nb, range as int), k),
            )
    }

    /// The quantity that rests within `range` cents of the best bids, on both sides.
    pub fn near_bbo_depth(&self, range: i64) -> (r: i64)
        requires
            self.wf(),
            self.depth_fits(range),
        ensures
            ({
                let yb = self.yes_bids.best_bid as int;
                let nb = self.no_bids.best_bid as int;
                r == (if yb > 0 {
                    depth(self.yes_bids.quantities@, Self::near(yb, range as int), yb + 1)
                } else {
                    0
                }) + (if nb > 0 {
                    depth(self.no_bids.quantities@, Self::near(nb, range as int), nb + 1)
                } else {
                    0
                })
            }),
    {
        let yb: i64 = self.yes_bids.best_bid;
        let mut total: i64 = 0;
        if yb > 0 {
            let from: i64 = yb - range;
            let lo: i64 = if from > 1 {
                from
            } else {
                1
            };
            let mut p: i64 = lo;
            while p <= yb
                invariant
                    self.wf(),
                    self.depth_fits(range),
                    yb == self.yes_bids.best_bid,
                    0 < yb <= 99,
                    lo == Self::near(yb as int, range as int),
                    lo <= p,
                    p <= yb + 1 || p == lo,
                    total == depth(self.yes_bids.quantities@, lo as int, p as int),
                decreases yb + 1 - p,
            {
                assert(fits(depth(self.yes_bids.quantities@, lo as int, p + 1)));
                total = total + self.yes_bids.quantities[p as usize];
                p += 1;
            }
        }
        let nb: i64 = self.no_bids.best_bid;
        let ghost yes = total as int;
        if nb > 0 {
            let from: i64 = nb - range;
            let lo: i64 = if from > 1 {
                from
            } else {
                1
            };
            let mut p: i64 = lo;
            while p <= nb
                invariant
                    self.wf(),
                    self.depth_fits(range),
                    nb == self.no_bids.best_bid,
                    0 < nb <= 99,
                    lo == Self::near(nb as int, range as int),
                    lo <= p,
                    p <= nb + 1 || p == lo,
                    yes == if self.yes_bids.best_bid > 0 {
                        depth(
                            self.yes_bids.quantities@,
                            Self::near(self.yes_bids.best_bid as int, range as int),
                            self.yes_bids.best_bid + 1,
                        )
                    } else {
                        0
                    },
                    total == yes + depth(self.no_bids.quantities@, lo as int, p as int),
                decreases nb + 1 - p,
            {
                assert(fits(yes + depth(self.no_bids.quantities@, lo as int, p + 1)));
                total = total + self.no_bids.quantities[p as usize];
                p += 1;
            }
        }
        total
    }
}

/// A price in half cents, the grain of the middle between two prices in cents.
#[derive(Debug, Clone, Copy, PartialEq, Eq, Structural)]
pub struct HalfCents {
    pub halves: i64,
}

impl HalfCents {
    /// A price of a contract lies between nothing and a dollar.
    pub open spec fn wf(self) -> bool {
        0 <= self.halves <= 200
    }
}

/// Bid and offer, and the quantities behind them.
#[derive(Debug, Clone, Copy, PartialEq, Eq, Structural)]
pub struct QuoteWeights {
    pub bid: i64,
    pub ask: i64,
    pub bid_qty: i64,
    pub ask_qty: i64,
}

/// The relation between the quantities at the best bid and the best offer.
#[derive(Debug, Clone, Copy, PartialEq, Eq, Structural)]
pub enum Imbalance {
    /// Both quantities; that of the offer is not zero.
    Ratio { bid_qty: i64, ask_qty: i64 },
    /// Nothing is offered.
    Unbounded,
}

/// Something that happened to a book.
#[derive(Debug, Clone, Copy, PartialEq, Eq, Structural)]
pub enum BookEvent {
    Updated,
    SequenceGap { expected: u64, got: u64 },
    TopOfBookChanged { old_bid: i64, old_ask: i64, new_bid: i64, new_ask: i64 },
}

/// Notices changes of the best bid and offer from one look at a book to the next.
pub struct BookEventDetector {
    prev_yes_bid: i64,
    prev_yes_ask: i64,
    warmed_up: bool,
}

impl BookEventDetector {
    /// The bid and offer of the last look, once there was one.
    pub closed spec fn seen(&self) -> Option<(int, int)> {
        if self.warmed_up {
            Some((self.prev_yes_bid as int, self.prev_yes_ask as int))
        } else {
            None
        }
    }

    /// A detector that has not looked yet.
    pub fn new() -> (r: BookEventDetector)
        ensures
            r.seen() is None,
    {
        BookEventDetector { prev_yes_bid: 0, prev_yes_ask: 0, warmed_up: false }
    }

    /// Looks at a book: one event where bid or offer differ from the last
    /// look, none where they do not or where this is the first look.
    pub fn detect(&mut self, book: &OrderBook) -> (r: Vec<BookEvent>)
        requires
            book.wf(),
        ensures
            final(self).seen() == Some((book.bid(), book.ask())),
            match old(self).seen() {
                Some(prev) => if prev == (book.bid(), book.ask()) {
                    r@ == Seq::<BookEvent>::empty()
                } else {
                    r@ == seq![
                        BookEvent::TopOfBookChanged {
                            old_bid: prev.0 as i64,
                            old_ask: prev.1 as i64,
                            new_bid: book.bid() as i64,
                            new_ask: book.ask() as i64,
                        },
                    ]
                },
                None => r@ == Seq::<BookEvent>::empty(),
            },
    {
        let new_bid: i64 = book.best_yes_bid();
        let new_ask: i64 = book.best_yes_ask();
        let mut events: Vec<BookEvent> = Vec::new();
        if !self.warmed_up {
            self.prev_yes_bid = new_bid;
            self.prev_yes_ask = new_ask;
            self.warmed_up = true;
            return events;
        }
        if new_bid != self.prev_yes_bid || new_ask != self.prev_yes_ask {
            events.push(
                BookEvent::TopOfBookChanged {
                    old_bid: self.prev_yes_bid,
                    old_ask: self.prev_yes_ask,
                    new_bid,
                    new_ask,
                },
            );
        }
        self.prev_yes_bid = new_bid;
        self.prev_yes_ask = new_ask;
        events
    }
}

/// Middle prices with the times at which they were seen, oldest first, kept
/// for a limited time.
pub struct PriceHistory {
    entries: VecDeque<(Timestamp, HalfCents)>,
    max_window: u64,
}

/// What a z-score is computed from: the prices of a window, in half cents.
#[derive(Debug, Clone, Copy, PartialEq, Eq, Structural)]
pub struct ScoreInputs {
    /// How many prices.
    pub count: u64,
    /// Their sum.
    pub sum: u128,
    /// The sum of their squares.
    pub sum_of_squares: u128,
    /// The price whose distance from the mean is scored: the latest of the window.
    pub scored: HalfCents,
}

/// `entries` without the leading ones that are older than `window` at `now`.
pub open spec fn drop_stale(
    entries: Seq<(Timestamp, HalfCents)>,
    now: Timestamp,
    window: int,
) -> Seq<(Timestamp, HalfCents)>
    decreases entries.len(),
{
    if entries.len() > 0 && now.since(entries[0].0) > window {
        drop_stale(entries.subrange(1, entries.len() as int), now, window)
    } else {
        entries
    }
}

/// The last of `entries`, back to the newest one that is older than `window` at `now`.
pub open spec fn recent(
    entries: Seq<(Timestamp, HalfCents)>,
    now: Timestamp,
    window: int,
) -> Seq<(Timestamp, HalfCents)>
    decreases entries.len(),
{
    if entries.len() > 0 && now.since(entries.last().0) <= window {
        recent(entries.drop_last(), now, window).push(entries.last())
    } else {
        seq![]
    }
}

/// The sum of the prices.
pub open spec fn price_sum(entries: Seq<(Timestamp, HalfCents)>) -> int
    decreases entries.len(),
{
    if entries.len() == 0 {
        0
    } else {
        price_sum(entries.drop_last()) + entries.last().1.halves
    }
}

/// The sum of the squares of the prices.
pub open spec fn square_sum(entries: Seq<(Timestamp, HalfCents)>) -> int
    decreases entries.len(),
{
    if entries.len() == 0 {
        0
    } else {
        square_sum(entries.drop_last()) + entries.last().1.halves * entries.last().1.halves
    }
}

impl PriceHistory {
    pub closed spec fn view(&self) -> Seq<(Timestamp, HalfCents)> {
        self.entries@
    }

    /// How long prices are kept, in nanoseconds.
    pub closed spec fn kept_for(&self) -> int {
        self.max_window as int
    }

    pub open spec fn wf(&self) -> bool {
        forall|i: int| 0 <= i < self@.len() ==> (#[trigger] self@[i]).1.wf()
    }

    /// An empty history that keeps prices for `max_window` nanoseconds.
    pub fn new(max_window: u64) -> (r: PriceHistory)
        ensures
            r.wf(),
            r@ == Seq::<(Timestamp, HalfCents)>::empty(),
            r.kept_for() == max_window,
    {
        PriceHistory { entries: VecDeque::new(), max_window }
    }

    /// Adds a price and drops the leading ones that have become too old.
    pub fn push(&mut self, now: Timestamp, mid: HalfCents)
        requires
            old(self).wf(),
            mid.wf(),
        ensures
            final(self).wf(),
            final(self)@ == drop_stale(old(self)@.push((now, mid)), now, old(self).kept_for()),
            final(self).kept_for() == old(self).kept_for(),
    {
        self.entries.push_back((now, mid));
        let ghost all = self.entries@;
        assert forall|i: int| 0 <= i < all.len() implies (#[trigger] all[i]).1.wf() by {
            if i < all.len() - 1 {
                assert(old(self)@[i] == all[i]);
            }
        }
        while self.entries.len() > 0 && now.duration_since(self.entries[0].0) > self.max_window
            invariant
                forall|i: int|
                    0 <= i < self.entries@.len() ==> (#[trigger] self.entries@[i]).1.wf(),
                self.max_window == old(self).max_window,
                drop_stale(self.entries@, now, self.max_window as int) == drop_stale(
                    all,
                    now,
                    self.max_window as int,
                ),
            decreases self.entries@.len(),
        {
            let ghost was = self.entries@;
            let _ = self.entries.pop_front();
            assert(self.entries@ =~= was.subrange(1, was.len() as int));
            assert forall|i: int| 0 <= i < self.entries@.len() implies (
            #[trigger] self.entries@[i]).1.wf() by {
                assert(self.entries@[i] == was[i + 1]);
            }
        }
    }

    /// What the z-score over the last `window` nanoseconds is computed from;
    /// nothing where the window holds fewer than ten prices or where they
    /// span less than half of it.
    pub fn z_score(&self, window: u64, now: Timestamp) -> (r: Option<ScoreInputs>)
        requires
            self.wf(),
        ensures
            ({
                let w = recent(self@, now, window as int);
                match r {
                    Some(s) => {
                        &&& w.len() >= 10
                        &&& 2 * now.since(w[0].0) >= window
                        &&& s.count == w.len()
                        &&& s.sum == price_sum(w)
                        &&& s.sum_of_squares == square_sum(w)
                        &&& s.scored == w.last().1
                    },
                    None => w.len() < 10 || 2 * now.since(w[0].0) < window,
                }
            }),
    {
        let n: usize = self.entries.len();
        let ghost all = self.entries@;
        let mut i: usize = n;
        let mut sum: u128 = 0;
        let mut sum_of_squares: u128 = 0;
        let mut oldest: Timestamp = now;
        let ghost w = recent(all, now, window as int);
        proof {
            assert(all.subrange(n as int, n as int) =~= seq![]);
            assert(all.subrange(0, n as int) =~= all);
            lemma_sums_bound(all.subrange(n as int, n as int));
            assert(recent(all, now, window as int) + seq![] =~= w);
        }
        while i > 0 && now.duration_since(self.entries[i - 1].0) <= window
            invariant
                self.wf(),
                all == self.entries@,
                n == all.len(),
                i <= n,
                w == recent(all, now, window as int),
                recent(all.subrange(0, i as int), now, window as int) + all.subrange(
                    i as int,
                    n as int,
                ) == w,
                sum == price_sum(all.subrange(i as int, n as int)),
                sum_of_squares == square_sum(all.subrange(i as int, n as int)),
                i < n ==> oldest == all[i as int].0,
                i == n ==> oldest == now,
            decreases i,
        {
            proof {
                let tail = all.subrange(i - 1, n as int);
                lemma_sum_front(tail);
                assert(tail.subrange(1, tail.len() as int) =~= all.subrange(i as int, n as int));
                assert forall|k: int| 0 <= k < tail.len() implies (#[trigger] tail[k]).1.wf() by {
                    assert(self@[k + i - 1] == tail[k]);
                }
                lemma_sums_bound(tail);
                assert(all.subrange(0, i as int).drop_last() =~= all.subrange(0, i - 1));
                assert(recent(all.subrange(0, i - 1), now, window as int).push(all[i - 1])
                    + all.subrange(i as int, n as int) =~= recent(
                    all.subrange(0, i - 1),
                    now,
                    window as int,
                ) + tail);
                assert(self@[i - 1].1.wf());
                let h = all[i - 1].1.halves as int;
                assert(0 <= h * h <= 40000) by (nonlinear_arith)
                    requires
                        0 <= h <= 200,
                ;
            }
            i -= 1;
            let entry: (Timestamp, HalfCents) = self.entries[i];
            let h: u128 = entry.1.halves as u128;
            sum = sum + h;
            sum_of_squares = sum_of_squares + h * h;
            oldest = entry.0;
        }
        proof {
            assert(recent(all.subrange(0, i as int), now, window as int) =~= seq![]);
            assert(w =~= all.subrange(i as int, n as int));
        }
        let count: usize = n - i;
        if count < 10 {
            return None;
        }
        let span: u64 = now.duration_since(oldest);
        if 2 * (span as u128) < window as u128 {
            return None;
        }
        let latest: (Timestamp, HalfCents) = self.entries[n - 1];
        Some(ScoreInputs { count: count as u64, sum, sum_of_squares, scored: latest.1 })
    }
}

proof fn lemma_sum_front(s: Seq<(Timestamp, HalfCents)>)
    requires
        s.len() > 0,
    ensures
        price_sum(s) == s[0].1.halves + price_sum(s.subrange(1, s.len() as int)),
        square_sum(s) == s[0].1.halves * s[0].1.halves + square_sum(
            s.subrange(1, s.len() as int),
        ),
    decreases s.len(),
{
    let t = s.subrange(1, s.len() as int);
    if s.len() == 1 {
        assert(s.drop_last() =~= seq![]);
        assert(t =~= seq![]);
    } else {
        lemma_sum_front(s.drop_last());
        assert(s.drop_last().subrange(1, s.len() - 1) =~= t.drop_last());
    }
}

proof fn lemma_sums_bound(s: Seq<(Timestamp, HalfCents)>)
    requires
        forall|i: int| 0 <= i < s.len() ==> (#[trigger] s[i]).1.wf(),
    ensures
        0 <= price_sum(s) <= 200 * s.len(),
        0 <= square_sum(s) <= 40000 * s.len(),
    decreases s.len(),
{
    if s.len() > 0 {
        lemma_sums_bound(s.drop_last());
        let h = s.last().1.halves as int;
        assert(s[s.len() - 1].1.wf());
        assert(0 <= h * h <= 40000) by (nonlinear_arith)
            requires
                0 <= h <= 200,
        ;
    }
}

proof fn lemma_depth_zero(quantities: Seq<i64>, hi: int)
    requires
        hi <= quantities.len(),
        forall|p: int| 0 <= p < hi ==> quantities[p] == 0,
    ensures
        depth(quantities, 0, hi) == 0,
    decreases hi,
{
    if hi > 0 {
        lemma_depth_zero(quantities, hi - 1);
    }
}

/// Whether no tradable price is named twice or has a negative quantity.
pub open spec fn proper_levels(levels: Seq<(i64, i64)>) -> bool {
    &&& forall|i: int, j: int|
        0 <= i < j < levels.len() && tradable(levels[i].0 as int) ==> (#[trigger] levels[i]).0 != (
        #[trigger] levels[j]).0
    &&& forall|i: int|
        0 <= i < levels.len() && tradable(levels[i].0 as int) ==> (#[trigger] levels[i]).1 >= 0
}

/// A snapshot that names no tradable price twice, or with a negative quantity,
/// leaves a side on which marks, quantities and total agree.
pub proof fn law_snapshot_consistent(side: BookSide, levels: Seq<(i64, i64)>)
    requires
        side.is_snapshot(levels),
        proper_levels(levels),
    ensures
        side.consistent(),
{
    assert forall|p: int| #![trigger side.quantities@[p]] tradable(p) implies (holds(
        side.occupied,
        p,
    ) <==> side.quantities@[p] > 0) && side.quantities@[p] >= 0 by {
        lemma_snapshot_quantity(levels, p);
    }
    lemma_snapshot_depth(levels, side.quantities@);
}

proof fn lemma_proper_before(levels: Seq<(i64, i64)>)
    requires
        proper_levels(levels),
        levels.len() > 0,
    ensures
        proper_levels(levels.drop_last()),
{
    let t = levels.drop_last();
    assert forall|i: int| 0 <= i < t.len() implies #[trigger] t[i] == levels[i] by {}
}

proof fn lemma_snapshot_quantity(levels: Seq<(i64, i64)>, p: int)
    requires
        tradable(p),
        proper_levels(levels),
    ensures
        snapshot_quantity(levels, p) >= 0,
        snapshot_quantity(levels, p) > 0 <==> snapshot_occupies(levels, p),
        (forall|i: int| 0 <= i < levels.len() ==> (#[trigger] levels[i]).0 != p)
            ==> snapshot_quantity(levels, p) == 0,
    decreases levels.len(),
{
    if levels.len() > 0 {
        let t = levels.drop_last();
        lemma_proper_before(levels);
        lemma_snapshot_quantity(t, p);
        assert(levels[levels.len() - 1] == levels.last());
        if snapshot_occupies(t, p) {
            let k = choose|k: int| 0 <= k < t.len() && (#[trigger] t[k]).0 == p && t[k].1 > 0;
            assert(levels[k] == t[k]);
        }
        if snapshot_occupies(levels, p) {
            let k = choose|k: int|
                0 <= k < levels.len() && (#[trigger] levels[k]).0 == p && levels[k].1 > 0;
            if k < t.len() {
                assert(t[k] == levels[k]);
            }
        }
        if forall|i: int| 0 <= i < levels.len() ==> (#[trigger] levels[i]).0 != p {
            assert forall|i: int| 0 <= i < t.len() implies (#[trigger] t[i]).0 != p by {
                assert(levels[i] == t[i]);
            }
        }
    }
}

proof fn lemma_snapshot_depth(levels: Seq<(i64, i64)>, quantities: Seq<i64>)
    requires
        proper_levels(levels),
        quantities == Seq::new(
            100,
            |p: int|
                if tradable(p) {
                    snapshot_quantity(levels, p)
                } else {
                    0
                },
        ),
    ensures
        depth(quantities, 0, 100) == snapshot_total(levels),
    decreases levels.len(),
{
    if levels.len() == 0 {
        lemma_depth_zero(quantities, 100);
    } else {
        let t = levels.drop_last();
        let q = Seq::new(
            100,
            |p: int|
                if tradable(p) {
                    snapshot_quantity(t, p)
                } else {
                    0
                },
        );
        lemma_proper_before(levels);
        lemma_snapshot_depth(t, q);
        let p = levels.last().0 as int;
        if tradable(p) {
            assert(levels[levels.len() - 1] == levels.last());
            assert forall|i: int| 0 <= i < t.len() implies (#[trigger] t[i]).0 != p by {
                assert(levels[i] == t[i]);
            }
            lemma_snapshot_quantity(t, p);
            assert(quantities =~= q.update(p, levels.last().1));
            lemma_depth_update(q, p, levels.last().1, 100);
        } else {
            assert(quantities =~= q);
        }
    }
}

/// A change keeps marks, quantities and total in agreement.
pub proof fn law_delta_consistent(before: BookSide, after: BookSide, price: i64, delta: i64)
    requires
        before.consistent(),
        before.delta_fits(price, delta),
        after.is_change_of(&before, price, delta),
    ensures
        after.consistent(),
{
    if tradable(price as int) {
        let now = changed_quantity(before.quantities@[price as int], delta) as i64;
        lemma_depth_update(before.quantities@, price as int, now, 100);
        assert forall|p: int| tradable(p) implies (holds(after.occupied, p)
            <==> after.quantities@[p] > 0) by {
            assert(p != price ==> (holds(after.occupied, p) <==> holds(before.occupied, p)));
        }
    }
}

/// The best bid of a side is the highest price that has any quantity.
pub proof fn law_best_bid(side: BookSide, price: int)
    requires
        side.consistent(),
        tradable(price),
    ensures
        side.best_bid > 0 ==> side.quantities@[side.best_bid as int] > 0,
        price > side.best_bid ==> side.quantities@[price] == 0,
        side.best_bid == 0 ==> side.total_qty == 0,
{
    assert(!holds(side.occupied, price) || price <= side.best_bid);
    if side.best_bid == 0 {
        assert forall|p: int| 0 <= p < 100 implies side.quantities@[p] == 0 by {
            if p >= 1 {
                assert(tradable(p));
                assert(!holds(side.occupied, p));
                assert(!(side.quantities@[p] > 0));
            }
        }
        lemma_depth_zero(side.quantities@, 100);
    }
}

/// Adding a quantity and taking it away again leaves every side as it was.
pub proof fn law_delta_undone(
    before: BookSide,
    between: BookSide,
    after: BookSide,
    price: i64,
    delta: i64,
)
    requires
        before.consistent(),
        delta >= 0,
        between.is_change_of(&before, price, delta),
        after.is_change_of(&between, price, (-delta) as i64),
        before.delta_fits(price, delta),
    ensures
        after.quantities@ == before.quantities@,
        after.total_qty == before.total_qty,
        after.best_bid == before.best_bid,
        after.occupied == before.occupied,
{
    if tradable(price as int) {
        assert(after.quantities@ =~= before.quantities@);
        assert forall|p: int| #[trigger] holds(after.occupied, p) <==> holds(
            before.occupied,
            p,
        ) by {
            assert(p != price ==> (holds(between.occupied, p) <==> holds(before.occupied, p)));
        }
        lemma_same_set(after.occupied, before.occupied);
        lemma_one_top(after.occupied, after.best_bid as int, before.best_bid as int);
    }
}

/// A set has one greatest number.
proof fn lemma_one_top(set: u128, a: int, b: int)
    requires
        is_top(set, a),
        is_top(set, b),
    ensures
        a == b,
{
}

/// A change adds to the quantity at its price what it says, down to none, and what
/// it adds there it adds to the total; two changes at one price that both leave
/// something add up.
pub proof fn law_deltas_add_up(
    before: BookSide,
    between: BookSide,
    after: BookSide,
    price: i64,
    first: i64,
    second: i64,
)
    requires
        1 <= price <= 99,
        before.delta_fits(price, first),
        between.is_change_of(&before, price, first),
        between.delta_fits(price, second),
        after.is_change_of(&between, price, second),
    ensures
        ({
            let q = before.quantities@[price as int];
            let m = between.quantities@[price as int];
            let n = after.quantities@[price as int];
            &&& q + first >= 0 ==> m == q + first
            &&& q + first < 0 ==> m == 0
            &&& between.total_qty - before.total_qty == m - q
            &&& q + first >= 0 && q + first + second >= 0 ==> n == q + first + second
            &&& q + first >= 0 && q + first + second >= 0 ==> after.total_qty
                == before.total_qty + first + second
        }),
        forall|p: int|
            0 <= p < 100 && p != price ==> #[trigger] after.quantities@[p]
                == before.quantities@[p],
{
}

proof fn lemma_total_range(levels: Seq<(i64, i64)>)
    requires
        forall|i: int|
            0 <= i < levels.len() ==> -1_000_000_000_000 <= (#[trigger] levels[i]).1
                <= 1_000_000_000_000,
    ensures
        -1_000_000_000_000 * levels.len() <= snapshot_total(levels) <= 1_000_000_000_000
            * levels.len(),
    decreases levels.len(),
{
    if levels.len() > 0 {
        let t = levels.drop_last();
        assert forall|i: int| 0 <= i < t.len() implies -1_000_000_000_000 <= (#[trigger] t[i]).1
            <= 1_000_000_000_000 by {
            assert(levels[i] == t[i]);
        }
        lemma_total_range(t);
        assert(levels[levels.len() - 1] == levels.last());
    }
}

/// Snapshots as they come can be taken in: up to a million levels of up to a
/// trillion contracts.
pub proof fn law_ordinary_snapshots_fit(levels: Seq<(i64, i64)>)
    requires
        levels.len() <= 1_000_000,
        forall|i: int|
            0 <= i < levels.len() ==> -1_000_000_000_000 <= (#[trigger] levels[i]).1
                <= 1_000_000_000_000,
    ensures
        snapshot_fits(levels),
{
    assert forall|k: int| 0 <= k <= levels.len() implies fits(
        #[trigger] snapshot_total(levels.take(k)),
    ) by {
        let t = levels.take(k);
        assert forall|i: int| 0 <= i < t.len() implies -1_000_000_000_000 <= (#[trigger] t[i]).1
            <= 1_000_000_000_000 by {
            assert(levels[i] == t[i]);
        }
        lemma_total_range(t);
    }
}

/// Each level of a snapshot at a tradable price adds its quantity to the total.
pub proof fn law_snapshot_total(levels: Seq<(i64, i64)>, price: i64, qty: i64)
    ensures
        snapshot_total(Seq::empty()) == 0,
        1 <= price <= 99 ==> snapshot_total(levels.push((price, qty))) == snapshot_total(levels)
            + qty,
        !(1 <= price <= 99) ==> snapshot_total(levels.push((price, qty))) == snapshot_total(levels),
{
    assert(levels.push((price, qty)).drop_last() =~= levels);
}

/// A side that a snapshot describes has at each price the quantity named last for
/// it, and none at prices that are not named.
pub proof fn law_snapshot_levels(side: BookSide, levels: Seq<(i64, i64)>, i: int, p: int)
    requires
        side.is_snapshot(levels),
        1 <= p <= 99,
    ensures
        0 <= i < levels.len() && levels[i].0 == p && named_last(levels, i) ==> side.quantities@[p]
            == levels[i].1,
        !named(levels, p) ==> side.quantities@[p] == 0,
        side.total_qty == snapshot_total(levels),
{
    if 0 <= i < levels.len() && named_last(levels, i) {
        lemma_last_named(levels, i);
    }
    if !named(levels, p) {
        lemma_not_named(levels, p);
    }
}

/// Bid, offer and middle are told by the best bids for both contracts.
pub proof fn law_quotes(book: OrderBook)
    requires
        book.wf(),
    ensures
        book.bid() == book.yes_bids.best_bid,
        book.no_bids.best_bid > 0 ==> book.ask() == 100 - book.no_bids.best_bid,
        book.no_bids.best_bid == 0 ==> book.ask() == 0,
        book.two_sided() <==> book.yes_bids.best_bid > 0 && book.no_bids.best_bid > 0
            && book.yes_bids.best_bid + book.no_bids.best_bid < 100,
{
}

/// The levels of a side come best first, each a marked price with its quantity;
/// none is left out but for those below the last one where enough were found.
pub proof fn law_best_levels(side: BookSide, from: int, n: int)
    requires
        n >= 0,
        from <= 99,
    ensures
        ({
            let r = side.levels_from(from, n);
            &&& r.len() <= n
            &&& forall|i: int|
                0 <= i < r.len() ==> 0 <= (#[trigger] r[i]).0 <= from && holds(
                    side.occupied,
                    r[i].0 as int,
                ) && r[i].1 == side.quantities@[r[i].0 as int]
            &&& forall|i: int, j: int|
                0 <= i < j < r.len() ==> (#[trigger] r[i]).0 > (#[trigger] r[j]).0
            &&& forall|p: int|
                0 <= p <= from && #[trigger] holds(side.occupied, p) && (r.len() < n || (n > 0 && p
                    >= r.last().0)) ==> exists|i: int|
                    0 <= i < r.len() && (#[trigger] r[i]).0 == p
        }),
    decreases from + 1,
{
    let r = side.levels_from(from, n);
    if from >= 0 && n > 0 {
        if holds(side.occupied, from) {
            let t = side.levels_from(from - 1, n - 1);
            law_best_levels(side, from - 1, n - 1);
            assert(r =~= seq![(from as i64, side.quantities@[from])] + t);
            assert forall|i: int| 0 <= i < r.len() implies 0 <= (#[trigger] r[i]).0 <= from
                && holds(side.occupied, r[i].0 as int) && r[i].1
                == side.quantities@[r[i].0 as int] by {
                if i > 0 {
                    assert(r[i] == t[i - 1]);
                }
            }
            assert forall|i: int, j: int| 0 <= i < j < r.len() implies (#[trigger] r[i]).0 > (
            #[trigger] r[j]).0 by {
                assert(r[j] == t[j - 1]);
                if i > 0 {
                    assert(r[i] == t[i - 1]);
                }
            }
            assert forall|p: int|
                0 <= p <= from && #[trigger] holds(side.occupied, p) && (r.len() < n || (n > 0 && p
                    >= r.last().0)) implies exists|i: int|
                0 <= i < r.len() && (#[trigger] r[i]).0 == p by {
                if p == from {
                    assert(r[0].0 == p);
                } else {
                    if t.len() > 0 {
                        assert(r.last() == t.last());
                    }
                    let i = choose|i: int| 0 <= i < t.len() && (#[trigger] t[i]).0 == p;
                    assert(r[i + 1].0 == p);
                }
            }
        } else {
            law_best_levels(side, from - 1, n);
        }
    }
}

/// Changes at two prices can be made in either order.
pub proof fn law_deltas_commute(
    before: BookSide,
    first: BookSide,
    both: BookSide,
    other_first: BookSide,
    other_both: BookSide,
    price: i64,
    delta: i64,
    other_price: i64,
    other_delta: i64,
)
    requires
        price != other_price,
        before.wf(),
        first.is_change_of(&before, price, delta),
        both.is_change_of(&first, other_price, other_delta),
        other_first.is_change_of(&before, other_price, other_delta),
        other_both.is_change_of(&other_first, price, delta),
    ensures
        both.quantities@ == other_both.quantities@,
        both.total_qty == other_both.total_qty,
        both.occupied == other_both.occupied,
        both.best_bid == other_both.best_bid,
{
    assert(both.quantities@ =~= other_both.quantities@);
    assert forall|p: int| #[trigger] holds(both.occupied, p) == holds(
        other_both.occupied,
        p,
    ) by {
        assert(holds(first.occupied, p) || !holds(first.occupied, p));
        assert(holds(other_first.occupied, p) || !holds(other_first.occupied, p));
    }
    lemma_same_set(both.occupied, other_both.occupied);
    lemma_one_top(both.occupied, both.best_bid as int, other_both.best_bid as int);
}

/// Bids and offers are the two faces of one price: the best offer of a
/// contract and the best bid for the other one make a dollar.
pub proof fn law_offer_completes_dollar(book: OrderBook)
    requires
        book.wf(),
        book.bid() > 0,
        book.no_bids.best_bid > 0,
    ensures
        book.ask() + book.no_bids.best_bid == 100,
        ask_against(book.bid()) + book.bid() == 100,
        book.two_sided() <==> book.bid() + book.no_bids.best_bid < 100,
{
}

/// Whether the entries of a history are in the order of their times, none later than `now`.
pub open spec fn in_time_order(entries: Seq<(Timestamp, HalfCents)>, now: Timestamp) -> bool {
    &&& forall|i: int, j: int|
        0 <= i < j < entries.len() ==> (#[trigger] entries[i]).0.nanos <= (
        #[trigger] entries[j]).0.nanos
    &&& forall|i: int| 0 <= i < entries.len() ==> (#[trigger] entries[i]).0.nanos <= now.nanos
}

/// A history in the order of time keeps exactly the prices that are not too old.
pub proof fn law_history_kept(
    entries: Seq<(Timestamp, HalfCents)>,
    now: Timestamp,
    window: int,
)
    requires
        in_time_order(entries, now),
    ensures
        drop_stale(entries, now, window) == entries.filter(
            |e: (Timestamp, HalfCents)| now.since(e.0) <= window,
        ),
    decreases entries.len(),
{
    let p = |e: (Timestamp, HalfCents)| now.since(e.0) <= window;
    if entries.len() > 0 {
        let t = entries.subrange(1, entries.len() as int);
        assert forall|i: int, j: int| 0 <= i < j < t.len() implies (#[trigger] t[i]).0.nanos <= (
        #[trigger] t[j]).0.nanos by {
            assert(entries[i + 1].0.nanos <= entries[j + 1].0.nanos);
        }
        assert forall|i: int| 0 <= i < t.len() implies (#[trigger] t[i]).0.nanos <= now.nanos by {
            assert(entries[i + 1] == t[i]);
        }
        law_history_kept(t, now, window);
        assert(entries =~= seq![entries[0]] + t);
        t.lemma_filter_prepend(entries[0], p);
        if now.since(entries[0].0) <= window {
            assert forall|i: int| 0 <= i < t.len() implies p(#[trigger] t[i]) by {
                assert(entries[0].0.nanos <= entries[i + 1].0.nanos);
            }
            lemma_filter_all(t, p);
        }
    }
}

/// Over a history in the order of time a window is made of exactly the prices
/// that lie in it.
pub proof fn law_window(entries: Seq<(Timestamp, HalfCents)>, now: Timestamp, window: int)
    requires
        in_time_order(entries, now),
    ensures
        recent(entries, now, window) == entries.filter(
            |e: (Timestamp, HalfCents)| now.since(e.0) <= window,
        ),
    decreases entries.len(),
{
    reveal(Seq::filter);
    let p = |e: (Timestamp, HalfCents)| now.since(e.0) <= window;
    if entries.len() > 0 {
        let t = entries.drop_last();
        if p(entries.last()) {
            law_window(t, now, window);
        } else {
            assert forall|i: int| 0 <= i < entries.len() implies !p(#[trigger] entries[i]) by {
                if i < entries.len() - 1 {
                    assert(entries[i].0.nanos <= entries[entries.len() - 1].0.nanos);
                }
            }
            lemma_filter_none(entries, p);
        }
    }
}

proof fn lemma_price_sum_bounds(s: Seq<(Timestamp, HalfCents)>, lo: int, hi: int)
    requires
        forall|i: int| 0 <= i < s.len() ==> lo <= (#[trigger] s[i]).1.halves <= hi,
    ensures
        s.len() * lo <= price_sum(s) <= s.len() * hi,
    decreases s.len(),
{
    if s.len() > 0 {
        let t = s.drop_last();
        let n = t.len() as int;
        assert forall|i: int| 0 <= i < t.len() implies lo <= (#[trigger] t[i]).1.halves <= hi by {
            assert(t[i] == s[i]);
        }
        lemma_price_sum_bounds(t, lo, hi);
        assert(s[s.len() - 1] == s.last());
        assert((n + 1) * lo == n * lo + lo && (n + 1) * hi == n * hi + hi) by (nonlinear_arith);
    } else {
        assert(0 * lo == 0 && 0 * hi == 0) by (nonlinear_arith);
    }
}

/// A price that has just risen scores above zero and one that has just fallen
/// below: where the latest price of a window is higher than every other one, it
/// is above their mean, and where it is lower, below.
pub proof fn law_score_follows_move(w: Seq<(Timestamp, HalfCents)>)
    requires
        w.len() >= 2,
    ensures
        (forall|i: int|
            0 <= i < w.len() - 1 ==> (#[trigger] w[i]).1.halves < w.last().1.halves)
            ==> w.len() * w.last().1.halves > price_sum(w),
        (forall|i: int|
            0 <= i < w.len() - 1 ==> (#[trigger] w[i]).1.halves > w.last().1.halves)
            ==> w.len() * w.last().1.halves < price_sum(w),
{
    let t = w.drop_last();
    let n = t.len() as int;
    let x = w.last().1.halves as int;
    assert forall|i: int| 0 <= i < t.len() implies #[trigger] t[i] == w[i] by {}
    assert((n + 1) * x == n * x + x) by (nonlinear_arith);
    assert(n * (x - 1) == n * x - n && n * (x + 1) == n * x + n) by (nonlinear_arith);
    if forall|i: int| 0 <= i < w.len() - 1 ==> (#[trigger] w[i]).1.halves < x {
        lemma_price_sum_bounds(t, i64::MIN as int, x - 1);
    }
    if forall|i: int| 0 <= i < w.len() - 1 ==> (#[trigger] w[i]).1.halves > x {
        lemma_price_sum_bounds(t, x + 1, i64::MAX as int);
    }
}

proof fn lemma_filter_all(
    s: Seq<(Timestamp, HalfCents)>,
    p: spec_fn((Timestamp, HalfCents)) -> bool,
)
    requires
        forall|i: int| 0 <= i < s.len() ==> p(#[trigger] s[i]),
    ensures
        s.filter(p) == s,
    decreases s.len(),
{
    reveal(Seq::filter);
    if s.len() > 0 {
        lemma_filter_all(s.drop_last(), p);
        assert(p(s[s.len() - 1]));
        assert(s.drop_last().push(s.last()) =~= s);
    } else {
        assert(s.filter(p) =~= s);
    }
}

/// Prices and their squares are summed one by one.
pub proof fn law_sums(entries: Seq<(Timestamp, HalfCents)>, e: (Timestamp, HalfCents))
    ensures
        price_sum(Seq::empty()) == 0,
        square_sum(Seq::empty()) == 0,
        price_sum(entries.push(e)) == price_sum(entries) + e.1.halves,
        square_sum(entries.push(e)) == square_sum(entries) + e.1.halves * e.1.halves,
{
    assert(entries.push(e).drop_last() =~= entries);
}

/// The depth of a range of prices grows by the quantity at each price; what counts
/// as near a best bid begins as many cents below it, or at one cent.
pub proof fn law_depth(quantities: Seq<i64>, lo: int, hi: int, best: int, range: int)
    ensures
        lo >= hi ==> depth(quantities, lo, hi) == 0,
        lo <= hi ==> depth(quantities, lo, hi + 1) == depth(quantities, lo, hi) + quantities[hi],
        best - range >= 1 ==> OrderBook::near(best, range) == best - range,
        best - range < 1 ==> OrderBook::near(best, range) == 1,
{
}

} // verus!
