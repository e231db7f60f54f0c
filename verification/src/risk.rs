//! Risk: the position, the open legs and the profit made by pairing them, and
//! the state that says whether to trade.

use std::collections::VecDeque;
use vstd::prelude::*;

use crate::config::Config;
use crate::double::Double;
use crate::market_data::{fits, HalfCents};
use crate::text::same_text;
use crate::time::{Timestamp, SECOND};

verus! {

/// Whether trading goes on.
#[derive(Debug, Clone, Copy, PartialEq, Eq, Structural)]
pub enum RiskState {
    Normal,
    Cautious,
    Halted,
}

/// Why trading is halted.
#[derive(Debug, Clone, Copy, PartialEq, Eq, Structural)]
pub enum HaltCause {
    /// The position is at the hard cap.
    HardCap,
    /// The loss of the day is at its cap.
    LossCap,
    /// The stream is broken.
    Disconnected,
    /// The book has not been updated for too long.
    StaleBook,
}

/// Position, accounts and limits of one trading session.
pub struct RiskManager {
    pub state: RiskState,
    pub inventory: i64,
    pub max_inventory: i64,
    pub hard_inventory_cap: i64,
    pub daily_pnl_cents: i64,
    pub daily_loss_cap_cents: i64,
    pub ws_connected: bool,
    pub last_book_update: Timestamp,
    /// How old a book may be, in nanoseconds.
    pub max_book_staleness: u64,
    /// The yes prices of the yes contracts not yet paired, oldest first.
    pub open_yes_legs: VecDeque<i64>,
    /// The yes prices of the no contracts not yet paired, oldest first.
    pub open_no_legs: VecDeque<i64>,
    pub realized_pair_profit_cents: i64,
    pub pairs_completed: u64,
    pub open_leg_cost_cents: i64,
}

/// The accounts: contracts bought and not yet paired, each with the yes price
/// at which it was bought, and what the pairs have earned.
pub struct Ledger {
    pub yes_legs: Seq<i64>,
    pub no_legs: Seq<i64>,
    pub realized: int,
    pub daily: int,
    pub open_cost: int,
    pub pairs: int,
}

/// The sum of the first `n` of `legs`.
pub open spec fn leg_sum(legs: Seq<i64>, n: int) -> int
    decreases n,
{
    if n <= 0 {
        0
    } else {
        leg_sum(legs, n - 1) + legs[n - 1]
    }
}

/// The lesser of two numbers.
pub open spec fn min(a: int, b: int) -> int {
    if a <= b {
        a
    } else {
        b
    }
}

/// The absolute value of `x`.
pub open spec fn abs(x: int) -> int {
    if x < 0 {
        -x
    } else {
        x
    }
}

/// Whether a position, long or short, reaches a cap.
pub fn reaches(inventory: i64, cap: i64) -> (r: bool)
    ensures
        r == (abs(inventory as int) >= cap),
        r == (inventory >= cap || -inventory >= cap),
{
    let size: i128 = if inventory < 0 {
        -(inventory as i128)
    } else {
        inventory as i128
    };
    size >= cap as i128
}

impl Ledger {
    /// The accounts after buying `n` yes contracts at `price`: they are paired
    /// with the oldest open no contracts, as far as those go, and the rest stays
    /// open. A pair pays a dollar, so it earns the difference of the yes prices.
    pub open spec fn buy_yes(self, price: int, n: int) -> Ledger {
        let m = min(n, self.no_legs.len() as int);
        Ledger {
            yes_legs: self.yes_legs + Seq::new((n - m) as nat, |i: int| price as i64),
            no_legs: self.no_legs.subrange(m, self.no_legs.len() as int),
            realized: self.realized + leg_sum(self.no_legs, m) - m * price,
            daily: self.daily + leg_sum(self.no_legs, m) - m * price,
            open_cost: self.open_cost - (100 * m - leg_sum(self.no_legs, m)) + (n - m) * price,
            pairs: self.pairs + m,
        }
    }

    /// The accounts after buying `n` no contracts when yes costs `price`, so
    /// that no costs what is left of a dollar.
    pub open spec fn buy_no(self, price: int, n: int) -> Ledger {
        let m = min(n, self.yes_legs.len() as int);
        Ledger {
            yes_legs: self.yes_legs.subrange(m, self.yes_legs.len() as int),
            no_legs: self.no_legs + Seq::new((n - m) as nat, |i: int| price as i64),
            realized: self.realized + m * price - leg_sum(self.yes_legs, m),
            daily: self.daily + m * price - leg_sum(self.yes_legs, m),
            open_cost: self.open_cost - leg_sum(self.yes_legs, m) + (n - m) * (100 - price),
            pairs: self.pairs + m,
        }
    }

    /// The accounts after `n` contracts of one kind were bought; none for a
    /// negative number.
    pub open spec fn buy(self, yes: bool, price: int, n: int) -> Ledger {
        if n <= 0 {
            self
        } else if yes {
            self.buy_yes(price, n)
        } else {
            self.buy_no(price, n)
        }
    }

    /// Whether the accounts can be held in 64 bits.
    pub open spec fn fits(self) -> bool {
        fits(self.realized) && fits(self.daily) && fits(self.open_cost) && self.pairs <= u64::MAX
    }

    /// Whether the contract after the first `k` of a purchase can be booked in
    /// 64 bits.
    pub open spec fn unit_fits(self, yes: bool, price: int, k: int) -> bool {
        &&& self.buy(yes, price, k + 1).fits()
        &&& !yes ==> fits(100 - price)
        &&& yes && k < self.no_legs.len() ==> fits(100 - self.no_legs[k]) && fits(
            price + (100 - self.no_legs[k]),
        ) && fits(100 - (price + (100 - self.no_legs[k])))
        &&& !yes && k < self.yes_legs.len() ==> fits(self.yes_legs[k] + (100 - price)) && fits(
            100 - (self.yes_legs[k] + (100 - price)),
        )
    }

    /// Whether a purchase can be booked, contract by contract, in 64 bits.
    pub open spec fn buy_fits(self, yes: bool, price: int, n: int) -> bool {
        forall|k: int| 0 <= k < n ==> #[trigger] self.unit_fits(yes, price, k)
    }

    /// Contracts are open on one side at most, and the open cost is what they cost.
    pub open spec fn balanced(self) -> bool {
        &&& self.yes_legs.len() == 0 || self.no_legs.len() == 0
        &&& self.open_cost == leg_sum(self.yes_legs, self.yes_legs.len() as int) + 100
            * self.no_legs.len() - leg_sum(self.no_legs, self.no_legs.len() as int)
    }

    /// The number of open contracts, those of the no side counted as negative.
    pub open spec fn net(self) -> int {
        self.yes_legs.len() - self.no_legs.len()
    }
}

proof fn lemma_leg_sum_same(a: Seq<i64>, b: Seq<i64>, n: int)
    requires
        n <= a.len(),
        n <= b.len(),
        forall|i: int| 0 <= i < n ==> a[i] == b[i],
    ensures
        leg_sum(a, n) == leg_sum(b, n),
    decreases n,
{
    if n > 0 {
        lemma_leg_sum_same(a, b, n - 1);
    }
}

proof fn lemma_leg_sum_skip(legs: Seq<i64>, m: int, n: int)
    requires
        0 <= m,
        0 <= n,
        m + n <= legs.len(),
    ensures
        leg_sum(legs.subrange(m, legs.len() as int), n) == leg_sum(legs, m + n) - leg_sum(
            legs,
            m,
        ),
    decreases n,
{
    if n > 0 {
        lemma_leg_sum_skip(legs, m, n - 1);
    }
}

proof fn lemma_leg_sum_append(legs: Seq<i64>, price: i64, n: int)
    requires
        n >= 0,
    ensures
        leg_sum(legs + Seq::new(n as nat, |i: int| price), legs.len() + n) == leg_sum(
            legs,
            legs.len() as int,
        ) + n * price,
    decreases n,
{
    let all = legs + Seq::new(n as nat, |i: int| price);
    if n == 0 {
        assert(all =~= legs);
    } else {
        let fewer = legs + Seq::new((n - 1) as nat, |i: int| price);
        lemma_leg_sum_append(legs, price, n - 1);
        lemma_leg_sum_same(all, fewer, legs.len() + n - 1);
        assert(n * price == (n - 1) * price + price) by (nonlinear_arith);
    }
}

/// Booking one contract more is the purchase of one contract more.
proof fn lemma_buy_next(l: Ledger, yes: bool, price: i64, k: int)
    requires
        k >= 0,
    ensures
        ({
            let a = l.buy(yes, price as int, k);
            let b = l.buy(yes, price as int, k + 1);
            if yes {
                if k < l.no_legs.len() {
                    &&& a.no_legs.len() > 0
                    &&& a.no_legs[0] == l.no_legs[k]
                    &&& b.no_legs =~= a.no_legs.subrange(1, a.no_legs.len() as int)
                    &&& b.yes_legs =~= a.yes_legs
                    &&& b.realized == a.realized + l.no_legs[k] - price
                    &&& b.daily == a.daily + l.no_legs[k] - price
                    &&& b.open_cost == a.open_cost - (100 - l.no_legs[k])
                    &&& b.pairs == a.pairs + 1
                } else {
                    &&& a.no_legs.len() == 0
                    &&& b.no_legs =~= a.no_legs
                    &&& b.yes_legs =~= a.yes_legs.push(price)
                    &&& b.realized == a.realized
                    &&& b.daily == a.daily
                    &&& b.open_cost == a.open_cost + price
                    &&& b.pairs == a.pairs
                }
            } else {
                if k < l.yes_legs.len() {
                    &&& a.yes_legs.len() > 0
                    &&& a.yes_legs[0] == l.yes_legs[k]
                    &&& b.yes_legs =~= a.yes_legs.subrange(1, a.yes_legs.len() as int)
                    &&& b.no_legs =~= a.no_legs
                    &&& b.realized == a.realized + price - l.yes_legs[k]
                    &&& b.daily == a.daily + price - l.yes_legs[k]
                    &&& b.open_cost == a.open_cost - l.yes_legs[k]
                    &&& b.pairs == a.pairs + 1
                } else {
                    &&& a.yes_legs.len() == 0
                    &&& b.yes_legs =~= a.yes_legs
                    &&& b.no_legs =~= a.no_legs.push(price)
                    &&& b.realized == a.realized
                    &&& b.daily == a.daily
                    &&& b.open_cost == a.open_cost + (100 - price)
                    &&& b.pairs == a.pairs
                }
            }
        }),
{
    let p = price as int;
    assert((k + 1) * p == k * p + p) by (nonlinear_arith);
    let ny = l.no_legs.len() as int;
    let yy = l.yes_legs.len() as int;
    assert((k + 1 - ny) * p == (k - ny) * p + p) by (nonlinear_arith);
    assert((k + 1 - yy) * (100 - p) == (k - yy) * (100 - p) + (100 - p)) by (nonlinear_arith);
    assert(0 * p == 0 && 0 * (100 - p) == 0) by (nonlinear_arith);
    lemma_leg_sum_zero(l.no_legs);
    lemma_leg_sum_zero(l.yes_legs);
    if k == 0 {
        assert(l.no_legs.subrange(0, ny) =~= l.no_legs);
        assert(l.yes_legs.subrange(0, yy) =~= l.yes_legs);
    }
}

proof fn lemma_leg_sum_zero(legs: Seq<i64>)
    ensures
        leg_sum(legs, 0) == 0,
{
}

impl RiskManager {
    /// The accounts.
    pub open spec fn ledger(&self) -> Ledger {
        Ledger {
            yes_legs: self.open_yes_legs@,
            no_legs: self.open_no_legs@,
            realized: self.realized_pair_profit_cents as int,
            daily: self.daily_pnl_cents as int,
            open_cost: self.open_leg_cost_cents as int,
            pairs: self.pairs_completed as int,
        }
    }

    /// Everything but the accounts and the position is as in `other`.
    pub open spec fn same_standing(&self, other: &RiskManager) -> bool {
        &&& self.state == other.state
        &&& self.same_limits(other)
        &&& self.ws_connected == other.ws_connected
        &&& self.last_book_update == other.last_book_update
    }

    /// The limits are those of `other`.
    pub open spec fn same_limits(&self, other: &RiskManager) -> bool {
        &&& self.max_inventory == other.max_inventory
        &&& self.hard_inventory_cap == other.hard_inventory_cap
        &&& self.daily_loss_cap_cents == other.daily_loss_cap_cents
        &&& self.max_book_staleness == other.max_book_staleness
    }

    /// Why the figures ask for a halt: the first cause that holds.
    pub open spec fn cause(&self, now: Timestamp) -> Option<HaltCause> {
        if abs(self.inventory as int) >= self.hard_inventory_cap {
            Some(HaltCause::HardCap)
        } else if self.daily_pnl_cents <= -self.daily_loss_cap_cents {
            Some(HaltCause::LossCap)
        } else if !self.ws_connected {
            Some(HaltCause::Disconnected)
        } else if now.since(self.last_book_update) > self.max_book_staleness {
            Some(HaltCause::StaleBook)
        } else {
            None
        }
    }

    /// The state that the figures ask for: halted at the hard cap, at the loss
    /// cap, without a connection or with a stale book; cautious at the soft cap.
    pub open spec fn assessed(&self, now: Timestamp) -> RiskState {
        if self.cause(now) is Some {
            RiskState::Halted
        } else if abs(self.inventory as int) >= self.max_inventory {
            RiskState::Cautious
        } else {
            RiskState::Normal
        }
    }

    /// A manager with an empty ledger and no connection yet.
    pub fn new(config: &Config, now: Timestamp) -> (r: RiskManager)
        ensures
            r.state == RiskState::Normal,
            r.inventory == 0,
            r.max_inventory == config.max_inventory,
            r.hard_inventory_cap == config.hard_inventory_cap,
            r.daily_loss_cap_cents == config.daily_loss_cap_cents,
            !r.ws_connected,
            r.last_book_update == now,
            r.max_book_staleness == 5 * SECOND,
            r.ledger() == (Ledger {
                yes_legs: seq![],
                no_legs: seq![],
                realized: 0,
                daily: 0,
                open_cost: 0,
                pairs: 0,
            }),
            r.ledger().balanced(),
    {
        let r = RiskManager {
            state: RiskState::Normal,
            inventory: 0,
            max_inventory: config.max_inventory,
            hard_inventory_cap: config.hard_inventory_cap,
            daily_pnl_cents: 0,
            daily_loss_cap_cents: config.daily_loss_cap_cents,
            ws_connected: false,
            last_book_update: now,
            max_book_staleness: 5 * SECOND,
            open_yes_legs: VecDeque::new(),
            open_no_legs: VecDeque::new(),
            realized_pair_profit_cents: 0,
            pairs_completed: 0,
            open_leg_cost_cents: 0,
        };
        assert(r.ledger().yes_legs =~= seq![]);
        assert(r.ledger().no_legs =~= seq![]);
        r
    }

    /// Starts from the profit made earlier in the day.
    pub fn carry_daily_pnl(&mut self, pnl: i64)
        ensures
            *final(self) == (RiskManager { daily_pnl_cents: pnl, ..*old(self) }),
    {
        self.daily_pnl_cents = pnl;
    }

    /// Why the figures ask for a halt; none where they do not.
    pub fn halt_cause(&self, now: Timestamp) -> (r: Option<HaltCause>)
        ensures
            r == self.cause(now),
            r == Some(HaltCause::HardCap) <==> self.inventory >= self.hard_inventory_cap
                || -self.inventory >= self.hard_inventory_cap,
            r is None <==> self.inventory < self.hard_inventory_cap && -self.inventory
                < self.hard_inventory_cap && self.daily_pnl_cents > -self.daily_loss_cap_cents
                && self.ws_connected && now.since(self.last_book_update)
                <= self.max_book_staleness,
            r == Some(HaltCause::LossCap) ==> self.daily_pnl_cents <= -self.daily_loss_cap_cents,
            r == Some(HaltCause::Disconnected) ==> !self.ws_connected && self.daily_pnl_cents
                > -self.daily_loss_cap_cents,
            r == Some(HaltCause::StaleBook) ==> self.ws_connected && self.daily_pnl_cents
                > -self.daily_loss_cap_cents && now.since(self.last_book_update)
                > self.max_book_staleness,
    {
        if reaches(self.inventory, self.hard_inventory_cap) {
            return Some(HaltCause::HardCap);
        }
        if self.daily_pnl_cents as i128 <= -(self.daily_loss_cap_cents as i128) {
            return Some(HaltCause::LossCap);
        }
        if !self.ws_connected {
            return Some(HaltCause::Disconnected);
        }
        if now.duration_since(self.last_book_update) > self.max_book_staleness {
            return Some(HaltCause::StaleBook);
        }
        None
    }

    fn evaluate_state(&mut self, now: Timestamp)
        ensures
            *final(self) == (RiskManager { state: old(self).assessed(now), ..*old(self) }),
    {
        self.state = if self.halt_cause(now).is_some() {
            RiskState::Halted
        } else if reaches(self.inventory, self.max_inventory) {
            RiskState::Cautious
        } else {
            RiskState::Normal
        };
    }

    /// Takes the state that the figures ask for.
    pub fn tick(&mut self, now: Timestamp) -> (r: RiskState)
        ensures
            r == old(self).assessed(now),
            *final(self) == (RiskManager { state: r, ..*old(self) }),
            r == RiskState::Halted <==> old(self).inventory >= old(self).hard_inventory_cap
                || -old(self).inventory >= old(self).hard_inventory_cap
                || old(self).daily_pnl_cents <= -old(self).daily_loss_cap_cents
                || !old(self).ws_connected || now.since(old(self).last_book_update)
                > old(self).max_book_staleness,
            r == RiskState::Cautious ==> old(self).inventory >= old(self).max_inventory
                || -old(self).inventory >= old(self).max_inventory,
            r == RiskState::Normal ==> old(self).inventory < old(self).max_inventory
                && -old(self).inventory < old(self).max_inventory,
    {
        self.evaluate_state(now);
        self.state
    }

    /// Whether a fill can be booked in 64 bits.
    pub open spec fn fill_fits(&self, side: Seq<char>, yes_price: i64, count: i64) -> bool {
        self.ledger().buy_fits(side == "yes"@, yes_price as int, count as int)
    }

    /// The profit of the day after a fill, if the fill can be booked in 64 bits.
    pub fn daily_after_fill(&self, side: &str, yes_price: i64, count: i64) -> (r: Option<i64>)
        ensures
            match r {
                Some(daily) => self.fill_fits(side@, yes_price, count) && daily
                    == self.ledger().buy(side@ == "yes"@, yes_price as int, count as int).daily,
                None => !self.fill_fits(side@, yes_price, count),
            },
    {
        let yes: bool = same_text(side, "yes");
        let ghost l = self.ledger();
        let mut realized: i64 = self.realized_pair_profit_cents;
        let mut daily: i64 = self.daily_pnl_cents;
        let mut open_cost: i64 = self.open_leg_cost_cents;
        let mut pairs: u64 = self.pairs_completed;
        let open: usize = if yes {
            self.open_no_legs.len()
        } else {
            self.open_yes_legs.len()
        };
        let mut k: i64 = 0;
        while k < count
            invariant
                l == self.ledger(),
                yes == (side@ == "yes"@),
                open == if yes {
                    l.no_legs.len()
                } else {
                    l.yes_legs.len()
                },
                0 <= k,
                k <= count || k == 0,
                forall|i: int| 0 <= i < k ==> #[trigger] l.unit_fits(yes, yes_price as int, i),
                realized == l.buy(yes, yes_price as int, k as int).realized,
                daily == l.buy(yes, yes_price as int, k as int).daily,
                open_cost == l.buy(yes, yes_price as int, k as int).open_cost,
                pairs == l.buy(yes, yes_price as int, k as int).pairs,
            decreases count - k,
        {
            proof {
                lemma_buy_next(l, yes, yes_price, k as int);
            }
            let ghost ok = l.unit_fits(yes, yes_price as int, k as int);
            if (k as u64) < open as u64 {
                let leg: i64 = if yes {
                    self.open_no_legs[k as usize]
                } else {
                    self.open_yes_legs[k as usize]
                };
                let no_price: i64 = if yes {
                    leg
                } else {
                    yes_price
                };
                let yes_cost: i64 = if yes {
                    yes_price
                } else {
                    leg
                };
                let no_cost: i64 = match (100i64).checked_sub(no_price) {
                    Some(x) => x,
                    None => {
                        assert(!ok);
                        return None;
                    },
                };
                let pair_cost: i64 = match yes_cost.checked_add(no_cost) {
                    Some(x) => x,
                    None => {
                        assert(!ok);
                        return None;
                    },
                };
                let profit: i64 = match (100i64).checked_sub(pair_cost) {
                    Some(x) => x,
                    None => {
                        assert(!ok);
                        return None;
                    },
                };
                realized = match realized.checked_add(profit) {
                    Some(x) => x,
                    None => {
                        assert(!ok);
                        return None;
                    },
                };
                daily = match daily.checked_add(profit) {
                    Some(x) => x,
                    None => {
                        assert(!ok);
                        return None;
                    },
                };
                let paid: i64 = if yes {
                    no_cost
                } else {
                    leg
                };
                open_cost = match open_cost.checked_sub(paid) {
                    Some(x) => x,
                    None => {
                        assert(!ok);
                        return None;
                    },
                };
                pairs = match pairs.checked_add(1) {
                    Some(x) => x,
                    None => {
                        assert(!ok);
                        return None;
                    },
                };
            } else {
                let cost: i64 = if yes {
                    yes_price
                } else {
                    match (100i64).checked_sub(yes_price) {
                        Some(x) => x,
                        None => {
                            assert(!ok);
                            return None;
                        },
                    }
                };
                open_cost = match open_cost.checked_add(cost) {
                    Some(x) => x,
                    None => {
                        assert(!ok);
                        return None;
                    },
                };
            }
            assert(ok);
            k += 1;
        }
        Some(daily)
    }

    /// Whether a fill can be booked in 64 bits.
    pub fn can_record_fill(&self, side: &str, yes_price: i64, count: i64) -> (r: bool)
        ensures
            r == self.fill_fits(side@, yes_price, count),
    {
        self.daily_after_fill(side, yes_price, count).is_some()
    }

    /// Books a fill: `count` contracts of a side, yes or else no, at a yes
    /// price; the exchange reports the position after it.
    pub fn record_fill(
        &mut self,
        side: &str,
        _action: &str,
        yes_price: i64,
        count: i64,
        post_position: i64,
    )
        requires
            old(self).fill_fits(side@, yes_price, count),
        ensures
            final(self).inventory == post_position,
            final(self).ledger() == old(self).ledger().buy(
                side@ == "yes"@,
                yes_price as int,
                count as int,
            ),
            final(self).same_standing(old(self)),
            old(self).ledger().balanced() ==> final(self).ledger().balanced(),
            final(self).state == old(self).state,
            final(self).max_inventory == old(self).max_inventory,
            final(self).hard_inventory_cap == old(self).hard_inventory_cap,
            final(self).daily_loss_cap_cents == old(self).daily_loss_cap_cents,
            final(self).max_book_staleness == old(self).max_book_staleness,
            final(self).ws_connected == old(self).ws_connected,
            final(self).last_book_update == old(self).last_book_update,
            count <= 0 ==> final(self).ledger() == old(self).ledger(),
            count > 0 && side@ == "yes"@ ==> final(self).open_yes_legs@.len()
                - final(self).open_no_legs@.len() == old(self).open_yes_legs@.len()
                - old(self).open_no_legs@.len() + count,
            count > 0 && side@ != "yes"@ ==> final(self).open_yes_legs@.len()
                - final(self).open_no_legs@.len() == old(self).open_yes_legs@.len()
                - old(self).open_no_legs@.len() - count,
            count == 1 && side@ == "yes"@ && old(self).open_no_legs@.len() > 0 ==> {
                let earned = old(self).open_no_legs@[0] - yes_price;
                &&& final(self).open_yes_legs@ == old(self).open_yes_legs@
                &&& final(self).open_no_legs@ == old(self).open_no_legs@.drop_first()
                &&& final(self).pairs_completed == old(self).pairs_completed + 1
                &&& final(self).realized_pair_profit_cents
                    == old(self).realized_pair_profit_cents + earned
                &&& final(self).daily_pnl_cents == old(self).daily_pnl_cents + earned
                &&& final(self).open_leg_cost_cents == old(self).open_leg_cost_cents - (100
                    - old(self).open_no_legs@[0])
            },
            count == 1 && side@ == "yes"@ && old(self).open_no_legs@.len() == 0 ==> {
                &&& final(self).open_yes_legs@ == old(self).open_yes_legs@.push(yes_price)
                &&& final(self).open_no_legs@ == old(self).open_no_legs@
                &&& final(self).pairs_completed == old(self).pairs_completed
                &&& final(self).realized_pair_profit_cents == old(self).realized_pair_profit_cents
                &&& final(self).daily_pnl_cents == old(self).daily_pnl_cents
                &&& final(self).open_leg_cost_cents == old(self).open_leg_cost_cents + yes_price
            },
            count == 1 && side@ != "yes"@ && old(self).open_yes_legs@.len() > 0 ==> {
                let earned = yes_price - old(self).open_yes_legs@[0];
                &&& final(self).open_no_legs@ == old(self).open_no_legs@
                &&& final(self).open_yes_legs@ == old(self).open_yes_legs@.drop_first()
                &&& final(self).pairs_completed == old(self).pairs_completed + 1
                &&& final(self).realized_pair_profit_cents
                    == old(self).realized_pair_profit_cents + earned
                &&& final(self).daily_pnl_cents == old(self).daily_pnl_cents + earned
                &&& final(self).open_leg_cost_cents == old(self).open_leg_cost_cents
                    - old(self).open_yes_legs@[0]
            },
            count == 1 && side@ != "yes"@ && old(self).open_yes_legs@.len() == 0 ==> {
                &&& final(self).open_no_legs@ == old(self).open_no_legs@.push(yes_price)
                &&& final(self).open_yes_legs@ == old(self).open_yes_legs@
                &&& final(self).pairs_completed == old(self).pairs_completed
                &&& final(self).realized_pair_profit_cents == old(self).realized_pair_profit_cents
                &&& final(self).daily_pnl_cents == old(self).daily_pnl_cents
                &&& final(self).open_leg_cost_cents == old(self).open_leg_cost_cents + (100
                    - yes_price)
            },
    {
        let yes: bool = same_text(side, "yes");
        let ghost l = self.ledger();
        proof {
            law_balance_kept(l, yes, yes_price, count as int);
            law_one_contract(l, yes, yes_price);
            if count > 0 {
                law_net_moves(l, yes, yes_price, count as int);
            }
        }
        self.inventory = post_position;
        let mut k: i64 = 0;
        while k < count
            invariant
                l == old(self).ledger(),
                yes == (side@ == "yes"@),
                0 <= k,
                k <= count || k == 0,
                l.buy_fits(yes, yes_price as int, count as int),
                self.ledger() == l.buy(yes, yes_price as int, k as int),
                self.inventory == post_position,
                self.same_standing(old(self)),
            decreases count - k,
        {
            proof {
                lemma_buy_next(l, yes, yes_price, k as int);
                assert(l.unit_fits(yes, yes_price as int, k as int));
            }
            if yes {
                match self.open_no_legs.pop_front() {
                    Some(no_yes_price) => {
                        let no_cost: i64 = 100 - no_yes_price;
                        let pair_cost: i64 = yes_price + no_cost;
                        let profit: i64 = 100 - pair_cost;
                        self.realized_pair_profit_cents = self.realized_pair_profit_cents + profit;
                        self.daily_pnl_cents = self.daily_pnl_cents + profit;
                        self.open_leg_cost_cents = self.open_leg_cost_cents - no_cost;
                        self.pairs_completed = self.pairs_completed + 1;
                    },
                    None => {
                        self.open_yes_legs.push_back(yes_price);
                        self.open_leg_cost_cents = self.open_leg_cost_cents + yes_price;
                    },
                }
            } else {
                let no_cost: i64 = 100 - yes_price;
                match self.open_yes_legs.pop_front() {
                    Some(yes_cost) => {
                        let pair_cost: i64 = yes_cost + no_cost;
                        let profit: i64 = 100 - pair_cost;
                        self.realized_pair_profit_cents = self.realized_pair_profit_cents + profit;
                        self.daily_pnl_cents = self.daily_pnl_cents + profit;
                        self.open_leg_cost_cents = self.open_leg_cost_cents - yes_cost;
                        self.pairs_completed = self.pairs_completed + 1;
                    },
                    None => {
                        self.open_no_legs.push_back(yes_price);
                        self.open_leg_cost_cents = self.open_leg_cost_cents + no_cost;
                    },
                }
            }
            proof {
                let b = l.buy(yes, yes_price as int, k + 1);
                assert(self.ledger().yes_legs =~= b.yes_legs);
                assert(self.ledger().no_legs =~= b.no_legs);
            }
            k += 1;
        }
    }

    /// Whether contracts are open.
    pub fn has_unpaired(&self) -> (r: bool)
        ensures
            r == (self.ledger().yes_legs.len() > 0 || self.ledger().no_legs.len() > 0),
            r == (self.open_yes_legs@.len() > 0 || self.open_no_legs@.len() > 0),
    {
        self.open_yes_legs.len() > 0 || self.open_no_legs.len() > 0
    }

    /// The side on which contracts are open.
    pub fn unpaired_side(&self) -> (r: Option<&'static str>)
        ensures
            match r {
                Some(s) => if self.ledger().yes_legs.len() > 0 {
                    s@ == "yes"@
                } else {
                    self.ledger().no_legs.len() > 0 && s@ == "no"@
                },
                None => self.ledger().yes_legs.len() == 0 && self.ledger().no_legs.len() == 0,
            },
            self.open_yes_legs@.len() > 0 ==> (r matches Some(s) && s@ == "yes"@),
            self.open_yes_legs@.len() == 0 && self.open_no_legs@.len() > 0 ==> (r matches Some(s)
                && s@ == "no"@),
    {
        if self.open_yes_legs.len() > 0 {
            Some("yes")
        } else if self.open_no_legs.len() > 0 {
            Some("no")
        } else {
            None
        }
    }

    /// What the oldest open contract cost.
    pub fn oldest_open_leg_cost(&self) -> (r: Option<i64>)
        requires
            self.ledger().yes_legs.len() == 0 && self.ledger().no_legs.len() > 0 ==> fits(
                100 - self.ledger().no_legs[0],
            ),
        ensures
            match r {
                Some(c) => if self.ledger().yes_legs.len() > 0 {
                    c == self.ledger().yes_legs[0]
                } else {
                    self.ledger().no_legs.len() > 0 && c == 100 - self.ledger().no_legs[0]
                },
                None => self.ledger().yes_legs.len() == 0 && self.ledger().no_legs.len() == 0,
            },
            self.open_yes_legs@.len() > 0 ==> r == Some(self.open_yes_legs@[0]),
            self.open_yes_legs@.len() == 0 && self.open_no_legs@.len() > 0 ==> (r matches Some(c)
                && c + self.open_no_legs@[0] == 100),
    {
        if self.open_yes_legs.len() > 0 {
            Some(self.open_yes_legs[0])
        } else if self.open_no_legs.len() > 0 {
            Some(100 - self.open_no_legs[0])
        } else {
            None
        }
    }

    /// The number of open yes contracts.
    pub fn open_yes_count(&self) -> (r: usize)
        ensures
            r == self.ledger().yes_legs.len(),
            r == self.open_yes_legs@.len(),
    {
        self.open_yes_legs.len()
    }

    /// The number of open no contracts.
    pub fn open_no_count(&self) -> (r: usize)
        ensures
            r == self.ledger().no_legs.len(),
            r == self.open_no_legs@.len(),
    {
        self.open_no_legs.len()
    }

    /// Notes that the connection came up or went down; without it trading halts.
    pub fn set_ws_connected(&mut self, connected: bool)
        ensures
            *final(self) == (RiskManager {
                ws_connected: connected,
                state: if connected {
                    old(self).state
                } else {
                    RiskState::Halted
                },
                ..*old(self)
            }),
    {
        self.ws_connected = connected;
        if !connected {
            self.state = RiskState::Halted;
        }
    }

    /// Notes that the book is fresh.
    pub fn book_updated(&mut self, now: Timestamp)
        ensures
            *final(self) == (RiskManager { last_book_update: now, ..*old(self) }),
    {
        self.last_book_update = now;
    }

    /// Whether yes contracts may be bought.
    pub fn can_bid(&self) -> (r: bool)
        ensures
            r == (self.state != RiskState::Halted && self.inventory < self.max_inventory),
    {
        self.state != RiskState::Halted && self.inventory < self.max_inventory
    }

    /// Whether no contracts may be bought.
    pub fn can_ask(&self) -> (r: bool)
        ensures
            r == (self.state != RiskState::Halted && self.inventory > -self.max_inventory),
    {
        self.state != RiskState::Halted && self.inventory as i128 > -(self.max_inventory as i128)
    }

    /// Whether to quote at all.
    pub fn should_quote(&self) -> (r: bool)
        ensures
            r == (self.state != RiskState::Halted),
    {
        self.state != RiskState::Halted
    }

    /// Halts trading.
    pub fn halt(&mut self, _reason: &str)
        ensures
            *final(self) == (RiskManager { state: RiskState::Halted, ..*old(self) }),
    {
        self.state = RiskState::Halted;
    }

    /// Lets trading go on.
    pub fn reset(&mut self)
        ensures
            *final(self) == (RiskManager { state: RiskState::Normal, ..*old(self) }),
    {
        self.state = RiskState::Normal;
    }

    /// Whether the price band and the usual spread allow taking liquidity: not
    /// from 20 to 40 cents, and not at a spread of one and a half cents or more.
    pub fn band_allows_spear(&self, mid: HalfCents, avg_spread: Double) -> (r: bool)
        ensures
            r == (!(40 <= mid.halves < 80) && !avg_spread.ge(
                (Double { bits: 0x3ff8_0000_0000_0000 }),
            )),
    {
        if mid.halves >= 40 && mid.halves < 80 {
            return false;
        }
        if avg_spread.at_least(Double { bits: 0x3ff8_0000_0000_0000 }) {
            return false;
        }
        true
    }
}

/// Every fill keeps the accounts balanced: contracts are open on one side at
/// most, and the open cost is what the open contracts cost.
pub proof fn law_balance_kept(l: Ledger, yes: bool, price: i64, n: int)
    ensures
        l.balanced() ==> l.buy(yes, price as int, n).balanced(),
{
    if l.balanced() && n > 0 {
        let legs = if yes {
            l.no_legs
        } else {
            l.yes_legs
        };
        let other = if yes {
            l.yes_legs
        } else {
            l.no_legs
        };
        let m = min(n, legs.len() as int);
        let b = l.buy(yes, price as int, n);
        lemma_leg_sum_skip(legs, m, legs.len() - m);
        lemma_leg_sum_append(other, price, n - m);
        assert((n - m) * (100 - price) == 100 * (n - m) - (n - m) * price) by (nonlinear_arith);
        assert(0 * price == 0) by (nonlinear_arith);
    }
}

/// One contract is paired with the oldest open one of the other kind: the pair
/// pays a dollar, so it earns what the yes contract cost less than the dollar
/// leaves for the no contract, and the open contract's cost is open no more.
/// Without one of the other kind it stays open, at what it cost.
pub proof fn law_one_contract(l: Ledger, yes: bool, price: i64)
    ensures
        ({
            let b = l.buy(yes, price as int, 1);
            let earned = b.realized - l.realized;
            if yes && l.no_legs.len() > 0 {
                let no_cost = 100 - l.no_legs[0];
                &&& b.no_legs == l.no_legs.drop_first() && b.yes_legs == l.yes_legs
                &&& b.pairs == l.pairs + 1
                &&& price + no_cost + earned == 100 && b.daily - l.daily == earned
                &&& b.open_cost == l.open_cost - no_cost
            } else if yes {
                &&& b.yes_legs == l.yes_legs.push(price) && b.no_legs == l.no_legs
                &&& b.pairs == l.pairs && earned == 0 && b.daily == l.daily
                &&& b.open_cost == l.open_cost + price
            } else if l.yes_legs.len() > 0 {
                let no_cost = 100 - price;
                &&& b.yes_legs == l.yes_legs.drop_first() && b.no_legs == l.no_legs
                &&& b.pairs == l.pairs + 1
                &&& l.yes_legs[0] + no_cost + earned == 100 && b.daily - l.daily == earned
                &&& b.open_cost == l.open_cost - l.yes_legs[0]
            } else {
                &&& b.no_legs == l.no_legs.push(price) && b.yes_legs == l.yes_legs
                &&& b.pairs == l.pairs && earned == 0 && b.daily == l.daily
                &&& b.open_cost == l.open_cost + (100 - price)
            }
        }),
{
    lemma_buy_next(l, yes, price, 0);
    let b = l.buy(yes, price as int, 1);
    assert(l.buy(yes, price as int, 0) == l);
    if yes && l.no_legs.len() > 0 {
        assert(b.no_legs =~= l.no_legs.drop_first());
    } else if !yes && l.yes_legs.len() > 0 {
        assert(b.yes_legs =~= l.yes_legs.drop_first());
    }
}

pub proof fn lemma_leg_sum_range(legs: Seq<i64>, n: int)
    requires
        0 <= n <= legs.len(),
        forall|i: int| 0 <= i < legs.len() ==> 0 <= (#[trigger] legs[i]) <= 100,
    ensures
        0 <= leg_sum(legs, n) <= 100 * n,
    decreases n,
{
    if n > 0 {
        lemma_leg_sum_range(legs, n - 1);
        assert(0 <= legs[n - 1] <= 100);
    }
}

/// Fills as they come are always booked: at prices up to a dollar and up to a
/// trillion contracts, as long as the accounts are within a quintillion cents.
pub proof fn law_ordinary_fills_fit(l: Ledger, yes: bool, price: i64, n: int)
    requires
        0 <= price <= 100,
        n <= 1_000_000_000_000,
        -1_000_000_000_000_000_000 <= l.realized <= 1_000_000_000_000_000_000,
        -1_000_000_000_000_000_000 <= l.daily <= 1_000_000_000_000_000_000,
        -1_000_000_000_000_000_000 <= l.open_cost <= 1_000_000_000_000_000_000,
        0 <= l.pairs <= 1_000_000_000_000_000_000,
        forall|i: int| 0 <= i < l.yes_legs.len() ==> 0 <= (#[trigger] l.yes_legs[i]) <= 100,
        forall|i: int| 0 <= i < l.no_legs.len() ==> 0 <= (#[trigger] l.no_legs[i]) <= 100,
    ensures
        l.buy_fits(yes, price as int, n),
{
    assert forall|k: int| 0 <= k < n implies #[trigger] l.unit_fits(yes, price as int, k) by {
        let legs = if yes {
            l.no_legs
        } else {
            l.yes_legs
        };
        let m = min(k + 1, legs.len() as int);
        lemma_leg_sum_range(legs, m);
        let p = price as int;
        assert(0 <= m * p <= 100 * m && 0 <= (k + 1 - m) * p <= 100 * (k + 1 - m) && 0 <= (k + 1
            - m) * (100 - p) <= 100 * (k + 1 - m)) by (nonlinear_arith)
            requires
                0 <= p <= 100,
                0 <= m <= k + 1,
        ;
        if k < legs.len() {
            assert(0 <= legs[k] <= 100);
        }
    }
}

/// A fill moves the net number of open contracts by its size, up for yes and down for no.
pub proof fn law_net_moves(l: Ledger, yes: bool, price: i64, n: int)
    requires
        n >= 0,
    ensures
        l.buy(yes, price as int, n).net() == l.net() + if yes {
            n
        } else {
            -n
        },
{
}

/// Every contract that is bought is open or in a pair: twice the pairs and the
/// open contracts together grow by the size of the fill.
pub proof fn law_contracts_conserved(l: Ledger, yes: bool, price: i64, n: int)
    requires
        n >= 0,
    ensures
        ({
            let b = l.buy(yes, price as int, n);
            2 * b.pairs + b.yes_legs.len() + b.no_legs.len() == 2 * l.pairs + l.yes_legs.len()
                + l.no_legs.len() + n
        }),
{
}

/// Pairing earns the same for the day as for the session.
pub proof fn law_profit_booked_alike(l: Ledger, yes: bool, price: i64, n: int)
    ensures
        l.buy(yes, price as int, n).daily - l.daily == l.buy(yes, price as int, n).realized
            - l.realized,
{
}

/// A fill reported in two parts is booked like one reported whole.
pub proof fn law_fill_splits(l: Ledger, yes: bool, price: i64, a: int, b: int)
    requires
        a >= 0,
        b >= 0,
    ensures
        l.buy(yes, price as int, a).buy(yes, price as int, b) == l.buy(yes, price as int, a + b),
    decreases b,
{
    let first = l.buy(yes, price as int, a);
    if b > 0 {
        law_fill_splits(l, yes, price, a, b - 1);
        lemma_buy_next(first, yes, price, b - 1);
        lemma_buy_next(l, yes, price, a + b - 1);
        let x = first.buy(yes, price as int, b);
        let y = l.buy(yes, price as int, a + b);
        assert(x.yes_legs =~= y.yes_legs);
        assert(x.no_legs =~= y.no_legs);
    }
}

/// Halting wins: whatever else holds, a position at the hard cap, a loss at
/// its cap, a lost connection or a stale book each halt trading.
pub proof fn law_halts(risk: RiskManager, now: Timestamp)
    ensures
        risk.assessed(now) == RiskState::Halted <==> {
            ||| abs(risk.inventory as int) >= risk.hard_inventory_cap
            ||| risk.daily_pnl_cents <= -risk.daily_loss_cap_cents
            ||| !risk.ws_connected
            ||| now.since(risk.last_book_update) > risk.max_book_staleness
        },
{
}

/// The accounts are what is written in the books of the session.
pub proof fn law_accounts_seen(r: RiskManager)
    ensures
        r.ledger().yes_legs == r.open_yes_legs@,
        r.ledger().no_legs == r.open_no_legs@,
        r.ledger().realized == r.realized_pair_profit_cents,
        r.ledger().daily == r.daily_pnl_cents,
        r.ledger().open_cost == r.open_leg_cost_cents,
        r.ledger().pairs == r.pairs_completed,
{
}

} // verus!
