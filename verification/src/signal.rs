//! The signal engine: from the book, the z-scores and the orders at work to
//! the actions to take.

use vstd::prelude::*;

use crate::config::Config;
use crate::double::Double;
use crate::market_data::{ask_against, HalfCents, OrderBook};
use crate::risk::{abs, min, reaches, RiskManager};
use crate::seqs::{lemma_filter_ends, lemma_filter_step};
use crate::text::same_text;
use crate::time::{Timestamp, SECOND};
use crate::tracker::{lemma_sides_differ, OrderEntry, OrderTracker, TrackedOrder};

verus! {

/// How far the price is from its mean.
#[derive(Debug, Clone, Copy, PartialEq, Eq, Structural)]
pub enum Regime {
    Calm,
    Stretched,
    Extreme,
}

/// On which side of its mean the price is.
#[derive(Debug, Clone, Copy, PartialEq, Eq, Structural)]
pub enum ZDirection {
    Up,
    Down,
}

/// Something to do at the exchange. Prices of bids and asks are yes prices.
#[derive(Debug)]
pub enum StrategyAction {
    PlaceBid { price_cents: i64, count: i64 },
    PlaceAsk { price_cents: i64, count: i64 },
    CancelOrder { order_id: String },
    CancelAll,
    TakeYes { price: i64, count: i64 },
    TakeNo { price: i64, count: i64 },
}

/// An action, with its text as characters.
pub enum ActionView {
    PlaceBid { price_cents: int, count: int },
    PlaceAsk { price_cents: int, count: int },
    CancelOrder { order_id: Seq<char> },
    CancelAll,
    TakeYes { price: int, count: int },
    TakeNo { price: int, count: int },
}

impl View for StrategyAction {
    type V = ActionView;

    open spec fn view(&self) -> ActionView {
        match self {
            StrategyAction::PlaceBid { price_cents, count } => ActionView::PlaceBid {
                price_cents: *price_cents as int,
                count: *count as int,
            },
            StrategyAction::PlaceAsk { price_cents, count } => ActionView::PlaceAsk {
                price_cents: *price_cents as int,
                count: *count as int,
            },
            StrategyAction::CancelOrder { order_id } => ActionView::CancelOrder {
                order_id: order_id@,
            },
            StrategyAction::CancelAll => ActionView::CancelAll,
            StrategyAction::TakeYes { price, count } => ActionView::TakeYes {
                price: *price as int,
                count: *count as int,
            },
            StrategyAction::TakeNo { price, count } => ActionView::TakeNo {
                price: *price as int,
                count: *count as int,
            },
        }
    }
}

/// The views of a list of actions.
pub open spec fn views(actions: Seq<StrategyAction>) -> Seq<ActionView> {
    actions.map_values(|a: StrategyAction| a@)
}

/// Twenty cents of the price range.
#[derive(Debug, Clone, Copy, PartialEq, Eq, Structural)]
pub enum Band {
    To20,
    To40,
    To60,
    To80,
    To100,
}

impl Band {
    /// The band of a middle price.
    pub open spec fn of_spec(mid: HalfCents) -> Band {
        if mid.halves < 40 {
            Band::To20
        } else if mid.halves < 80 {
            Band::To40
        } else if mid.halves < 120 {
            Band::To60
        } else if mid.halves < 160 {
            Band::To80
        } else {
            Band::To100
        }
    }

    /// The number of the band, from the lowest on.
    pub open spec fn number(self) -> int {
        match self {
            Band::To20 => 0,
            Band::To40 => 1,
            Band::To60 => 2,
            Band::To80 => 3,
            Band::To100 => 4,
        }
    }

    /// The name of the band.
    pub open spec fn name(self) -> Seq<char> {
        match self {
            Band::To20 => "0-20"@,
            Band::To40 => "20-40"@,
            Band::To60 => "40-60"@,
            Band::To80 => "60-80"@,
            Band::To100 => "80-100"@,
        }
    }

    /// The band of a middle price.
    pub fn of(mid: HalfCents) -> (r: Band)
        ensures
            r == Band::of_spec(mid),
            r == Band::To20 <==> mid.halves < 40,
            r == Band::To40 <==> 40 <= mid.halves < 80,
            r == Band::To60 <==> 80 <= mid.halves < 120,
            r == Band::To80 <==> 120 <= mid.halves < 160,
            r == Band::To100 <==> mid.halves >= 160,
    {
        if mid.halves < 40 {
            Band::To20
        } else if mid.halves < 80 {
            Band::To40
        } else if mid.halves < 120 {
            Band::To60
        } else if mid.halves < 160 {
            Band::To80
        } else {
            Band::To100
        }
    }

    /// The number of the band, from the lowest on.
    pub fn index(self) -> (r: usize)
        ensures
            r == self.number(),
            r < 5,
    {
        match self {
            Band::To20 => 0,
            Band::To40 => 1,
            Band::To60 => 2,
            Band::To80 => 3,
            Band::To100 => 4,
        }
    }

    /// The name of the band.
    pub fn label(self) -> (r: &'static str)
        ensures
            r@ == self.name(),
    {
        match self {
            Band::To20 => "0-20",
            Band::To40 => "20-40",
            Band::To60 => "40-60",
            Band::To80 => "60-80",
            Band::To100 => "80-100",
        }
    }
}

/// The name of the band of a middle price.
pub fn price_band(mid: HalfCents) -> (r: &'static str)
    ensures
        r@ == Band::of_spec(mid).name(),
        mid.halves < 40 ==> r@ == "0-20"@,
        40 <= mid.halves < 80 ==> r@ == "20-40"@,
        80 <= mid.halves < 120 ==> r@ == "40-60"@,
        120 <= mid.halves < 160 ==> r@ == "60-80"@,
        mid.halves >= 160 ==> r@ == "80-100"@,
{
    Band::of(mid).label()
}

/// A position that was entered on a signal.
#[derive(Debug, Clone, Copy, PartialEq, Eq, Structural)]
pub struct SignalEvent {
    pub started_at: Timestamp,
    pub entry_mid: HalfCents,
    pub gear: u8,
    pub band: Band,
    pub resolved: bool,
}

pub struct SignalEngine {
    pub active_yes_event: Option<SignalEvent>,
    pub active_no_event: Option<SignalEvent>,
    /// The moving average of the spread in each band that was seen.
    pub spread_emas: [Option<Double>; 5],
    pub cfg_gear1: Double,
    pub cfg_gear2: Double,
    /// In nanoseconds.
    pub cfg_signal_timeout: u64,
    pub cfg_ladder_levels: usize,
    pub cfg_gear2_enabled: bool,
    pub cfg_no_open_before_close: i64,
    pub cfg_no_trade_before_close: i64,
    pub cfg_spread_max_gear2: Double,
    pub cfg_order_size: i64,
    pub cfg_max_inventory: i64,
    pub cfg_hard_inventory_cap: i64,
    pub cfg_z60_noise_cap: Double,
}

/// A spread to be averaged.
#[derive(Debug, Clone, Copy, PartialEq, Eq, Structural)]
pub struct SpreadSample {
    pub band: Band,
    /// In cents.
    pub spread: i64,
    /// The average so far, if there was a spread before.
    pub average: Option<Double>,
}

/// Cancels for the orders that satisfy `p`.
pub open spec fn cancels(entries: Seq<OrderEntry>, p: spec_fn(OrderEntry) -> bool) -> Seq<
    ActionView,
> {
    entries.filter(p).map_values(
        |e: OrderEntry| ActionView::CancelOrder { order_id: e.order.order_id@ },
    )
}

/// A live order of a market.
pub open spec fn live_in(order: TrackedOrder, ticker: Seq<char>) -> bool {
    order.ticker@ == ticker && order.live()
}

/// A live order of a side.
pub open spec fn live_on(order: TrackedOrder, ticker: Seq<char>, side: Seq<char>) -> bool {
    live_in(order, ticker) && order.side@ == side
}

/// Cancels for the live orders of a side.
pub open spec fn side_cancels(
    entries: Seq<OrderEntry>,
    ticker: Seq<char>,
    side: Seq<char>,
) -> Seq<ActionView> {
    cancels(entries, |e: OrderEntry| live_on(e.order, ticker, side))
}

/// Cancels for all live orders.
pub open spec fn market_cancels(entries: Seq<OrderEntry>, ticker: Seq<char>) -> Seq<ActionView> {
    cancels(entries, |e: OrderEntry| live_in(e.order, ticker))
}

/// Whether a live order to buy would trade at once against the book: a bid for
/// yes at the offer or above, or a bid for no that offers yes at the bid or below.
pub open spec fn crosses(order: TrackedOrder, ticker: Seq<char>, bid: int, ask: int) -> bool {
    live_in(order, ticker) && ((order.buys("yes"@) && order.price_cents >= ask) || (order.buys(
        "no"@,
    ) && 100 - order.price_cents <= bid))
}

/// The number of live orders to buy a side.
pub open spec fn live_buys(entries: Seq<OrderEntry>, ticker: Seq<char>, side: Seq<char>) -> int {
    entries.filter(
        |e: OrderEntry| live_in(e.order, ticker) && e.order.buys(side),
    ).len() as int
}

/// The number of live orders to buy a side that do not cross the book.
pub open spec fn standing_buys(
    entries: Seq<OrderEntry>,
    ticker: Seq<char>,
    side: Seq<char>,
    bid: int,
    ask: int,
) -> int {
    entries.filter(
        |e: OrderEntry|
            live_in(e.order, ticker) && e.order.buys(side) && !crosses(e.order, ticker, bid, ask),
    ).len() as int
}

proof fn lemma_cancel_step(entries: Seq<OrderEntry>, i: int, p: spec_fn(OrderEntry) -> bool)
    requires
        0 <= i < entries.len(),
    ensures
        cancels(entries.take(i + 1), p) == if p(entries[i]) {
            cancels(entries.take(i), p).push(
                ActionView::CancelOrder { order_id: entries[i].order.order_id@ },
            )
        } else {
            cancels(entries.take(i), p)
        },
{
    lemma_filter_step(entries, i, p);
    if p(entries[i]) {
        assert(cancels(entries.take(i + 1), p) =~= cancels(entries.take(i), p).push(
            ActionView::CancelOrder { order_id: entries[i].order.order_id@ },
        ));
    }
}

proof fn lemma_cancel_ends(entries: Seq<OrderEntry>, p: spec_fn(OrderEntry) -> bool)
    ensures
        cancels(entries.take(0), p) == Seq::<ActionView>::empty(),
        cancels(entries.take(entries.len() as int), p) == cancels(entries, p),
{
    lemma_filter_ends(entries, p);
    assert(cancels(entries.take(0), p) =~= Seq::<ActionView>::empty());
}

fn push_action(actions: &mut Vec<StrategyAction>, action: StrategyAction)
    ensures
        views(final(actions)@) == views(old(actions)@).push(action@),
{
    let ghost a = action;
    actions.push(action);
    assert(views(actions@) =~= views(old(actions)@).push(a@));
}

fn is_live_in(order: &TrackedOrder, ticker: &str) -> (r: bool)
    ensures
        r == live_in(*order, ticker@),
{
    same_text(order.ticker.as_str(), ticker) && order.is_live()
}

/// Cancels the live orders of a side.
pub fn cancel_side_orders(
    actions: &mut Vec<StrategyAction>,
    tracker: &OrderTracker,
    ticker: &str,
    side: &str,
)
    ensures
        views(final(actions)@) == views(old(actions)@) + side_cancels(
            tracker.orders@,
            ticker@,
            side@,
        ),
{
    let ghost all = tracker.orders@;
    let ghost p = |e: OrderEntry| live_on(e.order, ticker@, side@);
    let mut i: usize = 0;
    proof {
        lemma_cancel_ends(all, p);
        assert(views(actions@) + Seq::<ActionView>::empty() =~= views(actions@));
    }
    while i < tracker.orders.len()
        invariant
            i <= all.len(),
            all == tracker.orders@,
            p == |e: OrderEntry| live_on(e.order, ticker@, side@),
            views(actions@) == views(old(actions)@) + cancels(all.take(i as int), p),
        decreases all.len() - i,
    {
        proof {
            lemma_cancel_step(all, i as int, p);
        }
        let o = &tracker.orders[i].order;
        if is_live_in(o, ticker) && same_text(o.side.as_str(), side) {
            push_action(actions, StrategyAction::CancelOrder { order_id: o.order_id.clone() });
            assert(views(actions@) =~= views(old(actions)@) + cancels(all.take(i + 1), p));
        }
        i += 1;
    }
    proof {
        lemma_cancel_ends(all, p);
    }
}

/// Cancels all live orders.
pub fn cancel_all_resting(actions: &mut Vec<StrategyAction>, tracker: &OrderTracker, ticker: &str)
    ensures
        views(final(actions)@) == views(old(actions)@) + market_cancels(tracker.orders@, ticker@),
{
    let ghost all = tracker.orders@;
    let ghost p = |e: OrderEntry| live_in(e.order, ticker@);
    let mut i: usize = 0;
    proof {
        lemma_cancel_ends(all, p);
        assert(views(actions@) + Seq::<ActionView>::empty() =~= views(actions@));
    }
    while i < tracker.orders.len()
        invariant
            i <= all.len(),
            all == tracker.orders@,
            p == |e: OrderEntry| live_in(e.order, ticker@),
            views(actions@) == views(old(actions)@) + cancels(all.take(i as int), p),
        decreases all.len() - i,
    {
        proof {
            lemma_cancel_step(all, i as int, p);
        }
        let o = &tracker.orders[i].order;
        if is_live_in(o, ticker) {
            push_action(actions, StrategyAction::CancelOrder { order_id: o.order_id.clone() });
            assert(views(actions@) =~= views(old(actions)@) + cancels(all.take(i + 1), p));
        }
        i += 1;
    }
    proof {
        lemma_cancel_ends(all, p);
    }
}

/// The number of live orders to buy a side.
pub fn count_resting_side(tracker: &OrderTracker, ticker: &str, side: &str) -> (r: usize)
    ensures
        r == live_buys(tracker.orders@, ticker@, side@),
{
    let ghost all = tracker.orders@;
    let ghost p = |e: OrderEntry| live_in(e.order, ticker@) && e.order.buys(side@);
    let mut n: usize = 0;
    let mut i: usize = 0;
    proof {
        lemma_filter_ends(all, p);
    }
    while i < tracker.orders.len()
        invariant
            i <= all.len(),
            all == tracker.orders@,
            p == |e: OrderEntry| live_in(e.order, ticker@) && e.order.buys(side@),
            n == all.take(i as int).filter(p).len(),
            n <= i,
        decreases all.len() - i,
    {
        proof {
            lemma_filter_step(all, i as int, p);
        }
        let o = &tracker.orders[i].order;
        if is_live_in(o, ticker) && o.is_buy_of(side) {
            n += 1;
        }
        i += 1;
    }
    proof {
        lemma_filter_ends(all, p);
    }
    n
}

/// The actions that sell what a yes position holds: no is bought at the offer.
pub open spec fn close_yes(book: &OrderBook) -> Seq<ActionView> {
    let price = ask_against(book.bid());
    if price > 0 {
        seq![ActionView::TakeNo { price, count: 1 }]
    } else {
        seq![]
    }
}

/// The actions that sell what a no position holds: yes is bought at the offer.
pub open spec fn close_no(book: &OrderBook) -> Seq<ActionView> {
    let price = book.ask();
    if price > 0 {
        seq![ActionView::TakeYes { price, count: 1 }]
    } else {
        seq![]
    }
}

/// Bids one below the other, from `top` down to one cent.
pub open spec fn bid_ladder(top: int, n: int, size: i64) -> Seq<ActionView> {
    Seq::new(
        min(n, top) as nat,
        |i: int| ActionView::PlaceBid { price_cents: top - i, count: size as int },
    )
}

/// Offers one above the other, from that of a no bid of `no_top` up to 99 cents.
pub open spec fn ask_ladder(no_top: int, n: int, size: i64) -> Seq<ActionView> {
    Seq::new(
        min(n, no_top) as nat,
        |i: int| ActionView::PlaceAsk { price_cents: 100 - no_top + i, count: size as int },
    )
}

/// The open events after a tick, and the actions it asks for.
pub struct Outcome {
    pub yes_event: Option<SignalEvent>,
    pub no_event: Option<SignalEvent>,
    pub actions: Seq<ActionView>,
}

impl SignalEvent {
    /// An event that starts now.
    pub open spec fn begun(now: Timestamp, mid: HalfCents, gear: u8, band: Band) -> SignalEvent {
        SignalEvent { started_at: now, entry_mid: mid, gear, band, resolved: false }
    }

    /// Whether a score has crossed back over zero for an event of the yes side,
    /// or else of the no side. In the first gear an event follows the score, so
    /// yes begins above zero; in the second it goes against it, so yes begins
    /// below.
    pub open spec fn crossed_back(self, yes: bool, z: Double) -> bool {
        if yes == (self.gear == 1) {
            (Double { bits: 0 }).ge(z)
        } else {
            z.ge(Double { bits: 0 })
        }
    }

    /// Whether the event is open and has lasted as long as events may.
    pub open spec fn expired(self, now: Timestamp, timeout: u64) -> bool {
        !self.resolved && now.since(self.started_at) >= timeout
    }

    /// What is left of an event that is over or not: it is kept where it is
    /// neither over nor resolved.
    pub open spec fn kept(event: Option<SignalEvent>, over: bool) -> Option<SignalEvent> {
        match event {
            Some(e) if !e.resolved && !over => Some(e),
            _ => None,
        }
    }

    /// Whether the event ends at a score: the score has crossed back over zero,
    /// the time is up, or it was to place an order, is more than a second old,
    /// and no order of its side is at work.
    pub open spec fn ends(
        self,
        yes: bool,
        z: Double,
        now: Timestamp,
        timeout: u64,
        resting: int,
    ) -> bool {
        !self.resolved && (self.crossed_back(yes, z) || self.expired(now, timeout) || (self.gear
            == 1 && resting == 0 && now.since(self.started_at) > SECOND))
    }

    /// Whether a score has crossed back over zero for an event.
    pub fn has_crossed_back(self, yes: bool, z: Double) -> (r: bool)
        ensures
            r == self.crossed_back(yes, z),
            self.gear == 1 && yes ==> r == (Double { bits: 0 }).ge(z),
            self.gear == 1 && !yes ==> r == z.ge(Double { bits: 0 }),
            self.gear == 2 && yes ==> r == z.ge(Double { bits: 0 }),
            self.gear == 2 && !yes ==> r == (Double { bits: 0 }).ge(z),
    {
        let zero = Double { bits: 0 };
        if yes == (self.gear == 1) {
            zero.at_least(z)
        } else {
            z.at_least(zero)
        }
    }

    /// Whether the event is open and has lasted as long as events may.
    pub fn has_expired(self, now: Timestamp, timeout: u64) -> (r: bool)
        ensures
            r == self.expired(now, timeout),
            self.started_at.nanos <= now.nanos ==> r == (!self.resolved && now.nanos
                >= self.started_at.nanos + timeout),
    {
        !self.resolved && now.duration_since(self.started_at) >= timeout
    }
}

impl SignalEngine {
    /// The regime of a score.
    pub open spec fn regime(&self, z: Double) -> Regime {
        if z.without_sign().ge(self.cfg_gear2) {
            Regime::Extreme
        } else if z.without_sign().ge(self.cfg_gear1) {
            Regime::Stretched
        } else {
            Regime::Calm
        }
    }

    /// The side of a score.
    pub open spec fn direction(z: Double) -> ZDirection {
        if z.ge(Double { bits: 0 }) {
            ZDirection::Up
        } else {
            ZDirection::Down
        }
    }

    /// The average spread of a band: one cent where none was seen.
    pub open spec fn average(&self, band: Band) -> Double {
        match self.spread_emas@[band.number()] {
            Some(e) => e,
            None => Double { bits: 0x3ff0_0000_0000_0000 },
        }
    }

    /// Whether positions may be taken in a band.
    pub open spec fn taking_allowed(&self, band: Band) -> bool {
        self.cfg_gear2_enabled && match band {
            Band::To40 => false,
            Band::To20 | Band::To60 => true,
            Band::To80 | Band::To100 => self.average(band).lt(self.cfg_spread_max_gear2),
        }
    }

    /// The length of a ladder in a band.
    pub open spec fn rungs(&self, band: Band) -> int {
        if band == Band::To40 {
            1
        } else {
            self.cfg_ladder_levels as int
        }
    }

    /// Whether the long score shows no trend.
    pub open spec fn trendless(&self, z60: Option<Double>) -> bool {
        match z60 {
            Some(z) => z.without_sign().lt(self.cfg_z60_noise_cap),
            None => true,
        }
    }

    /// The engine with another average spread for a band.
    pub open spec fn is_averaged(&self, before: &SignalEngine, band: Band, ema: Double) -> bool {
        &&& self.spread_emas@ == before.spread_emas@.update(band.number(), Some(ema))
        &&& *self == (SignalEngine { spread_emas: self.spread_emas, ..*before })
    }

    /// The engine with other open events.
    pub open spec fn with_events(
        self,
        yes_event: Option<SignalEvent>,
        no_event: Option<SignalEvent>,
    ) -> SignalEngine {
        SignalEngine { active_yes_event: yes_event, active_no_event: no_event, ..self }
    }

    /// What becomes of the open events where one or the other is over: it is
    /// dropped, and what was taken for it is sold.
    pub open spec fn settled(&self, yes_over: bool, no_over: bool, book: &OrderBook) -> Outcome {
        Outcome {
            yes_event: SignalEvent::kept(self.active_yes_event, yes_over),
            no_event: SignalEvent::kept(self.active_no_event, no_over),
            actions: (if yes_over && self.taken(true) {
                close_yes(book)
            } else {
                seq![]
            }) + (if no_over && self.taken(false) {
                close_no(book)
            } else {
                seq![]
            }),
        }
    }

    /// Whether the open event of the yes side, or else of the no side, is over:
    /// without a score only time ends it.
    pub open spec fn over(
        &self,
        yes: bool,
        z15: Option<Double>,
        now: Timestamp,
        ticker: Seq<char>,
        entries: Seq<OrderEntry>,
    ) -> bool {
        let event = if yes {
            self.active_yes_event
        } else {
            self.active_no_event
        };
        let side = if yes {
            "yes"@
        } else {
            "no"@
        };
        let t = self.cfg_signal_timeout;
        match event {
            Some(e) => match z15 {
                Some(z) => e.ends(yes, z, now, t, live_buys(entries, ticker, side)),
                None => e.expired(now, t),
            },
            None => false,
        }
    }

    /// What becomes of the open events: those that are over end.
    pub open spec fn resolution(
        &self,
        z15: Option<Double>,
        now: Timestamp,
        book: &OrderBook,
        ticker: Seq<char>,
        entries: Seq<OrderEntry>,
    ) -> Outcome {
        self.settled(
            self.over(true, z15, now, ticker, entries),
            self.over(false, z15, now, ticker, entries),
            book,
        )
    }

    /// Whether something was taken for the open event of the yes side, or else
    /// of the no side.
    pub open spec fn taken(&self, yes: bool) -> bool {
        let event = if yes {
            self.active_yes_event
        } else {
            self.active_no_event
        };
        event matches Some(e) && e.gear == 2
    }

    /// What to do without a middle price: shortly before the close everything is
    /// cancelled; else nothing is traded, so that of the events that are over
    /// those end for which nothing has to be sold.
    pub open spec fn unpriced(
        &self,
        book: &OrderBook,
        z15: Option<Double>,
        time_to_expiry: i64,
        entries: Seq<OrderEntry>,
        ticker: Seq<char>,
        now: Timestamp,
    ) -> Outcome {
        if time_to_expiry < self.cfg_no_trade_before_close {
            Outcome {
                actions: seq![ActionView::CancelAll],
                ..self.resolution(z15, now, book, ticker, entries)
            }
        } else {
            self.settled(
                self.over(true, z15, now, ticker, entries) && !self.taken(true),
                self.over(false, z15, now, ticker, entries) && !self.taken(false),
                book,
            )
        }
    }

    /// Whether new yes orders may open a position in a calm market.
    pub open spec fn opens_yes(&self, inv: int) -> bool {
        inv <= 0 && inv < self.cfg_max_inventory && self.active_yes_event is None
    }

    /// Whether new no orders may open a position in a calm market.
    pub open spec fn opens_no(&self, inv: int) -> bool {
        inv >= 0 && inv > -self.cfg_max_inventory && self.active_no_event is None
    }

    /// The yes side of a calm market: bids up to the length of the ladder where
    /// yes may be bought, else cancels.
    pub open spec fn calm_yes(
        &self,
        book: &OrderBook,
        band: Band,
        inv: int,
        entries: Seq<OrderEntry>,
        ticker: Seq<char>,
    ) -> Seq<ActionView> {
        let standing = if inv >= self.cfg_max_inventory {
            0
        } else {
            standing_buys(entries, ticker, "yes"@, book.bid(), book.ask())
        };
        let wanted = self.opens_yes(inv) || inv < 0;
        if wanted && standing < self.rungs(band) {
            bid_ladder(book.bid(), self.rungs(band) - standing, self.cfg_order_size)
        } else if !wanted && standing > 0 {
            side_cancels(entries, ticker, "yes"@)
        } else {
            seq![]
        }
    }

    /// The no side of a calm market.
    pub open spec fn calm_no(
        &self,
        book: &OrderBook,
        band: Band,
        inv: int,
        entries: Seq<OrderEntry>,
        ticker: Seq<char>,
    ) -> Seq<ActionView> {
        let standing = if inv <= -self.cfg_max_inventory {
            0
        } else {
            standing_buys(entries, ticker, "no"@, book.bid(), book.ask())
        };
        let wanted = self.opens_no(inv) || inv > 0;
        if wanted && standing < self.rungs(band) {
            ask_ladder(
                book.no_bids.best_bid as int,
                self.rungs(band) - standing,
                self.cfg_order_size,
            )
        } else if !wanted && standing > 0 {
            side_cancels(entries, ticker, "no"@)
        } else {
            seq![]
        }
    }

    /// The cancels that come first in a calm market: orders that cross the
    /// book, then the side on which the position has reached its soft cap.
    pub open spec fn calm_cancels(
        &self,
        book: &OrderBook,
        inv: int,
        entries: Seq<OrderEntry>,
        ticker: Seq<char>,
    ) -> Seq<ActionView> {
        cancels(entries, |e: OrderEntry| crosses(e.order, ticker, book.bid(), book.ask())) + (
        if inv >= self.cfg_max_inventory {
            side_cancels(entries, ticker, "yes"@)
        } else {
            seq![]
        }) + (if inv <= -self.cfg_max_inventory {
            side_cancels(entries, ticker, "no"@)
        } else {
            seq![]
        })
    }

    /// What to do in a calm market.
    pub open spec fn calm(
        &self,
        book: &OrderBook,
        band: Band,
        inv: int,
        entries: Seq<OrderEntry>,
        ticker: Seq<char>,
    ) -> Seq<ActionView> {
        if !book.two_sided() {
            seq![]
        } else {
            self.calm_cancels(book, inv, entries, ticker) + self.calm_yes(
                book,
                band,
                inv,
                entries,
                ticker,
            ) + self.calm_no(book, band, inv, entries, ticker)
        }
    }

    /// What to do in a stretched market: one order at the best price in the
    /// direction of the move, where there is none yet.
    pub open spec fn stretched(
        &self,
        book: &OrderBook,
        band: Band,
        inv: int,
        direction: ZDirection,
        entries: Seq<OrderEntry>,
        ticker: Seq<char>,
        now: Timestamp,
        mid: HalfCents,
    ) -> Outcome {
        let none = Outcome {
            yes_event: self.active_yes_event,
            no_event: self.active_no_event,
            actions: seq![],
        };
        let nb = book.no_bids.best_bid as int;
        match direction {
            ZDirection::Up => if inv < self.cfg_max_inventory && self.active_yes_event is None
                && live_buys(entries, ticker, "yes"@) == 0 && 1 <= book.bid() < book.ask() {
                Outcome {
                    yes_event: Some(SignalEvent::begun(now, mid, 1, band)),
                    actions: seq![
                        ActionView::PlaceBid {
                            price_cents: book.bid(),
                            count: self.cfg_order_size as int,
                        },
                    ],
                    ..none
                }
            } else {
                none
            },
            ZDirection::Down => if inv > -self.cfg_max_inventory && self.active_no_event is None
                && live_buys(entries, ticker, "no"@) == 0 && nb >= 1 && 100 - nb > book.bid() {
                Outcome {
                    no_event: Some(SignalEvent::begun(now, mid, 1, band)),
                    actions: seq![
                        ActionView::PlaceAsk {
                            price_cents: 100 - nb,
                            count: self.cfg_order_size as int,
                        },
                    ],
                    ..none
                }
            } else {
                none
            },
        }
    }

    /// What to do in an extreme market without a trend: one contract is taken
    /// against the move, after the orders of its side are cancelled.
    pub open spec fn extreme(
        &self,
        book: &OrderBook,
        band: Band,
        inv: int,
        direction: ZDirection,
        z60: Option<Double>,
        entries: Seq<OrderEntry>,
        ticker: Seq<char>,
        now: Timestamp,
        mid: HalfCents,
    ) -> Outcome {
        let none = Outcome {
            yes_event: self.active_yes_event,
            no_event: self.active_no_event,
            actions: seq![],
        };
        if !self.taking_allowed(band) || !self.trendless(z60) {
            none
        } else {
            match direction {
                ZDirection::Down => if self.active_yes_event is Some || inv > 0 {
                    none
                } else {
                    Outcome {
                        yes_event: if book.ask() > 0 {
                            Some(SignalEvent::begun(now, mid, 2, band))
                        } else {
                            None
                        },
                        actions: side_cancels(entries, ticker, "yes"@) + close_no(book),
                        ..none
                    }
                },
                ZDirection::Up => if self.active_no_event is Some || inv < 0 {
                    none
                } else {
                    Outcome {
                        no_event: if ask_against(book.bid()) > 0 {
                            Some(SignalEvent::begun(now, mid, 2, band))
                        } else {
                            None
                        },
                        actions: side_cancels(entries, ticker, "no"@) + close_yes(book),
                        ..none
                    }
                },
            }
        }
    }

    /// What to do in the regime of a score.
    pub open spec fn regime_outcome(
        &self,
        book: &OrderBook,
        z: Double,
        z60: Option<Double>,
        inv: int,
        entries: Seq<OrderEntry>,
        ticker: Seq<char>,
        now: Timestamp,
        mid: HalfCents,
    ) -> Outcome {
        let band = Band::of_spec(mid);
        let dir = SignalEngine::direction(z);
        match self.regime(z) {
            Regime::Calm => Outcome {
                yes_event: self.active_yes_event,
                no_event: self.active_no_event,
                actions: self.calm(book, band, inv, entries, ticker),
            },
            Regime::Stretched => self.stretched(
                book,
                band,
                inv,
                dir,
                entries,
                ticker,
                now,
                mid,
            ),
            Regime::Extreme => self.extreme(
                book,
                band,
                inv,
                dir,
                z60,
                entries,
                ticker,
                now,
                mid,
            ),
        }
    }

    /// What to do with a two-sided book whose middle is `mid`.
    pub open spec fn decision(
        &self,
        book: &OrderBook,
        z15: Option<Double>,
        z60: Option<Double>,
        time_to_expiry: i64,
        inv: int,
        entries: Seq<OrderEntry>,
        ticker: Seq<char>,
        now: Timestamp,
        mid: HalfCents,
    ) -> Outcome {
        let first = self.resolution(z15, now, book, ticker, entries);
        if time_to_expiry < self.cfg_no_trade_before_close {
            Outcome { actions: seq![ActionView::CancelAll], ..first }
        } else if time_to_expiry < self.cfg_no_open_before_close {
            let closed = self.settled(
                self.over(true, z15, now, ticker, entries) || self.taken(true),
                self.over(false, z15, now, ticker, entries) || self.taken(false),
                book,
            );
            Outcome { actions: market_cancels(entries, ticker) + closed.actions, ..closed }
        } else if abs(inv) >= self.cfg_hard_inventory_cap {
            Outcome { actions: first.actions.push(ActionView::CancelAll), ..first }
        } else {
            let next = self.with_events(first.yes_event, first.no_event);
            match z15 {
                None => Outcome {
                    actions: first.actions + next.calm(
                        book,
                        Band::of_spec(mid),
                        inv,
                        entries,
                        ticker,
                    ),
                    ..first
                },
                Some(z) => {
                    let then = next.regime_outcome(
                        book,
                        z,
                        z60,
                        inv,
                        entries,
                        ticker,
                        now,
                        mid,
                    );
                    Outcome { actions: first.actions + then.actions, ..then }
                },
            }
        }
    }

    /// Whether this is the engine `before` after a tick that asked for `actions`:
    /// where the book is two-sided the spread of its band is averaged and a
    /// decision is taken; else there is no middle price to decide by.
    pub open spec fn ticked(
        &self,
        before: &SignalEngine,
        book: &OrderBook,
        z15: Option<Double>,
        z60: Option<Double>,
        spread_ema: Double,
        time_to_expiry: i64,
        inv: int,
        entries: Seq<OrderEntry>,
        ticker: Seq<char>,
        now: Timestamp,
        actions: Seq<ActionView>,
    ) -> bool {
        if book.initialized && book.two_sided() {
            let mid = HalfCents { halves: (book.bid() + book.ask()) as i64 };
            let averaged = SignalEngine { spread_emas: self.spread_emas, ..*before };
            let o = averaged.decision(
                book,
                z15,
                z60,
                time_to_expiry,
                inv,
                entries,
                ticker,
                now,
                mid,
            );
            &&& averaged.is_averaged(before, Band::of_spec(mid), spread_ema)
            &&& *self == averaged.with_events(o.yes_event, o.no_event)
            &&& actions == o.actions
        } else {
            let o = before.unpriced(book, z15, time_to_expiry, entries, ticker, now);
            *self == before.with_events(o.yes_event, o.no_event) && actions == o.actions
        }
    }

    /// Whether this is an engine without events that has seen no spread, set as
    /// the settings say.
    pub open spec fn fresh(&self, config: &Config) -> bool {
        &&& self.active_yes_event is None
        &&& self.active_no_event is None
        &&& forall|i: int| 0 <= i < 5 ==> #[trigger] self.spread_emas@[i] is None
        &&& self.cfg_gear1 == config.z_gear1_threshold
        &&& self.cfg_gear2 == config.z_gear2_threshold
        &&& self.cfg_signal_timeout == config.signal_timeout
        &&& self.cfg_ladder_levels == config.ladder_levels
        &&& self.cfg_gear2_enabled == config.gear2_enabled
        &&& self.cfg_no_open_before_close == config.no_open_before_close_secs
        &&& self.cfg_no_trade_before_close == config.no_trade_before_close_secs
        &&& self.cfg_spread_max_gear2 == config.spread_max_for_gear2
        &&& self.cfg_order_size == config.order_size
        &&& self.cfg_max_inventory == config.max_inventory
        &&& self.cfg_hard_inventory_cap == config.hard_inventory_cap
        &&& self.cfg_z60_noise_cap == config.z60_noise_cap
    }

    /// An engine without events that has seen no spread.
    pub fn new(config: &Config) -> (r: SignalEngine)
        ensures
            r.fresh(config),
            r.active_yes_event is None && r.active_no_event is None,
            r.spread_emas@ == seq![
                None::<Double>,
                None::<Double>,
                None::<Double>,
                None::<Double>,
                None::<Double>,
            ],
            r.cfg_gear1 == config.z_gear1_threshold,
            r.cfg_gear2 == config.z_gear2_threshold,
            r.cfg_signal_timeout == config.signal_timeout,
            r.cfg_ladder_levels == config.ladder_levels,
            r.cfg_gear2_enabled == config.gear2_enabled,
            r.cfg_no_open_before_close == config.no_open_before_close_secs,
            r.cfg_no_trade_before_close == config.no_trade_before_close_secs,
            r.cfg_spread_max_gear2 == config.spread_max_for_gear2,
            r.cfg_order_size == config.order_size,
            r.cfg_max_inventory == config.max_inventory,
            r.cfg_hard_inventory_cap == config.hard_inventory_cap,
            r.cfg_z60_noise_cap == config.z60_noise_cap,
    {
        SignalEngine {
            active_yes_event: None,
            active_no_event: None,
            spread_emas: [None, None, None, None, None],
            cfg_gear1: config.z_gear1_threshold,
            cfg_gear2: config.z_gear2_threshold,
            cfg_signal_timeout: config.signal_timeout,
            cfg_ladder_levels: config.ladder_levels,
            cfg_gear2_enabled: config.gear2_enabled,
            cfg_no_open_before_close: config.no_open_before_close_secs,
            cfg_no_trade_before_close: config.no_trade_before_close_secs,
            cfg_spread_max_gear2: config.spread_max_for_gear2,
            cfg_order_size: config.order_size,
            cfg_max_inventory: config.max_inventory,
            cfg_hard_inventory_cap: config.hard_inventory_cap,
            cfg_z60_noise_cap: config.z60_noise_cap,
        }
    }

    /// The regime of a score.
    pub fn classify_regime(&self, z: Double) -> (r: Regime)
        ensures
            r == self.regime(z),
            r == Regime::Extreme <==> z.without_sign().ge(self.cfg_gear2),
            r == Regime::Stretched <==> !z.without_sign().ge(self.cfg_gear2)
                && z.without_sign().ge(self.cfg_gear1),
    {
        let abs_z = z.abs();
        if abs_z.at_least(self.cfg_gear2) {
            Regime::Extreme
        } else if abs_z.at_least(self.cfg_gear1) {
            Regime::Stretched
        } else {
            Regime::Calm
        }
    }

    /// The side of a score.
    pub fn z_direction(z: Double) -> (r: ZDirection)
        ensures
            r == SignalEngine::direction(z),
            r == ZDirection::Up <==> z.ge(Double { bits: 0 }),
    {
        if z.at_least(Double { bits: 0 }) {
            ZDirection::Up
        } else {
            ZDirection::Down
        }
    }

    /// Replaces the average spread of a band.
    pub fn update_spread_ema(&mut self, band: Band, ema: Double)
        ensures
            final(self).is_averaged(old(self), band, ema),
            final(self).spread_emas@ == old(self).spread_emas@.update(band.number(), Some(ema)),
            final(self).active_yes_event == old(self).active_yes_event,
            final(self).active_no_event == old(self).active_no_event,
    {
        let i: usize = band.index();
        self.spread_emas[i] = Some(ema);
    }

    /// The average spread of a band: one cent where none was seen.
    pub fn avg_spread(&self, band: Band) -> (r: Double)
        ensures
            r == self.average(band),
            self.spread_emas@[band.number()] matches Some(e) ==> r == e,
            self.spread_emas@[band.number()] is None ==> r.bits == 0x3ff0_0000_0000_0000,
    {
        match self.spread_emas[band.index()] {
            Some(e) => e,
            None => Double { bits: 0x3ff0_0000_0000_0000 },
        }
    }

    /// Whether positions may be taken in a band.
    pub fn band_allows_gear2(&self, band: Band) -> (r: bool)
        ensures
            r == self.taking_allowed(band),
            !self.cfg_gear2_enabled || band == Band::To40 ==> !r,
            self.cfg_gear2_enabled && (band == Band::To20 || band == Band::To60) ==> r,
            self.cfg_gear2_enabled && (band == Band::To80 || band == Band::To100) ==> r == (
            match self.spread_emas@[band.number()] {
                Some(e) => e.lt(self.cfg_spread_max_gear2),
                None => (Double { bits: 0x3ff0_0000_0000_0000 }).lt(self.cfg_spread_max_gear2),
            }),
    {
        if !self.cfg_gear2_enabled {
            return false;
        }
        match band {
            Band::To40 => false,
            Band::To20 | Band::To60 => true,
            Band::To80 | Band::To100 => self.avg_spread(band).less_than(self.cfg_spread_max_gear2),
        }
    }

    /// The length of a ladder in a band.
    pub fn ladder_levels_for_band(&self, band: Band) -> (r: usize)
        ensures
            r == self.rungs(band),
            band == Band::To40 ==> r == 1,
            band != Band::To40 ==> r == self.cfg_ladder_levels,
    {
        match band {
            Band::To40 => 1,
            _ => self.cfg_ladder_levels,
        }
    }

    /// Whether the long score shows no trend.
    pub fn z60_is_noise(&self, z60: Option<Double>) -> (r: bool)
        ensures
            r == self.trendless(z60),
            z60 is None ==> r,
            z60 matches Some(z) ==> r == z.without_sign().lt(self.cfg_z60_noise_cap),
    {
        match z60 {
            Some(z) => z.abs().less_than(self.cfg_z60_noise_cap),
            None => true,
        }
    }

    /// Whether the open event of the yes side, or else of the no side, is over.
    fn is_over(
        &self,
        yes: bool,
        z15: Option<Double>,
        now: Timestamp,
        ticker: &str,
        tracker: &OrderTracker,
    ) -> (r: bool)
        ensures
            r == self.over(yes, z15, now, ticker@, tracker.orders@),
    {
        let event = if yes {
            self.active_yes_event
        } else {
            self.active_no_event
        };
        let side = if yes {
            "yes"
        } else {
            "no"
        };
        let timeout: u64 = self.cfg_signal_timeout;
        match event {
            Some(ev) => match z15 {
                Some(z) => !ev.resolved && (ev.has_crossed_back(yes, z) || ev.has_expired(
                    now,
                    timeout,
                ) || (ev.gear == 1 && count_resting_side(tracker, ticker, side) == 0
                    && now.duration_since(ev.started_at) > SECOND)),
                None => ev.has_expired(now, timeout),
            },
            None => false,
        }
    }

    /// Whether something was taken for the open event of the yes side, or else
    /// of the no side.
    fn has_taken(&self, yes: bool) -> (r: bool)
        ensures
            r == self.taken(yes),
    {
        let event = if yes {
            self.active_yes_event
        } else {
            self.active_no_event
        };
        match event {
            Some(ev) => ev.gear == 2,
            None => false,
        }
    }

    /// Drops the open events that end at a score, and sells what was taken for them.
    pub fn resolve_events(
        &mut self,
        z: Double,
        now: Timestamp,
        actions: &mut Vec<StrategyAction>,
        book: &OrderBook,
        ticker: &str,
        tracker: &OrderTracker,
    )
        requires
            book.wf(),
        ensures
            ({
                let r = old(self).resolution(Some(z), now, book, ticker@, tracker.orders@);
                &&& *final(self) == old(self).with_events(r.yes_event, r.no_event)
                &&& views(final(actions)@) == views(old(actions)@) + r.actions
            }),
    {
        let yes_over = self.is_over(true, Some(z), now, ticker, tracker);
        let no_over = self.is_over(false, Some(z), now, ticker, tracker);
        self.settle(yes_over, no_over, actions, book);
    }

    /// Drops the open events that are over.
    fn drop_events(&mut self, yes_over: bool, no_over: bool)
        ensures
            *final(self) == old(self).with_events(
                SignalEvent::kept(old(self).active_yes_event, yes_over),
                SignalEvent::kept(old(self).active_no_event, no_over),
            ),
    {
        if let Some(ev) = self.active_yes_event {
            if yes_over || ev.resolved {
                self.active_yes_event = None;
            }
        }
        if let Some(ev) = self.active_no_event {
            if no_over || ev.resolved {
                self.active_no_event = None;
            }
        }
    }

    /// Drops the open events that are over, and sells what was taken for them.
    fn settle(
        &mut self,
        yes_over: bool,
        no_over: bool,
        actions: &mut Vec<StrategyAction>,
        book: &OrderBook,
    )
        requires
            book.wf(),
        ensures
            ({
                let r = old(self).settled(yes_over, no_over, book);
                &&& *final(self) == old(self).with_events(r.yes_event, r.no_event)
                &&& views(final(actions)@) == views(old(actions)@) + r.actions
            }),
    {
        if yes_over && self.has_taken(true) {
            take_no(actions, book);
        }
        if no_over && self.has_taken(false) {
            take_yes(actions, book);
        }
        self.drop_events(yes_over, no_over);
        proof {
            let r = old(self).settled(yes_over, no_over, book);
            assert(views(actions@) =~= views(old(actions)@) + r.actions);
        }
    }

    /// Quotes a calm market: a ladder of bids and one of offers, as far as the
    /// position allows.
    pub fn generate_calm_actions(
        &self,
        actions: &mut Vec<StrategyAction>,
        book: &OrderBook,
        band: Band,
        inv: i64,
        tracker: &OrderTracker,
        ticker: &str,
    )
        requires
            book.wf(),
        ensures
            views(final(actions)@) == views(old(actions)@) + self.calm(
                book,
                band,
                inv as int,
                tracker.orders@,
                ticker@,
            ),
    {
        let levels: usize = self.ladder_levels_for_band(band);
        let best_bid: i64 = book.best_yes_bid();
        let best_ask: i64 = book.best_yes_ask();
        if best_bid <= 0 || best_ask <= 0 || best_ask <= best_bid {
            assert(views(actions@) =~= views(old(actions)@) + seq![]);
            return;
        }
        let no_best: i64 = book.best_no_bid();
        let (yes_standing, no_standing) = cancel_crossing(
            actions,
            tracker,
            ticker,
            best_bid,
            best_ask,
        );
        let at_soft_cap_long = inv >= self.cfg_max_inventory;
        let at_soft_cap_short = inv as i128 <= -(self.cfg_max_inventory as i128);
        let mut yes_count: usize = yes_standing;
        let mut no_count: usize = no_standing;
        if at_soft_cap_long {
            cancel_side_orders(actions, tracker, ticker, "yes");
            yes_count = 0;
        }
        if at_soft_cap_short {
            cancel_side_orders(actions, tracker, ticker, "no");
            no_count = 0;
        }
        assert(views(actions@) =~= views(old(actions)@) + self.calm_cancels(
            book,
            inv as int,
            tracker.orders@,
            ticker@,
        ));
        let ghost cancelled = views(actions@);
        let can_open_yes = inv <= 0 && !at_soft_cap_long && self.active_yes_event.is_none();
        let can_open_no = inv >= 0 && !at_soft_cap_short && self.active_no_event.is_none();
        let can_exit_yes = inv < 0;
        let can_exit_no = inv > 0;
        if (can_open_yes || can_exit_yes) && yes_count < levels {
            place_bids(actions, best_bid, levels - yes_count, self.cfg_order_size);
        } else if !can_open_yes && !can_exit_yes && yes_count > 0 {
            cancel_side_orders(actions, tracker, ticker, "yes");
        }
        let ghost yes_part = self.calm_yes(book, band, inv as int, tracker.orders@, ticker@);
        assert(views(actions@) =~= cancelled + yes_part);
        if (can_open_no || can_exit_no) && no_count < levels {
            place_asks(actions, no_best, levels - no_count, self.cfg_order_size);
        } else if !can_open_no && !can_exit_no && no_count > 0 {
            cancel_side_orders(actions, tracker, ticker, "no");
        }
        let ghost no_part = self.calm_no(book, band, inv as int, tracker.orders@, ticker@);
        assert(views(actions@) =~= cancelled + yes_part + no_part);
        assert(views(actions@) =~= views(old(actions)@) + self.calm(
            book,
            band,
            inv as int,
            tracker.orders@,
            ticker@,
        ));
    }

    /// Follows a stretched market with one order at the best price.
    pub fn generate_stretched_actions(
        &mut self,
        actions: &mut Vec<StrategyAction>,
        book: &OrderBook,
        band: Band,
        inv: i64,
        direction: ZDirection,
        tracker: &OrderTracker,
        ticker: &str,
        now: Timestamp,
        mid: HalfCents,
    )
        requires
            book.wf(),
        ensures
            ({
                let r = old(self).stretched(
                    book,
                    band,
                    inv as int,
                    direction,
                    tracker.orders@,
                    ticker@,
                    now,
                    mid,
                );
                &&& *final(self) == old(self).with_events(r.yes_event, r.no_event)
                &&& views(final(actions)@) == views(old(actions)@) + r.actions
            }),
    {
        let event = SignalEvent { started_at: now, entry_mid: mid, gear: 1, band, resolved: false };
        match direction {
            ZDirection::Up => {
                if inv < self.cfg_max_inventory && self.active_yes_event.is_none()
                    && count_resting_side(tracker, ticker, "yes") == 0 {
                    let bb: i64 = book.best_yes_bid();
                    let ba: i64 = book.best_yes_ask();
                    if bb >= 1 && bb < ba {
                        self.active_yes_event = Some(event);
                        push_action(
                            actions,
                            StrategyAction::PlaceBid { price_cents: bb, count: self.cfg_order_size },
                        );
                    }
                }
            },
            ZDirection::Down => {
                if inv as i128 > -(self.cfg_max_inventory as i128) && self.active_no_event.is_none()
                    && count_resting_side(tracker, ticker, "no") == 0 {
                    let nb: i64 = book.best_no_bid();
                    if nb >= 1 {
                        let ya: i64 = 100 - nb;
                        if ya > book.best_yes_bid() {
                            self.active_no_event = Some(event);
                            push_action(
                                actions,
                                StrategyAction::PlaceAsk {
                                    price_cents: ya,
                                    count: self.cfg_order_size,
                                },
                            );
                        }
                    }
                }
            },
        }
        proof {
            let r = old(self).stretched(
                book,
                band,
                inv as int,
                direction,
                tracker.orders@,
                ticker@,
                now,
                mid,
            );
            assert(views(actions@) =~= views(old(actions)@) + r.actions);
        }
    }

    /// Takes one contract against the move of an extreme market without a trend.
    pub fn generate_extreme_actions(
        &mut self,
        actions: &mut Vec<StrategyAction>,
        book: &OrderBook,
        band: Band,
        inv: i64,
        direction: ZDirection,
        z60: Option<Double>,
        tracker: &OrderTracker,
        ticker: &str,
        now: Timestamp,
        mid: HalfCents,
    )
        requires
            book.wf(),
        ensures
            ({
                let r = old(self).extreme(
                    book,
                    band,
                    inv as int,
                    direction,
                    z60,
                    tracker.orders@,
                    ticker@,
                    now,
                    mid,
                );
                &&& *final(self) == old(self).with_events(r.yes_event, r.no_event)
                &&& views(final(actions)@) == views(old(actions)@) + r.actions
            }),
    {
        let ghost r = old(self).extreme(
            book,
            band,
            inv as int,
            direction,
            z60,
            tracker.orders@,
            ticker@,
            now,
            mid,
        );
        if self.band_allows_gear2(band) && self.z60_is_noise(z60) {
            let event = SignalEvent {
                started_at: now,
                entry_mid: mid,
                gear: 2,
                band,
                resolved: false,
            };
            match direction {
                ZDirection::Down => {
                    if self.active_yes_event.is_none() && inv <= 0 {
                        cancel_side_orders(actions, tracker, ticker, "yes");
                        if take_yes(actions, book) {
                            self.active_yes_event = Some(event);
                        }
                    }
                },
                ZDirection::Up => {
                    if self.active_no_event.is_none() && inv >= 0 {
                        cancel_side_orders(actions, tracker, ticker, "no");
                        if take_no(actions, book) {
                            self.active_no_event = Some(event);
                        }
                    }
                },
            }
        }
        assert(views(actions@) =~= views(old(actions)@) + r.actions);
    }

    /// The spread that a tick on this book has averaged, with its band and the
    /// average so far; none where the book is not two-sided.
    pub fn spread_sample(&self, book: &OrderBook) -> (r: Option<SpreadSample>)
        requires
            book.wf(),
        ensures
            match r {
                Some(s) => {
                    let mid = HalfCents { halves: (book.bid() + book.ask()) as i64 };
                    &&& book.initialized && book.two_sided()
                    &&& s.band == Band::of_spec(mid)
                    &&& s.spread == book.ask() - book.bid()
                    &&& s.average == self.spread_emas@[s.band.number()]
                },
                None => !book.initialized || !book.two_sided(),
            },
            r is Some <==> book.initialized && book.yes_bids.best_bid > 0 && book.no_bids.best_bid
                > 0 && book.yes_bids.best_bid + book.no_bids.best_bid < 100,
            r matches Some(s) ==> s.spread == 100 - book.no_bids.best_bid - book.yes_bids.best_bid,
            r matches Some(s) ==> {
                let h = 100 + book.yes_bids.best_bid - book.no_bids.best_bid;
                let k = s.band.number();
                &&& 0 <= k <= 4 && 40 * k <= h && (k < 4 ==> h < 40 * (k + 1))
                &&& s.average == self.spread_emas@[k]
            },
    {
        if !book.initialized {
            return None;
        }
        match book.midprice() {
            Some(mid) => {
                let band = Band::of(mid);
                Some(
                    SpreadSample {
                        band,
                        spread: book.yes_spread(),
                        average: self.spread_emas[band.index()],
                    },
                )
            },
            None => None,
        }
    }

    /// Decides what to do. `spread_ema` is the average spread of the book's
    /// band with the spread of this book averaged in.
    pub fn tick(
        &mut self,
        book: &OrderBook,
        z15: Option<Double>,
        z60: Option<Double>,
        spread_ema: Double,
        time_to_expiry: i64,
        risk: &RiskManager,
        tracker: &OrderTracker,
        ticker: &str,
        now: Timestamp,
    ) -> (r: Vec<StrategyAction>)
        requires
            book.wf(),
        ensures
            final(self).ticked(
                old(self),
                book,
                z15,
                z60,
                spread_ema,
                time_to_expiry,
                risk.inventory as int,
                tracker.orders@,
                ticker@,
                now,
                views(r@),
            ),
    {
        let mut actions: Vec<StrategyAction> = Vec::new();
        assert(views(actions@) =~= seq![]);
        let yes_over = self.is_over(true, z15, now, ticker, tracker);
        let no_over = self.is_over(false, z15, now, ticker, tracker);
        let middle = if book.initialized {
            book.midprice()
        } else {
            None
        };
        let mid = match middle {
            Some(m) => m,
            None => {
                if time_to_expiry < self.cfg_no_trade_before_close {
                    self.drop_events(yes_over, no_over);
                    push_action(&mut actions, StrategyAction::CancelAll);
                    assert(views(actions@) =~= seq![ActionView::CancelAll]);
                    return actions;
                }
                let yes_drops = yes_over && !self.has_taken(true);
                let no_drops = no_over && !self.has_taken(false);
                self.drop_events(yes_drops, no_drops);
                return actions;
            },
        };
        let band = Band::of(mid);
        self.update_spread_ema(band, spread_ema);
        let ghost averaged = *self;
        let ghost inv = risk.inventory as int;
        let ghost o = averaged.decision(
            book,
            z15,
            z60,
            time_to_expiry,
            inv,
            tracker.orders@,
            ticker@,
            now,
            mid,
        );
        if time_to_expiry < self.cfg_no_trade_before_close {
            self.drop_events(yes_over, no_over);
            push_action(&mut actions, StrategyAction::CancelAll);
            assert(views(actions@) =~= o.actions);
            return actions;
        }
        if time_to_expiry < self.cfg_no_open_before_close {
            cancel_all_resting(&mut actions, tracker, ticker);
            let yes_closes = yes_over || self.has_taken(true);
            let no_closes = no_over || self.has_taken(false);
            self.settle(yes_closes, no_closes, &mut actions, book);
            assert(views(actions@) =~= o.actions);
            return actions;
        }
        self.settle(yes_over, no_over, &mut actions, book);
        if reaches(risk.inventory, self.cfg_hard_inventory_cap) {
            push_action(&mut actions, StrategyAction::CancelAll);
            assert(views(actions@) =~= o.actions);
            return actions;
        }
        let z = match z15 {
            Some(z) => z,
            None => {
                self.generate_calm_actions(
                    &mut actions,
                    book,
                    band,
                    risk.inventory,
                    tracker,
                    ticker,
                );
                assert(views(actions@) =~= o.actions);
                return actions;
            },
        };
        let direction = SignalEngine::z_direction(z);
        match self.classify_regime(z) {
            Regime::Calm => {
                self.generate_calm_actions(
                    &mut actions,
                    book,
                    band,
                    risk.inventory,
                    tracker,
                    ticker,
                );
            },
            Regime::Stretched => {
                self.generate_stretched_actions(
                    &mut actions,
                    book,
                    band,
                    risk.inventory,
                    direction,
                    tracker,
                    ticker,
                    now,
                    mid,
                );
            },
            Regime::Extreme => {
                self.generate_extreme_actions(
                    &mut actions,
                    book,
                    band,
                    risk.inventory,
                    direction,
                    z60,
                    tracker,
                    ticker,
                    now,
                    mid,
                );
            },
        }
        assert(views(actions@) =~= o.actions);
        actions
    }
}

/// Buys one no contract at the offer, if there is one.
fn take_no(actions: &mut Vec<StrategyAction>, book: &OrderBook) -> (r: bool)
    requires
        book.wf(),
    ensures
        r == (ask_against(book.bid()) > 0),
        views(final(actions)@) == views(old(actions)@) + close_yes(book),
{
    let no_ask: i64 = book.best_no_ask();
    let offered = no_ask > 0 && no_ask <= 99;
    if offered {
        push_action(actions, StrategyAction::TakeNo { price: no_ask, count: 1 });
    }
    assert(views(actions@) =~= views(old(actions)@) + close_yes(book));
    offered
}

/// Buys one yes contract at the offer, if there is one.
fn take_yes(actions: &mut Vec<StrategyAction>, book: &OrderBook) -> (r: bool)
    requires
        book.wf(),
    ensures
        r == (book.ask() > 0),
        views(final(actions)@) == views(old(actions)@) + close_no(book),
{
    let yes_ask: i64 = book.best_yes_ask();
    let offered = yes_ask > 0 && yes_ask <= 99;
    if offered {
        push_action(actions, StrategyAction::TakeYes { price: yes_ask, count: 1 });
    }
    assert(views(actions@) =~= views(old(actions)@) + close_no(book));
    offered
}

/// Cancels the orders that cross the book, and counts those that do not, on
/// either side.
fn cancel_crossing(
    actions: &mut Vec<StrategyAction>,
    tracker: &OrderTracker,
    ticker: &str,
    best_bid: i64,
    best_ask: i64,
) -> (r: (usize, usize))
    requires
        0 < best_bid < 100,
    ensures
        views(final(actions)@) == views(old(actions)@) + cancels(
            tracker.orders@,
            |e: OrderEntry| crosses(e.order, ticker@, best_bid as int, best_ask as int),
        ),
        r.0 == standing_buys(
            tracker.orders@,
            ticker@,
            "yes"@,
            best_bid as int,
            best_ask as int,
        ),
        r.1 == standing_buys(tracker.orders@, ticker@, "no"@, best_bid as int, best_ask as int),
{
    let ghost all = tracker.orders@;
    let ghost p = |e: OrderEntry| crosses(e.order, ticker@, best_bid as int, best_ask as int);
    let ghost y = |e: OrderEntry|
        live_in(e.order, ticker@) && e.order.buys("yes"@) && !crosses(
            e.order,
            ticker@,
            best_bid as int,
            best_ask as int,
        );
    let ghost n = |e: OrderEntry|
        live_in(e.order, ticker@) && e.order.buys("no"@) && !crosses(
            e.order,
            ticker@,
            best_bid as int,
            best_ask as int,
        );
    let mut yes_count: usize = 0;
    let mut no_count: usize = 0;
    let mut i: usize = 0;
    proof {
        lemma_cancel_ends(all, p);
        lemma_filter_ends(all, y);
        lemma_filter_ends(all, n);
        assert(views(actions@) + Seq::<ActionView>::empty() =~= views(actions@));
    }
    while i < tracker.orders.len()
        invariant
            i <= all.len(),
            all == tracker.orders@,
            0 < best_bid < 100,
            p == |e: OrderEntry| crosses(e.order, ticker@, best_bid as int, best_ask as int),
            y == |e: OrderEntry|
                live_in(e.order, ticker@) && e.order.buys("yes"@) && !crosses(
                    e.order,
                    ticker@,
                    best_bid as int,
                    best_ask as int,
                ),
            n == |e: OrderEntry|
                live_in(e.order, ticker@) && e.order.buys("no"@) && !crosses(
                    e.order,
                    ticker@,
                    best_bid as int,
                    best_ask as int,
                ),
            views(actions@) == views(old(actions)@) + cancels(all.take(i as int), p),
            yes_count == all.take(i as int).filter(y).len(),
            no_count == all.take(i as int).filter(n).len(),
            yes_count <= i,
            no_count <= i,
        decreases all.len() - i,
    {
        proof {
            lemma_sides_differ();
            lemma_cancel_step(all, i as int, p);
            lemma_filter_step(all, i as int, y);
            lemma_filter_step(all, i as int, n);
        }
        let o = &tracker.orders[i].order;
        let mut crossing = false;
        if is_live_in(o, ticker) {
            if o.is_buy_of("yes") {
                if o.price_cents >= best_ask {
                    crossing = true;
                } else {
                    yes_count += 1;
                }
            } else if o.is_buy_of("no") {
                if o.price_cents >= 100 - best_bid {
                    crossing = true;
                } else {
                    no_count += 1;
                }
            }
        }
        if crossing {
            push_action(actions, StrategyAction::CancelOrder { order_id: o.order_id.clone() });
            assert(views(actions@) =~= views(old(actions)@) + cancels(all.take(i + 1), p));
        }
        i += 1;
    }
    proof {
        lemma_cancel_ends(all, p);
        lemma_filter_ends(all, y);
        lemma_filter_ends(all, n);
    }
    (yes_count, no_count)
}

/// Places `needed` bids from the best one down, as far as there are prices.
fn place_bids(actions: &mut Vec<StrategyAction>, best_bid: i64, needed: usize, size: i64)
    requires
        0 <= best_bid,
    ensures
        views(final(actions)@) == views(old(actions)@) + bid_ladder(
            best_bid as int,
            needed as int,
            size,
        ),
{
    let ghost all = bid_ladder(best_bid as int, needed as int, size);
    let mut placed: usize = 0;
    let mut price: i64 = best_bid;
    assert(views(actions@) =~= views(old(actions)@) + all.take(0));
    while placed < needed && price >= 1
        invariant
            0 <= price <= best_bid,
            placed == best_bid - price,
            placed <= needed,
            all == bid_ladder(best_bid as int, needed as int, size),
            views(actions@) == views(old(actions)@) + all.take(placed as int),
        decreases price,
    {
        push_action(actions, StrategyAction::PlaceBid { price_cents: price, count: size });
        assert(views(actions@) =~= views(old(actions)@) + all.take(placed + 1));
        placed += 1;
        price -= 1;
    }
    assert(all.take(placed as int) =~= all);
}

/// Places `needed` offers from the best no bid on, as far as there are prices.
fn place_asks(actions: &mut Vec<StrategyAction>, no_best: i64, needed: usize, size: i64)
    requires
        0 <= no_best <= 100,
    ensures
        views(final(actions)@) == views(old(actions)@) + ask_ladder(
            no_best as int,
            needed as int,
            size,
        ),
{
    let ghost all = ask_ladder(no_best as int, needed as int, size);
    let mut placed: usize = 0;
    let mut no_price: i64 = no_best;
    assert(views(actions@) =~= views(old(actions)@) + all.take(0));
    while placed < needed && no_price >= 1
        invariant
            0 <= no_price <= no_best <= 100,
            placed == no_best - no_price,
            placed <= needed,
            all == ask_ladder(no_best as int, needed as int, size),
            views(actions@) == views(old(actions)@) + all.take(placed as int),
        decreases no_price,
    {
        push_action(actions, StrategyAction::PlaceAsk { price_cents: 100 - no_price, count: size });
        assert(views(actions@) =~= views(old(actions)@) + all.take(placed + 1));
        placed += 1;
        no_price -= 1;
    }
    assert(all.take(placed as int) =~= all);
}

/// An action is seen as what it is.
pub proof fn law_action_seen(price: i64, count: i64, order_id: String)
    ensures
        (StrategyAction::PlaceBid { price_cents: price, count })@ == (ActionView::PlaceBid {
            price_cents: price as int,
            count: count as int,
        }),
        (StrategyAction::PlaceAsk { price_cents: price, count })@ == (ActionView::PlaceAsk {
            price_cents: price as int,
            count: count as int,
        }),
        (StrategyAction::TakeYes { price, count })@ == (ActionView::TakeYes {
            price: price as int,
            count: count as int,
        }),
        (StrategyAction::TakeNo { price, count })@ == (ActionView::TakeNo {
            price: price as int,
            count: count as int,
        }),
        (StrategyAction::CancelOrder { order_id })@ == (ActionView::CancelOrder {
            order_id: order_id@,
        }),
        StrategyAction::CancelAll@ == ActionView::CancelAll,
{
}

/// Lists of actions are seen action by action, in their order.
pub proof fn law_actions_seen(actions: Seq<StrategyAction>, i: int)
    requires
        0 <= i < actions.len(),
    ensures
        views(actions).len() == actions.len(),
        views(actions)[i] == actions[i]@,
{
}

/// The five bands are twenty cents wide each, and are numbered from the lowest on.
pub proof fn law_bands_numbered(mid: HalfCents)
    ensures
        0 <= mid.halves < 200 ==> Band::of_spec(mid).number() == mid.halves as int / 40,
        mid.halves < 0 ==> Band::of_spec(mid).number() == 0,
        mid.halves >= 200 ==> Band::of_spec(mid).number() == 4,
        Band::To20.name() == "0-20"@ && Band::To40.name() == "20-40"@,
        Band::To60.name() == "40-60"@ && Band::To80.name() == "60-80"@,
        Band::To100.name() == "80-100"@,
{
}

} // verus!
