//! One trading session: what each message, each tick and each reply of the
//! exchange changes, and what is to be done next.

use vstd::prelude::*;

use crate::config::Config;
use crate::double::Double;
use crate::execution::PlaceOrderResponse;
use crate::market_data::{
    drop_stale, fits, price_sum, recent, snapshot_fits, square_sum, BookSide, HalfCents, OrderBook,
    PriceHistory, ScoreInputs, Side,
};
use crate::risk::{abs, reaches, Ledger, RiskManager, RiskState};
use crate::seqs::{lemma_filter_ends, lemma_filter_step};
use crate::signal::{
    count_resting_side, live_buys, views, ActionView, SignalEngine, StrategyAction,
};
use crate::text::{has_text, occurs_in, same_text, starts_with};
use crate::time::{Timestamp, MILLISECOND, SECOND};
use crate::tracker::{
    known, lemma_sides_differ, lemma_slot, lemma_slot_meaning, put, slot, texts, without,
    OrderEntry, OrderStatus, OrderTracker, TrackedOrder, TrackerView,
};
use crate::ws::{is_disconnect, WsMessage};

verus! {

/// The state of a session in one market.
pub struct Session {
    pub ticker: String,
    pub book: OrderBook,
    pub risk: RiskManager,
    pub tracker: OrderTracker,
    pub engine: SignalEngine,
    pub price_history_15: PriceHistory,
    pub price_history_60: PriceHistory,
    pub ws_connected: bool,
    pub last_gc: Timestamp,
    pub total_taker_fees_cents: i64,
    pub bid_cross_cooldown_until: Option<Timestamp>,
    pub ask_cross_cooldown_until: Option<Timestamp>,
    pub halt_logged: bool,
    pub last_place_at: Option<Timestamp>,
    pub order_size: i64,
    pub ladder_levels: usize,
    pub rotate_before_close: i64,
    pub z_score_window: u64,
    pub z60_window: u64,
}

/// What a message asks for.
#[derive(Debug, Clone, Copy, PartialEq, Eq, Structural)]
pub enum MessageStep {
    /// Nothing.
    Quiet,
    /// The book has changed.
    BookChanged,
    /// The position has reached the hard cap: cancel everything.
    Emergency,
    /// The stream is broken: cancel everything.
    Disconnected,
    /// A message was lost: cancel everything and leave the market.
    SequenceGap,
    /// The numbers of the message are beyond what can be booked.
    OutOfRange,
}

/// What the messages of a batch have brought so far.
#[derive(Debug, Clone, Copy, PartialEq, Eq, Structural)]
pub struct Batch {
    /// Whether the book has changed.
    pub book_changed: bool,
    /// Whether the position has reached the hard cap.
    pub emergency: bool,
}

impl Batch {
    /// What messages that have asked for `steps` have brought.
    pub open spec fn of(steps: Seq<MessageStep>) -> Batch {
        Batch {
            book_changed: steps.contains(MessageStep::BookChanged),
            emergency: steps.contains(MessageStep::Emergency),
        }
    }

    /// What has come with one more message, which has asked for `step`.
    pub open spec fn noted(self, step: MessageStep) -> Batch {
        Batch {
            book_changed: self.book_changed || step == MessageStep::BookChanged,
            emergency: self.emergency || step == MessageStep::Emergency,
        }
    }

    /// A batch without a message yet.
    pub fn new() -> (r: Batch)
        ensures
            !r.book_changed && !r.emergency,
            r == Batch::of(seq![]),
    {
        Batch { book_changed: false, emergency: false }
    }

    /// Notes what a message has asked for.
    pub fn note(&mut self, step: MessageStep)
        ensures
            *final(self) == old(self).noted(step),
            final(self).book_changed <==> old(self).book_changed || step
                == MessageStep::BookChanged,
            final(self).emergency <==> old(self).emergency || step == MessageStep::Emergency,
    {
        match step {
            MessageStep::BookChanged => {
                self.book_changed = true;
            },
            MessageStep::Emergency => {
                self.emergency = true;
            },
            _ => {},
        }
    }
}

/// The name of a side.
pub open spec fn name_of(side: Side) -> Seq<char> {
    match side {
        Side::Yes => "yes"@,
        Side::No => "no"@,
    }
}

/// The name of a side.
pub fn side_name(side: Side) -> (r: &'static str)
    ensures
        r@ == name_of(side),
{
    match side {
        Side::Yes => "yes",
        Side::No => "no",
    }
}

/// The status that the exchange's word for it means; none for words without a meaning here.
pub open spec fn status_named(word: Seq<char>) -> Option<OrderStatus> {
    if word == "resting"@ {
        Some(OrderStatus::Resting)
    } else if word == "canceled"@ {
        Some(OrderStatus::Canceled)
    } else if word == "executed"@ {
        Some(OrderStatus::Executed)
    } else {
        None
    }
}

/// The status that the exchange's word for it means.
pub fn order_status(word: &str) -> (r: Option<OrderStatus>)
    ensures
        r == status_named(word@),
        r == Some(OrderStatus::Resting) <==> word@ == "resting"@,
        r == Some(OrderStatus::Canceled) <==> word@ == "canceled"@,
        r == Some(OrderStatus::Executed) <==> word@ == "executed"@,
        r is None <==> word@ != "resting"@ && word@ != "canceled"@ && word@ != "executed"@,
{
    proof {
        lemma_words_differ();
    }
    if same_text(word, "resting") {
        Some(OrderStatus::Resting)
    } else if same_text(word, "canceled") {
        Some(OrderStatus::Canceled)
    } else if same_text(word, "executed") {
        Some(OrderStatus::Executed)
    } else {
        None
    }
}

/// The names of the states of an order differ.
pub proof fn lemma_words_differ()
    ensures
        "resting"@ != "canceled"@ && "resting"@ != "executed"@ && "canceled"@ != "executed"@,
{
    reveal_strlit("resting");
    reveal_strlit("canceled");
    reveal_strlit("executed");
    assert("resting"@[0] == 'r' && "canceled"@[0] == 'c' && "executed"@[0] == 'e');
}

/// An order of which `count` contracts were filled.
pub open spec fn filled(order: TrackedOrder, count: int) -> TrackedOrder {
    TrackedOrder {
        remaining: (order.remaining - count) as i64,
        status: if order.remaining - count <= 0 {
            OrderStatus::Executed
        } else {
            order.status
        },
        ..order
    }
}

impl TrackerView {
    /// The tracker after a fill of one of its orders.
    pub open spec fn with_fill(self, id: Seq<char>, count: int) -> TrackerView {
        let i = slot(self.orders, id);
        if i < self.orders.len() {
            TrackerView {
                orders: self.orders.update(
                    i,
                    OrderEntry { id: self.orders[i].id, order: filled(self.orders[i].order, count) },
                ),
                ..self
            }
        } else {
            self
        }
    }

    /// The tracker after the exchange told the status of an order: an order
    /// that is over is forgotten.
    pub open spec fn told(self, id: Seq<char>, word: Seq<char>) -> TrackerView {
        match status_named(word) {
            Some(status) => if status == OrderStatus::Resting {
                self.with_status(id, status)
            } else {
                self.with_status(id, status).forget(id)
            },
            None => self,
        }
    }
}

impl Session {
    /// The parts are well-formed.
    pub open spec fn wf(&self) -> bool {
        &&& self.book.wf()
        &&& self.tracker.wf()
        &&& self.price_history_15.wf()
        &&& self.price_history_60.wf()
    }

    /// The session with the stream known to be up.
    pub open spec fn connected(self) -> Session {
        if self.ws_connected {
            self
        } else {
            Session {
                ws_connected: true,
                risk: RiskManager { ws_connected: true, ..self.risk },
                ..self
            }
        }
    }

    /// Whether this is the session `before` with another book, fresh at `now`.
    pub open spec fn rebooked(&self, before: Session, now: Timestamp) -> bool {
        *self == (Session {
            book: self.book,
            risk: RiskManager { last_book_update: now, ..before.risk },
            ..before
        })
    }

    /// Whether a fill can be booked: in the accounts, with its fee, and on its order.
    pub open spec fn fill_fits(
        &self,
        order_id: Seq<char>,
        side: Seq<char>,
        yes_price: i64,
        count: i64,
        is_taker: bool,
        fee: i64,
    ) -> bool {
        let i = slot(self.tracker.orders@, order_id);
        let booked = self.risk.ledger().buy(side == "yes"@, yes_price as int, count as int);
        &&& self.risk.fill_fits(side, yes_price, count)
        &&& is_taker ==> fits(self.total_taker_fees_cents + fee) && fits(booked.daily - fee)
        &&& known(self.tracker.orders@, order_id) ==> fits(
            self.tracker.orders@[i].order.remaining - count,
        )
    }

    /// Whether this is the session `before` after a fill: the accounts hold it,
    /// a taker has paid the fee, the order has less to go, and trading is halted
    /// where the position has reached the hard cap for the first time.
    pub open spec fn booked(
        &self,
        before: Session,
        order_id: Seq<char>,
        side: Seq<char>,
        yes_price: i64,
        count: i64,
        is_taker: bool,
        post_position: i64,
        fee: i64,
        emergency: bool,
    ) -> bool {
        let l = before.risk.ledger().buy(side == "yes"@, yes_price as int, count as int);
        let paid = if is_taker {
            fee as int
        } else {
            0
        };
        let breach = abs(post_position as int) >= before.risk.hard_inventory_cap && !emergency;
        &&& *self == (Session {
            risk: self.risk,
            tracker: self.tracker,
            total_taker_fees_cents: (before.total_taker_fees_cents + paid) as i64,
            ..before
        })
        &&& self.risk.inventory == post_position
        &&& self.risk.ledger() == Ledger { daily: l.daily - paid, ..l }
        &&& self.risk.state == if breach {
            RiskState::Halted
        } else {
            before.risk.state
        }
        &&& self.risk.same_limits(&before.risk)
        &&& self.risk.ws_connected == before.risk.ws_connected
        &&& self.risk.last_book_update == before.risk.last_book_update
        &&& self.tracker@ == before.tracker@.with_fill(order_id, count as int)
    }

    /// Whether this is the session `before` after a message, and `step` what the
    /// message asks for.
    pub open spec fn heard(
        &self,
        before: Session,
        msg: WsMessage,
        fee: i64,
        emergency: bool,
        now: Timestamp,
        step: MessageStep,
    ) -> bool {
        let c = before.connected();
        match msg {
            WsMessage::OrderbookSnapshot { market_ticker, yes_levels, no_levels, seq } => {
                if market_ticker@ != c.ticker@ {
                    *self == c && step == MessageStep::Quiet
                } else if !snapshot_fits(yes_levels@) || !snapshot_fits(no_levels@) {
                    *self == c && step == MessageStep::OutOfRange
                } else {
                    &&& step == MessageStep::BookChanged
                    &&& self.rebooked(c, now)
                    &&& self.book.yes_bids.is_snapshot(yes_levels@)
                    &&& self.book.no_bids.is_snapshot(no_levels@)
                    &&& self.book.seq == seq
                    &&& self.book.last_update == now
                    &&& self.book.initialized
                }
            },
            WsMessage::OrderbookDelta { market_ticker, side, price, delta, seq } => {
                if market_ticker@ != c.ticker@ {
                    *self == c && step == MessageStep::Quiet
                } else if c.book.seq == u64::MAX || (seq == c.book.seq + 1 && !c.book.delta_fits(
                    side,
                    price,
                    delta,
                )) {
                    *self == c && step == MessageStep::OutOfRange
                } else if seq != c.book.seq + 1 {
                    &&& step == MessageStep::SequenceGap
                    &&& *self == (Session {
                        risk: RiskManager { state: RiskState::Halted, ..c.risk },
                        ..c
                    })
                } else {
                    &&& step == MessageStep::BookChanged
                    &&& self.rebooked(c, now)
                    &&& self.book.is_change_of(&c.book, side, price, delta, now)
                }
            },
            WsMessage::Fill {
                trade_id,
                order_id,
                market_ticker,
                side,
                yes_price,
                count,
                action,
                is_taker,
                post_position,
            } => {
                if !c.fill_fits(order_id@, side@, yes_price, count, is_taker, fee) {
                    *self == c && step == MessageStep::OutOfRange
                } else {
                    &&& self.booked(
                        c,
                        order_id@,
                        side@,
                        yes_price,
                        count,
                        is_taker,
                        post_position,
                        fee,
                        emergency,
                    )
                    &&& step == if abs(post_position as int) >= c.risk.hard_inventory_cap
                        && !emergency {
                        MessageStep::Emergency
                    } else {
                        MessageStep::Quiet
                    }
                }
            },
            WsMessage::UserOrder {
                order_id,
                client_order_id,
                ticker,
                status,
                side,
                remaining_count_fp,
                fill_count_fp,
            } => {
                &&& step == MessageStep::Quiet
                &&& *self == (Session { tracker: self.tracker, ..c })
                &&& self.tracker@ == c.tracker@.told(order_id@, status@)
            },
            WsMessage::Error { code, message } => {
                if is_disconnect(message@) {
                    &&& step == MessageStep::Disconnected
                    &&& *self == (Session {
                        ws_connected: false,
                        risk: RiskManager {
                            ws_connected: false,
                            state: RiskState::Halted,
                            ..c.risk
                        },
                        book: OrderBook { initialized: false, ..c.book },
                        ..c
                    })
                } else {
                    *self == c && step == MessageStep::Quiet
                }
            },
            _ => *self == c && step == MessageStep::Quiet,
        }
    }

    /// A session that has heard nothing yet. The profit made earlier in the day
    /// is carried over.
    pub fn new(config: &Config, ticker: &str, carry_pnl: i64, now: Timestamp) -> (r: Session)
        ensures
            r.wf(),
            r.ticker@ == ticker@,
            !r.book.initialized && r.book.seq == 0 && r.book.consistent(),
            r.book.yes_bids.occupied == 0 && r.book.no_bids.occupied == 0,
            r.book.last_update == now,
            r.risk.state == RiskState::Normal,
            r.risk.inventory == 0,
            r.risk.max_inventory == config.max_inventory,
            r.risk.hard_inventory_cap == config.hard_inventory_cap,
            r.risk.daily_loss_cap_cents == config.daily_loss_cap_cents,
            r.risk.max_book_staleness == 5 * SECOND,
            !r.risk.ws_connected,
            r.risk.last_book_update == now,
            r.risk.ledger() == (Ledger {
                yes_legs: seq![],
                no_legs: seq![],
                realized: 0,
                daily: carry_pnl as int,
                open_cost: 0,
                pairs: 0,
            }),
            r.tracker@ == (TrackerView {
                orders: Seq::empty(),
                clients: Map::empty(),
                bid: None,
                ask: None,
            }),
            r.engine.fresh(config),
            r.price_history_15@.len() == 0 && r.price_history_15.kept_for() == twice(
                config.z_score_window,
            ),
            r.price_history_60@.len() == 0 && r.price_history_60.kept_for() == twice(
                config.z60_window,
            ),
            !r.ws_connected,
            r.last_gc == now,
            r.total_taker_fees_cents == 0,
            r.bid_cross_cooldown_until is None,
            r.ask_cross_cooldown_until is None,
            !r.halt_logged,
            r.last_place_at is None,
            r.order_size == config.order_size,
            r.ladder_levels == config.ladder_levels,
            r.rotate_before_close == config.market_rotate_before_close_secs,
            r.z_score_window == config.z_score_window,
            r.z60_window == config.z60_window,
    {
        let mut risk = RiskManager::new(config, now);
        risk.carry_daily_pnl(carry_pnl);
        Session {
            ticker: ticker.to_owned(),
            book: OrderBook::new(now),
            risk,
            tracker: OrderTracker::new(),
            engine: SignalEngine::new(config),
            price_history_15: PriceHistory::new(doubled(config.z_score_window)),
            price_history_60: PriceHistory::new(doubled(config.z60_window)),
            ws_connected: false,
            last_gc: now,
            total_taker_fees_cents: 0,
            bid_cross_cooldown_until: None,
            ask_cross_cooldown_until: None,
            halt_logged: false,
            last_place_at: None,
            order_size: config.order_size,
            ladder_levels: config.ladder_levels,
            rotate_before_close: config.market_rotate_before_close_secs,
            z_score_window: config.z_score_window,
            z60_window: config.z60_window,
        }
    }

    /// Takes the position that the exchange tells at the start.
    pub fn position_loaded(&mut self, position: i64)
        requires
            old(self).wf(),
        ensures
            final(self).wf(),
            *final(self) == (Session {
                risk: RiskManager { inventory: position, ..old(self).risk },
                ..*old(self)
            }),
    {
        self.risk.inventory = position;
    }

    /// Whether the market closes so soon that it is time to leave it.
    pub fn closing_soon(&self, time_to_expiry: i64) -> (r: bool)
        ensures
            r == (time_to_expiry <= self.rotate_before_close),
    {
        time_to_expiry <= self.rotate_before_close
    }

    /// Every ten seconds, drops the orders that have been over for five minutes.
    pub fn collect_garbage(&mut self, now: Timestamp)
        requires
            old(self).wf(),
        ensures
            final(self).wf(),
            now.since(old(self).last_gc) <= 10 * SECOND ==> *final(self) == *old(self),
            now.since(old(self).last_gc) > 10 * SECOND ==> {
                &&& *final(self) == (Session {
                    last_gc: now,
                    tracker: final(self).tracker,
                    ..*old(self)
                })
                &&& final(self).tracker@ == (TrackerView {
                    orders: old(self).tracker.orders@.filter(
                        |e: OrderEntry| OrderTracker::kept(e.order, now, (300 * SECOND) as int),
                    ),
                    ..old(self).tracker@
                })
            },
    {
        if now.duration_since(self.last_gc) > 10 * SECOND {
            self.tracker.gc(300 * SECOND, now);
            self.last_gc = now;
        }
    }

    /// Takes in a message. `fee` is what a taker pays for the fill that the
    /// message tells of, `emergency` whether the hard cap was already reached in
    /// this batch of messages.
    pub fn on_message(&mut self, msg: &WsMessage, fee: i64, emergency: bool, now: Timestamp) -> (r:
        MessageStep)
        requires
            old(self).wf(),
        ensures
            final(self).wf(),
            final(self).heard(*old(self), *msg, fee, emergency, now, r),
    {
        if !self.ws_connected {
            self.risk.set_ws_connected(true);
            self.ws_connected = true;
        }
        let ghost c = *self;
        assert(c == old(self).connected());
        match msg {
            WsMessage::OrderbookSnapshot { market_ticker, yes_levels, no_levels, seq } => {
                if !same_text(market_ticker.as_str(), self.ticker.as_str()) {
                    return MessageStep::Quiet;
                }
                if !BookSide::can_apply_snapshot(yes_levels.as_slice())
                    || !BookSide::can_apply_snapshot(no_levels.as_slice()) {
                    return MessageStep::OutOfRange;
                }
                self.book.apply_snapshot(yes_levels.as_slice(), no_levels.as_slice(), *seq, now);
                self.risk.book_updated(now);
                MessageStep::BookChanged
            },
            WsMessage::OrderbookDelta { market_ticker, side, price, delta, seq } => {
                if !same_text(market_ticker.as_str(), self.ticker.as_str()) {
                    return MessageStep::Quiet;
                }
                if self.book.seq == u64::MAX {
                    return MessageStep::OutOfRange;
                }
                let can_apply = match side {
                    Side::Yes => self.book.yes_bids.can_apply_delta(*price, *delta),
                    Side::No => self.book.no_bids.can_apply_delta(*price, *delta),
                };
                if *seq == self.book.seq + 1 && !can_apply {
                    return MessageStep::OutOfRange;
                }
                if !self.book.apply_delta(*side, *price, *delta, *seq, now) {
                    self.risk.halt("sequence_gap");
                    return MessageStep::SequenceGap;
                }
                self.risk.book_updated(now);
                MessageStep::BookChanged
            },
            WsMessage::Fill {
                trade_id: _,
                order_id,
                market_ticker: _,
                side,
                yes_price,
                count,
                action,
                is_taker,
                post_position,
            } => {
                self.on_fill(
                    order_id.as_str(),
                    side.as_str(),
                    action.as_str(),
                    *yes_price,
                    *count,
                    *is_taker,
                    *post_position,
                    fee,
                    emergency,
                )
            },
            WsMessage::UserOrder {
                order_id,
                client_order_id: _,
                ticker: _,
                status,
                side: _,
                remaining_count_fp: _,
                fill_count_fp: _,
            } => {
                if let Some(new_status) = order_status(status.as_str()) {
                    self.tracker.update_status(order_id.as_str(), new_status);
                    if matches!(new_status, OrderStatus::Canceled | OrderStatus::Executed) {
                        self.tracker.remove(order_id.as_str());
                    }
                }
                MessageStep::Quiet
            },
            WsMessage::Error { code: _, message } => {
                if starts_with(message.as_str(), "WS disconnect") {
                    self.ws_connected = false;
                    self.risk.set_ws_connected(false);
                    self.book.initialized = false;
                    return MessageStep::Disconnected;
                }
                MessageStep::Quiet
            },
            _ => MessageStep::Quiet,
        }
    }

    /// Books a fill.
    fn on_fill(
        &mut self,
        order_id: &str,
        side: &str,
        action: &str,
        yes_price: i64,
        count: i64,
        is_taker: bool,
        post_position: i64,
        fee: i64,
        emergency: bool,
    ) -> (r: MessageStep)
        requires
            old(self).wf(),
        ensures
            final(self).wf(),
            ({
                let breach = abs(post_position as int) >= old(self).risk.hard_inventory_cap
                    && !emergency;
                if !old(self).fill_fits(order_id@, side@, yes_price, count, is_taker, fee) {
                    *final(self) == *old(self) && r == MessageStep::OutOfRange
                } else {
                    &&& final(self).booked(
                        *old(self),
                        order_id@,
                        side@,
                        yes_price,
                        count,
                        is_taker,
                        post_position,
                        fee,
                        emergency,
                    )
                    &&& r == if breach {
                        MessageStep::Emergency
                    } else {
                        MessageStep::Quiet
                    }
                }
            }),
    {
        let daily: i64 = match self.risk.daily_after_fill(side, yes_price, count) {
            Some(d) => d,
            None => {
                return MessageStep::OutOfRange;
            },
        };
        let paid: i64 = if is_taker {
            fee
        } else {
            0
        };
        let daily_after: i64 = match daily.checked_sub(paid) {
            Some(d) => d,
            None => {
                return MessageStep::OutOfRange;
            },
        };
        let fees_after: i64 = match self.total_taker_fees_cents.checked_add(paid) {
            Some(t) => t,
            None => {
                return MessageStep::OutOfRange;
            },
        };
        let remaining: Option<i64> = match self.tracker.get(order_id) {
            Some(order) => match order.remaining.checked_sub(count) {
                Some(n) => Some(n),
                None => {
                    return MessageStep::OutOfRange;
                },
            },
            None => None,
        };
        self.risk.record_fill(side, action, yes_price, count, post_position);
        self.total_taker_fees_cents = fees_after;
        self.risk.daily_pnl_cents = daily_after;
        let ghost was = self.tracker@;
        if let Some(left) = remaining {
            if let Some(order) = self.tracker.get_mut(order_id) {
                order.remaining = left;
                if left <= 0 {
                    order.status = OrderStatus::Executed;
                }
            }
        }
        proof {
            let now_held = self.tracker.orders@;
            assert(now_held =~= was.with_fill(order_id@, count as int).orders);
            lemma_slot_meaning(was.orders, order_id@);
            assert forall|a: int, b: int| 0 <= a < b < now_held.len() implies (
            #[trigger] now_held[a]).id@ != (#[trigger] now_held[b]).id@ by {
                assert(was.orders[a].id@ != was.orders[b].id@);
            }
        }
        if reaches(self.risk.inventory, self.risk.hard_inventory_cap) && !emergency {
            self.risk.halt("hard_cap_breach_mid_batch");
            return MessageStep::Emergency;
        }
        MessageStep::Quiet
    }

    /// What to do while trading is halted. So shortly before the close that
    /// nothing is traded any more, orders that are still at work are cancelled.
    /// Else trading goes on where every cause is gone; with a stream and a fresh
    /// book, one order brings the position down, where none is at work yet.
    pub open spec fn halt_step(&self, time_to_expiry: i64, now: Timestamp) -> HaltStep {
        let inv = self.risk.inventory as int;
        let fresh = now.since(self.risk.last_book_update) < self.risk.max_book_staleness;
        let nb = self.book.no_bids.best_bid as int;
        if time_to_expiry < self.engine.cfg_no_trade_before_close {
            if self.tracker.working_ids(self.ticker@).len() > 0 {
                HaltStep::CancelAll
            } else {
                HaltStep::Stand
            }
        } else if abs(inv) <= self.risk.max_inventory && self.risk.ws_connected && fresh
            && self.risk.daily_pnl_cents > -self.risk.daily_loss_cap_cents {
            HaltStep::Resume
        } else if self.risk.ws_connected && fresh && inv > 0 && live_buys(
            self.tracker.orders@,
            self.ticker@,
            "no"@,
        ) == 0 && nb >= 1 && 100 - nb > self.book.bid() {
            HaltStep::WorkDown { side: Side::No, price: nb as i64 }
        } else if self.risk.ws_connected && fresh && inv < 0 && live_buys(
            self.tracker.orders@,
            self.ticker@,
            "yes"@,
        ) == 0 && 1 <= self.book.bid() < self.book.ask() {
            HaltStep::WorkDown { side: Side::Yes, price: self.book.bid() as i64 }
        } else {
            HaltStep::Stand
        }
    }

    /// The two histories after the middle price was added to them, if there is one.
    pub open spec fn priced(&self, before: &Session, now: Timestamp) -> bool {
        let mid = HalfCents { halves: (before.book.bid() + before.book.ask()) as i64 };
        if before.book.two_sided() {
            &&& self.price_history_15@ == drop_stale(
                before.price_history_15@.push((now, mid)),
                now,
                before.price_history_15.kept_for(),
            )
            &&& self.price_history_60@ == drop_stale(
                before.price_history_60@.push((now, mid)),
                now,
                before.price_history_60.kept_for(),
            )
            &&& self.price_history_15.kept_for() == before.price_history_15.kept_for()
            &&& self.price_history_60.kept_for() == before.price_history_60.kept_for()
        } else {
            &&& self.price_history_15 == before.price_history_15
            &&& self.price_history_60 == before.price_history_60
        }
    }

    /// Whether this is the session `before` after a batch of messages, and
    /// `phase` what follows: nothing without a book; else the middle price is
    /// noted where the book has changed, and the risk is assessed.
    pub open spec fn after_batch(
        &self,
        before: &Session,
        book_changed: bool,
        time_to_expiry: i64,
        now: Timestamp,
        phase: Phase,
    ) -> bool {
        if !before.book.initialized {
            *self == *before && phase == Phase::NotReady
        } else {
            let state = before.risk.assessed(now);
            let halt = before.halt_step(time_to_expiry, now);
            &&& if book_changed {
                self.priced(before, now)
            } else {
                self.price_history_15 == before.price_history_15 && self.price_history_60
                    == before.price_history_60
            }
            &&& *self == (Session {
                price_history_15: self.price_history_15,
                price_history_60: self.price_history_60,
                risk: RiskManager {
                    state: if state == RiskState::Halted && halt == HaltStep::Resume {
                        RiskState::Normal
                    } else {
                        state
                    },
                    ..before.risk
                },
                halt_logged: state == RiskState::Halted && halt != HaltStep::Resume,
                ..*before
            })
            &&& phase == if state == RiskState::Halted {
                Phase::Halted { first: !before.halt_logged, step: halt }
            } else {
                Phase::Trade
            }
        }
    }

    /// Goes on after a batch of messages.
    pub fn finish_batch(&mut self, book_changed: bool, time_to_expiry: i64, now: Timestamp) -> (r:
        Phase)
        requires
            old(self).wf(),
        ensures
            final(self).wf(),
            final(self).after_batch(old(self), book_changed, time_to_expiry, now, r),
    {
        if !self.book.initialized {
            return Phase::NotReady;
        }
        if book_changed {
            if let Some(mid) = self.book.midprice() {
                self.price_history_15.push(now, mid);
                self.price_history_60.push(now, mid);
            }
        }
        let state = self.risk.tick(now);
        if !matches!(state, RiskState::Halted) {
            self.halt_logged = false;
            return Phase::Trade;
        }
        let first = !self.halt_logged;
        let step = self.work_down(time_to_expiry, now);
        if matches!(step, HaltStep::Resume) {
            self.risk.reset();
            self.halt_logged = false;
        } else {
            self.halt_logged = true;
        }
        Phase::Halted { first, step }
    }

    /// What to do while trading is halted.
    fn work_down(&self, time_to_expiry: i64, now: Timestamp) -> (r: HaltStep)
        requires
            self.wf(),
        ensures
            r == self.halt_step(time_to_expiry, now),
    {
        if time_to_expiry < self.engine.cfg_no_trade_before_close {
            let ids = self.orders_at_work();
            assert(texts(ids@).len() == ids@.len());
            return if ids.len() > 0 {
                HaltStep::CancelAll
            } else {
                HaltStep::Stand
            };
        }
        let inv: i64 = self.risk.inventory;
        let inv_safe = inv as i128 <= self.risk.max_inventory as i128 && -(inv as i128)
            <= self.risk.max_inventory as i128;
        let ws_ok = self.risk.ws_connected;
        let book_fresh = now.duration_since(self.risk.last_book_update)
            < self.risk.max_book_staleness;
        let pnl_ok = self.risk.daily_pnl_cents as i128 > -(self.risk.daily_loss_cap_cents as i128);
        if inv_safe && ws_ok && book_fresh && pnl_ok {
            return HaltStep::Resume;
        }
        if ws_ok && book_fresh {
            if inv > 0 {
                if count_resting(&self.tracker, self.ticker.as_str(), "no") == 0 {
                    let nb: i64 = self.book.best_no_bid();
                    if nb >= 1 && 100 - nb > self.book.best_yes_bid() {
                        return HaltStep::WorkDown { side: Side::No, price: nb };
                    }
                }
            } else if inv < 0 {
                if count_resting(&self.tracker, self.ticker.as_str(), "yes") == 0 {
                    let bb: i64 = self.book.best_yes_bid();
                    if bb >= 1 && bb < self.book.best_yes_ask() {
                        return HaltStep::WorkDown { side: Side::Yes, price: bb };
                    }
                }
            }
        }
        HaltStep::Stand
    }

    /// What the two scores are computed from.
    pub fn scores(&self, now: Timestamp) -> (r: (Option<ScoreInputs>, Option<ScoreInputs>))
        requires
            self.wf(),
        ensures
            scored_from(r.0, self.price_history_15@, self.z_score_window, now),
            scored_from(r.1, self.price_history_60@, self.z60_window, now),
    {
        (
            self.price_history_15.z_score(self.z_score_window, now),
            self.price_history_60.z_score(self.z60_window, now),
        )
    }

    /// Whether an order was placed less than half a second ago.
    pub open spec fn cooling_down(&self, now: Timestamp) -> bool {
        self.last_place_at matches Some(t) && now.since(t) < 500 * MILLISECOND
    }

    /// Decides what to do: cancels come first, then what is taken, then what is
    /// placed, which is left out shortly after an order was placed.
    pub fn decide(
        &mut self,
        z15: Option<Double>,
        z60: Option<Double>,
        spread_ema: Double,
        time_to_expiry: i64,
        now: Timestamp,
    ) -> (r: Plan)
        requires
            old(self).wf(),
        ensures
            final(self).wf(),
            *final(self) == (Session { engine: final(self).engine, ..*old(self) }),
            exists|actions: Seq<ActionView>|
                {
                    &&& #[trigger] final(self).engine.ticked(
                        &old(self).engine,
                        &old(self).book,
                        z15,
                        z60,
                        spread_ema,
                        time_to_expiry,
                        old(self).risk.inventory as int,
                        old(self).tracker.orders@,
                        old(self).ticker@,
                        now,
                        actions,
                    )
                    &&& r.sorts(actions, old(self).cooling_down(now))
                },
    {
        let on_cooldown = match self.last_place_at {
            Some(t) => now.duration_since(t) < 500 * MILLISECOND,
            None => false,
        };
        let actions = self.engine.tick(
            &self.book,
            z15,
            z60,
            spread_ema,
            time_to_expiry,
            &self.risk,
            &self.tracker,
            self.ticker.as_str(),
            now,
        );
        let ghost all = views(actions@);
        let mut plan = sort_actions(actions);
        if on_cooldown {
            plan.makers = Vec::new();
            assert(views(plan.makers@) =~= seq![]);
        }
        assert(plan.sorts(all, self.cooling_down(now)));
        plan
    }

    /// Whether the pause after an order that would have crossed the book is over
    /// for an action.
    pub open spec fn cross_ok(&self, action: ActionView, now: Timestamp) -> bool {
        match action {
            ActionView::PlaceBid { price_cents, count } => self.bid_cross_cooldown_until matches Some(
                t,
            ) ==> now.nanos >= t.nanos,
            ActionView::PlaceAsk { price_cents, count } => self.ask_cross_cooldown_until matches Some(
                t,
            ) ==> now.nanos >= t.nanos,
            _ => true,
        }
    }

    /// Whether the pause after an order that would have crossed the book is over
    /// for an action.
    pub fn maker_allowed(&self, action: &StrategyAction, now: Timestamp) -> (r: bool)
        ensures
            r == self.cross_ok(action@, now),
            action matches StrategyAction::PlaceBid { .. } ==> (r <==> (
            self.bid_cross_cooldown_until matches Some(t) ==> now.nanos >= t.nanos)),
            action matches StrategyAction::PlaceAsk { .. } ==> (r <==> (
            self.ask_cross_cooldown_until matches Some(t) ==> now.nanos >= t.nanos)),
            !(action is PlaceBid) && !(action is PlaceAsk) ==> r,
    {
        let until = match action {
            StrategyAction::PlaceBid { .. } => self.bid_cross_cooldown_until,
            StrategyAction::PlaceAsk { .. } => self.ask_cross_cooldown_until,
            _ => None,
        };
        match until {
            Some(t) => now.nanos >= t.nanos,
            None => true,
        }
    }

    /// Whether another order may be placed on a side.
    pub open spec fn room_on(&self, side: Side) -> bool {
        live_buys(self.tracker.orders@, self.ticker@, name_of(side)) < self.ladder_levels
    }

    /// The task of placing an order, if there is room for it.
    pub fn place_order(&self, side: Side, price: i64, count: i64) -> (r: Task)
        ensures
            r@ == if self.room_on(side) {
                TaskView::Place { side, price, count }
            } else {
                TaskView::Skip
            },
    {
        if count_resting(&self.tracker, self.ticker.as_str(), side_name(side)) >= self.ladder_levels {
            return Task::Skip;
        }
        Task::Place { side, price, count }
    }

    /// The task that an action sets. An offer is placed as a bid for no, at
    /// what is left of a dollar.
    pub open spec fn task_for(&self, action: ActionView) -> TaskView {
        match action {
            ActionView::PlaceBid { price_cents, count } => if self.room_on(Side::Yes) {
                TaskView::Place {
                    side: Side::Yes,
                    price: price_cents as i64,
                    count: count as i64,
                }
            } else {
                TaskView::Skip
            },
            ActionView::PlaceAsk { price_cents, count } => if self.room_on(Side::No) {
                TaskView::Place {
                    side: Side::No,
                    price: (100 - price_cents) as i64,
                    count: count as i64,
                }
            } else {
                TaskView::Skip
            },
            ActionView::TakeYes { price, count } => TaskView::Take {
                side: Side::Yes,
                price: price as i64,
                count: count as i64,
            },
            ActionView::TakeNo { price, count } => TaskView::Take {
                side: Side::No,
                price: price as i64,
                count: count as i64,
            },
            ActionView::CancelOrder { order_id } => TaskView::Cancel { order_id },
            ActionView::CancelAll => {
                let ids = self.tracker.working_ids(self.ticker@);
                if ids.len() == 0 {
                    TaskView::Skip
                } else {
                    TaskView::CancelAll { ids }
                }
            },
        }
    }

    /// The task that an action sets.
    pub fn execute_action(&self, action: StrategyAction) -> (r: Task)
        requires
            action matches StrategyAction::PlaceAsk { price_cents, count } ==> fits(
                100 - price_cents,
            ),
        ensures
            r@ == self.task_for(action@),
    {
        match action {
            StrategyAction::PlaceBid { price_cents, count } => self.place_order(
                Side::Yes,
                price_cents,
                count,
            ),
            StrategyAction::PlaceAsk { price_cents, count } => {
                let no_price: i64 = 100 - price_cents;
                self.place_order(Side::No, no_price, count)
            },
            StrategyAction::TakeYes { price, count } => Task::Take { side: Side::Yes, price, count },
            StrategyAction::TakeNo { price, count } => Task::Take { side: Side::No, price, count },
            StrategyAction::CancelOrder { order_id } => Task::Cancel { order_id },
            StrategyAction::CancelAll => {
                let ids = self.tracker.resting_order_ids(self.ticker.as_str());
                if ids.len() == 0 {
                    Task::Skip
                } else {
                    Task::CancelAll { ids }
                }
            },
        }
    }

    /// Whether this is the session `before` after the reply to an order that
    /// was to be placed: an order that was placed is taken in; one that would
    /// have crossed the book pauses its side for half a second.
    pub open spec fn answered(
        &self,
        before: &Session,
        side: Side,
        price: i64,
        count: i64,
        reply: Result<PlaceOrderResponse, String>,
        now: Timestamp,
    ) -> bool {
        let until = match reply {
            Ok(_) => None,
            Err(e) => if occurs_in(e@, "Post-only cross"@) {
                Some(Timestamp { nanos: (now.nanos + 500 * MILLISECOND) as u64 })
            } else if side == Side::Yes {
                before.bid_cross_cooldown_until
            } else {
                before.ask_cross_cooldown_until
            },
        };
        &&& *self == (Session {
            tracker: self.tracker,
            bid_cross_cooldown_until: if side == Side::Yes {
                until
            } else {
                before.bid_cross_cooldown_until
            },
            ask_cross_cooldown_until: if side == Side::No {
                until
            } else {
                before.ask_cross_cooldown_until
            },
            last_place_at: if reply is Ok {
                Some(now)
            } else {
                before.last_place_at
            },
            ..*before
        })
        &&& match reply {
            Ok(resp) => exists|order: TrackedOrder|
                {
                    &&& #[trigger] is_new_order(order, resp, before.ticker@, side, price, count, now)
                    &&& self.tracker.orders@ == put(before.tracker.orders@, order)
                    &&& self.tracker.client_id_map@ == before.tracker.client_id_map@.insert(
                        resp.client_order_id@,
                        order.order_id,
                    )
                    &&& self.tracker.cached_bid_id == if side == Side::Yes {
                        Some(order.order_id)
                    } else {
                        before.tracker.cached_bid_id
                    }
                    &&& self.tracker.cached_ask_id == if side == Side::No {
                        Some(order.order_id)
                    } else {
                        before.tracker.cached_ask_id
                    }
                },
            Err(_) => self.tracker == before.tracker,
        }
    }

    /// Takes in the reply to an order that was to be placed.
    pub fn order_answered(
        &mut self,
        side: Side,
        price: i64,
        count: i64,
        reply: Result<PlaceOrderResponse, String>,
        now: Timestamp,
    )
        requires
            old(self).wf(),
            now.nanos + 500 * MILLISECOND <= u64::MAX,
        ensures
            final(self).wf(),
            final(self).answered(old(self), side, price, count, reply, now),
    {
        let ghost was = reply;
        match reply {
            Ok(resp) => {
                match side {
                    Side::Yes => {
                        self.bid_cross_cooldown_until = None;
                    },
                    Side::No => {
                        self.ask_cross_cooldown_until = None;
                    },
                }
                let order = TrackedOrder {
                    order_id: resp.order_id,
                    client_order_id: resp.client_order_id,
                    ticker: self.ticker.clone(),
                    side: side_name(side).to_owned(),
                    action: "buy".to_owned(),
                    price_cents: price,
                    count,
                    remaining: count,
                    status: OrderStatus::PendingNew,
                    created_at: now,
                };
                proof {
                    lemma_sides_differ();
                    assert(is_new_order(
                        order,
                        was->Ok_0,
                        old(self).ticker@,
                        side,
                        price,
                        count,
                        now,
                    ));
                }
                self.tracker.track(order);
                self.last_place_at = Some(now);
            },
            Err(e) => {
                if has_text(e.as_str(), "Post-only cross") {
                    let until = Timestamp { nanos: now.nanos + 500 * MILLISECOND };
                    match side {
                        Side::Yes => {
                            self.bid_cross_cooldown_until = Some(until);
                        },
                        Side::No => {
                            self.ask_cross_cooldown_until = Some(until);
                        },
                    }
                }
            },
        }
    }

    /// Forgets an order that was cancelled.
    pub fn order_cancelled(&mut self, order_id: &str)
        requires
            old(self).wf(),
        ensures
            final(self).wf(),
            *final(self) == (Session { tracker: final(self).tracker, ..*old(self) }),
            final(self).tracker@ == old(self).tracker@.forget(order_id@),
    {
        let ghost was = self.tracker@;
        self.tracker.update_status(order_id, OrderStatus::PendingCancel);
        let ghost marked = self.tracker@;
        proof {
            let i = slot(was.orders, order_id@);
            lemma_slot_meaning(was.orders, order_id@);
            lemma_slot(marked.orders, order_id@, i);
        }
        self.tracker.remove(order_id);
        assert(without(marked.orders, order_id@) =~= without(was.orders, order_id@));
    }

    /// The orders that are to be cancelled when everything is.
    pub fn orders_at_work(&self) -> (r: Vec<String>)
        ensures
            texts(r@) == self.tracker.working_ids(self.ticker@),
    {
        self.tracker.resting_order_ids(self.ticker.as_str())
    }

    /// Forgets the orders that were to be cancelled.
    pub fn forget_orders(&mut self, ids: &Vec<String>)
        requires
            old(self).wf(),
        ensures
            final(self).wf(),
            *final(self) == (Session { tracker: final(self).tracker, ..*old(self) }),
            final(self).tracker@ == old(self).tracker@.forget_all(texts(ids@)),
    {
        let ghost all = texts(ids@);
        let mut i: usize = 0;
        assert(all.take(0) =~= seq![]);
        while i < ids.len()
            invariant
                i <= ids@.len(),
                all == texts(ids@),
                self.wf(),
                *self == (Session { tracker: self.tracker, ..*old(self) }),
                self.tracker@ == old(self).tracker@.forget_all(all.take(i as int)),
            decreases ids@.len() - i,
        {
            self.tracker.remove(ids[i].as_str());
            assert(all.take(i + 1).drop_last() =~= all.take(i as int));
            i += 1;
        }
        assert(all.take(ids@.len() as int) =~= all);
    }
}

/// Whether an order is the one that a reply to a new order tells of.
pub open spec fn is_new_order(
    order: TrackedOrder,
    resp: PlaceOrderResponse,
    ticker: Seq<char>,
    side: Side,
    price: i64,
    count: i64,
    now: Timestamp,
) -> bool {
    &&& order.order_id == resp.order_id
    &&& order.client_order_id == resp.client_order_id
    &&& order.ticker@ == ticker
    &&& order.side@ == name_of(side)
    &&& order.action@ == "buy"@
    &&& order.price_cents == price
    &&& order.count == count
    &&& order.remaining == count
    &&& order.status == OrderStatus::PendingNew
    &&& order.created_at == now
}

/// Something to have done by the exchange.
#[derive(Debug)]
pub enum Task {
    /// Place a maker order to buy.
    Place { side: Side, price: i64, count: i64 },
    /// Place a taker order to buy.
    Take { side: Side, price: i64, count: i64 },
    Cancel { order_id: String },
    CancelAll { ids: Vec<String> },
    /// There is nothing to do.
    Skip,
}

/// A task, with its texts as characters.
pub enum TaskView {
    Place { side: Side, price: i64, count: i64 },
    Take { side: Side, price: i64, count: i64 },
    Cancel { order_id: Seq<char> },
    CancelAll { ids: Seq<Seq<char>> },
    Skip,
}

impl View for Task {
    type V = TaskView;

    open spec fn view(&self) -> TaskView {
        match self {
            Task::Place { side, price, count } => TaskView::Place {
                side: *side,
                price: *price,
                count: *count,
            },
            Task::Take { side, price, count } => TaskView::Take {
                side: *side,
                price: *price,
                count: *count,
            },
            Task::Cancel { order_id } => TaskView::Cancel { order_id: order_id@ },
            Task::CancelAll { ids } => TaskView::CancelAll { ids: texts(ids@) },
            Task::Skip => TaskView::Skip,
        }
    }
}

/// What follows an attempt to cancel everything.
#[derive(Debug, Clone, Copy, PartialEq, Eq, Structural)]
pub enum CancelStep {
    /// The orders are to be forgotten.
    Done,
    /// Try again after a pause, given in milliseconds.
    Retry { pause_ms: u64 },
    /// Forget the orders all the same, after a pause, given in milliseconds.
    GiveUp { pause_ms: u64 },
}

/// What follows when `attempts` attempts to cancel everything were made, and the
/// last one was sent or not: three are made, with a tenth of a second after each
/// that was not.
pub fn cancel_all_step(attempts: u32, sent: bool) -> (r: CancelStep)
    ensures
        r == if sent {
            CancelStep::Done
        } else if attempts < 3 {
            CancelStep::Retry { pause_ms: 100 }
        } else {
            CancelStep::GiveUp { pause_ms: 100 }
        },
{
    if sent {
        CancelStep::Done
    } else if attempts < 3 {
        CancelStep::Retry { pause_ms: 100 }
    } else {
        CancelStep::GiveUp { pause_ms: 100 }
    }
}

/// The orders to cancel one by one after an attempt to cancel `ids` together:
/// all of them where it failed, else none.
pub fn after_cancel_batch(ids: &Vec<String>, failed: bool) -> (r: Vec<String>)
    ensures
        texts(r@) == if failed {
            texts(ids@)
        } else {
            seq![]
        },
{
    let mut out: Vec<String> = Vec::new();
    assert(texts(out@) =~= seq![]);
    if failed {
        let mut i: usize = 0;
        while i < ids.len()
            invariant
                i <= ids@.len(),
                out@.len() == i,
                forall|k: int| 0 <= k < i ==> (#[trigger] out@[k])@ == ids@[k]@,
            decreases ids@.len() - i,
        {
            out.push(ids[i].clone());
            i += 1;
        }
        assert(texts(out@) =~= texts(ids@));
    }
    out
}

/// Whether a market has too little time left to start a session in it.
pub fn too_close_to_expiry(secs_left: i64, rotate_before_close: i64) -> (r: bool)
    ensures
        r == (secs_left <= rotate_before_close + 30),
{
    secs_left as i128 <= rotate_before_close as i128 + 30
}

/// What follows the search for a market.
#[derive(Debug, Clone, Copy, PartialEq, Eq, Structural)]
pub enum MarketStep {
    /// None was found: search again after a pause.
    Retry { pause_secs: u64 },
    /// The market closes too soon: wait for the next one.
    Wait { pause_secs: u64 },
    /// Trade the market.
    Trade,
}

/// How long to pause between two sessions.
pub const SESSION_PAUSE_SECS: u64 = 2;

/// Decides what to do with the market that was found, which has `secs_left`
/// seconds left; without one where none was found.
pub fn market_step(secs_left: Option<i64>, rotate_before_close: i64) -> (r: MarketStep)
    ensures
        r == match secs_left {
            None => MarketStep::Retry { pause_secs: 10 },
            Some(s) if s <= rotate_before_close + 30 => MarketStep::Wait { pause_secs: 15 },
            Some(_) => MarketStep::Trade,
        },
{
    match secs_left {
        None => MarketStep::Retry { pause_secs: 10 },
        Some(s) => if too_close_to_expiry(s, rotate_before_close) {
            MarketStep::Wait { pause_secs: 15 }
        } else {
            MarketStep::Trade
        },
    }
}

/// What to do while trading is halted.
#[derive(Debug, Clone, Copy, PartialEq, Eq, Structural)]
pub enum HaltStep {
    /// Trading goes on.
    Resume,
    /// Place one order that brings the position down.
    WorkDown { side: Side, price: i64 },
    /// Cancel every order that is at work.
    CancelAll,
    /// Nothing.
    Stand,
}

/// What follows a batch of messages.
#[derive(Debug, Clone, Copy, PartialEq, Eq, Structural)]
pub enum Phase {
    /// There is no book yet.
    NotReady,
    /// Trading is halted; `first` where it was not after the last batch.
    Halted { first: bool, step: HaltStep },
    /// The engine is asked.
    Trade,
}

/// Actions in the order in which they are carried out.
#[derive(Debug)]
pub struct Plan {
    pub cancels: Vec<StrategyAction>,
    pub takers: Vec<StrategyAction>,
    pub makers: Vec<StrategyAction>,
}

/// Whether an action cancels.
pub open spec fn cancelling(a: ActionView) -> bool {
    a is CancelOrder || a is CancelAll
}

/// Whether an action takes.
pub open spec fn taking(a: ActionView) -> bool {
    a is TakeYes || a is TakeNo
}

/// Whether an action places an order.
pub open spec fn making(a: ActionView) -> bool {
    a is PlaceBid || a is PlaceAsk
}

impl Plan {
    /// Whether the plan holds the actions by their kinds, in the order in which
    /// they were given; those that place orders only without a cooldown.
    pub open spec fn sorts(&self, actions: Seq<ActionView>, cooldown: bool) -> bool {
        &&& views(self.cancels@) == actions.filter(|a: ActionView| cancelling(a))
        &&& views(self.takers@) == actions.filter(|a: ActionView| taking(a))
        &&& views(self.makers@) == if cooldown {
            Seq::<ActionView>::empty()
        } else {
            actions.filter(|a: ActionView| making(a))
        }
    }
}

/// Whether `r` is what a score over a window of a history is computed from.
pub open spec fn scored_from(
    r: Option<ScoreInputs>,
    history: Seq<(Timestamp, HalfCents)>,
    window: u64,
    now: Timestamp,
) -> bool {
    let w = recent(history, now, window as int);
    match r {
        Some(s) => {
            &&& w.len() >= 10
            &&& 2 * now.since(w[0].0) >= window
            &&& s.count == w.len()
            &&& s.sum == price_sum(w)
            &&& s.sum_of_squares == square_sum(w)
            &&& s.scored == w.last().1
        },
        None => w.len() < 10 || 2 * now.since(w[0].0) < window,
    }
}

/// The number of live orders to buy a side.
pub fn count_resting(tracker: &OrderTracker, ticker: &str, side: &str) -> (r: usize)
    ensures
        r == live_buys(tracker.orders@, ticker@, side@),
{
    count_resting_side(tracker, ticker, side)
}

/// The actions by their kinds.
fn sort_actions(actions: Vec<StrategyAction>) -> (r: Plan)
    ensures
        r.sorts(views(actions@), false),
{
    let ghost all = views(actions@);
    let ghost c = |a: ActionView| cancelling(a);
    let ghost t = |a: ActionView| taking(a);
    let ghost m = |a: ActionView| making(a);
    let mut rest = actions;
    let mut plan = Plan { cancels: Vec::new(), takers: Vec::new(), makers: Vec::new() };
    let ghost mut i: int = 0;
    proof {
        lemma_filter_ends(all, c);
        lemma_filter_ends(all, t);
        lemma_filter_ends(all, m);
        assert(views(plan.cancels@) =~= seq![]);
        assert(views(plan.takers@) =~= seq![]);
        assert(views(plan.makers@) =~= seq![]);
        assert(all.skip(0) =~= all);
    }
    while rest.len() > 0
        invariant
            0 <= i <= all.len(),
            c == |a: ActionView| cancelling(a),
            t == |a: ActionView| taking(a),
            m == |a: ActionView| making(a),
            views(rest@) == all.skip(i),
            views(plan.cancels@) == all.take(i).filter(c),
            views(plan.takers@) == all.take(i).filter(t),
            views(plan.makers@) == all.take(i).filter(m),
        decreases rest@.len(),
    {
        let ghost was = rest@;
        let action = rest.remove(0);
        let ghost before = plan;
        let ghost one = action;
        proof {
            assert(views(was)[0] == one@);
            assert(all.skip(i).len() == was.len());
            assert(all.skip(i)[0] == all[i]);
            lemma_filter_step(all, i, c);
            lemma_filter_step(all, i, t);
            lemma_filter_step(all, i, m);
            assert(views(rest@) =~= views(was).skip(1));
            assert(views(was).skip(1) =~= all.skip(i + 1));
        }
        match action {
            StrategyAction::CancelOrder { .. } | StrategyAction::CancelAll => {
                plan.cancels.push(action);
                assert(views(plan.cancels@) =~= views(before.cancels@).push(one@));
            },
            StrategyAction::TakeYes { .. } | StrategyAction::TakeNo { .. } => {
                plan.takers.push(action);
                assert(views(plan.takers@) =~= views(before.takers@).push(one@));
            },
            _ => {
                plan.makers.push(action);
                assert(views(plan.makers@) =~= views(before.makers@).push(one@));
            },
        }
        proof {
            i = i + 1;
        }
    }
    proof {
        assert(views(rest@).len() == 0);
        lemma_filter_ends(all, c);
        lemma_filter_ends(all, t);
        lemma_filter_ends(all, m);
    }
    plan
}

/// Twice a time, as far as times go.
pub open spec fn twice(nanos: u64) -> int {
    if 2 * nanos <= u64::MAX {
        2 * nanos
    } else {
        u64::MAX as int
    }
}

fn doubled(nanos: u64) -> (r: u64)
    ensures
        r == twice(nanos),
        2 * nanos <= u64::MAX ==> r == 2 * nanos,
        2 * nanos > u64::MAX ==> r == u64::MAX,
{
    if nanos <= u64::MAX / 2 {
        2 * nanos
    } else {
        u64::MAX
    }
}

} // verus!
