//! What a session does with its messages, its orders and its position, told by
//! the book, the accounts and the orders themselves.

use vstd::prelude::*;

use crate::engine_laws::{law_none_counted, priced, some_bid_for};
use crate::execution::PlaceOrderResponse;
use crate::market_data::{
    drop_stale, price_sum, recent, snapshot_fits, square_sum, HalfCents, ScoreInputs, Side,
};
use crate::risk::{
    law_one_contract, law_ordinary_fills_fit, lemma_leg_sum_range, min, Ledger, RiskState,
};
use crate::session::{
    cancelling, is_new_order, lemma_words_differ, making, name_of, scored_from, taking, HaltStep,
    MessageStep, Phase, Plan, Session, Task, TaskView,
};
use crate::signal::{live_buys, views, ActionView};
use crate::text::{begins_with, occurs_in};
use crate::time::Timestamp;
use crate::tracker::{
    lemma_slot, lemma_slot_meaning, lemma_without_keeps, lemma_working_ids, put, slot, without,
    works_in, OrderEntry, OrderStatus, TrackedOrder,
};
use crate::ws::WsMessage;

verus! {

/// Whether nothing but the book, how fresh it is and the state of the stream
/// differs.
pub open spec fn same_but_book(after: Session, before: Session) -> bool {
    &&& after.ticker == before.ticker
    &&& after.tracker == before.tracker
    &&& after.engine == before.engine
    &&& after.risk.inventory == before.risk.inventory
    &&& after.risk.ledger() == before.risk.ledger()
    &&& after.total_taker_fees_cents == before.total_taker_fees_cents
    &&& after.last_place_at == before.last_place_at
    &&& after.price_history_15 == before.price_history_15
    &&& after.price_history_60 == before.price_history_60
}

/// A change of the market's book with the next number changes the quantity at its
/// price and side by as much as it says, to none at the least, and nothing else;
/// the book is fresh with it.
#[verifier::spinoff_prover]
#[verifier::rlimit(50)]
pub proof fn law_change_heard(
    before: Session,
    after: Session,
    msg: WsMessage,
    fee: i64,
    emergency: bool,
    now: Timestamp,
    step: MessageStep,
)
    requires
        after.heard(before, msg, fee, emergency, now, step),
        msg matches WsMessage::OrderbookDelta { market_ticker, seq, .. } && market_ticker@
            == before.ticker@ && seq == before.book.seq + 1,
        step != MessageStep::OutOfRange,
    ensures
        step == MessageStep::BookChanged,
        msg matches WsMessage::OrderbookDelta { side, price, delta, seq, .. } ==> {
            let was = if side == Side::Yes {
                before.book.yes_bids
            } else {
                before.book.no_bids
            };
            let is = if side == Side::Yes {
                after.book.yes_bids
            } else {
                after.book.no_bids
            };
            &&& side == Side::Yes ==> after.book.no_bids == before.book.no_bids
            &&& side == Side::No ==> after.book.yes_bids == before.book.yes_bids
            &&& after.book.seq == seq && after.book.last_update == now
            &&& after.risk.last_book_update == now
            &&& price < 1 || price > 99 ==> is == was
            &&& 1 <= price <= 99 ==> {
                let q = was.quantities@[price as int];
                &&& q + delta >= 0 ==> is.quantities@[price as int] == q + delta
                &&& q + delta < 0 ==> is.quantities@[price as int] == 0
                &&& is.total_qty - was.total_qty == is.quantities@[price as int] - q
            }
            &&& forall|p: int|
                0 <= p < 100 && p != price ==> #[trigger] is.quantities@[p] == was.quantities@[p]
        },
        after.book.initialized == before.book.initialized,
        same_but_book(after, before),
{
}

/// A change that can be computed is not turned away, and one with another number
/// is a gap: trading halts and the book stays.
#[verifier::spinoff_prover]
#[verifier::rlimit(50)]
pub proof fn law_change_taken(
    before: Session,
    after: Session,
    msg: WsMessage,
    fee: i64,
    emergency: bool,
    now: Timestamp,
    step: MessageStep,
)
    requires
        after.heard(before, msg, fee, emergency, now, step),
        msg matches WsMessage::OrderbookDelta { market_ticker, .. } && market_ticker@
            == before.ticker@,
        before.book.seq < u64::MAX,
    ensures
        msg matches WsMessage::OrderbookDelta { seq, .. } && seq != before.book.seq + 1 ==> step
            == MessageStep::SequenceGap && after.book == before.book && after.risk.state
            == RiskState::Halted,
        msg matches WsMessage::OrderbookDelta { seq, side, price, delta, .. } && seq
            == before.book.seq + 1 && ({
            let s = if side == Side::Yes {
                before.book.yes_bids
            } else {
                before.book.no_bids
            };
            &&& 1 <= price <= 99 ==> {
                &&& 0 <= s.quantities@[price as int] <= 1_000_000_000_000_000_000
                &&& 0 <= s.total_qty <= 1_000_000_000_000_000_000
                &&& -1_000_000_000_000_000_000 <= delta <= 1_000_000_000_000_000_000
            }
        }) ==> step == MessageStep::BookChanged,
{
}

/// What a message says of another market changes nothing here.
#[verifier::spinoff_prover]
#[verifier::rlimit(50)]
pub proof fn law_other_markets_ignored(
    before: Session,
    after: Session,
    msg: WsMessage,
    fee: i64,
    emergency: bool,
    now: Timestamp,
    step: MessageStep,
)
    requires
        after.heard(before, msg, fee, emergency, now, step),
        ({
            ||| msg matches WsMessage::OrderbookDelta { market_ticker, .. } && market_ticker@
                != before.ticker@
            ||| msg matches WsMessage::OrderbookSnapshot { market_ticker, .. } && market_ticker@
                != before.ticker@
            ||| msg is Ticker
            ||| msg is Trade
            ||| msg is Subscribed
            ||| msg is Unknown
        }),
    ensures
        step == MessageStep::Quiet,
        after.book == before.book,
        after.risk.state == before.risk.state,
        after.risk.last_book_update == before.risk.last_book_update,
        same_but_book(after, before),
{
}

/// A snapshot of the market's book makes it the book: each price has the quantity
/// named last for it, prices that are not named have none, and changes go on from
/// its number.
#[verifier::spinoff_prover]
#[verifier::rlimit(50)]
pub proof fn law_snapshot_heard(
    before: Session,
    after: Session,
    msg: WsMessage,
    fee: i64,
    emergency: bool,
    now: Timestamp,
    step: MessageStep,
)
    requires
        after.heard(before, msg, fee, emergency, now, step),
        msg matches WsMessage::OrderbookSnapshot { market_ticker, yes_levels, no_levels, .. }
            && market_ticker@ == before.ticker@ && snapshot_fits(yes_levels@) && snapshot_fits(
            no_levels@,
        ),
    ensures
        step == MessageStep::BookChanged,
        after.book.initialized,
        after.book.last_update == now,
        after.risk.last_book_update == now,
        same_but_book(after, before),
        msg matches WsMessage::OrderbookSnapshot { yes_levels, no_levels, seq, .. } ==> {
            &&& after.book.seq == seq
            &&& after.book.yes_bids.is_snapshot(yes_levels@)
            &&& after.book.no_bids.is_snapshot(no_levels@)
        },
{
}

/// A fill moves the position to where the exchange says it is and is booked: with
/// a fee where it was a taker's, and one contract as the pair or the open contract
/// that it makes. Reaching the hard cap halts trading and raises the alarm, once
/// in a batch.
#[verifier::spinoff_prover]
#[verifier::rlimit(50)]
pub proof fn law_fill_heard(
    before: Session,
    after: Session,
    msg: WsMessage,
    fee: i64,
    emergency: bool,
    now: Timestamp,
    step: MessageStep,
)
    requires
        after.heard(before, msg, fee, emergency, now, step),
        msg is Fill,
        step != MessageStep::OutOfRange,
    ensures
        msg matches WsMessage::Fill {
            side,
            yes_price,
            count,
            is_taker,
            post_position,
            ..
        } ==> {
            let paid = if is_taker {
                fee as int
            } else {
                0
            };
            let breach = (post_position >= before.risk.hard_inventory_cap || -post_position
                >= before.risk.hard_inventory_cap) && !emergency;
            let b = before.risk;
            let a = after.risk;
            &&& a.inventory == post_position
            &&& after.total_taker_fees_cents == before.total_taker_fees_cents + paid
            &&& step == MessageStep::Emergency <==> breach
            &&& step == MessageStep::Quiet <==> !breach
            &&& breach ==> a.state == RiskState::Halted
            &&& !breach ==> a.state == b.state
            &&& a.daily_pnl_cents + paid - b.daily_pnl_cents == a.realized_pair_profit_cents
                - b.realized_pair_profit_cents
            &&& count == 1 && side@ == "yes"@ && b.open_no_legs@.len() > 0 ==> {
                &&& a.realized_pair_profit_cents - b.realized_pair_profit_cents
                    == b.open_no_legs@[0] - yes_price
                &&& a.pairs_completed == b.pairs_completed + 1
                &&& a.open_no_legs@ == b.open_no_legs@.drop_first()
                &&& a.open_yes_legs@ == b.open_yes_legs@
            }
            &&& count == 1 && side@ == "yes"@ && b.open_no_legs@.len() == 0 ==> {
                &&& a.realized_pair_profit_cents == b.realized_pair_profit_cents
                &&& a.open_yes_legs@ == b.open_yes_legs@.push(yes_price)
                &&& a.open_no_legs@ == b.open_no_legs@
            }
            &&& count == 1 && side@ != "yes"@ && b.open_yes_legs@.len() > 0 ==> {
                &&& a.realized_pair_profit_cents - b.realized_pair_profit_cents == yes_price
                    - b.open_yes_legs@[0]
                &&& a.pairs_completed == b.pairs_completed + 1
                &&& a.open_yes_legs@ == b.open_yes_legs@.drop_first()
                &&& a.open_no_legs@ == b.open_no_legs@
            }
            &&& count == 1 && side@ != "yes"@ && b.open_yes_legs@.len() == 0 ==> {
                &&& a.realized_pair_profit_cents == b.realized_pair_profit_cents
                &&& a.open_no_legs@ == b.open_no_legs@.push(yes_price)
                &&& a.open_yes_legs@ == b.open_yes_legs@
            }
        },
        after.book == before.book,
        after.engine == before.engine,
{
    let c = before.connected();
    assert(c.risk.ledger() == before.risk.ledger());
    if let WsMessage::Fill { side, yes_price, count, .. } = msg {
        let l = c.risk.ledger();
        law_one_contract(l, side@ == "yes"@, yes_price);
        let d = after.risk.ledger();
        assert(d.realized == after.risk.realized_pair_profit_cents);
        assert(d.daily == after.risk.daily_pnl_cents);
        assert(d.pairs == after.risk.pairs_completed);
        assert(d.yes_legs == after.risk.open_yes_legs@);
        assert(d.no_legs == after.risk.open_no_legs@);
    }
}

/// A fill takes its contracts off the order that was filled, which is over once
/// none are left, and leaves other orders as they are.
#[verifier::spinoff_prover]
#[verifier::rlimit(50)]
pub proof fn law_fill_on_order(
    before: Session,
    after: Session,
    msg: WsMessage,
    fee: i64,
    emergency: bool,
    now: Timestamp,
    step: MessageStep,
    k: int,
)
    requires
        before.tracker.wf(),
        after.heard(before, msg, fee, emergency, now, step),
        msg is Fill,
        step != MessageStep::OutOfRange,
        0 <= k < before.tracker.orders@.len(),
    ensures
        after.tracker.orders@.len() == before.tracker.orders@.len(),
        msg matches WsMessage::Fill { order_id, count, .. } ==> {
            let was = before.tracker.orders@[k].order;
            let is = after.tracker.orders@[k].order;
            if was.order_id@ == order_id@ {
                &&& is.remaining == was.remaining - count
                &&& was.remaining - count <= 0 ==> is.status == OrderStatus::Executed
                &&& was.remaining - count > 0 ==> is.status == was.status
                &&& is.price_cents == was.price_cents && is.count == was.count && is.order_id
                    == was.order_id && is.side == was.side && is.ticker == was.ticker
            } else {
                after.tracker.orders@[k] == before.tracker.orders@[k]
            }
        },
{
    if let WsMessage::Fill { order_id, .. } = msg {
        let all = before.tracker.orders@;
        lemma_slot_meaning(all, order_id@);
        assert(after.tracker.orders@ == after.tracker@.orders);
        if all[k].order.order_id@ == order_id@ {
            assert(all[k].id@ == order_id@);
            let i = slot(all, order_id@);
            if i < k {
                assert(all[i].id@ != all[k].id@);
            } else if i > k {
                assert(all[k].id@ != order_id@);
            }
        }
    }
}

/// Fills as they come are booked: up to a dollar, up to a trillion contracts.
#[verifier::spinoff_prover]
#[verifier::rlimit(50)]
pub proof fn law_ordinary_fill_taken(
    before: Session,
    after: Session,
    msg: WsMessage,
    fee: i64,
    emergency: bool,
    now: Timestamp,
    step: MessageStep,
)
    requires
        after.heard(before, msg, fee, emergency, now, step),
        msg matches WsMessage::Fill { yes_price, count, .. } && 0 <= yes_price <= 100 && 0 <= count
            <= 1_000_000,
        0 <= fee <= 1_000_000_000,
        before.tracker.wf(),
        forall|k: int|
            0 <= k < before.tracker.orders@.len() ==> 0 <= (
            #[trigger] before.tracker.orders@[k]).order.remaining,
        -1_000_000_000_000_000 <= before.risk.daily_pnl_cents <= 1_000_000_000_000_000,
        -1_000_000_000_000_000 <= before.risk.realized_pair_profit_cents <= 1_000_000_000_000_000,
        -1_000_000_000_000_000 <= before.risk.open_leg_cost_cents <= 1_000_000_000_000_000,
        -1_000_000_000_000_000 <= before.total_taker_fees_cents <= 1_000_000_000_000_000,
        before.risk.pairs_completed <= 1_000_000_000_000_000,
        forall|i: int|
            0 <= i < before.risk.open_yes_legs@.len() ==> 0 <= (
            #[trigger] before.risk.open_yes_legs@[i]) <= 100,
        forall|i: int|
            0 <= i < before.risk.open_no_legs@.len() ==> 0 <= (
            #[trigger] before.risk.open_no_legs@[i]) <= 100,
    ensures
        step == MessageStep::Quiet || step == MessageStep::Emergency,
{
    let c = before.connected();
    if let WsMessage::Fill { order_id, side, yes_price, count, .. } = msg {
        let l = c.risk.ledger();
        let yes = side@ == "yes"@;
        law_ordinary_fills_fit(l, yes, yes_price, count as int);
        if count > 0 {
            assert(l.unit_fits(yes, yes_price as int, count - 1));
            lemma_daily_range(l, yes, yes_price, count as int);
        }
        lemma_slot_meaning(c.tracker.orders@, order_id@);
    }
}

proof fn lemma_daily_range(l: Ledger, yes: bool, price: i64, n: int)
    requires
        0 <= price <= 100,
        0 <= n <= 1_000_000,
        -1_000_000_000_000_000 <= l.daily <= 1_000_000_000_000_000,
        forall|i: int| 0 <= i < l.yes_legs.len() ==> 0 <= (#[trigger] l.yes_legs[i]) <= 100,
        forall|i: int| 0 <= i < l.no_legs.len() ==> 0 <= (#[trigger] l.no_legs[i]) <= 100,
    ensures
        -2_000_000_000_000_000 <= l.buy(yes, price as int, n).daily <= 2_000_000_000_000_000,
{
    if n > 0 {
        let legs = if yes {
            l.no_legs
        } else {
            l.yes_legs
        };
        let m = min(n, legs.len() as int);
        lemma_leg_sum_range(legs, m);
        let p = price as int;
        assert(0 <= m * p <= 100 * m) by (nonlinear_arith)
            requires
                0 <= p <= 100,
                0 <= m,
        ;
    }
}

/// What the exchange tells of an order is noted: one that rests rests, one that is
/// cancelled or executed is forgotten, any other word changes nothing; and other
/// orders stay as they are.
#[verifier::spinoff_prover]
#[verifier::rlimit(50)]
pub proof fn law_order_told(
    before: Session,
    after: Session,
    msg: WsMessage,
    fee: i64,
    emergency: bool,
    now: Timestamp,
    step: MessageStep,
    e: OrderEntry,
)
    requires
        before.tracker.wf(),
        after.heard(before, msg, fee, emergency, now, step),
        msg is UserOrder,
    ensures
        step == MessageStep::Quiet,
        after.book == before.book,
        after.risk.inventory == before.risk.inventory,
        msg matches WsMessage::UserOrder { order_id, status, .. } ==> {
            &&& e.id@ != order_id@ ==> (after.tracker.orders@.contains(e)
                <==> before.tracker.orders@.contains(e))
            &&& status@ == "canceled"@ || status@ == "executed"@ ==> {
                e.id@ == order_id@ ==> !after.tracker.orders@.contains(e)
            }
            &&& status@ == "resting"@ && e.id@ == order_id@ && before.tracker.orders@.contains(e)
                ==> after.tracker.orders@.contains(
                OrderEntry {
                    id: e.id,
                    order: TrackedOrder { status: OrderStatus::Resting, ..e.order },
                },
            )
            &&& status@ != "resting"@ && status@ != "canceled"@ && status@ != "executed"@
                ==> after.tracker@ == before.tracker@
        },
{
    lemma_words_differ();
    if let WsMessage::UserOrder { order_id, status, .. } = msg {
        let all = before.tracker.orders@;
        let id = order_id@;
        lemma_slot_meaning(all, id);
        let i = slot(all, id);
        let mark = if status@ == "resting"@ {
            OrderStatus::Resting
        } else if status@ == "canceled"@ {
            OrderStatus::Canceled
        } else {
            OrderStatus::Executed
        };
        let marked = before.tracker@.with_status(id, mark).orders;
        assert forall|x: OrderEntry| x.id@ != id implies (#[trigger] marked.contains(x)
            <==> all.contains(x)) by {
            if all.contains(x) {
                let k = all.index_of(x);
                assert(marked[k] == x);
            }
            if marked.contains(x) {
                let k = marked.index_of(x);
                assert(all[k] == x);
            }
        }
        assert(after.tracker.orders@ == after.tracker@.orders);
        if status@ == "canceled"@ || status@ == "executed"@ {
            assert forall|a: int, b: int| 0 <= a < b < marked.len() implies (
            #[trigger] marked[a]).id@ != (#[trigger] marked[b]).id@ by {
                assert(all[a].id@ != all[b].id@);
            }
            lemma_without_keeps(marked, id);
            lemma_slot(marked, id, i);
            assert(after.tracker.orders@ == without(marked, id));
            assert(without(marked, id).contains(e) <==> marked.contains(e) && e.id@
                != id);
        }
        if status@ == "resting"@ && e.id@ == id && all.contains(e) {
            let k = all.index_of(e);
            if i < k {
                assert(all[i].id@ != all[k].id@);
            } else if i > k {
                assert(all[k].id@ != id);
            }
            assert(marked[i] == OrderEntry {
                id: e.id,
                order: TrackedOrder { status: OrderStatus::Resting, ..e.order },
            });
        }
    }
}

/// An error that says that the stream is broken halts trading until there is a
/// book again; any other error changes nothing.
#[verifier::spinoff_prover]
#[verifier::rlimit(50)]
pub proof fn law_error_heard(
    before: Session,
    after: Session,
    msg: WsMessage,
    fee: i64,
    emergency: bool,
    now: Timestamp,
    step: MessageStep,
)
    requires
        after.heard(before, msg, fee, emergency, now, step),
        msg is Error,
    ensures
        msg matches WsMessage::Error { message, .. } && begins_with(message@, "WS disconnect"@)
            ==> {
            &&& step == MessageStep::Disconnected
            &&& !after.ws_connected && !after.risk.ws_connected
            &&& after.risk.state == RiskState::Halted
            &&& !after.book.initialized
        },
        msg matches WsMessage::Error { message, .. } && !begins_with(message@, "WS disconnect"@)
            ==> {
            &&& step == MessageStep::Quiet
            &&& after.ws_connected
            &&& after.risk.state == before.risk.state
            &&& after.book == before.book
        },
        same_but_book(after, before),
{
}

/// While trading is halted and not yet to go on, and there are a stream, a fresh
/// book and time, a position is worked down: no is bid for against a long one and
/// yes against a short one, at the best bid of that side, unless an order of that
/// side is in the market or that bid would meet the other.
pub proof fn law_position_worked_down(session: Session, time_to_expiry: i64, now: Timestamp)
    requires
        session.wf(),
        time_to_expiry >= session.engine.cfg_no_trade_before_close,
        session.risk.ws_connected,
        now.since(session.risk.last_book_update) < session.risk.max_book_staleness,
        session.halt_step(time_to_expiry, now) != HaltStep::Resume,
    ensures
        ({
            let yes = session.book.yes_bids.best_bid;
            let no = session.book.no_bids.best_bid;
            let orders = session.tracker.orders@;
            let step = session.halt_step(time_to_expiry, now);
            &&& session.risk.inventory > 0 && !some_bid_for(orders, session.ticker@, "no"@) && no
                > 0 && yes + no < 100 ==> step == (HaltStep::WorkDown { side: Side::No, price: no })
            &&& session.risk.inventory < 0 && !some_bid_for(orders, session.ticker@, "yes"@) && yes
                > 0 && no > 0 && yes + no < 100 ==> step == (HaltStep::WorkDown {
                side: Side::Yes,
                price: yes,
            })
            &&& session.risk.inventory == 0 ==> step == HaltStep::Stand
            &&& session.risk.inventory > 0 && some_bid_for(orders, session.ticker@, "no"@) ==> step
                == HaltStep::Stand
            &&& session.risk.inventory < 0 && some_bid_for(orders, session.ticker@, "yes"@) ==> step
                == HaltStep::Stand
            &&& yes + no >= 100 && yes > 0 && no > 0 ==> step == HaltStep::Stand
        }),
{
    law_none_counted(session.tracker.orders@, session.ticker@, "no"@);
    law_none_counted(session.tracker.orders@, session.ticker@, "yes"@);
}

/// A halt is lifted exactly where the position is within its soft cap, the stream
/// is up, the book is fresh, the loss of the day is below its cap and there is
/// time left; without a stream or a fresh book nothing else is done meanwhile.
pub proof fn law_halt_lifted(session: Session, time_to_expiry: i64, now: Timestamp)
    requires
        time_to_expiry >= session.engine.cfg_no_trade_before_close,
    ensures
        session.halt_step(time_to_expiry, now) == HaltStep::Resume <==> session.risk.inventory
            <= session.risk.max_inventory && -session.risk.inventory
            <= session.risk.max_inventory && session.risk.ws_connected && now.since(
            session.risk.last_book_update,
        ) < session.risk.max_book_staleness && session.risk.daily_pnl_cents
            > -session.risk.daily_loss_cap_cents,
        !session.risk.ws_connected || now.since(session.risk.last_book_update)
            >= session.risk.max_book_staleness ==> session.halt_step(time_to_expiry, now)
            == HaltStep::Stand,
{
}

/// After a batch trading goes on exactly where there is a book and nothing asks
/// for a halt: no cap is reached, the stream is up and the book is fresh.
#[verifier::spinoff_prover]
#[verifier::rlimit(50)]
pub proof fn law_phase(
    before: Session,
    after: Session,
    book_changed: bool,
    time_to_expiry: i64,
    now: Timestamp,
    phase: Phase,
)
    requires
        after.after_batch(&before, book_changed, time_to_expiry, now, phase),
    ensures
        phase == Phase::NotReady <==> !before.book.initialized,
        phase == Phase::Trade <==> before.book.initialized && before.risk.inventory
            < before.risk.hard_inventory_cap && -before.risk.inventory
            < before.risk.hard_inventory_cap && before.risk.daily_pnl_cents
            > -before.risk.daily_loss_cap_cents && before.risk.ws_connected && now.since(
            before.risk.last_book_update,
        ) <= before.risk.max_book_staleness,
        phase == Phase::Trade ==> after.risk.state == RiskState::Normal || after.risk.state
            == RiskState::Cautious,
        phase == Phase::Trade ==> !after.halt_logged,
        phase matches Phase::Halted { step, .. } ==> {
            &&& step == HaltStep::Resume ==> after.risk.state == RiskState::Normal
                && !after.halt_logged
            &&& step != HaltStep::Resume ==> after.risk.state == RiskState::Halted
                && after.halt_logged
        },
        phase matches Phase::Halted { first, step } ==> first == !before.halt_logged && step
            == before.halt_step(time_to_expiry, now),
        after.book == before.book,
        after.tracker == before.tracker,
        after.engine == before.engine,
        after.risk.inventory == before.risk.inventory,
        after.risk.ledger() == before.risk.ledger(),
{
}

/// The middle price of a book that has changed is noted last in both histories;
/// without a change, or without a middle, they stay as they are.
#[verifier::spinoff_prover]
#[verifier::rlimit(50)]
pub proof fn law_middle_noted(
    before: Session,
    after: Session,
    book_changed: bool,
    time_to_expiry: i64,
    now: Timestamp,
    phase: Phase,
)
    requires
        before.wf(),
        before.price_history_15.kept_for() >= 0,
        before.price_history_60.kept_for() >= 0,
        after.after_batch(&before, book_changed, time_to_expiry, now, phase),
    ensures
        book_changed && priced(before.book) ==> {
            let h = 100 + before.book.yes_bids.best_bid - before.book.no_bids.best_bid;
            &&& after.price_history_15@.len() > 0 && after.price_history_15@.last().0 == now
            &&& after.price_history_15@.last().1.halves == h
            &&& after.price_history_60@.len() > 0 && after.price_history_60@.last().0 == now
            &&& after.price_history_60@.last().1.halves == h
            &&& after.price_history_15@ == drop_stale(
                before.price_history_15@.push((now, HalfCents { halves: h as i64 })),
                now,
                before.price_history_15.kept_for(),
            )
            &&& after.price_history_60@ == drop_stale(
                before.price_history_60@.push((now, HalfCents { halves: h as i64 })),
                now,
                before.price_history_60.kept_for(),
            )
        },
        after.price_history_15.kept_for() == before.price_history_15.kept_for(),
        after.price_history_60.kept_for() == before.price_history_60.kept_for(),
        !book_changed || !priced(before.book) ==> after.price_history_15
            == before.price_history_15 && after.price_history_60 == before.price_history_60,
{
    let mid = HalfCents { halves: (before.book.bid() + before.book.ask()) as i64 };
    lemma_last_kept(before.price_history_15@, now, mid, before.price_history_15.kept_for());
    lemma_last_kept(before.price_history_60@, now, mid, before.price_history_60.kept_for());
}

proof fn lemma_last_kept(s: Seq<(Timestamp, HalfCents)>, now: Timestamp, mid: HalfCents, w: int)
    requires
        w >= 0,
    ensures
        drop_stale(s.push((now, mid)), now, w).len() > 0,
        drop_stale(s.push((now, mid)), now, w).last() == (now, mid),
    decreases s.len(),
{
    let all = s.push((now, mid));
    if now.since(all[0].0) > w {
        let t = s.subrange(1, s.len() as int);
        lemma_last_kept(t, now, mid, w);
        assert(all.subrange(1, all.len() as int) =~= t.push((now, mid)));
    }
}

/// What becomes of an action: an offer of yes is placed as a bid for no at what is
/// left of a dollar, what is taken is taken as it is, and an order is placed only
/// while fewer are in the market on its side than the ladder is long.
pub proof fn law_action_carried_out(session: Session, price: i64, count: i64, id: Seq<char>)
    requires
        1 <= price <= 99,
    ensures
        ({
            let yes_full = live_buys(session.tracker.orders@, session.ticker@, "yes"@)
                >= session.ladder_levels;
            let no_full = live_buys(session.tracker.orders@, session.ticker@, "no"@)
                >= session.ladder_levels;
            let p = price as int;
            let n = count as int;
            &&& session.task_for(ActionView::PlaceBid { price_cents: p, count: n }) == if yes_full {
                TaskView::Skip
            } else {
                TaskView::Place { side: Side::Yes, price, count }
            }
            &&& session.task_for(ActionView::PlaceAsk { price_cents: p, count: n }) == if no_full {
                TaskView::Skip
            } else {
                TaskView::Place { side: Side::No, price: (100 - price) as i64, count }
            }
            &&& session.task_for(ActionView::TakeYes { price: p, count: n }) == (TaskView::Take {
                side: Side::Yes,
                price,
                count,
            })
            &&& session.task_for(ActionView::TakeNo { price: p, count: n }) == (TaskView::Take {
                side: Side::No,
                price,
                count,
            })
            &&& session.task_for(ActionView::CancelOrder { order_id: id }) == (TaskView::Cancel {
                order_id: id,
            })
        }),
{
}

/// Cancelling everything cancels the orders at work in the market, all of them and
/// no others; there is nothing to do where none is.
pub proof fn law_everything_cancelled(session: Session, id: Seq<char>)
    ensures
        (exists|k: int|
            0 <= k < session.tracker.orders@.len() && at_work(
                (#[trigger] session.tracker.orders@[k]).order,
                session.ticker@,
            ) && session.tracker.orders@[k].order.order_id@ == id) <==> (session.task_for(
            ActionView::CancelAll,
        ) matches TaskView::CancelAll { ids } && ids.contains(id)),
        session.task_for(ActionView::CancelAll) is Skip || session.task_for(
            ActionView::CancelAll,
        ) is CancelAll,
{
    lemma_working_ids(&session.tracker, session.ticker@);
    let ids = session.tracker.working_ids(session.ticker@);
    assert forall|k: int| 0 <= k < session.tracker.orders@.len() implies at_work(
        (#[trigger] session.tracker.orders@[k]).order,
        session.ticker@,
    ) == works_in(session.tracker.orders@[k].order, session.ticker@) by {}
    assert(ids.contains(id) <==> exists|k: int|
        0 <= k < session.tracker.orders@.len() && (
        #[trigger] session.tracker.orders@[k]).order.order_id@ == id && works_in(
            session.tracker.orders@[k].order,
            session.ticker@,
        ));
}

/// Whether an order rests in a market, is on its way there or is being amended.
pub open spec fn at_work(o: TrackedOrder, ticker: Seq<char>) -> bool {
    o.ticker@ == ticker && (o.status == OrderStatus::Resting || o.status
        == OrderStatus::PendingNew || o.status == OrderStatus::PendingAmend)
}

/// An order that was placed is taken in as it was asked for, under the identifiers
/// of the reply; it ends the pause of its side and begins the one after a placed
/// order. One that was not changes no order, and one that would have crossed
/// pauses its side for half a second.
#[verifier::spinoff_prover]
#[verifier::rlimit(50)]
pub proof fn law_reply_taken_in(
    before: Session,
    after: Session,
    side: Side,
    price: i64,
    count: i64,
    reply: Result<PlaceOrderResponse, String>,
    now: Timestamp,
)
    requires
        after.answered(&before, side, price, count, reply, now),
        now.nanos + 500_000_000 <= u64::MAX,
    ensures
        reply matches Ok(resp) ==> {
            &&& after.last_place_at == Some(now)
            &&& side == Side::Yes ==> after.bid_cross_cooldown_until is None
                && after.ask_cross_cooldown_until == before.ask_cross_cooldown_until
            &&& side == Side::No ==> after.ask_cross_cooldown_until is None
                && after.bid_cross_cooldown_until == before.bid_cross_cooldown_until
            &&& exists|k: int|
                {
                    let o = (#[trigger] after.tracker.orders@[k]).order;
                    &&& 0 <= k < after.tracker.orders@.len()
                    &&& o.order_id == resp.order_id && o.client_order_id == resp.client_order_id
                    &&& o.ticker@ == before.ticker@ && o.action@ == "buy"@
                    &&& side == Side::Yes ==> o.side@ == "yes"@
                    &&& side == Side::No ==> o.side@ == "no"@
                    &&& o.price_cents == price && o.count == count && o.remaining == count
                    &&& o.status == OrderStatus::PendingNew && o.created_at == now
                }
        },
        reply matches Err(e) ==> {
            &&& after.tracker == before.tracker && after.last_place_at == before.last_place_at
            &&& occurs_in(e@, "Post-only cross"@) && side == Side::Yes ==> (
            after.bid_cross_cooldown_until matches Some(t) && t.nanos == now.nanos + 500_000_000)
            &&& occurs_in(e@, "Post-only cross"@) && side == Side::No ==> (
            after.ask_cross_cooldown_until matches Some(t) && t.nanos == now.nanos + 500_000_000)
            &&& !occurs_in(e@, "Post-only cross"@) ==> after.bid_cross_cooldown_until
                == before.bid_cross_cooldown_until && after.ask_cross_cooldown_until
                == before.ask_cross_cooldown_until
            &&& side == Side::Yes ==> after.ask_cross_cooldown_until
                == before.ask_cross_cooldown_until
            &&& side == Side::No ==> after.bid_cross_cooldown_until
                == before.bid_cross_cooldown_until
        },
        after.book == before.book,
        after.risk == before.risk,
        after.engine == before.engine,
{
    if let Ok(resp) = reply {
        let order = choose|order: TrackedOrder|
            {
                &&& #[trigger] is_new_order(order, resp, before.ticker@, side, price, count, now)
                &&& after.tracker.orders@ == put(before.tracker.orders@, order)
            };
        lemma_slot_meaning(before.tracker.orders@, order.order_id@);
        let k = slot(before.tracker.orders@, order.order_id@);
        assert(after.tracker.orders@[k].order == order);
    }
}

/// Half a second goes by after a placed order before another is placed, and no
/// more; an order that would have crossed pauses its own side alone.
pub proof fn law_pauses(session: Session, now: Timestamp, price: int, count: int)
    ensures
        session.cooling_down(now) <==> (session.last_place_at matches Some(t) && now.nanos
            < t.nanos + 500_000_000),
        session.cross_ok(ActionView::PlaceBid { price_cents: price, count }, now) <==> (
        session.bid_cross_cooldown_until matches Some(t) ==> now.nanos >= t.nanos),
        session.cross_ok(ActionView::PlaceAsk { price_cents: price, count }, now) <==> (
        session.ask_cross_cooldown_until matches Some(t) ==> now.nanos >= t.nanos),
{
}

/// What kind of action each is.
pub proof fn law_kinds(a: ActionView)
    ensures
        cancelling(a) <==> a is CancelOrder || a is CancelAll,
        taking(a) <==> a is TakeYes || a is TakeNo,
        making(a) <==> a is PlaceBid || a is PlaceAsk,
        name_of(Side::Yes) == "yes"@,
        name_of(Side::No) == "no"@,
{
}

/// A score is taken over the prices of its window: there are ten of them at least
/// and they go back half of it at least, and the latest is scored.
pub proof fn law_scored(
    r: Option<ScoreInputs>,
    history: Seq<(Timestamp, HalfCents)>,
    window: u64,
    now: Timestamp,
)
    requires
        scored_from(r, history, window, now),
    ensures
        ({
            let w = recent(history, now, window as int);
            &&& r is Some <==> w.len() >= 10 && 2 * now.since(w[0].0) >= window
            &&& r matches Some(s) ==> s.count == w.len() && s.sum == price_sum(w)
                && s.sum_of_squares == square_sum(w) && s.scored == w[w.len() - 1].1
        }),
{
}

/// Shortly before the close a halted session cancels what is at work, and stands
/// where nothing is.
pub proof fn law_halted_at_the_end(session: Session, time_to_expiry: i64, now: Timestamp, k: int)
    requires
        time_to_expiry < session.engine.cfg_no_trade_before_close,
    ensures
        0 <= k < session.tracker.orders@.len() && at_work(
            session.tracker.orders@[k].order,
            session.ticker@,
        ) ==> session.halt_step(time_to_expiry, now) == HaltStep::CancelAll,
        session.halt_step(time_to_expiry, now) == HaltStep::CancelAll || session.halt_step(
            time_to_expiry,
            now,
        ) == HaltStep::Stand,
        session.halt_step(time_to_expiry, now) == HaltStep::CancelAll ==> exists|j: int|
            0 <= j < session.tracker.orders@.len() && at_work(
                (#[trigger] session.tracker.orders@[j]).order,
                session.ticker@,
            ),
{
    lemma_working_ids(&session.tracker, session.ticker@);
    let ids = session.tracker.working_ids(session.ticker@);
    if 0 <= k < session.tracker.orders@.len() && at_work(
        session.tracker.orders@[k].order,
        session.ticker@,
    ) {
        assert(works_in(session.tracker.orders@[k].order, session.ticker@));
        assert(ids.contains(session.tracker.orders@[k].order.order_id@));
    }
    if ids.len() > 0 {
        assert(ids.contains(ids[0]));
        let j = choose|j: int|
            0 <= j < session.tracker.orders@.len() && (
            #[trigger] session.tracker.orders@[j]).order.order_id@ == ids[0] && works_in(
                session.tracker.orders@[j].order,
                session.ticker@,
            );
        assert(at_work(session.tracker.orders@[j].order, session.ticker@));
    }
}

/// The first message after a break shows that the stream is up, unless it tells of
/// the next break.
#[verifier::spinoff_prover]
#[verifier::rlimit(50)]
pub proof fn law_stream_up(
    before: Session,
    after: Session,
    msg: WsMessage,
    fee: i64,
    emergency: bool,
    now: Timestamp,
    step: MessageStep,
)
    requires
        after.heard(before, msg, fee, emergency, now, step),
        step != MessageStep::Disconnected,
    ensures
        after.ws_connected,
        !before.ws_connected ==> after.risk.ws_connected,
        before.ws_connected ==> after.risk.ws_connected == before.risk.ws_connected,
{
}

/// A plan holds what cancels, what takes and what places apart, each action as
/// often as it was asked for and in its order; what places is left out in a pause.
pub proof fn law_plan_sorted(plan: Plan, actions: Seq<ActionView>, cooldown: bool, a: ActionView)
    requires
        plan.sorts(actions, cooldown),
    ensures
        a is CancelOrder || a is CancelAll ==> (views(plan.cancels@).contains(a)
            <==> actions.contains(a)),
        a is TakeYes || a is TakeNo ==> (views(plan.takers@).contains(a) <==> actions.contains(a)),
        (a is PlaceBid || a is PlaceAsk) && !cooldown ==> (views(plan.makers@).contains(a)
            <==> actions.contains(a)),
        cooldown ==> plan.makers@.len() == 0,
        views(plan.cancels@).contains(a) ==> a is CancelOrder || a is CancelAll,
        views(plan.takers@).contains(a) ==> a is TakeYes || a is TakeNo,
        views(plan.makers@).contains(a) ==> a is PlaceBid || a is PlaceAsk,
{
    lemma_sorted_out(actions, |x: ActionView| cancelling(x), a);
    lemma_sorted_out(actions, |x: ActionView| taking(x), a);
    lemma_sorted_out(actions, |x: ActionView| making(x), a);
    assert(views(plan.makers@).len() == plan.makers@.len());
}

proof fn lemma_sorted_out(actions: Seq<ActionView>, p: spec_fn(ActionView) -> bool, a: ActionView)
    ensures
        actions.filter(p).contains(a) <==> actions.contains(a) && p(a),
{
    if actions.filter(p).contains(a) {
        actions.lemma_filter_pred(p, actions.filter(p).index_of(a));
        actions.lemma_filter_contains_rev(p, a);
    }
    if actions.contains(a) && p(a) {
        actions.lemma_filter_contains(p, actions.index_of(a));
    }
}

/// A task is seen as what it is.
pub proof fn law_task_seen(side: Side, price: i64, count: i64, id: String)
    ensures
        (Task::Place { side, price, count })@ == (TaskView::Place { side, price, count }),
        (Task::Take { side, price, count })@ == (TaskView::Take { side, price, count }),
        (Task::Cancel { order_id: id })@ == (TaskView::Cancel { order_id: id@ }),
        Task::Skip@ == TaskView::Skip,
{
}

} // verus!
