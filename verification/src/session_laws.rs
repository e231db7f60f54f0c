//! What holds of every session.

use vstd::prelude::*;

use crate::double::Double;
use crate::execution::PlaceOrderResponse;
use crate::market_data::{law_delta_consistent, law_snapshot_consistent, proper_levels, Side};
use crate::risk::{abs, law_balance_kept, law_profit_booked_alike, RiskState};
use crate::session::{
    cancelling, is_new_order, making, name_of, taking, Batch, HaltStep, MessageStep, Phase, Plan, Session,
};
use crate::signal::{live_buys, live_in, views, ActionView};
use crate::signal_laws::law_stand_aside;
use crate::text::occurs_in;
use crate::time::{Timestamp, MILLISECOND};
use crate::tracker::{
    distinct_ids, known, lemma_slot_meaning, put, slot, works_in, OrderEntry, TrackedOrder,
    TrackerView,
};
use crate::ws::{disconnect_text, law_disconnect_recognized, WsMessage};

verus! {

/// Forgetting keeps identifiers distinct and leaves only other orders.
proof fn lemma_forget_all(v: TrackerView, ids: Seq<Seq<char>>)
    requires
        distinct_ids(v.orders),
    ensures
        distinct_ids(v.forget_all(ids).orders),
        forall|k: int|
            #![trigger v.forget_all(ids).orders[k]]
            0 <= k < v.forget_all(ids).orders.len() ==> v.orders.contains(
                v.forget_all(ids).orders[k],
            ) && !ids.contains(v.forget_all(ids).orders[k].id@),
    decreases ids.len(),
{
    let r = v.forget_all(ids);
    if ids.len() == 0 {
        assert forall|k: int| #![trigger r.orders[k]] 0 <= k < r.orders.len() implies
            v.orders.contains(r.orders[k]) && !ids.contains(r.orders[k].id@) by {}
    } else {
        let s = v.forget_all(ids.drop_last());
        let id = ids.last();
        lemma_forget_all(v, ids.drop_last());
        lemma_slot_meaning(s.orders, id);
        let i = slot(s.orders, id);
        assert forall|k: int| #![trigger r.orders[k]] 0 <= k < r.orders.len() implies
            v.orders.contains(r.orders[k]) && !ids.contains(r.orders[k].id@) by {
            let j = if known(s.orders, id) && k >= i {
                k + 1
            } else {
                k
            };
            assert(r.orders[k] == s.orders[j]);
            assert(s.orders[j].id@ != id);
            if ids.contains(s.orders[j].id@) {
                let n = ids.index_of(s.orders[j].id@);
                assert(ids.drop_last()[n] == s.orders[j].id@);
            }
        }
        assert forall|a: int, b: int| 0 <= a < b < r.orders.len() implies (
        #[trigger] r.orders[a]).id@ != (#[trigger] r.orders[b]).id@ by {
            let a2 = if known(s.orders, id) && a >= i {
                a + 1
            } else {
                a
            };
            let b2 = if known(s.orders, id) && b >= i {
                b + 1
            } else {
                b
            };
            assert(r.orders[a] == s.orders[a2] && r.orders[b] == s.orders[b2]);
        }
    }
}

/// Once everything is cancelled, no order of the market is at work any more.
pub proof fn law_cancel_all_clears(session: Session, after: TrackerView)
    requires
        session.tracker.wf(),
        after == session.tracker@.forget_all(session.tracker.working_ids(session.ticker@)),
    ensures
        forall|i: int|
            0 <= i < after.orders.len() ==> !works_in(
                (#[trigger] after.orders[i]).order,
                session.ticker@,
            ),
{
    let v = session.tracker@;
    let ids = session.tracker.working_ids(session.ticker@);
    lemma_forget_all(v, ids);
    let ticker = session.ticker@;
    assert forall|i: int| 0 <= i < after.orders.len() implies !works_in(
        (#[trigger] after.orders[i]).order,
        ticker,
    ) by {
        let e = after.orders[i];
        assert(v.orders.contains(e));
        let j = v.orders.index_of(e);
        assert(v.orders[j] == e);
        if works_in(e.order, ticker) {
            lemma_working_listed(session, j);
        }
    }
}

/// An order at work is listed among those at work.
proof fn lemma_working_listed(session: Session, j: int)
    requires
        0 <= j < session.tracker.orders@.len(),
        works_in(session.tracker.orders@[j].order, session.ticker@),
    ensures
        session.tracker.working_ids(session.ticker@).contains(
            session.tracker.orders@[j].order.order_id@,
        ),
{
    let ticker = session.ticker@;
    let all = session.tracker.orders@;
    let p = |e: OrderEntry| works_in(e.order, ticker);
    let f = |e: OrderEntry| e.order.order_id@;
    assert(session.tracker.working_ids(ticker) == all.filter(p).map_values(f));
    all.lemma_filter_contains(p, j);
    let k = all.filter(p).index_of(all[j]);
    assert(all.filter(p).map_values(f)[k] == all[j].order.order_id@);
}

/// Without a pause every action is carried out once: the plan holds as many as
/// there are.
pub proof fn law_plan_complete(plan: Plan, actions: Seq<ActionView>)
    requires
        plan.sorts(actions, false),
    ensures
        views(plan.cancels@).len() + views(plan.takers@).len() + views(plan.makers@).len()
            == actions.len(),
{
    lemma_partition(actions);
}

proof fn lemma_partition(actions: Seq<ActionView>)
    ensures
        actions.filter(|a: ActionView| cancelling(a)).len() + actions.filter(
            |a: ActionView| taking(a),
        ).len() + actions.filter(|a: ActionView| making(a)).len() == actions.len(),
    decreases actions.len(),
{
    reveal(Seq::filter);
    if actions.len() > 0 {
        lemma_partition(actions.drop_last());
    }
}

/// An order that works a position down makes it smaller: no is bought against
/// a long position and yes against a short one, at a price from 1 to 99 cents
/// that does not cross the book.
pub proof fn law_work_down_reduces(session: Session, time_to_expiry: i64, now: Timestamp)
    requires
        session.wf(),
    ensures
        session.halt_step(time_to_expiry, now) matches HaltStep::WorkDown { side, price } ==> {
            &&& 1 <= price <= 99
            &&& side == Side::No ==> session.risk.inventory > 0 && 100 - price
                > session.book.bid()
            &&& side == Side::Yes ==> session.risk.inventory < 0 && price < session.book.ask()
        },
{
}

/// Where nothing is to be traded before the close, nothing is: a halted session
/// places no order there, and every order at work is cancelled.
pub proof fn law_halted_before_close(session: Session, time_to_expiry: i64, now: Timestamp)
    requires
        time_to_expiry < session.engine.cfg_no_trade_before_close,
    ensures
        !(session.halt_step(time_to_expiry, now) is WorkDown),
        session.halt_step(time_to_expiry, now) == HaltStep::Stand ==> session.tracker.working_ids(
            session.ticker@,
        ).len() == 0,
{
}

/// A halt is lifted at once only where the position is at the hard cap and yet
/// within the soft one: every other cause of a halt is a reason not to lift it.
pub proof fn law_resume(session: Session, time_to_expiry: i64, now: Timestamp)
    requires
        session.risk.assessed(now) == RiskState::Halted,
        session.halt_step(time_to_expiry, now) == HaltStep::Resume,
    ensures
        session.risk.hard_inventory_cap <= abs(session.risk.inventory as int)
            <= session.risk.max_inventory,
{
}

/// A message that was taken in, with what it came with and what it asked for.
pub struct Told {
    pub msg: WsMessage,
    pub fee: i64,
    pub emergency: bool,
    pub now: Timestamp,
    pub step: MessageStep,
}

/// What the messages of a list asked for.
pub open spec fn steps(told: Seq<Told>) -> Seq<MessageStep> {
    told.map_values(|t: Told| t.step)
}

/// Whether one session follows the other by message `i` of a list.
pub open spec fn heard_nth(sessions: Seq<Session>, told: Seq<Told>, i: int) -> bool {
    let t = told[i];
    sessions[i + 1].heard(sessions[i], t.msg, t.fee, t.emergency, t.now, t.step)
}

/// Whether a session goes through these states as it takes in a list of messages.
pub open spec fn heard_all(sessions: Seq<Session>, told: Seq<Told>) -> bool {
    &&& sessions.len() == told.len() + 1
    &&& forall|i: int| 0 <= i < told.len() ==> #[trigger] heard_nth(sessions, told, i)
}

/// Whether a list of messages is taken in as one batch: each message comes with
/// what was noted of those before it.
pub open spec fn one_batch(told: Seq<Told>) -> bool {
    forall|i: int|
        0 <= i < told.len() ==> (#[trigger] told[i]).emergency == Batch::of(
            steps(told.take(i)),
        ).emergency
}

/// Whether a message is a snapshot of the book of a market.
pub open spec fn snapshot_of(msg: WsMessage, ticker: Seq<char>) -> bool {
    msg matches WsMessage::OrderbookSnapshot { market_ticker, .. } && market_ticker@ == ticker
}

/// Only a snapshot of the market's book makes a book out of none.
pub proof fn law_book_needs_snapshot(
    before: Session,
    after: Session,
    msg: WsMessage,
    fee: i64,
    emergency: bool,
    now: Timestamp,
    step: MessageStep,
)
    requires
        after.heard(before, msg, fee, emergency, now, step),
    ensures
        after.ticker@ == before.ticker@,
        !before.book.initialized && !snapshot_of(msg, before.ticker@) ==> !after.book.initialized,
{
}

proof fn lemma_no_book(sessions: Seq<Session>, told: Seq<Told>, k: int)
    requires
        heard_all(sessions, told),
        !sessions[0].book.initialized,
        forall|i: int|
            0 <= i < told.len() ==> !snapshot_of((#[trigger] told[i]).msg, sessions[0].ticker@),
        0 <= k <= told.len(),
    ensures
        !sessions[k].book.initialized,
        sessions[k].ticker@ == sessions[0].ticker@,
    decreases k,
{
    if k > 0 {
        lemma_no_book(sessions, told, k - 1);
        assert(heard_nth(sessions, told, k - 1));
        let t = told[k - 1];
        law_book_needs_snapshot(
            sessions[k - 1],
            sessions[k],
            t.msg,
            t.fee,
            t.emergency,
            t.now,
            t.step,
        );
    }
}

/// After a broken stream nothing is traded until a snapshot has come: trading is
/// halted, and however many messages follow, as long as none is a snapshot of
/// the market's book they lead to nothing.
pub proof fn law_silence_after_disconnect(
    before: Session,
    msg: WsMessage,
    fee: i64,
    emergency: bool,
    now: Timestamp,
    sessions: Seq<Session>,
    told: Seq<Told>,
    changed: bool,
    time_to_expiry: i64,
    later: Timestamp,
    last: Session,
    phase: Phase,
)
    requires
        heard_all(sessions, told),
        sessions[0].heard(before, msg, fee, emergency, now, MessageStep::Disconnected),
        forall|i: int|
            0 <= i < told.len() ==> !snapshot_of((#[trigger] told[i]).msg, sessions[0].ticker@),
        last.after_batch(&sessions.last(), changed, time_to_expiry, later, phase),
    ensures
        sessions[0].risk.state == RiskState::Halted,
        !sessions[0].risk.ws_connected,
        phase == Phase::NotReady,
        last == sessions.last(),
        !last.book.initialized,
{
    lemma_no_book(sessions, told, told.len() as int);
}

/// So shortly before the close that nothing is traded any more, the plan of a
/// session that trades is to cancel everything, whatever its book is like.
pub proof fn law_trading_stops(
    before: Session,
    after: Session,
    z15: Option<Double>,
    z60: Option<Double>,
    spread_ema: Double,
    time_to_expiry: i64,
    now: Timestamp,
    actions: Seq<ActionView>,
    cooldown: bool,
    plan: Plan,
)
    requires
        time_to_expiry < before.engine.cfg_no_trade_before_close,
        after.engine.ticked(
            &before.engine,
            &before.book,
            z15,
            z60,
            spread_ema,
            time_to_expiry,
            before.risk.inventory as int,
            before.tracker.orders@,
            before.ticker@,
            now,
            actions,
        ),
        plan.sorts(actions, cooldown),
    ensures
        views(plan.cancels@) == seq![ActionView::CancelAll],
        views(plan.takers@).len() == 0,
        views(plan.makers@).len() == 0,
{
    law_stand_aside(
        before.engine,
        after.engine,
        before.book,
        z15,
        z60,
        spread_ema,
        time_to_expiry,
        before.risk.inventory as int,
        before.tracker.orders@,
        before.ticker@,
        now,
        actions,
    );
    reveal(Seq::filter);
    assert(actions.drop_last() =~= seq![]);
    assert(actions.filter(|a: ActionView| cancelling(a)) =~= seq![ActionView::CancelAll]);
}

/// A lost message is noticed: a change of the book is taken in only with the
/// number after the last one, and any other number halts trading.
pub proof fn law_no_gap_passes(
    before: Session,
    after: Session,
    msg: WsMessage,
    fee: i64,
    emergency: bool,
    now: Timestamp,
    step: MessageStep,
)
    requires
        after.heard(before, msg, fee, emergency, now, step),
        msg is OrderbookDelta,
    ensures
        step == MessageStep::BookChanged ==> after.book.seq == before.book.seq + 1,
        step == MessageStep::SequenceGap ==> after.risk.state == RiskState::Halted && after.book
            == before.book,
        step != MessageStep::BookChanged ==> after.book == before.book,
{
}

/// Noting what one message after the other has asked for tells what they have
/// asked for all together.
pub proof fn law_batch_noted(steps: Seq<MessageStep>, step: MessageStep)
    ensures
        Batch::of(steps.push(step)) == Batch::of(steps).noted(step),
{
    let all = steps.push(step);
    assert forall|s: MessageStep| #[trigger] all.contains(s) == (steps.contains(s) || s == step) by {
        if steps.contains(s) {
            let k = steps.index_of(s);
            assert(all[k] == s);
        }
        if s == step {
            assert(all[steps.len() as int] == s);
        }
        if all.contains(s) {
            let k = all.index_of(s);
            assert(k < steps.len() ==> steps[k] == s);
        }
    }
}

/// Within a batch the hard cap raises one alarm: once it was raised, no message
/// raises it again.
pub proof fn law_one_alarm(sessions: Seq<Session>, told: Seq<Told>, i: int, j: int)
    requires
        heard_all(sessions, told),
        one_batch(told),
        0 <= i < j < told.len(),
        told[i].step == MessageStep::Emergency,
    ensures
        told[j].step != MessageStep::Emergency,
{
    assert(heard_nth(sessions, told, j));
    assert(steps(told.take(j))[i] == MessageStep::Emergency);
}

/// An alarm means a position at the hard cap or beyond, and a halt.
pub proof fn law_alarm_halts(
    before: Session,
    after: Session,
    msg: WsMessage,
    fee: i64,
    emergency: bool,
    now: Timestamp,
)
    requires
        after.heard(before, msg, fee, emergency, now, MessageStep::Emergency),
    ensures
        abs(after.risk.inventory as int) >= after.risk.hard_inventory_cap,
        after.risk.state == RiskState::Halted,
{
}

/// The profit of the day is accounted for: whatever message comes, it changes
/// by what pairs earn and by the fees that takers pay, and by nothing else.
pub proof fn law_profit_accounted(
    before: Session,
    after: Session,
    msg: WsMessage,
    fee: i64,
    emergency: bool,
    now: Timestamp,
    step: MessageStep,
)
    requires
        after.heard(before, msg, fee, emergency, now, step),
    ensures
        after.risk.daily_pnl_cents - after.risk.realized_pair_profit_cents
            + after.total_taker_fees_cents == before.risk.daily_pnl_cents
            - before.risk.realized_pair_profit_cents + before.total_taker_fees_cents,
{
    if let WsMessage::Fill { order_id, side, yes_price, count, .. } = msg {
        let c = before.connected();
        law_profit_booked_alike(c.risk.ledger(), side@ == "yes"@, yes_price, count as int);
        assert(after.risk.ledger().daily == after.risk.daily_pnl_cents);
        assert(after.risk.ledger().realized == after.risk.realized_pair_profit_cents);
    }
}

/// Whatever message comes, the accounts stay balanced.
pub proof fn law_accounts_balanced(
    before: Session,
    after: Session,
    msg: WsMessage,
    fee: i64,
    emergency: bool,
    now: Timestamp,
    step: MessageStep,
)
    requires
        after.heard(before, msg, fee, emergency, now, step),
        before.risk.ledger().balanced(),
    ensures
        after.risk.ledger().balanced(),
{
    let c = before.connected();
    assert(c.risk.ledger() == before.risk.ledger());
    if let WsMessage::Fill { order_id, side, yes_price, count, .. } = msg {
        law_balance_kept(c.risk.ledger(), side@ == "yes"@, yes_price, count as int);
    } else {
        assert(after.risk.ledger() == before.risk.ledger());
    }
}

/// Whether a message is a snapshot that names no tradable price twice or with a
/// negative quantity, or no snapshot at all.
pub open spec fn proper(msg: WsMessage) -> bool {
    msg matches WsMessage::OrderbookSnapshot { market_ticker, yes_levels, no_levels, seq }
        ==> proper_levels(yes_levels@) && proper_levels(no_levels@)
}

/// As long as snapshots are proper, the marks, quantities and totals of the book agree.
pub proof fn law_book_consistent(
    before: Session,
    after: Session,
    msg: WsMessage,
    fee: i64,
    emergency: bool,
    now: Timestamp,
    step: MessageStep,
)
    requires
        after.heard(before, msg, fee, emergency, now, step),
        before.book.consistent(),
        proper(msg),
    ensures
        after.book.consistent(),
{
    let c = before.connected();
    match msg {
        WsMessage::OrderbookSnapshot { yes_levels, no_levels, .. } => {
            if step == MessageStep::BookChanged {
                law_snapshot_consistent(after.book.yes_bids, yes_levels@);
                law_snapshot_consistent(after.book.no_bids, no_levels@);
            }
        },
        WsMessage::OrderbookDelta { side, price, delta, .. } => {
            if step == MessageStep::BookChanged {
                match side {
                    Side::Yes => law_delta_consistent(
                        c.book.yes_bids,
                        after.book.yes_bids,
                        price,
                        delta,
                    ),
                    Side::No => law_delta_consistent(
                        c.book.no_bids,
                        after.book.no_bids,
                        price,
                        delta,
                    ),
                }
            }
        },
        _ => {},
    }
}

/// What the stream tells of its end is heard as that.
pub proof fn law_broken_stream_heard(
    before: Session,
    after: Session,
    message: String,
    error: Seq<char>,
    fee: i64,
    emergency: bool,
    now: Timestamp,
    step: MessageStep,
)
    requires
        message@ == disconnect_text(error),
        after.heard(
            before,
            WsMessage::Error { code: 0, message },
            fee,
            emergency,
            now,
            step,
        ),
    ensures
        step == MessageStep::Disconnected,
{
    law_disconnect_recognized(error);
}

/// An order that would have crossed the book keeps its side from being quoted
/// for half a second.
pub proof fn law_cross_pauses_side(
    before: Session,
    after: Session,
    side: Side,
    price: i64,
    count: i64,
    reply: Result<PlaceOrderResponse, String>,
    now: Timestamp,
    later: Timestamp,
    action: ActionView,
)
    requires
        now.nanos + 500 * MILLISECOND <= u64::MAX,
        after.answered(&before, side, price, count, reply, now),
        reply matches Err(e) && occurs_in(e@, "Post-only cross"@),
        later.nanos < now.nanos + 500 * MILLISECOND,
        side == Side::Yes ==> action is PlaceBid,
        side == Side::No ==> action is PlaceAsk,
    ensures
        !after.cross_ok(action, later),
{
}

/// After an order was placed nothing more is placed for half a second.
pub proof fn law_placing_pauses(
    before: Session,
    after: Session,
    side: Side,
    price: i64,
    count: i64,
    reply: Result<PlaceOrderResponse, String>,
    now: Timestamp,
    later: Timestamp,
    plan: Plan,
    actions: Seq<ActionView>,
)
    requires
        after.answered(&before, side, price, count, reply, now),
        reply is Ok,
        later.since(now) < 500 * MILLISECOND,
        plan.sorts(actions, after.cooling_down(later)),
    ensures
        views(plan.makers@).len() == 0,
{
}

/// Taking in an order adds at most one to the live orders of a side.
proof fn lemma_put_adds_one(
    entries: Seq<OrderEntry>,
    order: TrackedOrder,
    ticker: Seq<char>,
    side: Seq<char>,
)
    ensures
        live_buys(put(entries, order), ticker, side) <= live_buys(entries, ticker, side) + 1,
{
    let p = |e: OrderEntry| live_in(e.order, ticker) && e.order.buys(side);
    lemma_slot_meaning(entries, order.order_id@);
    let i = slot(entries, order.order_id@);
    let new = put(entries, order);
    let a = entries.take(i);
    let b = entries.skip(i + 1);
    if i < entries.len() {
        assert(entries =~= a + (seq![entries[i]] + b));
        assert(new =~= a + (seq![new[i]] + b));
        Seq::filter_distributes_over_add(a, seq![entries[i]] + b, p);
        Seq::filter_distributes_over_add(a, seq![new[i]] + b, p);
        b.lemma_filter_prepend(entries[i], p);
        b.lemma_filter_prepend(new[i], p);
    } else {
        entries.lemma_filter_len_push(p, new.last());
    }
    assert(live_buys(entries, ticker, side) == entries.filter(p).len());
    assert(live_buys(new, ticker, side) == new.filter(p).len());
}

/// No side ever gets more live orders than the ladder has rungs: an order is
/// placed only where there is room, and taking it in uses up one place at most.
pub proof fn law_room_kept(
    before: Session,
    after: Session,
    side: Side,
    price: i64,
    count: i64,
    reply: Result<PlaceOrderResponse, String>,
    now: Timestamp,
)
    requires
        before.room_on(side),
        after.answered(&before, side, price, count, reply, now),
    ensures
        live_buys(after.tracker.orders@, after.ticker@, name_of(side)) <= after.ladder_levels,
{
    if let Ok(resp) = reply {
        let order = choose|order: TrackedOrder|
            {
                &&& #[trigger] is_new_order(order, resp, before.ticker@, side, price, count, now)
                &&& after.tracker.orders@ == put(before.tracker.orders@, order)
            };
        lemma_put_adds_one(before.tracker.orders@, order, before.ticker@, name_of(side));
    }
}

} // verus!
