//! What the signal engine does with a book and a score, told by the orders, the
//! quotes and the settings themselves.

use vstd::prelude::*;

use crate::double::Double;
use crate::market_data::{HalfCents, OrderBook};
use crate::signal::{
    cancels, crosses, live_buys, live_in, live_on, standing_buys, ActionView,
    Band, SignalEngine, SignalEvent, ZDirection,
};
use crate::signal_laws::law_cancels;
use crate::time::Timestamp;
use crate::seqs::lemma_filter_none;
use crate::tracker::{lemma_sides_differ, OrderEntry, OrderStatus, TrackedOrder};

verus! {

/// Whether an order rests in a market or is on its way there.
pub open spec fn in_market(o: TrackedOrder, ticker: Seq<char>) -> bool {
    o.ticker@ == ticker && (o.status == OrderStatus::Resting || o.status
        == OrderStatus::PendingNew)
}

/// Whether an order to buy a side rests in a market or is on its way there.
pub open spec fn bids_for(o: TrackedOrder, ticker: Seq<char>, side: Seq<char>) -> bool {
    in_market(o, ticker) && o.side@ == side && o.action@ == "buy"@
}

/// Whether some order to buy a side rests in a market or is on its way there.
pub open spec fn some_bid_for(
    entries: Seq<OrderEntry>,
    ticker: Seq<char>,
    side: Seq<char>,
) -> bool {
    exists|i: int| 0 <= i < entries.len() && bids_for((#[trigger] entries[i]).order, ticker, side)
}

/// Whether it is early enough, and the position small enough, to trade freely.
pub open spec fn trades_freely(engine: SignalEngine, time_to_expiry: i64, inv: int) -> bool {
    &&& time_to_expiry >= engine.cfg_no_trade_before_close
    &&& time_to_expiry >= engine.cfg_no_open_before_close
    &&& -engine.cfg_hard_inventory_cap < inv < engine.cfg_hard_inventory_cap
}

/// Whether a book has a bid for either contract, and the two leave something of
/// the dollar between them.
pub open spec fn priced(book: OrderBook) -> bool {
    &&& book.initialized
    &&& book.yes_bids.best_bid > 0 && book.no_bids.best_bid > 0
    &&& book.yes_bids.best_bid + book.no_bids.best_bid < 100
}

/// A list of orders holds none to buy a side exactly where none is counted.
pub proof fn law_none_counted(entries: Seq<OrderEntry>, ticker: Seq<char>, side: Seq<char>)
    ensures
        live_buys(entries, ticker, side) == 0 <==> !some_bid_for(entries, ticker, side),
        live_buys(entries, ticker, side) >= 0,
{
    let p = |e: OrderEntry| live_in(e.order, ticker) && e.order.buys(side);
    if some_bid_for(entries, ticker, side) {
        let i = choose|i: int|
            0 <= i < entries.len() && bids_for((#[trigger] entries[i]).order, ticker, side);
        assert(p(entries[i]));
        entries.lemma_filter_contains(p, i);
    }
    if live_buys(entries, ticker, side) != 0 {
        let f = entries.filter(p);
        entries.lemma_filter_pred(p, 0);
        entries.lemma_filter_contains_rev(p, f[0]);
        let i = entries.index_of(f[0]);
        assert(bids_for(entries[i].order, ticker, side));
    }
}

/// Orders to buy a side are counted one by one.
pub proof fn law_bids_counted(
    entries: Seq<OrderEntry>,
    e: OrderEntry,
    ticker: Seq<char>,
    side: Seq<char>,
)
    ensures
        live_buys(Seq::empty(), ticker, side) == 0,
        bids_for(e.order, ticker, side) ==> live_buys(entries.push(e), ticker, side) == live_buys(
            entries,
            ticker,
            side,
        ) + 1,
        !bids_for(e.order, ticker, side) ==> live_buys(entries.push(e), ticker, side) == live_buys(
            entries,
            ticker,
            side,
        ),
{
    reveal(Seq::filter);
    assert(entries.push(e).drop_last() =~= entries);
}

/// In a stretched market one order follows the move, at the best price of its
/// side: yes is bid for as the price goes up and no as it goes down, and an event
/// begins. Nothing is done where the position is at its soft cap on that side or
/// an order of that side is already in the market.
#[verifier::spinoff_prover]
#[verifier::rlimit(50)]
pub proof fn law_stretched(
    before: SignalEngine,
    after: SignalEngine,
    book: OrderBook,
    z: Double,
    z60: Option<Double>,
    spread_ema: Double,
    time_to_expiry: i64,
    inv: int,
    entries: Seq<OrderEntry>,
    ticker: Seq<char>,
    now: Timestamp,
    actions: Seq<ActionView>,
)
    requires
        after.ticked(
            &before,
            &book,
            Some(z),
            z60,
            spread_ema,
            time_to_expiry,
            inv,
            entries,
            ticker,
            now,
            actions,
        ),
        book.wf(),
        priced(book),
        trades_freely(before, time_to_expiry, inv),
        !z.without_sign().ge(before.cfg_gear2) && z.without_sign().ge(before.cfg_gear1),
        before.active_yes_event is None && before.active_no_event is None,
    ensures
        z.ge(Double { bits: 0 }) ==> {
            &&& after.active_no_event is None
            &&& some_bid_for(entries, ticker, "yes"@) || inv >= before.cfg_max_inventory ==> {
                actions.len() == 0 && after.active_yes_event is None
            }
            &&& !some_bid_for(entries, ticker, "yes"@) && inv < before.cfg_max_inventory ==> {
                &&& actions == seq![
                    ActionView::PlaceBid {
                        price_cents: book.yes_bids.best_bid as int,
                        count: before.cfg_order_size as int,
                    },
                ]
                &&& after.active_yes_event matches Some(e) && e.gear == 1 && e.started_at == now
                    && !e.resolved && e.entry_mid.halves == 100 + book.yes_bids.best_bid
                    - book.no_bids.best_bid && e.band == Band::of_spec(e.entry_mid)
            }
        },
        !z.ge(Double { bits: 0 }) ==> {
            &&& after.active_yes_event is None
            &&& some_bid_for(entries, ticker, "no"@) || inv <= -before.cfg_max_inventory ==> {
                actions.len() == 0 && after.active_no_event is None
            }
            &&& !some_bid_for(entries, ticker, "no"@) && inv > -before.cfg_max_inventory ==> {
                &&& actions == seq![
                    ActionView::PlaceAsk {
                        price_cents: 100 - book.no_bids.best_bid,
                        count: before.cfg_order_size as int,
                    },
                ]
                &&& after.active_no_event matches Some(e) && e.gear == 1 && e.started_at == now
                    && !e.resolved && e.entry_mid.halves == 100 + book.yes_bids.best_bid
                    - book.no_bids.best_bid && e.band == Band::of_spec(e.entry_mid)
            }
        },
{
    law_none_counted(entries, ticker, "yes"@);
    law_none_counted(entries, ticker, "no"@);
    assert(actions.len() <= 1);
}

/// Whatever events are open, a stretched market is not followed on top of an
/// order of the side of the move that is already in the market: no order is
/// placed and no event begins.
#[verifier::spinoff_prover]
#[verifier::rlimit(50)]
pub proof fn law_stretched_once(
    before: SignalEngine,
    after: SignalEngine,
    book: OrderBook,
    z: Double,
    z60: Option<Double>,
    spread_ema: Double,
    time_to_expiry: i64,
    inv: int,
    entries: Seq<OrderEntry>,
    ticker: Seq<char>,
    now: Timestamp,
    actions: Seq<ActionView>,
)
    requires
        after.ticked(
            &before,
            &book,
            Some(z),
            z60,
            spread_ema,
            time_to_expiry,
            inv,
            entries,
            ticker,
            now,
            actions,
        ),
        !z.without_sign().ge(before.cfg_gear2) && z.without_sign().ge(before.cfg_gear1),
        z.ge(Double { bits: 0 }) ==> some_bid_for(entries, ticker, "yes"@),
        !z.ge(Double { bits: 0 }) ==> some_bid_for(entries, ticker, "no"@),
    ensures
        forall|i: int|
            0 <= i < actions.len() ==> !(#[trigger] actions[i] is PlaceBid)
                && !(actions[i] is PlaceAsk),
        after.active_yes_event is None || after.active_yes_event == before.active_yes_event,
        after.active_no_event is None || after.active_no_event == before.active_no_event,
{
    law_none_counted(entries, ticker, "yes"@);
    law_none_counted(entries, ticker, "no"@);
}

/// Whether an order of a side, to buy or to sell, with an identifier is in the
/// market.
pub open spec fn order_on_side(
    entries: Seq<OrderEntry>,
    ticker: Seq<char>,
    side: Seq<char>,
    id: Seq<char>,
) -> bool {
    exists|i: int|
        0 <= i < entries.len() && in_market((#[trigger] entries[i]).order, ticker)
            && entries[i].order.side@ == side && entries[i].order.order_id@ == id
}

/// Whether the actions cancel the orders of a side in the market, and then come
/// to one last thing.
pub open spec fn cancels_then(
    actions: Seq<ActionView>,
    entries: Seq<OrderEntry>,
    ticker: Seq<char>,
    side: Seq<char>,
    last: ActionView,
) -> bool {
    &&& actions.len() > 0 && actions.last() == last
    &&& forall|i: int| 0 <= i < actions.len() - 1 ==> #[trigger] actions[i] is CancelOrder
    &&& forall|id: Seq<char>| #[trigger]
        actions.contains(ActionView::CancelOrder { order_id: id }) <==> order_on_side(
            entries,
            ticker,
            side,
            id,
        )
}

proof fn lemma_cancels_then(
    entries: Seq<OrderEntry>,
    ticker: Seq<char>,
    side: Seq<char>,
    last: ActionView,
)
    requires
        !(last is CancelOrder),
    ensures
        cancels_then(
            cancels(entries, |e: OrderEntry| live_on(e.order, ticker, side)).push(last),
            entries,
            ticker,
            side,
            last,
        ),
{
    let p = |e: OrderEntry| live_on(e.order, ticker, side);
    let c = cancels(entries, p);
    let actions = c.push(last);
    assert forall|id: Seq<char>| #[trigger]
        actions.contains(ActionView::CancelOrder { order_id: id }) <==> order_on_side(
            entries,
            ticker,
            side,
            id,
        ) by {
        law_cancels(entries, p, id);
        let a = ActionView::CancelOrder { order_id: id };
        if actions.contains(a) {
            let k = actions.index_of(a);
            assert(c[k] == a);
            assert(c.contains(a));
            let j = choose|j: int|
                0 <= j < entries.len() && p(entries[j]) && (#[trigger] entries[j]).order.order_id@
                    == id;
            assert(in_market(entries[j].order, ticker));
        }
        if order_on_side(entries, ticker, side, id) {
            let j = choose|j: int|
                0 <= j < entries.len() && in_market((#[trigger] entries[j]).order, ticker)
                    && entries[j].order.side@ == side && entries[j].order.order_id@ == id;
            assert(p(entries[j]));
            let k = c.index_of(a);
            assert(actions[k] == a);
        }
    }
}

/// In an extreme market one contract is taken against the move, at the offer, and
/// an event of the second gear begins: yes after a fall and no after a rise. The
/// orders of the side that is taken are cancelled first. Nothing is done where
/// taking is switched off, from 20 to 40 cents, from 60 cents on where the spread
/// is usually too wide, where the long score shows a trend, or where there is
/// already a position of that side.
#[verifier::spinoff_prover]
#[verifier::rlimit(50)]
pub proof fn law_extreme(
    before: SignalEngine,
    after: SignalEngine,
    book: OrderBook,
    z: Double,
    z60: Option<Double>,
    spread_ema: Double,
    time_to_expiry: i64,
    inv: int,
    entries: Seq<OrderEntry>,
    ticker: Seq<char>,
    now: Timestamp,
    actions: Seq<ActionView>,
)
    requires
        after.ticked(
            &before,
            &book,
            Some(z),
            z60,
            spread_ema,
            time_to_expiry,
            inv,
            entries,
            ticker,
            now,
            actions,
        ),
        book.wf(),
        priced(book),
        trades_freely(before, time_to_expiry, inv),
        z.without_sign().ge(before.cfg_gear2),
        before.active_yes_event is None && before.active_no_event is None,
    ensures
        ({
            let h = 100 + book.yes_bids.best_bid - book.no_bids.best_bid;
            let may_take = before.cfg_gear2_enabled && !(40 <= h < 80) && (h >= 120
                ==> spread_ema.lt(before.cfg_spread_max_gear2)) && (z60 matches Some(t)
                ==> t.without_sign().lt(before.cfg_z60_noise_cap));
            let up = z.ge(Double { bits: 0 });
            &&& !may_take || (up && inv < 0) || (!up && inv > 0) ==> actions.len() == 0
                && after.active_yes_event is None && after.active_no_event is None
            &&& may_take && up && inv >= 0 ==> {
                &&& cancels_then(
                    actions,
                    entries,
                    ticker,
                    "no"@,
                    ActionView::TakeNo { price: 100 - book.yes_bids.best_bid, count: 1 },
                )
                &&& after.active_yes_event is None
                &&& after.active_no_event matches Some(e) && e.gear == 2 && e.started_at == now
                    && !e.resolved && e.entry_mid.halves == h && e.band == Band::of_spec(
                    e.entry_mid,
                )
            }
            &&& may_take && !up && inv <= 0 ==> {
                &&& cancels_then(
                    actions,
                    entries,
                    ticker,
                    "yes"@,
                    ActionView::TakeYes { price: 100 - book.no_bids.best_bid, count: 1 },
                )
                &&& after.active_no_event is None
                &&& after.active_yes_event matches Some(e) && e.gear == 2 && e.started_at == now
                    && !e.resolved && e.entry_mid.halves == h && e.band == Band::of_spec(
                    e.entry_mid,
                )
            }
        }),
{
    let no = ActionView::TakeNo { price: 100 - book.yes_bids.best_bid, count: 1 };
    let yes = ActionView::TakeYes { price: 100 - book.no_bids.best_bid, count: 1 };
    lemma_cancels_then(entries, ticker, "no"@, no);
    lemma_cancels_then(entries, ticker, "yes"@, yes);
    let mid = HalfCents { halves: (book.bid() + book.ask()) as i64 };
    let averaged = SignalEngine { spread_emas: after.spread_emas, ..before };
    let band = Band::of_spec(mid);
    assert(averaged.average(band) == spread_ema);
    assert(averaged.resolution(Some(z), now, &book, ticker, entries).actions =~= seq![]);
    if actions.len() > 0 {
        if z.ge(Double { bits: 0 }) {
            assert(actions =~= cancels(
                entries,
                |e: OrderEntry| live_on(e.order, ticker, "no"@),
            ).push(no));
        } else {
            assert(actions =~= cancels(
                entries,
                |e: OrderEntry| live_on(e.order, ticker, "yes"@),
            ).push(yes));
        }
    }
}

/// A book without a middle price is left alone until the last minutes.
#[verifier::spinoff_prover]
#[verifier::rlimit(50)]
pub proof fn law_unpriced_left_alone(
    before: SignalEngine,
    after: SignalEngine,
    book: OrderBook,
    z15: Option<Double>,
    z60: Option<Double>,
    spread_ema: Double,
    time_to_expiry: i64,
    inv: int,
    entries: Seq<OrderEntry>,
    ticker: Seq<char>,
    now: Timestamp,
    actions: Seq<ActionView>,
)
    requires
        after.ticked(
            &before,
            &book,
            z15,
            z60,
            spread_ema,
            time_to_expiry,
            inv,
            entries,
            ticker,
            now,
            actions,
        ),
        book.wf(),
        !priced(book),
        time_to_expiry >= before.cfg_no_trade_before_close,
    ensures
        actions.len() == 0,
        after.spread_emas@ == before.spread_emas@,
        before.active_yes_event is None ==> after.active_yes_event is None,
        before.active_no_event is None ==> after.active_no_event is None,
{
}

/// A tick takes down the spread in the band of the middle price and in no other,
/// and changes no setting.
#[verifier::spinoff_prover]
#[verifier::rlimit(50)]
pub proof fn law_spread_noted(
    before: SignalEngine,
    after: SignalEngine,
    book: OrderBook,
    z15: Option<Double>,
    z60: Option<Double>,
    spread_ema: Double,
    time_to_expiry: i64,
    inv: int,
    entries: Seq<OrderEntry>,
    ticker: Seq<char>,
    now: Timestamp,
    actions: Seq<ActionView>,
    k: int,
)
    requires
        after.ticked(
            &before,
            &book,
            z15,
            z60,
            spread_ema,
            time_to_expiry,
            inv,
            entries,
            ticker,
            now,
            actions,
        ),
        book.wf(),
        priced(book),
        0 <= k < 5,
    ensures
        ({
            let h = 100 + book.yes_bids.best_bid - book.no_bids.best_bid;
            &&& 40 * k <= h && (h < 40 * (k + 1) || k == 4) ==> after.spread_emas@[k] == Some(
                spread_ema,
            )
            &&& h < 40 * k || (h >= 40 * (k + 1) && k < 4) ==> after.spread_emas@[k]
                == before.spread_emas@[k]
        }),
        after == (SignalEngine {
            active_yes_event: after.active_yes_event,
            active_no_event: after.active_no_event,
            spread_emas: after.spread_emas,
            ..before
        }),
{
}

/// While nothing is opened any more, the orders of the market are cancelled, all
/// of them and no others, and nothing is placed.
#[verifier::spinoff_prover]
#[verifier::rlimit(50)]
pub proof fn law_market_cleared(
    before: SignalEngine,
    after: SignalEngine,
    book: OrderBook,
    z15: Option<Double>,
    z60: Option<Double>,
    spread_ema: Double,
    time_to_expiry: i64,
    inv: int,
    entries: Seq<OrderEntry>,
    ticker: Seq<char>,
    now: Timestamp,
    actions: Seq<ActionView>,
    id: Seq<char>,
)
    requires
        after.ticked(
            &before,
            &book,
            z15,
            z60,
            spread_ema,
            time_to_expiry,
            inv,
            entries,
            ticker,
            now,
            actions,
        ),
        priced(book),
        book.wf(),
        before.cfg_no_trade_before_close <= time_to_expiry < before.cfg_no_open_before_close,
    ensures
        actions.contains(ActionView::CancelOrder { order_id: id }) <==> exists|i: int|
            0 <= i < entries.len() && in_market((#[trigger] entries[i]).order, ticker)
                && entries[i].order.order_id@ == id,
        before.active_yes_event matches Some(e) && e.gear == 2 ==> actions.contains(
            ActionView::TakeNo { price: 100 - book.yes_bids.best_bid, count: 1 },
        ) && after.active_yes_event is None,
        before.active_no_event matches Some(e) && e.gear == 2 ==> actions.contains(
            ActionView::TakeYes { price: 100 - book.no_bids.best_bid, count: 1 },
        ) && after.active_no_event is None,
{
    let p = |e: OrderEntry| live_in(e.order, ticker);
    let c = cancels(entries, p);
    let a = ActionView::CancelOrder { order_id: id };
    law_cancels(entries, p, id);
    if actions.contains(a) {
        let k = actions.index_of(a);
        assert(k < c.len());
        assert(c[k] == a);
        let j = choose|j: int|
            0 <= j < entries.len() && p(entries[j]) && (#[trigger] entries[j]).order.order_id@
                == id;
        assert(in_market(entries[j].order, ticker));
    }
    if exists|i: int|
        0 <= i < entries.len() && in_market((#[trigger] entries[i]).order, ticker)
            && entries[i].order.order_id@ == id {
        let j = choose|i: int|
            0 <= i < entries.len() && in_market((#[trigger] entries[i]).order, ticker)
                && entries[i].order.order_id@ == id;
        assert(p(entries[j]));
        let k = c.index_of(a);
        assert(actions[k] == a);
    }
    if before.taken(true) {
        assert(actions[c.len() as int] == ActionView::TakeNo {
            price: 100 - book.yes_bids.best_bid,
            count: 1,
        });
    }
    if before.taken(false) {
        assert(actions.last() == ActionView::TakeYes {
            price: 100 - book.no_bids.best_bid,
            count: 1,
        });
    }
}

/// An event ends as its score crosses zero, in the direction from which it came:
/// those of the first gear follow the score and those of the second go against it.
pub proof fn law_crossing(e: SignalEvent, z: Double)
    ensures
        e.gear == 1 ==> (e.crossed_back(true, z) <==> (Double { bits: 0 }).ge(z)),
        e.gear == 1 ==> (e.crossed_back(false, z) <==> z.ge(Double { bits: 0 })),
        e.gear == 2 ==> (e.crossed_back(true, z) <==> z.ge(Double { bits: 0 })),
        e.gear == 2 ==> (e.crossed_back(false, z) <==> (Double { bits: 0 }).ge(z)),
{
}

/// Whether an event is to end: its time is up, or there is a score that has
/// crossed zero, or one while an order that was to be placed a second ago is not
/// in the market.
pub open spec fn is_over(
    e: SignalEvent,
    yes: bool,
    z15: Option<Double>,
    timeout: u64,
    entries: Seq<OrderEntry>,
    ticker: Seq<char>,
    now: Timestamp,
) -> bool {
    ||| now.nanos >= e.started_at.nanos + timeout
    ||| z15 matches Some(z) && (if yes == (e.gear == 1) {
        (Double { bits: 0 }).ge(z)
    } else {
        z.ge(Double { bits: 0 })
    })
    ||| z15 is Some && e.gear == 1 && now.nanos > e.started_at.nanos + 1_000_000_000
        && !some_bid_for(
        entries,
        ticker,
        if yes {
            "yes"@
        } else {
            "no"@
        },
    )
}

/// Where trading is free an event ends exactly where it is over: it is gone unless
/// another begins with the tick, and what was taken for it is sold at the offer,
/// yes before no; an event that is not over stays.
#[verifier::spinoff_prover]
#[verifier::rlimit(50)]
pub proof fn law_events_settled(
    before: SignalEngine,
    after: SignalEngine,
    book: OrderBook,
    z15: Option<Double>,
    z60: Option<Double>,
    spread_ema: Double,
    time_to_expiry: i64,
    inv: int,
    entries: Seq<OrderEntry>,
    ticker: Seq<char>,
    now: Timestamp,
    actions: Seq<ActionView>,
)
    requires
        after.ticked(
            &before,
            &book,
            z15,
            z60,
            spread_ema,
            time_to_expiry,
            inv,
            entries,
            ticker,
            now,
            actions,
        ),
        book.wf(),
        priced(book),
        time_to_expiry >= before.cfg_no_trade_before_close,
        time_to_expiry >= before.cfg_no_open_before_close,
        before.active_yes_event matches Some(e) ==> !e.resolved && e.started_at.nanos <= now.nanos,
        before.active_no_event matches Some(e) ==> !e.resolved && e.started_at.nanos <= now.nanos,
    ensures
        ({
            let t = before.cfg_signal_timeout;
            let yes_over = before.active_yes_event matches Some(e) && is_over(
                e,
                true,
                z15,
                t,
                entries,
                ticker,
                now,
            );
            let no_over = before.active_no_event matches Some(e) && is_over(
                e,
                false,
                z15,
                t,
                entries,
                ticker,
                now,
            );
            let sells_yes = yes_over && before.active_yes_event.unwrap().gear == 2;
            let sells_no = no_over && before.active_no_event.unwrap().gear == 2;
            let sold = (if sells_yes {
                1int
            } else {
                0int
            }) + (if sells_no {
                1int
            } else {
                0int
            });
            &&& before.active_yes_event is Some && !yes_over ==> after.active_yes_event
                == before.active_yes_event
            &&& before.active_no_event is Some && !no_over ==> after.active_no_event
                == before.active_no_event
            &&& yes_over ==> (after.active_yes_event matches Some(n) ==> n.started_at == now)
            &&& no_over ==> (after.active_no_event matches Some(n) ==> n.started_at == now)
            &&& actions.len() >= sold
            &&& sells_yes ==> actions[0] == ActionView::TakeNo {
                price: 100 - book.yes_bids.best_bid,
                count: 1,
            }
            &&& sells_no ==> actions[sold - 1] == ActionView::TakeYes {
                price: 100 - book.no_bids.best_bid,
                count: 1,
            }
        }),
{
    law_none_counted(entries, ticker, "yes"@);
    law_none_counted(entries, ticker, "no"@);
}

/// The bids among some actions.
pub open spec fn bids_of(actions: Seq<ActionView>) -> Seq<ActionView> {
    actions.filter(|a: ActionView| a is PlaceBid)
}

/// The offers among some actions.
pub open spec fn offers_of(actions: Seq<ActionView>) -> Seq<ActionView> {
    actions.filter(|a: ActionView| a is PlaceAsk)
}

/// How many bids for yes are in the market below its offer.
pub open spec fn yes_standing(entries: Seq<OrderEntry>, ticker: Seq<char>, book: OrderBook) -> int {
    entries.filter(
        |e: OrderEntry|
            bids_for(e.order, ticker, "yes"@) && e.order.price_cents + book.no_bids.best_bid < 100,
    ).len() as int
}

/// How many bids for no are in the market below its offer.
pub open spec fn no_standing(entries: Seq<OrderEntry>, ticker: Seq<char>, book: OrderBook) -> int {
    entries.filter(
        |e: OrderEntry|
            bids_for(e.order, ticker, "no"@) && e.order.price_cents + book.yes_bids.best_bid < 100,
    ).len() as int
}

proof fn lemma_standing(entries: Seq<OrderEntry>, ticker: Seq<char>, book: OrderBook)
    requires
        book.wf(),
        priced(book),
    ensures
        yes_standing(entries, ticker, book) == standing_buys(
            entries,
            ticker,
            "yes"@,
            book.bid(),
            book.ask(),
        ),
        no_standing(entries, ticker, book) == standing_buys(
            entries,
            ticker,
            "no"@,
            book.bid(),
            book.ask(),
        ),
{
    lemma_sides_differ();
    let b = book.bid();
    let a = book.ask();
    let p = |e: OrderEntry|
        bids_for(e.order, ticker, "yes"@) && e.order.price_cents + book.no_bids.best_bid < 100;
    let q = |e: OrderEntry|
        live_in(e.order, ticker) && e.order.buys("yes"@) && !crosses(e.order, ticker, b, a);
    assert(p =~= q);
    let p2 = |e: OrderEntry|
        bids_for(e.order, ticker, "no"@) && e.order.price_cents + book.yes_bids.best_bid < 100;
    let q2 = |e: OrderEntry|
        live_in(e.order, ticker) && e.order.buys("no"@) && !crosses(e.order, ticker, b, a);
    assert(p2 =~= q2);
}

proof fn lemma_filter_whole<A>(s: Seq<A>, p: spec_fn(A) -> bool)
    requires
        forall|i: int| 0 <= i < s.len() ==> p(#[trigger] s[i]),
    ensures
        s.filter(p) == s,
    decreases s.len(),
{
    reveal(Seq::filter);
    if s.len() > 0 {
        lemma_filter_whole(s.drop_last(), p);
        assert(p(s[s.len() - 1]));
        assert(s.drop_last().push(s.last()) =~= s);
    } else {
        assert(s.filter(p) =~= s);
    }
}

/// Of actions that cancel, then place bids or cancel, then place offers or cancel,
/// the middle ones are the bids and the last ones the offers.
proof fn lemma_quotes_apart(
    a: Seq<ActionView>,
    y: Seq<ActionView>,
    n: Seq<ActionView>,
    bidding: bool,
    offering: bool,
)
    requires
        forall|i: int| 0 <= i < a.len() ==> #[trigger] a[i] is CancelOrder,
        bidding ==> forall|i: int| 0 <= i < y.len() ==> #[trigger] y[i] is PlaceBid,
        !bidding ==> forall|i: int| 0 <= i < y.len() ==> #[trigger] y[i] is CancelOrder,
        offering ==> forall|i: int| 0 <= i < n.len() ==> #[trigger] n[i] is PlaceAsk,
        !offering ==> forall|i: int| 0 <= i < n.len() ==> #[trigger] n[i] is CancelOrder,
    ensures
        bids_of(a + y + n) == if bidding {
            y
        } else {
            seq![]
        },
        offers_of(a + y + n) == if offering {
            n
        } else {
            seq![]
        },
{
    let p = |x: ActionView| x is PlaceBid;
    let q = |x: ActionView| x is PlaceAsk;
    Seq::filter_distributes_over_add(a + y, n, p);
    Seq::filter_distributes_over_add(a, y, p);
    Seq::filter_distributes_over_add(a + y, n, q);
    Seq::filter_distributes_over_add(a, y, q);
    lemma_filter_none(a, p);
    lemma_filter_none(a, q);
    lemma_filter_none(y, q);
    lemma_filter_none(n, p);
    if bidding {
        lemma_filter_whole(y, p);
        assert(bids_of(a + y + n) =~= y);
    } else {
        lemma_filter_none(y, p);
        assert(bids_of(a + y + n) =~= seq![]);
    }
    if offering {
        lemma_filter_whole(n, q);
        assert(offers_of(a + y + n) =~= n);
    } else {
        lemma_filter_none(n, q);
        assert(offers_of(a + y + n) =~= seq![]);
    }
}

/// Whether a list of bids, or of cancels in their place, is what the yes side of
/// a calm market asks for.
spec fn yes_quoted(
    y: Seq<ActionView>,
    engine: SignalEngine,
    book: OrderBook,
    rungs: int,
    inv: int,
    entries: Seq<OrderEntry>,
    ticker: Seq<char>,
) -> bool {
    let room = if inv >= engine.cfg_max_inventory {
        rungs
    } else {
        rungs - yes_standing(entries, ticker, book)
    };
    if (inv < 0 || (inv == 0 && engine.cfg_max_inventory > 0 && engine.active_yes_event is None))
        && room > 0 {
        &&& y.len() == if room <= book.yes_bids.best_bid {
            room
        } else {
            book.yes_bids.best_bid as int
        }
        &&& forall|k: int|
            0 <= k < y.len() ==> #[trigger] y[k] == (ActionView::PlaceBid {
                price_cents: book.yes_bids.best_bid - k,
                count: engine.cfg_order_size as int,
            })
    } else {
        forall|k: int| 0 <= k < y.len() ==> #[trigger] y[k] is CancelOrder
    }
}

/// Whether a list of offers, or of cancels in their place, is what the no side of
/// a calm market asks for.
spec fn no_quoted(
    n: Seq<ActionView>,
    engine: SignalEngine,
    book: OrderBook,
    rungs: int,
    inv: int,
    entries: Seq<OrderEntry>,
    ticker: Seq<char>,
) -> bool {
    let room = if inv <= -engine.cfg_max_inventory {
        rungs
    } else {
        rungs - no_standing(entries, ticker, book)
    };
    if (inv > 0 || (inv == 0 && engine.cfg_max_inventory > 0 && engine.active_no_event is None))
        && room > 0 {
        &&& n.len() == if room <= book.no_bids.best_bid {
            room
        } else {
            book.no_bids.best_bid as int
        }
        &&& forall|k: int|
            0 <= k < n.len() ==> #[trigger] n[k] == (ActionView::PlaceAsk {
                price_cents: 100 - book.no_bids.best_bid + k,
                count: engine.cfg_order_size as int,
            })
    } else {
        forall|k: int| 0 <= k < n.len() ==> #[trigger] n[k] is CancelOrder
    }
}

proof fn lemma_calm_sides(
    engine: SignalEngine,
    book: OrderBook,
    mid: HalfCents,
    inv: int,
    entries: Seq<OrderEntry>,
    ticker: Seq<char>,
)
    requires
        book.wf(),
        priced(book),
        mid.halves == 100 + book.yes_bids.best_bid - book.no_bids.best_bid,
    ensures
        ({
            let band = Band::of_spec(mid);
            let rungs = if 40 <= mid.halves < 80 {
                1
            } else {
                engine.cfg_ladder_levels as int
            };
            let a = engine.calm_cancels(&book, inv, entries, ticker);
            &&& forall|i: int| 0 <= i < a.len() ==> #[trigger] a[i] is CancelOrder
            &&& yes_quoted(
                engine.calm_yes(&book, band, inv, entries, ticker),
                engine,
                book,
                rungs,
                inv,
                entries,
                ticker,
            )
            &&& no_quoted(
                engine.calm_no(&book, band, inv, entries, ticker),
                engine,
                book,
                rungs,
                inv,
                entries,
                ticker,
            )
        }),
{
    lemma_standing(entries, ticker, book);
}

/// What a calm tick is made of: sales, then cancels, the yes side and the no
/// side, of an engine with the settings of before.
#[verifier::spinoff_prover]
#[verifier::rlimit(50)]
proof fn lemma_calm_tick(
    before: SignalEngine,
    after: SignalEngine,
    book: OrderBook,
    z15: Option<Double>,
    z60: Option<Double>,
    spread_ema: Double,
    time_to_expiry: i64,
    inv: int,
    entries: Seq<OrderEntry>,
    ticker: Seq<char>,
    now: Timestamp,
    actions: Seq<ActionView>,
) -> (next: SignalEngine)
    requires
        after.ticked(
            &before,
            &book,
            z15,
            z60,
            spread_ema,
            time_to_expiry,
            inv,
            entries,
            ticker,
            now,
            actions,
        ),
        book.wf(),
        priced(book),
        trades_freely(before, time_to_expiry, inv),
        z15 matches Some(z) ==> !z.without_sign().ge(before.cfg_gear2) && !z.without_sign().ge(
            before.cfg_gear1,
        ),
    ensures
        next == (SignalEngine {
            spread_emas: next.spread_emas,
            active_yes_event: after.active_yes_event,
            active_no_event: after.active_no_event,
            ..before
        }),
        before.active_yes_event is None ==> after.active_yes_event is None,
        before.active_no_event is None ==> after.active_no_event is None,
        ({
            let mid = HalfCents {
                halves: (100 + book.yes_bids.best_bid - book.no_bids.best_bid) as i64,
            };
            let quotes = next.calm_cancels(&book, inv, entries, ticker) + next.calm_yes(
                &book,
                Band::of_spec(mid),
                inv,
                entries,
                ticker,
            ) + next.calm_no(&book, Band::of_spec(mid), inv, entries, ticker);
            let sold = actions.take(actions.len() - quotes.len());
            &&& quotes.len() <= actions.len()
            &&& actions == sold + quotes
            &&& forall|i: int|
                0 <= i < sold.len() ==> #[trigger] sold[i] is TakeYes || sold[i] is TakeNo
            &&& before.active_yes_event is None && before.active_no_event is None ==> sold.len()
                == 0
        }),
{
    let mid = HalfCents { halves: (book.bid() + book.ask()) as i64 };
    let band = Band::of_spec(mid);
    let averaged = SignalEngine { spread_emas: after.spread_emas, ..before };
    let r = averaged.resolution(z15, now, &book, ticker, entries);
    let next = averaged.with_events(r.yes_event, r.no_event);
    let quotes = next.calm(&book, band, inv, entries, ticker);
    assert(actions =~= r.actions + quotes);
    assert(actions.take(actions.len() - quotes.len()) =~= r.actions);
    next
}

proof fn lemma_sold_first(sold: Seq<ActionView>, quotes: Seq<ActionView>)
    requires
        forall|i: int|
            0 <= i < sold.len() ==> #[trigger] sold[i] is TakeYes || sold[i] is TakeNo,
    ensures
        bids_of(sold + quotes) == bids_of(quotes),
        offers_of(sold + quotes) == offers_of(quotes),
        sold.len() == 0 ==> sold + quotes == quotes,
        forall|id: Seq<char>| #[trigger]
            (sold + quotes).contains(ActionView::CancelOrder { order_id: id }) <==> quotes.contains(
                ActionView::CancelOrder { order_id: id },
            ),
{
    let p = |x: ActionView| x is PlaceBid;
    let q = |x: ActionView| x is PlaceAsk;
    Seq::filter_distributes_over_add(sold, quotes, p);
    Seq::filter_distributes_over_add(sold, quotes, q);
    lemma_filter_none(sold, p);
    lemma_filter_none(sold, q);
    assert(bids_of(sold + quotes) =~= bids_of(quotes));
    assert(offers_of(sold + quotes) =~= offers_of(quotes));
    if sold.len() == 0 {
        assert(sold + quotes =~= quotes);
    }
    assert forall|id: Seq<char>| #[trigger]
        (sold + quotes).contains(ActionView::CancelOrder { order_id: id }) <==> quotes.contains(
            ActionView::CancelOrder { order_id: id },
        ) by {
        let c = ActionView::CancelOrder { order_id: id };
        if (sold + quotes).contains(c) {
            let k = (sold + quotes).index_of(c);
            assert(k >= sold.len() ==> quotes[k - sold.len()] == c);
            assert(k < sold.len() ==> sold[k] == c);
        }
        if quotes.contains(c) {
            assert((sold + quotes)[sold.len() + quotes.index_of(c)] == c);
        }
    }
}

proof fn lemma_no_takes(a: Seq<ActionView>, y: Seq<ActionView>, n: Seq<ActionView>)
    requires
        forall|i: int| 0 <= i < a.len() ==> #[trigger] a[i] is CancelOrder,
        forall|i: int|
            0 <= i < y.len() ==> #[trigger] y[i] is CancelOrder || y[i] is PlaceBid,
        forall|i: int|
            0 <= i < n.len() ==> #[trigger] n[i] is CancelOrder || n[i] is PlaceAsk,
    ensures
        forall|i: int|
            0 <= i < (a + y + n).len() ==> !(#[trigger] (a + y + n)[i] is TakeYes) && !((a + y
                + n)[i] is TakeNo) && !((a + y + n)[i] is CancelAll),
{
    let all = a + y + n;
    assert forall|i: int| 0 <= i < all.len() implies !(#[trigger] all[i] is TakeYes) && !(
    all[i] is TakeNo) && !(all[i] is CancelAll) by {
        if i < a.len() {
            assert(all[i] == a[i]);
        } else if i < a.len() + y.len() {
            assert(all[i] == y[i - a.len()]);
        } else {
            assert(all[i] == n[i - a.len() - y.len()]);
        }
    }
}

#[verifier::spinoff_prover]
proof fn lemma_calm_read(
    engine: SignalEngine,
    book: OrderBook,
    mid: HalfCents,
    inv: int,
    entries: Seq<OrderEntry>,
    ticker: Seq<char>,
    a: Seq<ActionView>,
    y: Seq<ActionView>,
    n: Seq<ActionView>,
)
    requires
        book.yes_bids.best_bid > 0 && book.no_bids.best_bid > 0,
        forall|i: int| 0 <= i < a.len() ==> #[trigger] a[i] is CancelOrder,
        yes_quoted(
            y,
            engine,
            book,
            if 40 <= mid.halves < 80 {
                1
            } else {
                engine.cfg_ladder_levels as int
            },
            inv,
            entries,
            ticker,
        ),
        no_quoted(
            n,
            engine,
            book,
            if 40 <= mid.halves < 80 {
                1
            } else {
                engine.cfg_ladder_levels as int
            },
            inv,
            entries,
            ticker,
        ),
    ensures
        ({
            let h = mid.halves;
            let actions = a + y + n;
            let rungs = if 40 <= h < 80 {
                1
            } else {
                engine.cfg_ladder_levels as int
            };
            let bids = bids_of(actions);
            let offers = offers_of(actions);
            let yes_room = if inv >= engine.cfg_max_inventory {
                rungs
            } else {
                rungs - yes_standing(entries, ticker, book)
            };
            let no_room = if inv <= -engine.cfg_max_inventory {
                rungs
            } else {
                rungs - no_standing(entries, ticker, book)
            };
            let buys_yes = inv < 0 || (inv == 0 && engine.cfg_max_inventory > 0
                && engine.active_yes_event is None);
            let buys_no = inv > 0 || (inv == 0 && engine.cfg_max_inventory > 0
                && engine.active_no_event is None);
            &&& !buys_yes || yes_room <= 0 ==> bids.len() == 0
            &&& buys_yes && 0 < yes_room <= book.yes_bids.best_bid ==> bids.len() == yes_room
            &&& buys_yes && yes_room > book.yes_bids.best_bid ==> bids.len()
                == book.yes_bids.best_bid
            &&& forall|k: int|
                0 <= k < bids.len() ==> #[trigger] bids[k] == (ActionView::PlaceBid {
                    price_cents: book.yes_bids.best_bid - k,
                    count: engine.cfg_order_size as int,
                })
            &&& !buys_no || no_room <= 0 ==> offers.len() == 0
            &&& buys_no && 0 < no_room <= book.no_bids.best_bid ==> offers.len() == no_room
            &&& buys_no && no_room > book.no_bids.best_bid ==> offers.len()
                == book.no_bids.best_bid
            &&& forall|k: int|
                0 <= k < offers.len() ==> #[trigger] offers[k] == (ActionView::PlaceAsk {
                    price_cents: 100 - book.no_bids.best_bid + k,
                    count: engine.cfg_order_size as int,
                })
        }),
        forall|i: int|
            0 <= i < (a + y + n).len() ==> !(#[trigger] (a + y + n)[i] is TakeYes) && !((a + y
                + n)[i] is TakeNo) && !((a + y + n)[i] is CancelAll),
{
    let rungs = if 40 <= mid.halves < 80 {
        1
    } else {
        engine.cfg_ladder_levels as int
    };
    let yes_room = if inv >= engine.cfg_max_inventory {
        rungs
    } else {
        rungs - yes_standing(entries, ticker, book)
    };
    let no_room = if inv <= -engine.cfg_max_inventory {
        rungs
    } else {
        rungs - no_standing(entries, ticker, book)
    };
    let bidding = (inv < 0 || (inv == 0 && engine.cfg_max_inventory > 0
        && engine.active_yes_event is None)) && yes_room > 0;
    let offering = (inv > 0 || (inv == 0 && engine.cfg_max_inventory > 0
        && engine.active_no_event is None)) && no_room > 0;
    lemma_no_takes(a, y, n);
    lemma_quotes_apart(a, y, n, bidding, offering);
}

/// A calm market is quoted on both sides from the best bids on: each bid a cent
/// below the one before it and each offer a cent above, of the set size, until as
/// many stand as the ladder is long, one from 20 to 40 cents, or until prices end.
/// With a position only the side that makes it smaller is quoted, and a side with
/// an open event is not quoted to open one. Without a score the market counts as
/// calm.
#[verifier::spinoff_prover]
#[verifier::rlimit(50)]
pub proof fn law_calm_quotes(
    before: SignalEngine,
    after: SignalEngine,
    book: OrderBook,
    z15: Option<Double>,
    z60: Option<Double>,
    spread_ema: Double,
    time_to_expiry: i64,
    inv: int,
    entries: Seq<OrderEntry>,
    ticker: Seq<char>,
    now: Timestamp,
    actions: Seq<ActionView>,
)
    requires
        after.ticked(
            &before,
            &book,
            z15,
            z60,
            spread_ema,
            time_to_expiry,
            inv,
            entries,
            ticker,
            now,
            actions,
        ),
        book.wf(),
        priced(book),
        trades_freely(before, time_to_expiry, inv),
        z15 matches Some(z) ==> !z.without_sign().ge(before.cfg_gear2) && !z.without_sign().ge(
            before.cfg_gear1,
        ),
    ensures
        ({
            let h = 100 + book.yes_bids.best_bid - book.no_bids.best_bid;
            let rungs = if 40 <= h < 80 {
                1
            } else {
                before.cfg_ladder_levels as int
            };
            let bids = bids_of(actions);
            let offers = offers_of(actions);
            let yes_room = if inv >= before.cfg_max_inventory {
                rungs
            } else {
                rungs - yes_standing(entries, ticker, book)
            };
            let no_room = if inv <= -before.cfg_max_inventory {
                rungs
            } else {
                rungs - no_standing(entries, ticker, book)
            };
            let buys_yes = inv < 0 || (inv == 0 && before.cfg_max_inventory > 0
                && after.active_yes_event is None);
            let buys_no = inv > 0 || (inv == 0 && before.cfg_max_inventory > 0
                && after.active_no_event is None);
            &&& !buys_yes || yes_room <= 0 ==> bids.len() == 0
            &&& buys_yes && 0 < yes_room <= book.yes_bids.best_bid ==> bids.len() == yes_room
            &&& buys_yes && yes_room > book.yes_bids.best_bid ==> bids.len()
                == book.yes_bids.best_bid
            &&& forall|k: int|
                0 <= k < bids.len() ==> #[trigger] bids[k] == (ActionView::PlaceBid {
                    price_cents: book.yes_bids.best_bid - k,
                    count: before.cfg_order_size as int,
                })
            &&& !buys_no || no_room <= 0 ==> offers.len() == 0
            &&& buys_no && 0 < no_room <= book.no_bids.best_bid ==> offers.len() == no_room
            &&& buys_no && no_room > book.no_bids.best_bid ==> offers.len()
                == book.no_bids.best_bid
            &&& forall|k: int|
                0 <= k < offers.len() ==> #[trigger] offers[k] == (ActionView::PlaceAsk {
                    price_cents: 100 - book.no_bids.best_bid + k,
                    count: before.cfg_order_size as int,
                })
        }),
        before.active_yes_event is None ==> after.active_yes_event is None,
        before.active_no_event is None ==> after.active_no_event is None,
        before.active_yes_event is None && before.active_no_event is None ==> forall|i: int|
            0 <= i < actions.len() ==> !(#[trigger] actions[i] is TakeYes)
                && !(actions[i] is TakeNo) && !(actions[i] is CancelAll),
{
    let next = lemma_calm_tick(
        before,
        after,
        book,
        z15,
        z60,
        spread_ema,
        time_to_expiry,
        inv,
        entries,
        ticker,
        now,
        actions,
    );
    let mid = HalfCents {
        halves: (100 + book.yes_bids.best_bid - book.no_bids.best_bid) as i64,
    };
    let a = next.calm_cancels(&book, inv, entries, ticker);
    let y = next.calm_yes(&book, Band::of_spec(mid), inv, entries, ticker);
    let n = next.calm_no(&book, Band::of_spec(mid), inv, entries, ticker);
    let sold = actions.take(actions.len() - (a + y + n).len());
    lemma_sold_first(sold, a + y + n);
    lemma_calm_sides(next, book, mid, inv, entries, ticker);
    lemma_calm_read(next, book, mid, inv, entries, ticker, a, y, n);
}

/// Whether quoting a calm market cancels an order: it would trade at once, it is
/// on the side on which the position has reached its soft cap, or it is on a side
/// that is not to be bought while some bid of it stands.
pub open spec fn calm_drops(
    o: TrackedOrder,
    engine: SignalEngine,
    book: OrderBook,
    inv: int,
    entries: Seq<OrderEntry>,
    ticker: Seq<char>,
) -> bool {
    let buys_yes = inv < 0 || (inv == 0 && engine.cfg_max_inventory > 0
        && engine.active_yes_event is None);
    let buys_no = inv > 0 || (inv == 0 && engine.cfg_max_inventory > 0
        && engine.active_no_event is None);
    &&& in_market(o, ticker)
    &&& {
        ||| o.side@ == "yes"@ && o.action@ == "buy"@ && o.price_cents + book.no_bids.best_bid >= 100
        ||| o.side@ == "no"@ && o.action@ == "buy"@ && o.price_cents + book.yes_bids.best_bid >= 100
        ||| o.side@ == "yes"@ && inv >= engine.cfg_max_inventory
        ||| o.side@ == "no"@ && inv <= -engine.cfg_max_inventory
        ||| o.side@ == "yes"@ && !buys_yes && yes_standing(entries, ticker, book) > 0
        ||| o.side@ == "no"@ && !buys_no && no_standing(entries, ticker, book) > 0
    }
}

/// Quoting a calm market cancels exactly the orders that have to go.
#[verifier::spinoff_prover]
#[verifier::rlimit(50)]
pub proof fn law_calm_cancels(
    before: SignalEngine,
    after: SignalEngine,
    book: OrderBook,
    z15: Option<Double>,
    z60: Option<Double>,
    spread_ema: Double,
    time_to_expiry: i64,
    inv: int,
    entries: Seq<OrderEntry>,
    ticker: Seq<char>,
    now: Timestamp,
    actions: Seq<ActionView>,
    id: Seq<char>,
)
    requires
        after.ticked(
            &before,
            &book,
            z15,
            z60,
            spread_ema,
            time_to_expiry,
            inv,
            entries,
            ticker,
            now,
            actions,
        ),
        book.wf(),
        priced(book),
        trades_freely(before, time_to_expiry, inv),
        z15 matches Some(z) ==> !z.without_sign().ge(before.cfg_gear2) && !z.without_sign().ge(
            before.cfg_gear1,
        ),
    ensures
        actions.contains(ActionView::CancelOrder { order_id: id }) <==> exists|i: int|
            0 <= i < entries.len() && calm_drops(
                (#[trigger] entries[i]).order,
                after,
                book,
                inv,
                entries,
                ticker,
            ) && entries[i].order.order_id@ == id,
{
    lemma_standing(entries, ticker, book);
    lemma_sides_differ();
    let next = lemma_calm_tick(
        before,
        after,
        book,
        z15,
        z60,
        spread_ema,
        time_to_expiry,
        inv,
        entries,
        ticker,
        now,
        actions,
    );
    let mid = HalfCents {
        halves: (100 + book.yes_bids.best_bid - book.no_bids.best_bid) as i64,
    };
    let band = Band::of_spec(mid);
    let a = next.calm_cancels(&book, inv, entries, ticker);
    let y = next.calm_yes(&book, band, inv, entries, ticker);
    let n = next.calm_no(&book, band, inv, entries, ticker);
    lemma_sold_first(actions.take(actions.len() - (a + y + n).len()), a + y + n);
    let c = ActionView::CancelOrder { order_id: id };
    let p1 = |e: OrderEntry| crosses(e.order, ticker, book.bid(), book.ask());
    let p2 = |e: OrderEntry| live_on(e.order, ticker, "yes"@);
    let p3 = |e: OrderEntry| live_on(e.order, ticker, "no"@);
    law_cancels(entries, p1, id);
    law_cancels(entries, p2, id);
    law_cancels(entries, p3, id);
    let c1 = cancels(entries, p1);
    let c2 = if inv >= before.cfg_max_inventory {
        cancels(entries, p2)
    } else {
        seq![]
    };
    let c3 = if inv <= -before.cfg_max_inventory {
        cancels(entries, p3)
    } else {
        seq![]
    };
    assert(a =~= c1 + c2 + c3);
    lemma_contains_in_parts(c1, c2, c3, c);
    lemma_contains_in_parts(a, y, n, c);
    if y.contains(c) {
        let k = y.index_of(c);
        assert(y[k] == c);
        assert(y == cancels(entries, p2));
    }
    if n.contains(c) {
        let k = n.index_of(c);
        assert(n[k] == c);
        assert(n == cancels(entries, p3));
    }
    if actions.contains(c) {
        let p = if c1.contains(c) {
            p1
        } else if c2.contains(c) || y.contains(c) {
            p2
        } else {
            p3
        };
        let j = choose|j: int|
            0 <= j < entries.len() && p(entries[j]) && (#[trigger] entries[j]).order.order_id@
                == id;
        assert(calm_drops(entries[j].order, after, book, inv, entries, ticker));
    }
    if exists|i: int|
        0 <= i < entries.len() && calm_drops(
            (#[trigger] entries[i]).order,
            after,
            book,
            inv,
            entries,
            ticker,
        ) && entries[i].order.order_id@ == id {
        let j = choose|i: int|
            0 <= i < entries.len() && calm_drops(
                (#[trigger] entries[i]).order,
                after,
                book,
                inv,
                entries,
                ticker,
            ) && entries[i].order.order_id@ == id;
        let o = entries[j].order;
        assert(p1(entries[j]) || p2(entries[j]) || p3(entries[j]));
    }
}

proof fn lemma_contains_in_parts(
    a: Seq<ActionView>,
    b: Seq<ActionView>,
    d: Seq<ActionView>,
    c: ActionView,
)
    ensures
        (a + b + d).contains(c) <==> a.contains(c) || b.contains(c) || d.contains(c),
{
    let all = a + b + d;
    if a.contains(c) {
        assert(all[a.index_of(c)] == c);
    }
    if b.contains(c) {
        assert(all[a.len() + b.index_of(c)] == c);
    }
    if d.contains(c) {
        assert(all[a.len() + b.len() + d.index_of(c)] == c);
    }
    if all.contains(c) {
        let k = all.index_of(c);
        if k < a.len() {
            assert(a[k] == c);
        } else if k < a.len() + b.len() {
            assert(b[k - a.len()] == c);
        } else {
            assert(d[k - a.len() - b.len()] == c);
        }
    }
}

/// A stretched market is followed whatever other event is open: a bid is placed
/// exactly where the price goes up, no event of the yes side goes on, no bid for
/// yes is in the market and the position is below its soft cap; and so for offers.
#[verifier::spinoff_prover]
#[verifier::rlimit(50)]
pub proof fn law_stretched_among_events(
    before: SignalEngine,
    after: SignalEngine,
    book: OrderBook,
    z: Double,
    z60: Option<Double>,
    spread_ema: Double,
    time_to_expiry: i64,
    inv: int,
    entries: Seq<OrderEntry>,
    ticker: Seq<char>,
    now: Timestamp,
    actions: Seq<ActionView>,
)
    requires
        after.ticked(
            &before,
            &book,
            Some(z),
            z60,
            spread_ema,
            time_to_expiry,
            inv,
            entries,
            ticker,
            now,
            actions,
        ),
        book.wf(),
        priced(book),
        trades_freely(before, time_to_expiry, inv),
        !z.without_sign().ge(before.cfg_gear2) && z.without_sign().ge(before.cfg_gear1),
        before.active_yes_event matches Some(e) ==> !e.resolved && e.started_at.nanos <= now.nanos,
        before.active_no_event matches Some(e) ==> !e.resolved && e.started_at.nanos <= now.nanos,
    ensures
        ({
            let t = before.cfg_signal_timeout;
            let yes_free = before.active_yes_event matches Some(e) ==> is_over(
                e,
                true,
                Some(z),
                t,
                entries,
                ticker,
                now,
            );
            let no_free = before.active_no_event matches Some(e) ==> is_over(
                e,
                false,
                Some(z),
                t,
                entries,
                ticker,
                now,
            );
            let up = z.ge(Double { bits: 0 });
            let bid = ActionView::PlaceBid {
                price_cents: book.yes_bids.best_bid as int,
                count: before.cfg_order_size as int,
            };
            let offer = ActionView::PlaceAsk {
                price_cents: 100 - book.no_bids.best_bid,
                count: before.cfg_order_size as int,
            };
            let bids = up && yes_free && !some_bid_for(entries, ticker, "yes"@) && inv
                < before.cfg_max_inventory;
            let offers = !up && no_free && !some_bid_for(entries, ticker, "no"@) && inv
                > -before.cfg_max_inventory;
            &&& bids ==> actions.len() > 0 && actions.last() == bid
            &&& offers ==> actions.len() > 0 && actions.last() == offer
            &&& !bids ==> forall|i: int|
                0 <= i < actions.len() ==> !(#[trigger] actions[i] is PlaceBid)
            &&& !offers ==> forall|i: int|
                0 <= i < actions.len() ==> !(#[trigger] actions[i] is PlaceAsk)
            &&& bids ==> (after.active_yes_event matches Some(e) && e.gear == 1 && e.started_at
                == now)
            &&& offers ==> (after.active_no_event matches Some(e) && e.gear == 1 && e.started_at
                == now)
            &&& yes_free && !bids ==> after.active_yes_event is None
            &&& no_free && !offers ==> after.active_no_event is None
        }),
{
    law_none_counted(entries, ticker, "yes"@);
    law_none_counted(entries, ticker, "no"@);
}

/// An extreme market is taken against whatever other event is open: an event of
/// the second gear begins exactly where taking is allowed, no event of its side
/// goes on, and there is no position of that side; what is taken comes last.
#[verifier::spinoff_prover]
#[verifier::rlimit(50)]
pub proof fn law_extreme_among_events(
    before: SignalEngine,
    after: SignalEngine,
    book: OrderBook,
    z: Double,
    z60: Option<Double>,
    spread_ema: Double,
    time_to_expiry: i64,
    inv: int,
    entries: Seq<OrderEntry>,
    ticker: Seq<char>,
    now: Timestamp,
    actions: Seq<ActionView>,
)
    requires
        after.ticked(
            &before,
            &book,
            Some(z),
            z60,
            spread_ema,
            time_to_expiry,
            inv,
            entries,
            ticker,
            now,
            actions,
        ),
        book.wf(),
        priced(book),
        trades_freely(before, time_to_expiry, inv),
        z.without_sign().ge(before.cfg_gear2),
        before.active_yes_event matches Some(e) ==> !e.resolved && e.started_at.nanos <= now.nanos,
        before.active_no_event matches Some(e) ==> !e.resolved && e.started_at.nanos <= now.nanos,
    ensures
        ({
            let h = 100 + book.yes_bids.best_bid - book.no_bids.best_bid;
            let may_take = before.cfg_gear2_enabled && !(40 <= h < 80) && (h >= 120
                ==> spread_ema.lt(before.cfg_spread_max_gear2)) && (z60 matches Some(t)
                ==> t.without_sign().lt(before.cfg_z60_noise_cap));
            let t = before.cfg_signal_timeout;
            let yes_free = before.active_yes_event matches Some(e) ==> is_over(
                e,
                true,
                Some(z),
                t,
                entries,
                ticker,
                now,
            );
            let no_free = before.active_no_event matches Some(e) ==> is_over(
                e,
                false,
                Some(z),
                t,
                entries,
                ticker,
                now,
            );
            let up = z.ge(Double { bits: 0 });
            let takes_yes = may_take && !up && inv <= 0 && yes_free;
            let takes_no = may_take && up && inv >= 0 && no_free;
            &&& takes_yes ==> actions.len() > 0 && actions.last() == (ActionView::TakeYes {
                price: 100 - book.no_bids.best_bid,
                count: 1,
            }) && (after.active_yes_event matches Some(e) && e.gear == 2 && e.started_at == now)
            &&& takes_no ==> actions.len() > 0 && actions.last() == (ActionView::TakeNo {
                price: 100 - book.yes_bids.best_bid,
                count: 1,
            }) && (after.active_no_event matches Some(e) && e.gear == 2 && e.started_at == now)
            &&& yes_free && !takes_yes ==> after.active_yes_event is None
            &&& no_free && !takes_no ==> after.active_no_event is None
            &&& forall|i: int|
                0 <= i < actions.len() ==> !(#[trigger] actions[i] is PlaceBid)
                    && !(actions[i] is PlaceAsk)
        }),
{
    law_none_counted(entries, ticker, "yes"@);
    law_none_counted(entries, ticker, "no"@);
    let mid = HalfCents { halves: (book.bid() + book.ask()) as i64 };
    let averaged = SignalEngine { spread_emas: after.spread_emas, ..before };
    assert(averaged.average(Band::of_spec(mid)) == spread_ema);
}

proof fn lemma_calm_takes_nothing(
    engine: SignalEngine,
    book: OrderBook,
    band: Band,
    inv: int,
    entries: Seq<OrderEntry>,
    ticker: Seq<char>,
)
    ensures
        forall|i: int|
            0 <= i < engine.calm(&book, band, inv, entries, ticker).len() ==> !(
            #[trigger] engine.calm(&book, band, inv, entries, ticker)[i] is TakeYes)
                && !(engine.calm(&book, band, inv, entries, ticker)[i] is TakeNo),
{
    let a = engine.calm_cancels(&book, inv, entries, ticker);
    let y = engine.calm_yes(&book, band, inv, entries, ticker);
    let n = engine.calm_no(&book, band, inv, entries, ticker);
    lemma_no_takes(a, y, n);
}

/// Whether every action that takes is one of an extreme market, against the move.
spec fn takes_against(actions: Seq<ActionView>, engine: SignalEngine, z15: Option<Double>) -> bool {
    &&& (exists|i: int| 0 <= i < actions.len() && #[trigger] actions[i] is TakeNo) ==> (
    z15 matches Some(z) && z.without_sign().ge(engine.cfg_gear2) && z.ge(Double { bits: 0 }))
    &&& (exists|i: int| 0 <= i < actions.len() && #[trigger] actions[i] is TakeYes) ==> (
    z15 matches Some(z) && z.without_sign().ge(engine.cfg_gear2) && !z.ge(Double { bits: 0 }))
}

proof fn lemma_regime_takes(
    engine: SignalEngine,
    book: OrderBook,
    z: Double,
    z60: Option<Double>,
    inv: int,
    entries: Seq<OrderEntry>,
    ticker: Seq<char>,
    now: Timestamp,
    mid: HalfCents,
)
    ensures
        takes_against(
            engine.regime_outcome(&book, z, z60, inv, entries, ticker, now, mid).actions,
            engine,
            Some(z),
        ),
{
    lemma_calm_takes_nothing(engine, book, Band::of_spec(mid), inv, entries, ticker);
}

proof fn lemma_settled_takes(
    engine: SignalEngine,
    book: OrderBook,
    yes_over: bool,
    no_over: bool,
    last: Seq<ActionView>,
    z15: Option<Double>,
    i: int,
)
    requires
        takes_against(last, engine, z15),
        0 <= i < (engine.settled(yes_over, no_over, &book).actions + last).len(),
    ensures
        ({
            let a = (engine.settled(yes_over, no_over, &book).actions + last)[i];
            &&& a is TakeNo ==> engine.taken(true) || (z15 matches Some(z) && z.without_sign().ge(
                engine.cfg_gear2,
            ) && z.ge(Double { bits: 0 }))
            &&& a is TakeYes ==> engine.taken(false) || (z15 matches Some(z)
                && z.without_sign().ge(engine.cfg_gear2) && !z.ge(Double { bits: 0 }))
        }),
{
    let first = engine.settled(yes_over, no_over, &book).actions;
    if i >= first.len() {
        assert((first + last)[i] == last[i - first.len()]);
    }
}

/// Nothing is taken without a reason: no is bought at once only to sell what was
/// taken for an event of the yes side, or against a rise in an extreme market; and
/// so for yes.
#[verifier::spinoff_prover]
#[verifier::rlimit(50)]
pub proof fn law_takes_have_a_reason(
    before: SignalEngine,
    after: SignalEngine,
    book: OrderBook,
    z15: Option<Double>,
    z60: Option<Double>,
    spread_ema: Double,
    time_to_expiry: i64,
    inv: int,
    entries: Seq<OrderEntry>,
    ticker: Seq<char>,
    now: Timestamp,
    actions: Seq<ActionView>,
    i: int,
)
    requires
        after.ticked(
            &before,
            &book,
            z15,
            z60,
            spread_ema,
            time_to_expiry,
            inv,
            entries,
            ticker,
            now,
            actions,
        ),
        0 <= i < actions.len(),
    ensures
        actions[i] is TakeNo ==> (before.active_yes_event matches Some(e) && e.gear == 2) || (
        z15 matches Some(z) && z.without_sign().ge(before.cfg_gear2) && z.ge(Double { bits: 0 })
            && trades_freely(before, time_to_expiry, inv)),
        actions[i] is TakeYes ==> (before.active_no_event matches Some(e) && e.gear == 2) || (
        z15 matches Some(z) && z.without_sign().ge(before.cfg_gear2) && !z.ge(Double { bits: 0 })
            && trades_freely(before, time_to_expiry, inv)),
{
    if book.initialized && book.two_sided() {
        let mid = HalfCents { halves: (book.bid() + book.ask()) as i64 };
        let band = Band::of_spec(mid);
        let averaged = SignalEngine { spread_emas: after.spread_emas, ..before };
        let yes_over = averaged.over(true, z15, now, ticker, entries);
        let no_over = averaged.over(false, z15, now, ticker, entries);
        let r = averaged.resolution(z15, now, &book, ticker, entries);
        let next = averaged.with_events(r.yes_event, r.no_event);
        if trades_freely(before, time_to_expiry, inv) {
            match z15 {
                None => {
                    lemma_calm_takes_nothing(next, book, band, inv, entries, ticker);
                    lemma_settled_takes(
                        averaged,
                        book,
                        yes_over,
                        no_over,
                        next.calm(&book, band, inv, entries, ticker),
                        z15,
                        i,
                    );
                },
                Some(z) => {
                    lemma_regime_takes(next, book, z, z60, inv, entries, ticker, now, mid);
                    lemma_settled_takes(
                        averaged,
                        book,
                        yes_over,
                        no_over,
                        next.regime_outcome(
                            &book,
                            z,
                            z60,
                            inv,
                            entries,
                            ticker,
                            now,
                            mid,
                        ).actions,
                        z15,
                        i,
                    );
                },
            }
        }
    }
}

/// At the hard cap, long or short, everything is cancelled; without an event to be
/// settled nothing else is done.
#[verifier::spinoff_prover]
#[verifier::rlimit(50)]
pub proof fn law_at_the_hard_cap(
    before: SignalEngine,
    after: SignalEngine,
    book: OrderBook,
    z15: Option<Double>,
    z60: Option<Double>,
    spread_ema: Double,
    time_to_expiry: i64,
    inv: int,
    entries: Seq<OrderEntry>,
    ticker: Seq<char>,
    now: Timestamp,
    actions: Seq<ActionView>,
)
    requires
        after.ticked(
            &before,
            &book,
            z15,
            z60,
            spread_ema,
            time_to_expiry,
            inv,
            entries,
            ticker,
            now,
            actions,
        ),
        book.wf(),
        priced(book),
        time_to_expiry >= before.cfg_no_trade_before_close,
        time_to_expiry >= before.cfg_no_open_before_close,
        inv >= before.cfg_hard_inventory_cap || -inv >= before.cfg_hard_inventory_cap,
    ensures
        actions.len() > 0 && actions.last() == ActionView::CancelAll,
        forall|i: int|
            0 <= i < actions.len() ==> !(#[trigger] actions[i] is PlaceBid)
                && !(actions[i] is PlaceAsk),
        before.active_yes_event is None && before.active_no_event is None ==> actions
            == seq![ActionView::CancelAll] && after.active_yes_event is None
            && after.active_no_event is None,
{
    let averaged = SignalEngine { spread_emas: after.spread_emas, ..before };
    let r = averaged.resolution(z15, now, &book, ticker, entries);
    assert(actions == r.actions.push(ActionView::CancelAll));
    if r.actions.len() == 0 {
        assert(actions =~= seq![ActionView::CancelAll]);
    }
}

/// A move is followed on any book: with one order at the best price of its side,
/// where there is a price that does not trade at once, room below the soft cap, no
/// open event and no order of that side in the market; else not at all. The event
/// of the other side goes on as it was.
pub proof fn law_move_followed(
    engine: SignalEngine,
    book: OrderBook,
    band: Band,
    inv: int,
    direction: ZDirection,
    entries: Seq<OrderEntry>,
    ticker: Seq<char>,
    now: Timestamp,
    mid: HalfCents,
)
    requires
        book.wf(),
    ensures
        ({
            let o = engine.stretched(&book, band, inv, direction, entries, ticker, now, mid);
            let yb = book.yes_bids.best_bid;
            let nb = book.no_bids.best_bid;
            let up = direction == ZDirection::Up;
            let event = SignalEvent {
                started_at: now,
                entry_mid: mid,
                gear: 1,
                band,
                resolved: false,
            };
            let bids = inv < engine.cfg_max_inventory && engine.active_yes_event is None
                && !some_bid_for(entries, ticker, "yes"@) && yb >= 1 && nb >= 1 && yb + nb < 100;
            let offers = inv > -engine.cfg_max_inventory && engine.active_no_event is None
                && !some_bid_for(entries, ticker, "no"@) && nb >= 1 && yb + nb < 100;
            &&& up && bids ==> o.actions == seq![
                ActionView::PlaceBid {
                    price_cents: yb as int,
                    count: engine.cfg_order_size as int,
                },
            ] && o.yes_event == Some(event)
            &&& !up && offers ==> o.actions == seq![
                ActionView::PlaceAsk {
                    price_cents: 100 - nb,
                    count: engine.cfg_order_size as int,
                },
            ] && o.no_event == Some(event)
            &&& (up && !bids) || (!up && !offers) ==> o.actions.len() == 0
            &&& !(up && bids) ==> o.yes_event == engine.active_yes_event
            &&& !(!up && offers) ==> o.no_event == engine.active_no_event
        }),
{
    law_none_counted(entries, ticker, "yes"@);
    law_none_counted(entries, ticker, "no"@);
}

/// A move is taken against on any book: one contract at the offer, after the orders
/// of its side are cancelled, where taking is allowed, no event of that side is open
/// and there is no position of that side. An event begins where there is an offer.
pub proof fn law_move_taken_against(
    engine: SignalEngine,
    book: OrderBook,
    band: Band,
    inv: int,
    direction: ZDirection,
    z60: Option<Double>,
    entries: Seq<OrderEntry>,
    ticker: Seq<char>,
    now: Timestamp,
    mid: HalfCents,
)
    requires
        book.wf(),
    ensures
        ({
            let o = engine.extreme(&book, band, inv, direction, z60, entries, ticker, now, mid);
            let yb = book.yes_bids.best_bid;
            let nb = book.no_bids.best_bid;
            let up = direction == ZDirection::Up;
            let event = SignalEvent {
                started_at: now,
                entry_mid: mid,
                gear: 2,
                band,
                resolved: false,
            };
            let wide = (band == Band::To80 && !(match engine.spread_emas@[3] {
                Some(a) => a.lt(engine.cfg_spread_max_gear2),
                None => (Double { bits: 0x3ff0_0000_0000_0000 }).lt(engine.cfg_spread_max_gear2),
            })) || (band == Band::To100 && !(match engine.spread_emas@[4] {
                Some(a) => a.lt(engine.cfg_spread_max_gear2),
                None => (Double { bits: 0x3ff0_0000_0000_0000 }).lt(engine.cfg_spread_max_gear2),
            }));
            let may_take = engine.cfg_gear2_enabled && band != Band::To40 && !wide && (
            z60 matches Some(t) ==> t.without_sign().lt(engine.cfg_z60_noise_cap));
            let takes_yes = may_take && !up && engine.active_yes_event is None && inv <= 0;
            let takes_no = may_take && up && engine.active_no_event is None && inv >= 0;
            &&& takes_yes && nb > 0 ==> o.yes_event == Some(event) && cancels_then(
                o.actions,
                entries,
                ticker,
                "yes"@,
                ActionView::TakeYes { price: 100 - nb, count: 1 },
            )
            &&& takes_no && yb > 0 ==> o.no_event == Some(event) && cancels_then(
                o.actions,
                entries,
                ticker,
                "no"@,
                ActionView::TakeNo { price: 100 - yb, count: 1 },
            )
            &&& (takes_yes && nb <= 0) || (takes_no && yb <= 0) ==> {
                forall|i: int|
                    0 <= i < o.actions.len() ==> #[trigger] o.actions[i] is CancelOrder
            }
            &&& !takes_yes && !takes_no ==> o.actions.len() == 0
            &&& !(takes_yes && nb > 0) ==> o.yes_event == engine.active_yes_event
            &&& !(takes_no && yb > 0) ==> o.no_event == engine.active_no_event
        }),
{
    let no = ActionView::TakeNo { price: 100 - book.yes_bids.best_bid, count: 1 };
    let yes = ActionView::TakeYes { price: 100 - book.no_bids.best_bid, count: 1 };
    lemma_cancels_then(entries, ticker, "no"@, no);
    lemma_cancels_then(entries, ticker, "yes"@, yes);
    let o = engine.extreme(&book, band, inv, direction, z60, entries, ticker, now, mid);
    let y = cancels(entries, |e: OrderEntry| live_on(e.order, ticker, "yes"@));
    let n = cancels(entries, |e: OrderEntry| live_on(e.order, ticker, "no"@));
    if o.actions.len() > 0 {
        if direction == ZDirection::Up {
            if book.yes_bids.best_bid > 0 {
                assert(o.actions =~= n.push(no));
            } else {
                assert(o.actions =~= n);
            }
        } else {
            if book.no_bids.best_bid > 0 {
                assert(o.actions =~= y.push(yes));
            } else {
                assert(o.actions =~= y);
            }
        }
    }
}

/// A book without a bid for either contract, or without anything left of the dollar
/// between the two, is not quoted.
pub proof fn law_unpriced_not_quoted(
    engine: SignalEngine,
    book: OrderBook,
    band: Band,
    inv: int,
    entries: Seq<OrderEntry>,
    ticker: Seq<char>,
)
    requires
        book.wf(),
        book.yes_bids.best_bid <= 0 || book.no_bids.best_bid <= 0 || book.yes_bids.best_bid
            + book.no_bids.best_bid >= 100,
    ensures
        engine.calm(&book, band, inv, entries, ticker).len() == 0,
{
}

} // verus!
