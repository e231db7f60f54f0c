//! What holds of every decision of the signal engine.

use vstd::prelude::*;

use crate::double::Double;
use crate::market_data::{HalfCents, OrderBook};
use crate::risk::abs;
use crate::signal::{
    cancels, close_no, close_yes, crosses, live_buys, live_in, live_on, market_cancels, side_cancels, standing_buys,
    ActionView, Band, Regime, SignalEngine, ZDirection,
};
use crate::time::Timestamp;
use crate::tracker::OrderEntry;

verus! {

/// Whether an action keeps to the book: bids stay below the offer and offers
/// above the bid, at prices from 1 to 99 cents, and what is taken is taken at
/// the offer.
pub open spec fn keeps_to(book: &OrderBook, action: ActionView) -> bool {
    match action {
        ActionView::PlaceBid { price_cents, count } => 1 <= price_cents < book.ask(),
        ActionView::PlaceAsk { price_cents, count } => book.bid() < price_cents <= 99,
        ActionView::TakeYes { price, count } => price == book.ask() && count == 1,
        ActionView::TakeNo { price, count } => price == 100 - book.bid() && count == 1,
        ActionView::CancelOrder { order_id } => true,
        ActionView::CancelAll => true,
    }
}

/// Whether all actions keep to the book.
pub open spec fn all_keep_to(book: &OrderBook, actions: Seq<ActionView>) -> bool {
    forall|i: int| 0 <= i < actions.len() ==> keeps_to(book, #[trigger] actions[i])
}

/// Whether none of the actions places a bid.
pub open spec fn no_bid(actions: Seq<ActionView>) -> bool {
    forall|i: int| 0 <= i < actions.len() ==> !(#[trigger] actions[i] is PlaceBid)
}

/// Whether none of the actions places an offer.
pub open spec fn no_offer(actions: Seq<ActionView>) -> bool {
    forall|i: int| 0 <= i < actions.len() ==> !(#[trigger] actions[i] is PlaceAsk)
}

/// Cancels are cancels.
proof fn lemma_cancels_only(entries: Seq<OrderEntry>, p: spec_fn(OrderEntry) -> bool)
    ensures
        forall|i: int|
            0 <= i < cancels(entries, p).len() ==> #[trigger] cancels(
                entries,
                p,
            )[i] is CancelOrder,
{
}

/// An order is cancelled exactly if it is one of those to be cancelled.
pub proof fn law_cancels(
    entries: Seq<OrderEntry>,
    p: spec_fn(OrderEntry) -> bool,
    id: Seq<char>,
)
    ensures
        cancels(entries, p).contains(ActionView::CancelOrder { order_id: id }) <==> exists|i: int|
            0 <= i < entries.len() && p(entries[i]) && (#[trigger] entries[i]).order.order_id@
                == id,
{
    let c = ActionView::CancelOrder { order_id: id };
    let f = entries.filter(p);
    if cancels(entries, p).contains(c) {
        let k = choose|k: int| 0 <= k < f.len() && cancels(entries, p)[k] == c;
        entries.lemma_filter_pred(p, k);
        entries.lemma_filter_contains_rev(p, f[k]);
        let i = entries.index_of(f[k]);
        assert(entries[i] == f[k]);
    }
    if exists|i: int|
        0 <= i < entries.len() && p(entries[i]) && (#[trigger] entries[i]).order.order_id@ == id {
        let i = choose|i: int|
            0 <= i < entries.len() && p(entries[i]) && (#[trigger] entries[i]).order.order_id@
                == id;
        entries.lemma_filter_contains(p, i);
        let k = f.index_of(entries[i]);
        assert(cancels(entries, p)[k] == c);
    }
}

/// Shortly before the close everything is cancelled and nothing else is done,
/// whatever the book is like.
pub proof fn law_stand_aside(
    before: SignalEngine,
    after: SignalEngine,
    book: OrderBook,
    z15: Option<Double>,
    z60: Option<Double>,
    spread_ema: Double,
    time_to_expiry: i64,
    inv: int,
    entries: Seq<OrderEntry>,
    ticker: Seq<char>,
    now: Timestamp,
    actions: Seq<ActionView>,
)
    requires
        after.ticked(
            &before,
            &book,
            z15,
            z60,
            spread_ema,
            time_to_expiry,
            inv,
            entries,
            ticker,
            now,
            actions,
        ),
        time_to_expiry < before.cfg_no_trade_before_close,
    ensures
        actions == seq![ActionView::CancelAll],
{
}

/// With the position at the hard cap everything is cancelled and no order is
/// placed; where no position that was taken has to be sold, nothing else is done.
pub proof fn law_hard_cap(
    engine: SignalEngine,
    book: OrderBook,
    z15: Option<Double>,
    z60: Option<Double>,
    time_to_expiry: i64,
    inv: int,
    entries: Seq<OrderEntry>,
    ticker: Seq<char>,
    now: Timestamp,
    mid: HalfCents,
)
    requires
        time_to_expiry >= engine.cfg_no_trade_before_close,
        time_to_expiry >= engine.cfg_no_open_before_close,
        abs(inv) >= engine.cfg_hard_inventory_cap,
    ensures
        ({
            let actions = engine.decision(
                &book,
                z15,
                z60,
                time_to_expiry,
                inv,
                entries,
                ticker,
                now,
                mid,
            ).actions;
            &&& actions.contains(ActionView::CancelAll)
            &&& no_bid(actions)
            &&& no_offer(actions)
            &&& !(engine.taken(true) && engine.over(true, z15, now, ticker, entries)) && !(
            engine.taken(false) && engine.over(false, z15, now, ticker, entries)) ==> actions
                == seq![ActionView::CancelAll]
        }),
{
    let first = engine.resolution(z15, now, &book, ticker, entries).actions;
    let actions = first.push(ActionView::CancelAll);
    assert(actions.last() == ActionView::CancelAll);
    if first.len() == 0 {
        assert(actions =~= seq![ActionView::CancelAll]);
    }
}

/// In the time before the close in which nothing is opened any more, no order
/// is placed, every live order is cancelled, and no taken position stays open.
pub proof fn law_nothing_opened(
    engine: SignalEngine,
    book: OrderBook,
    z15: Option<Double>,
    z60: Option<Double>,
    time_to_expiry: i64,
    inv: int,
    entries: Seq<OrderEntry>,
    ticker: Seq<char>,
    now: Timestamp,
    mid: HalfCents,
)
    requires
        engine.cfg_no_trade_before_close <= time_to_expiry < engine.cfg_no_open_before_close,
    ensures
        ({
            let o = engine.decision(
                &book,
                z15,
                z60,
                time_to_expiry,
                inv,
                entries,
                ticker,
                now,
                mid,
            );
            &&& no_bid(o.actions)
            &&& no_offer(o.actions)
            &&& forall|i: int|
                0 <= i < entries.len() && live_in(entries[i].order, ticker) ==> o.actions.contains(
                    ActionView::CancelOrder { order_id: (#[trigger] entries[i]).order.order_id@ },
                )
            &&& o.yes_event matches Some(e) ==> e.gear != 2
            &&& o.no_event matches Some(e) ==> e.gear != 2
        }),
{
    let o = engine.decision(&book, z15, z60, time_to_expiry, inv, entries, ticker, now, mid);
    let p = |e: OrderEntry| live_in(e.order, ticker);
    lemma_cancels_only(entries, p);
    assert forall|i: int| 0 <= i < entries.len() && live_in(entries[i].order, ticker) implies
        o.actions.contains(
        ActionView::CancelOrder { order_id: (#[trigger] entries[i]).order.order_id@ },
    ) by {
        law_cancels(entries, p, entries[i].order.order_id@);
        assert(p(entries[i]));
        let c = ActionView::CancelOrder { order_id: entries[i].order.order_id@ };
        let k = market_cancels(entries, ticker).index_of(c);
        assert(market_cancels(entries, ticker)[k] == c);
        assert(o.actions[k] == c);
    }
}

/// What is quoted in a calm market keeps to the book.
proof fn lemma_calm_keeps_to(
    engine: SignalEngine,
    book: OrderBook,
    band: Band,
    inv: int,
    entries: Seq<OrderEntry>,
    ticker: Seq<char>,
)
    requires
        book.wf(),
        book.two_sided(),
    ensures
        all_keep_to(&book, engine.calm(&book, band, inv, entries, ticker)),
{
    lemma_cancels_only(entries, |e: OrderEntry| live_on(e.order, ticker, "yes"@));
    lemma_cancels_only(entries, |e: OrderEntry| live_on(e.order, ticker, "no"@));
    lemma_cancels_only(
        entries,
        |e: OrderEntry| crosses(e.order, ticker, book.bid(), book.ask()),
    );
    assert(all_keep_to(&book, engine.calm_cancels(&book, inv, entries, ticker)));
    assert(all_keep_to(&book, engine.calm_yes(&book, band, inv, entries, ticker)));
    assert(all_keep_to(&book, engine.calm_no(&book, band, inv, entries, ticker)));
}

/// Whatever is placed or taken keeps to the book.
pub proof fn law_actions_keep_to_book(
    engine: SignalEngine,
    book: OrderBook,
    z15: Option<Double>,
    z60: Option<Double>,
    time_to_expiry: i64,
    inv: int,
    entries: Seq<OrderEntry>,
    ticker: Seq<char>,
    now: Timestamp,
    mid: HalfCents,
)
    requires
        book.wf(),
        book.two_sided(),
    ensures
        all_keep_to(
            &book,
            engine.decision(
                &book,
                z15,
                z60,
                time_to_expiry,
                inv,
                entries,
                ticker,
                now,
                mid,
            ).actions,
        ),
{
    let band = Band::of_spec(mid);
    lemma_cancels_only(entries, |e: OrderEntry| live_on(e.order, ticker, "yes"@));
    lemma_cancels_only(entries, |e: OrderEntry| live_on(e.order, ticker, "no"@));
    lemma_cancels_only(entries, |e: OrderEntry| live_in(e.order, ticker));
    let first = engine.resolution(z15, now, &book, ticker, entries);
    let next = engine.with_events(first.yes_event, first.no_event);
    lemma_calm_keeps_to(next, book, band, inv, entries, ticker);
    assert(all_keep_to(&book, first.actions));
    if let Some(z) = z15 {
        assert(all_keep_to(
            &book,
            next.regime_outcome(&book, z, z60, inv, entries, ticker, now, mid).actions,
        ));
    }
}

/// In a calm market a position at its soft cap is not made larger.
proof fn lemma_calm_soft_cap(
    engine: SignalEngine,
    book: OrderBook,
    band: Band,
    inv: int,
    entries: Seq<OrderEntry>,
    ticker: Seq<char>,
)
    requires
        engine.cfg_max_inventory > 0,
    ensures
        inv >= engine.cfg_max_inventory ==> no_bid(
            engine.calm(&book, band, inv, entries, ticker),
        ),
        inv <= -engine.cfg_max_inventory ==> no_offer(
            engine.calm(&book, band, inv, entries, ticker),
        ),
{
    lemma_cancels_only(entries, |e: OrderEntry| live_on(e.order, ticker, "yes"@));
    lemma_cancels_only(entries, |e: OrderEntry| live_on(e.order, ticker, "no"@));
    lemma_cancels_only(
        entries,
        |e: OrderEntry| crosses(e.order, ticker, book.bid(), book.ask()),
    );
    let first = engine.calm_cancels(&book, inv, entries, ticker);
    let yes = engine.calm_yes(&book, band, inv, entries, ticker);
    let no = engine.calm_no(&book, band, inv, entries, ticker);
    if inv >= engine.cfg_max_inventory {
        assert(no_bid(first));
        assert(no_bid(yes));
        assert(no_bid(no));
    }
    if inv <= -engine.cfg_max_inventory {
        assert(no_offer(first));
        assert(no_offer(yes));
        assert(no_offer(no));
    }
}

/// In no regime a position at its soft cap is made larger by an order.
proof fn lemma_regime_soft_cap(
    engine: SignalEngine,
    book: OrderBook,
    z: Double,
    z60: Option<Double>,
    inv: int,
    entries: Seq<OrderEntry>,
    ticker: Seq<char>,
    now: Timestamp,
    mid: HalfCents,
)
    requires
        engine.cfg_max_inventory > 0,
    ensures
        ({
            let actions = engine.regime_outcome(
                &book,
                z,
                z60,
                inv,
                entries,
                ticker,
                now,
                mid,
            ).actions;
            &&& inv >= engine.cfg_max_inventory ==> no_bid(actions)
            &&& inv <= -engine.cfg_max_inventory ==> no_offer(actions)
        }),
{
    lemma_cancels_only(entries, |e: OrderEntry| live_on(e.order, ticker, "yes"@));
    lemma_cancels_only(entries, |e: OrderEntry| live_on(e.order, ticker, "no"@));
    lemma_calm_soft_cap(engine, book, Band::of_spec(mid), inv, entries, ticker);
}

/// Actions that place no order add none to those that follow them.
proof fn lemma_joined(first: Seq<ActionView>, last: Seq<ActionView>)
    requires
        no_bid(first),
        no_offer(first),
    ensures
        no_bid(last) ==> no_bid(first + last),
        no_offer(last) ==> no_offer(first + last),
{
}

/// With a long position at the soft cap no bid is placed, and with a short one no offer.
pub proof fn law_soft_cap(
    engine: SignalEngine,
    book: OrderBook,
    z15: Option<Double>,
    z60: Option<Double>,
    time_to_expiry: i64,
    inv: int,
    entries: Seq<OrderEntry>,
    ticker: Seq<char>,
    now: Timestamp,
    mid: HalfCents,
)
    requires
        engine.cfg_max_inventory > 0,
    ensures
        ({
            let actions = engine.decision(
                &book,
                z15,
                z60,
                time_to_expiry,
                inv,
                entries,
                ticker,
                now,
                mid,
            ).actions;
            &&& inv >= engine.cfg_max_inventory ==> no_bid(actions)
            &&& inv <= -engine.cfg_max_inventory ==> no_offer(actions)
        }),
{
    let first = engine.resolution(z15, now, &book, ticker, entries);
    let next = engine.with_events(first.yes_event, first.no_event);
    lemma_cancels_only(entries, |e: OrderEntry| live_in(e.order, ticker));
    if time_to_expiry >= engine.cfg_no_trade_before_close && time_to_expiry
        >= engine.cfg_no_open_before_close && abs(inv) < engine.cfg_hard_inventory_cap {
        match z15 {
            None => {
                let last = next.calm(&book, Band::of_spec(mid), inv, entries, ticker);
                lemma_calm_soft_cap(next, book, Band::of_spec(mid), inv, entries, ticker);
                lemma_joined(first.actions, last);
            },
            Some(z) => {
                let last = next.regime_outcome(&book, z, z60, inv, entries, ticker, now, mid);
                lemma_regime_soft_cap(next, book, z, z60, inv, entries, ticker, now, mid);
                lemma_joined(first.actions, last.actions);
            },
        }
    }
}

/// A live order is among those that are cancelled on its side.
proof fn lemma_side_cancelled(
    entries: Seq<OrderEntry>,
    ticker: Seq<char>,
    side: Seq<char>,
    i: int,
)
    requires
        0 <= i < entries.len(),
        live_in(entries[i].order, ticker),
        entries[i].order.side@ == side,
    ensures
        side_cancels(entries, ticker, side).contains(
            ActionView::CancelOrder { order_id: entries[i].order.order_id@ },
        ),
{
    let p = |e: OrderEntry| live_on(e.order, ticker, side);
    law_cancels(entries, p, entries[i].order.order_id@);
    assert(p(entries[i]));
}

/// In a calm market a position at its soft cap has the live orders that would
/// make it larger cancelled.
pub proof fn law_soft_cap_cancels(
    engine: SignalEngine,
    book: OrderBook,
    band: Band,
    inv: int,
    entries: Seq<OrderEntry>,
    ticker: Seq<char>,
    i: int,
)
    requires
        book.two_sided(),
        0 <= i < entries.len(),
        live_in(entries[i].order, ticker),
        (inv >= engine.cfg_max_inventory && entries[i].order.side@ == "yes"@) || (inv
            <= -engine.cfg_max_inventory && entries[i].order.side@ == "no"@),
    ensures
        engine.calm(&book, band, inv, entries, ticker).contains(
            ActionView::CancelOrder { order_id: entries[i].order.order_id@ },
        ),
{
    let side = entries[i].order.side@;
    let c = ActionView::CancelOrder { order_id: entries[i].order.order_id@ };
    lemma_side_cancelled(entries, ticker, side, i);
    let s = side_cancels(entries, ticker, side);
    let k = s.index_of(c);
    assert(s[k] == c);
    let crossing = cancels(
        entries,
        |e: OrderEntry| crosses(e.order, ticker, book.bid(), book.ask()),
    );
    let yes = if inv >= engine.cfg_max_inventory {
        side_cancels(entries, ticker, "yes"@)
    } else {
        seq![]
    };
    let all = engine.calm(&book, band, inv, entries, ticker);
    if inv >= engine.cfg_max_inventory && side == "yes"@ {
        assert(all[crossing.len() + k] == c);
    } else {
        assert(all[crossing.len() + yes.len() + k] == c);
    }
}

/// A ladder never has more rungs than are set, those already standing included.
pub proof fn law_ladder_length(
    engine: SignalEngine,
    book: OrderBook,
    band: Band,
    inv: int,
    entries: Seq<OrderEntry>,
    ticker: Seq<char>,
)
    requires
        book.wf(),
        book.two_sided(),
    ensures
        ({
            let yes = engine.calm_yes(&book, band, inv, entries, ticker);
            let standing = standing_buys(entries, ticker, "yes"@, book.bid(), book.ask());
            no_bid(yes) || yes.len() + (if inv >= engine.cfg_max_inventory {
                0
            } else {
                standing
            }) <= engine.rungs(band)
        }),
        ({
            let no = engine.calm_no(&book, band, inv, entries, ticker);
            let standing = standing_buys(entries, ticker, "no"@, book.bid(), book.ask());
            no_offer(no) || no.len() + (if inv <= -engine.cfg_max_inventory {
                0
            } else {
                standing
            }) <= engine.rungs(band)
        }),
{
    lemma_cancels_only(
        entries,
        |e: OrderEntry| live_on(e.order, ticker, "yes"@),
    );
    lemma_cancels_only(
        entries,
        |e: OrderEntry| live_on(e.order, ticker, "no"@),
    );
}

/// Whether a tick can end an event for which something was taken: there is a
/// middle price to trade by, or nothing is traded any more.
pub open spec fn can_end_taken(
    engine: SignalEngine,
    book: OrderBook,
    time_to_expiry: i64,
) -> bool {
    (book.initialized && book.two_sided()) || time_to_expiry < engine.cfg_no_trade_before_close
}

/// A signal that has lasted as long as signals may is over, in every phase, with
/// a score or without one: an event that is open after the tick began with the
/// tick. Only an event for which something was taken outlasts a book without a
/// middle price.
pub proof fn law_signal_timeout(
    before: SignalEngine,
    after: SignalEngine,
    book: OrderBook,
    z15: Option<Double>,
    z60: Option<Double>,
    spread_ema: Double,
    time_to_expiry: i64,
    inv: int,
    entries: Seq<OrderEntry>,
    ticker: Seq<char>,
    now: Timestamp,
    actions: Seq<ActionView>,
)
    requires
        after.ticked(
            &before,
            &book,
            z15,
            z60,
            spread_ema,
            time_to_expiry,
            inv,
            entries,
            ticker,
            now,
            actions,
        ),
    ensures
        (before.active_yes_event matches Some(e) && now.since(e.started_at)
            >= before.cfg_signal_timeout && (e.gear != 2 || can_end_taken(
            before,
            book,
            time_to_expiry,
        ))) ==> (after.active_yes_event matches Some(n) ==> n.started_at == now),
        (before.active_no_event matches Some(e) && now.since(e.started_at)
            >= before.cfg_signal_timeout && (e.gear != 2 || can_end_taken(
            before,
            book,
            time_to_expiry,
        ))) ==> (after.active_no_event matches Some(n) ==> n.started_at == now),
{
}

/// A signal is over once the score has crossed back over zero, in every phase;
/// and until shortly before the close what was taken for it is sold first of all.
pub proof fn law_score_crosses_zero(
    before: SignalEngine,
    after: SignalEngine,
    book: OrderBook,
    z: Double,
    z60: Option<Double>,
    spread_ema: Double,
    time_to_expiry: i64,
    inv: int,
    entries: Seq<OrderEntry>,
    ticker: Seq<char>,
    now: Timestamp,
    actions: Seq<ActionView>,
)
    requires
        after.ticked(
            &before,
            &book,
            Some(z),
            z60,
            spread_ema,
            time_to_expiry,
            inv,
            entries,
            ticker,
            now,
            actions,
        ),
    ensures
        (before.active_yes_event matches Some(e) && e.crossed_back(true, z) && (e.gear != 2
            || can_end_taken(before, book, time_to_expiry))) ==> (
        after.active_yes_event matches Some(n) ==> n.started_at == now),
        (before.active_no_event matches Some(e) && e.crossed_back(false, z) && (e.gear != 2
            || can_end_taken(before, book, time_to_expiry))) ==> (
        after.active_no_event matches Some(n) ==> n.started_at == now),
        ({
            &&& book.initialized && book.two_sided()
            &&& time_to_expiry >= before.cfg_no_trade_before_close
            &&& time_to_expiry >= before.cfg_no_open_before_close
        }) ==> {
            &&& (before.active_yes_event matches Some(e) && e.crossed_back(true, z) && e.gear == 2
                && !e.resolved) ==> close_yes(&book).is_prefix_of(actions)
            &&& (before.active_no_event matches Some(e) && e.crossed_back(false, z) && e.gear == 2
                && !e.resolved && before.active_yes_event is None) ==> close_no(
                &book,
            ).is_prefix_of(actions)
        },
{
}

/// A signal lasts as long as nothing ends it: while the score stays on the side
/// of zero on which it began, the time is not up and an order that it was to
/// place is at work, the event is kept; only that what was taken is sold in the
/// time in which nothing is opened any more.
pub proof fn law_signal_lasts(
    before: SignalEngine,
    after: SignalEngine,
    book: OrderBook,
    z: Double,
    z60: Option<Double>,
    spread_ema: Double,
    time_to_expiry: i64,
    inv: int,
    entries: Seq<OrderEntry>,
    ticker: Seq<char>,
    now: Timestamp,
    actions: Seq<ActionView>,
)
    requires
        after.ticked(
            &before,
            &book,
            Some(z),
            z60,
            spread_ema,
            time_to_expiry,
            inv,
            entries,
            ticker,
            now,
            actions,
        ),
        time_to_expiry < before.cfg_no_trade_before_close || time_to_expiry
            >= before.cfg_no_open_before_close || !(before.taken(true) || before.taken(false)),
    ensures
        (before.active_yes_event matches Some(e) && !e.resolved && !e.crossed_back(true, z)
            && now.since(e.started_at) < before.cfg_signal_timeout && (e.gear != 1 || live_buys(
            entries,
            ticker,
            "yes"@,
        ) > 0)) ==> after.active_yes_event == before.active_yes_event,
        (before.active_no_event matches Some(e) && !e.resolved && !e.crossed_back(false, z)
            && now.since(e.started_at) < before.cfg_signal_timeout && (e.gear != 1 || live_buys(
            entries,
            ticker,
            "no"@,
        ) > 0)) ==> after.active_no_event == before.active_no_event,
{
}

/// The score on which an event begins has not crossed back over zero for it,
/// unless it is zero itself.
pub proof fn law_events_begin_uncrossed(
    engine: SignalEngine,
    book: OrderBook,
    z: Double,
    z60: Option<Double>,
    inv: int,
    entries: Seq<OrderEntry>,
    ticker: Seq<char>,
    now: Timestamp,
    mid: HalfCents,
)
    requires
        !z.nan(),
        z.rank() != 0,
    ensures
        ({
            let o = engine.regime_outcome(&book, z, z60, inv, entries, ticker, now, mid);
            &&& o.yes_event is Some && o.yes_event != engine.active_yes_event
                ==> !o.yes_event.unwrap().crossed_back(true, z)
            &&& o.no_event is Some && o.no_event != engine.active_no_event
                ==> !o.no_event.unwrap().crossed_back(false, z)
        }),
{
}

/// Events that are kept are not resolved, and are of the first or second gear.
pub proof fn law_events_kept(
    engine: SignalEngine,
    book: OrderBook,
    z15: Option<Double>,
    z60: Option<Double>,
    time_to_expiry: i64,
    inv: int,
    entries: Seq<OrderEntry>,
    ticker: Seq<char>,
    now: Timestamp,
    mid: HalfCents,
)
    requires
        engine.active_yes_event matches Some(e) ==> !e.resolved && 1 <= e.gear <= 2,
        engine.active_no_event matches Some(e) ==> !e.resolved && 1 <= e.gear <= 2,
    ensures
        ({
            let o = engine.decision(
                &book,
                z15,
                z60,
                time_to_expiry,
                inv,
                entries,
                ticker,
                now,
                mid,
            );
            &&& o.yes_event matches Some(e) ==> !e.resolved && 1 <= e.gear <= 2
            &&& o.no_event matches Some(e) ==> !e.resolved && 1 <= e.gear <= 2
        }),
{
}

/// A position is entered by taking only in an extreme market without a long
/// trend, where taking is allowed in the band.
pub proof fn law_taking_needs_quiet(
    engine: SignalEngine,
    book: OrderBook,
    z15: Option<Double>,
    z60: Option<Double>,
    time_to_expiry: i64,
    inv: int,
    entries: Seq<OrderEntry>,
    ticker: Seq<char>,
    now: Timestamp,
    mid: HalfCents,
)
    ensures
        ({
            let o = engine.decision(
                &book,
                z15,
                z60,
                time_to_expiry,
                inv,
                entries,
                ticker,
                now,
                mid,
            );
            let may_take = engine.trendless(z60) && engine.taking_allowed(Band::of_spec(mid)) && (
            z15 matches Some(z) && engine.regime(z) == Regime::Extreme);
            &&& (o.yes_event matches Some(e) && e.gear == 2 && o.yes_event
                != engine.active_yes_event) ==> may_take
            &&& (o.no_event matches Some(e) && e.gear == 2 && o.no_event
                != engine.active_no_event) ==> may_take
        }),
{
}

/// Each band but the last is twenty cents wide, and every price is in one.
pub proof fn law_bands(mid: HalfCents)
    requires
        mid.wf(),
    ensures
        ({
            let n = Band::of_spec(mid).number();
            &&& 0 <= n <= 4
            &&& 40 * n <= mid.halves
            &&& n < 4 ==> mid.halves < 40 * (n + 1)
        }),
{
}

/// The spread of one band is averaged without touching that of another.
pub proof fn law_averages_apart(
    before: SignalEngine,
    after: SignalEngine,
    band: Band,
    ema: Double,
    other: Band,
)
    requires
        after.is_averaged(&before, band, ema),
    ensures
        after.average(band) == ema,
        other != band ==> after.average(other) == before.average(other),
{
}

/// In a stretched market orders follow the move: bids as it goes up, offers as
/// it goes down, one at a time.
pub proof fn law_stretched_follows(
    engine: SignalEngine,
    book: OrderBook,
    band: Band,
    inv: int,
    direction: ZDirection,
    entries: Seq<OrderEntry>,
    ticker: Seq<char>,
    now: Timestamp,
    mid: HalfCents,
)
    ensures
        ({
            let actions = engine.stretched(
                &book,
                band,
                inv,
                direction,
                entries,
                ticker,
                now,
                mid,
            ).actions;
            &&& actions.len() <= 1
            &&& actions.len() == 1 && direction == ZDirection::Up ==> actions[0] is PlaceBid
            &&& actions.len() == 1 && direction == ZDirection::Down ==> actions[0] is PlaceAsk
        }),
{
}

} // verus!
