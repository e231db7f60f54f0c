use kalshi_mm::config::Config;
use kalshi_mm::double::Double;
use kalshi_mm::execution::{OrderStatus, PlaceOrderResponse};
use kalshi_mm::market_data::Side;
use kalshi_mm::risk::{HaltCause, RiskState};
use kalshi_mm::session::{
    after_cancel_batch, cancel_all_step, count_resting, market_step, order_status, side_name,
    too_close_to_expiry, Batch, CancelStep, HaltStep, MarketStep, MessageStep, Phase, Session, Task,
};
use kalshi_mm::signal::StrategyAction;
use kalshi_mm::time::{Timestamp, MILLISECOND, SECOND};
use kalshi_mm::ws::{after_stream, WsMessage};

fn at(secs: u64) -> Timestamp {
    Timestamp { nanos: secs * SECOND }
}

fn d(x: f64) -> Double {
    Double { bits: x.to_bits() }
}

fn session() -> Session {
    Session::new(&Config::default(), "T", 0, at(0))
}

fn snapshot(ticker: &str, bid: i64, ask: i64, seq: u64) -> WsMessage {
    WsMessage::OrderbookSnapshot {
        market_ticker: ticker.to_string(),
        yes_levels: vec![(bid, 10)],
        no_levels: vec![(100 - ask, 10)],
        seq,
    }
}

fn delta(side: Side, price: i64, delta: i64, seq: u64) -> WsMessage {
    WsMessage::OrderbookDelta { market_ticker: "T".to_string(), side, price, delta, seq }
}

fn fill(order_id: &str, side: &str, yes_price: i64, count: i64, taker: bool, pos: i64) -> WsMessage {
    WsMessage::Fill {
        trade_id: "t".to_string(),
        order_id: order_id.to_string(),
        market_ticker: "T".to_string(),
        side: side.to_string(),
        yes_price,
        count,
        action: "buy".to_string(),
        is_taker: taker,
        post_position: pos,
    }
}

fn told(order_id: &str, status: &str) -> WsMessage {
    WsMessage::UserOrder {
        order_id: order_id.to_string(),
        client_order_id: None,
        ticker: "T".to_string(),
        status: status.to_string(),
        side: "yes".to_string(),
        remaining_count_fp: "0.00".to_string(),
        fill_count_fp: "0.00".to_string(),
    }
}

fn placed(id: &str) -> Result<PlaceOrderResponse, String> {
    Ok(PlaceOrderResponse {
        order_id: id.to_string(),
        client_order_id: format!("c-{}", id),
        status: "resting".to_string(),
    })
}

fn ready() -> Session {
    let mut s = session();
    assert_eq!(s.on_message(&snapshot("T", 45, 48, 1), 0, false, at(1)), MessageStep::BookChanged);
    s
}

#[test]
fn new_session() {
    let s = Session::new(&Config::default(), "T", -42, at(7));
    assert_eq!(s.ticker, "T");
    assert_eq!(s.risk.daily_pnl_cents, -42);
    assert_eq!(s.risk.inventory, 0);
    assert!(!s.book.initialized && !s.ws_connected && !s.halt_logged);
    assert_eq!(s.last_gc, at(7));
    assert!(s.closing_soon(210));
    let mut t = session();
    t.position_loaded(-3);
    assert_eq!(t.risk.inventory, -3);
    assert!(!s.closing_soon(211));
}

#[test]
fn first_message_means_a_connection() {
    let mut s = session();
    assert_eq!(s.on_message(&WsMessage::Unknown("x".to_string()), 0, false, at(1)), MessageStep::Quiet);
    assert!(s.ws_connected && s.risk.ws_connected);
}

#[test]
fn books_of_other_markets_are_passed_over() {
    let mut s = session();
    assert_eq!(s.on_message(&snapshot("U", 45, 48, 1), 0, false, at(1)), MessageStep::Quiet);
    assert!(!s.book.initialized);
    let mut r = ready();
    let other = WsMessage::OrderbookDelta {
        market_ticker: "U".to_string(),
        side: Side::Yes,
        price: 50,
        delta: 1,
        seq: 77,
    };
    assert_eq!(r.on_message(&other, 0, false, at(2)), MessageStep::Quiet);
    assert_eq!(r.book.seq, 1);
}

#[test]
fn snapshots_and_deltas_change_the_book() {
    let mut s = ready();
    assert!(s.book.initialized);
    assert_eq!((s.book.best_yes_bid(), s.book.best_yes_ask()), (45, 48));
    assert_eq!(s.risk.last_book_update, at(1));
    assert_eq!(s.on_message(&delta(Side::Yes, 46, 3, 2), 0, false, at(2)), MessageStep::BookChanged);
    assert_eq!((s.book.best_yes_bid(), s.book.seq), (46, 2));
    assert_eq!(s.risk.last_book_update, at(2));
}

#[test]
fn a_gap_halts() {
    let mut s = ready();
    assert_eq!(s.on_message(&delta(Side::Yes, 46, 3, 3), 0, false, at(2)), MessageStep::SequenceGap);
    assert_eq!(s.risk.state, RiskState::Halted);
    assert_eq!(s.book.best_yes_bid(), 45);
}

#[test]
fn numbers_beyond_the_books_are_reported() {
    let mut s = ready();
    assert_eq!(s.on_message(&delta(Side::Yes, 45, i64::MAX, 2), 0, false, at(2)), MessageStep::OutOfRange);
    let big = WsMessage::OrderbookSnapshot {
        market_ticker: "T".to_string(),
        yes_levels: vec![(1, i64::MAX), (2, 1)],
        no_levels: vec![],
        seq: 1,
    };
    assert_eq!(s.on_message(&big, 0, false, at(2)), MessageStep::OutOfRange);
    s.book.seq = u64::MAX;
    assert_eq!(s.on_message(&delta(Side::Yes, 45, 1, 0), 0, false, at(2)), MessageStep::OutOfRange);
    assert_eq!(
        s.on_message(&fill("o", "no", i64::MIN, 1, false, 1), 0, false, at(2)),
        MessageStep::OutOfRange
    );
    assert_eq!(
        s.on_message(&fill("o", "yes", 40, 1, true, 1), i64::MIN, false, at(2)),
        MessageStep::OutOfRange
    );
    assert_eq!(s.risk.inventory, 0);
    assert_eq!(s.book.best_yes_bid(), 45);
}

#[test]
fn fills_are_booked_with_their_fees() {
    let mut s = ready();
    s.order_answered(Side::Yes, 45, 3, placed("o"), at(2));
    assert_eq!(s.on_message(&fill("o", "yes", 45, 1, false, 1), 9, false, at(3)), MessageStep::Quiet);
    assert_eq!((s.risk.inventory, s.risk.daily_pnl_cents, s.total_taker_fees_cents), (1, 0, 0));
    let o = s.tracker.get("o").unwrap();
    assert_eq!((o.remaining, o.status), (2, OrderStatus::PendingNew));
    assert_eq!(s.on_message(&fill("o", "yes", 45, 2, true, 3), 4, false, at(3)), MessageStep::Quiet);
    assert_eq!((s.risk.inventory, s.risk.daily_pnl_cents, s.total_taker_fees_cents), (3, -4, 4));
    assert_eq!(s.tracker.get("o").unwrap().status, OrderStatus::Executed);
    s.on_message(&fill("unknown", "no", 50, 1, false, 2), 0, false, at(3));
    assert_eq!((s.risk.pairs_completed, s.risk.daily_pnl_cents), (1, 1));
}

#[test]
fn hard_cap_raises_one_alarm() {
    let mut s = ready();
    assert_eq!(s.on_message(&fill("o", "yes", 45, 1, false, 6), 0, false, at(3)), MessageStep::Quiet);
    assert_eq!(s.on_message(&fill("o", "yes", 45, 1, false, 7), 0, false, at(3)), MessageStep::Emergency);
    assert_eq!(s.risk.state, RiskState::Halted);
    assert_eq!(s.on_message(&fill("o", "yes", 45, 1, false, 8), 0, true, at(3)), MessageStep::Quiet);
}

#[test]
fn told_statuses() {
    assert_eq!(order_status("resting"), Some(OrderStatus::Resting));
    assert_eq!(order_status("canceled"), Some(OrderStatus::Canceled));
    assert_eq!(order_status("executed"), Some(OrderStatus::Executed));
    assert_eq!(order_status("pending"), None);
    let mut s = ready();
    s.order_answered(Side::Yes, 45, 1, placed("o"), at(2));
    s.on_message(&told("o", "resting"), 0, false, at(3));
    assert_eq!(s.tracker.get("o").unwrap().status, OrderStatus::Resting);
    s.on_message(&told("o", "odd"), 0, false, at(3));
    assert!(s.tracker.get("o").is_some());
    s.on_message(&told("o", "canceled"), 0, false, at(3));
    assert!(s.tracker.get("o").is_none());
}

#[test]
fn broken_streams_silence_the_session() {
    let mut s = ready();
    let other = WsMessage::Error { code: 3, message: "odd".to_string() };
    assert_eq!(s.on_message(&other, 0, false, at(2)), MessageStep::Quiet);
    assert!(s.book.initialized);
    let report = after_stream(Some("reset")).report.unwrap();
    assert_eq!(s.on_message(&report, 0, false, at(2)), MessageStep::Disconnected);
    assert!(!s.ws_connected && !s.risk.ws_connected && !s.book.initialized);
    assert_eq!(s.risk.state, RiskState::Halted);
    s.on_message(&delta(Side::Yes, 46, 3, 2), 0, false, at(2));
    assert_eq!(s.finish_batch(true, 600, at(3)), Phase::NotReady);
    s.on_message(&snapshot("T", 45, 48, 9), 0, false, at(4));
    assert_eq!(s.finish_batch(true, 600, at(4)), Phase::Trade);
}

#[test]
fn batches_are_assessed() {
    let mut s = ready();
    assert_eq!(s.finish_batch(true, 600, at(2)), Phase::Trade);
    assert_eq!(s.risk.state, RiskState::Normal);
    s.risk.inventory = 5;
    assert_eq!(s.finish_batch(false, 600, at(2)), Phase::Trade);
    assert_eq!(s.risk.state, RiskState::Cautious);
}

#[test]
fn halted_sessions_work_their_position_down() {
    let mut s = ready();
    s.risk.inventory = 7;
    let step = HaltStep::WorkDown { side: Side::No, price: 52 };
    assert_eq!(s.finish_batch(false, 600, at(2)), Phase::Halted { first: true, step });
    assert!(s.halt_logged);
    assert_eq!(s.finish_batch(false, 600, at(2)), Phase::Halted { first: false, step });
    s.order_answered(Side::No, 52, 1, placed("n"), at(2));
    assert_eq!(s.finish_batch(false, 600, at(2)), Phase::Halted { first: false, step: HaltStep::Stand });
    let mut t = ready();
    t.risk.inventory = -7;
    let step = HaltStep::WorkDown { side: Side::Yes, price: 45 };
    assert_eq!(t.finish_batch(false, 600, at(2)), Phase::Halted { first: true, step });
    let mut u = ready();
    u.risk.inventory = 7;
    assert_eq!(u.finish_batch(false, 600, at(60)), Phase::Halted { first: true, step: HaltStep::Stand });
    let mut v = ready();
    v.risk.daily_pnl_cents = -500;
    assert_eq!(v.finish_batch(false, 600, at(2)), Phase::Halted { first: true, step: HaltStep::Stand });
    v.risk.daily_pnl_cents = 0;
    assert_eq!(v.finish_batch(false, 600, at(2)), Phase::Trade);
    assert!(!v.halt_logged);
}

#[test]
fn halt_is_lifted_within_the_soft_cap() {
    let mut s = ready();
    s.risk.hard_inventory_cap = 3;
    s.risk.inventory = 4;
    assert_eq!(s.finish_batch(false, 600, at(2)), Phase::Halted { first: true, step: HaltStep::Resume });
    assert_eq!(s.risk.state, RiskState::Normal);
    assert!(!s.halt_logged);
}

#[test]
fn prices_are_noted_when_the_book_changes() {
    let mut s = ready();
    for i in 0..12u64 {
        s.on_message(&delta(Side::Yes, 44, 1, 2 + i), 0, false, at(2 + i));
        assert_eq!(s.finish_batch(true, 600, at(2 + i)), Phase::Trade);
    }
    let (a, b) = s.scores(at(13));
    let a = a.unwrap();
    assert_eq!((a.count, a.sum, a.sum_of_squares), (12, 12 * 93, 12 * 93 * 93));
    assert!(b.is_none());
}

#[test]
fn decisions_are_sorted_into_a_plan() {
    let mut s = ready();
    s.order_answered(Side::Yes, 48, 1, placed("y"), at(2));
    let p = s.decide(None, None, d(3.0), 600, at(3));
    assert_eq!(p.cancels.len(), 1);
    assert!(p.takers.is_empty());
    assert_eq!(p.makers.len(), 4);
    assert!(matches!(p.cancels[0], StrategyAction::CancelOrder { .. }));
    let q = s.decide(None, None, d(3.0), 600, Timestamp { nanos: 2 * SECOND + 499 * MILLISECOND });
    assert_eq!((q.cancels.len(), q.makers.len()), (1, 0));
    let r = s.decide(None, None, d(3.0), 600, Timestamp { nanos: 2 * SECOND + 500 * MILLISECOND });
    assert_eq!(r.makers.len(), 4);
}

#[test]
fn crossing_orders_pause_their_side() {
    let mut s = ready();
    let bid = StrategyAction::PlaceBid { price_cents: 45, count: 1 };
    let ask = StrategyAction::PlaceAsk { price_cents: 48, count: 1 };
    assert!(s.maker_allowed(&bid, at(2)));
    s.order_answered(Side::Yes, 45, 1, Err("Post-only cross".to_string()), at(2));
    assert!(!s.maker_allowed(&bid, at(2)));
    assert!(s.maker_allowed(&ask, at(2)));
    assert!(s.maker_allowed(&StrategyAction::CancelAll, at(2)));
    assert!(!s.maker_allowed(&bid, Timestamp { nanos: 2 * SECOND + 500 * MILLISECOND - 1 }));
    assert!(s.maker_allowed(&bid, Timestamp { nanos: 2 * SECOND + 500 * MILLISECOND }));
    s.order_answered(Side::No, 52, 1, Err("Order failed: 400 Post-only cross".to_string()), at(2));
    assert!(!s.maker_allowed(&ask, at(2)));
    s.order_answered(Side::No, 52, 1, Err("other".to_string()), at(2));
    assert!(!s.maker_allowed(&ask, at(2)));
    s.order_answered(Side::No, 52, 1, placed("n"), at(2));
    assert!(s.maker_allowed(&ask, at(2)));
    assert_eq!(s.last_place_at, Some(at(2)));
}

#[test]
fn placed_orders_are_kept() {
    let mut s = ready();
    s.order_answered(Side::No, 52, 3, placed("n"), at(2));
    let o = s.tracker.get("n").unwrap();
    assert_eq!((o.ticker.as_str(), o.side.as_str(), o.action.as_str()), ("T", "no", "buy"));
    assert_eq!((o.price_cents, o.count, o.remaining), (52, 3, 3));
    assert_eq!((o.status, o.created_at), (OrderStatus::PendingNew, at(2)));
    assert_eq!(o.client_order_id, "c-n");
    assert_eq!(count_resting(&s.tracker, "T", "no"), 1);
    s.order_answered(Side::No, 52, 3, Err("x".to_string()), at(9));
    assert_eq!(s.tracker.orders.len(), 1);
    assert_eq!(s.last_place_at, Some(at(2)));
}

#[test]
fn actions_set_tasks() {
    let mut s = ready();
    match s.execute_action(StrategyAction::PlaceAsk { price_cents: 48, count: 2 }) {
        Task::Place { side, price, count } => assert_eq!((side, price, count), (Side::No, 52, 2)),
        other => panic!("{:?}", other),
    }
    match s.execute_action(StrategyAction::PlaceBid { price_cents: 45, count: 1 }) {
        Task::Place { side, price, count } => assert_eq!((side, price, count), (Side::Yes, 45, 1)),
        other => panic!("{:?}", other),
    }
    match s.execute_action(StrategyAction::TakeNo { price: 55, count: 1 }) {
        Task::Take { side, price, count } => assert_eq!((side, price, count), (Side::No, 55, 1)),
        other => panic!("{:?}", other),
    }
    match s.execute_action(StrategyAction::TakeYes { price: 48, count: 1 }) {
        Task::Take { side, price, .. } => assert_eq!((side, price), (Side::Yes, 48)),
        other => panic!("{:?}", other),
    }
    match s.execute_action(StrategyAction::CancelOrder { order_id: "o".to_string() }) {
        Task::Cancel { order_id } => assert_eq!(order_id, "o"),
        other => panic!("{:?}", other),
    }
    assert!(matches!(s.execute_action(StrategyAction::CancelAll), Task::Skip));
    s.order_answered(Side::Yes, 45, 1, placed("a"), at(2));
    s.order_answered(Side::Yes, 44, 1, placed("b"), at(2));
    assert!(matches!(
        s.execute_action(StrategyAction::PlaceBid { price_cents: 43, count: 1 }),
        Task::Skip
    ));
    assert!(matches!(s.place_order(Side::No, 52, 1), Task::Place { .. }));
    match s.execute_action(StrategyAction::CancelAll) {
        Task::CancelAll { ids } => assert_eq!(ids, ["a", "b"]),
        other => panic!("{:?}", other),
    }
}

#[test]
fn cancelled_orders_are_forgotten() {
    let mut s = ready();
    for id in ["a", "b", "c"] {
        s.order_answered(Side::Yes, 45, 1, placed(id), at(2));
    }
    s.order_cancelled("b");
    assert!(s.tracker.get("b").is_none());
    let ids = s.orders_at_work();
    assert_eq!(ids, ["a", "c"]);
    s.forget_orders(&ids);
    assert!(s.orders_at_work().is_empty());
    assert!(s.tracker.orders.is_empty());
    assert_eq!(s.tracker.cached_bid_id, None);
}

#[test]
fn everything_is_cancelled_in_three_attempts() {
    assert_eq!(cancel_all_step(1, true), CancelStep::Done);
    assert_eq!(cancel_all_step(1, false), CancelStep::Retry { pause_ms: 100 });
    assert_eq!(cancel_all_step(2, false), CancelStep::Retry { pause_ms: 100 });
    assert_eq!(cancel_all_step(3, false), CancelStep::GiveUp { pause_ms: 100 });
}

#[test]
fn garbage_is_collected_every_ten_seconds() {
    let mut s = ready();
    s.order_answered(Side::Yes, 45, 1, placed("o"), at(0));
    s.tracker.update_status("o", OrderStatus::Executed);
    s.last_gc = at(295);
    s.collect_garbage(at(305));
    assert!(s.tracker.get("o").is_some());
    s.collect_garbage(at(306));
    assert!(s.tracker.get("o").is_none());
    assert_eq!(s.last_gc, at(306));
}

#[test]
fn markets_need_time_to_start() {
    assert!(too_close_to_expiry(240, 210));
    assert!(!too_close_to_expiry(241, 210));
    assert!(too_close_to_expiry(i64::MAX, i64::MAX));
    assert_eq!(side_name(Side::Yes), "yes");
    assert_eq!(side_name(Side::No), "no");
}

#[test]
fn profit_is_pairs_less_fees() {
    let mut s = Session::new(&Config::default(), "T", 30, at(0));
    let fills = [("yes", 40i64, true, 2i64), ("no", 47, false, 0), ("no", 60, true, 3), ("yes", 52, true, 1)];
    let mut pos = 0i64;
    for (i, (side, price, taker, fee)) in fills.iter().enumerate() {
        pos += if *side == "yes" { 1 } else { -1 };
        s.on_message(&fill("o", side, *price, 1, *taker, pos), *fee, false, at(i as u64));
        assert_eq!(
            s.risk.daily_pnl_cents,
            30 + s.risk.realized_pair_profit_cents - s.total_taker_fees_cents
        );
    }
    assert_eq!((s.risk.realized_pair_profit_cents, s.total_taker_fees_cents), (15, 6));
}

#[test]
fn book_agrees_with_itself_through_a_session() {
    let mut s = ready();
    let steps = [(Side::Yes, 46i64, 4i64), (Side::No, 53, 2), (Side::Yes, 46, -4), (Side::No, 52, -99), (Side::Yes, 45, -10)];
    for (i, (side, price, qty)) in steps.iter().enumerate() {
        s.on_message(&delta(*side, *price, *qty, 2 + i as u64), 0, false, at(2));
        for b in [&s.book.yes_bids, &s.book.no_bids] {
            assert_eq!(b.total_qty, b.quantities.iter().sum::<i64>());
            let top = (1..100).rev().find(|p| b.quantities[*p] > 0).unwrap_or(0) as i64;
            assert_eq!(b.best_bid, top);
            for p in 1..100usize {
                assert_eq!(b.quantities[p] > 0, b.occupied & (1u128 << p) != 0);
            }
        }
    }
    assert_eq!(s.book.best_yes_bid(), 0);
}

#[test]
fn a_plan_holds_every_action() {
    let mut s = ready();
    s.order_answered(Side::Yes, 48, 1, placed("y"), at(2));
    s.order_answered(Side::No, 60, 1, placed("n"), at(2));
    let p = s.decide(Some(d(0.3)), None, d(3.0), 600, at(9));
    assert_eq!(p.cancels.len() + p.takers.len() + p.makers.len(), 6);
    let q = s.decide(None, None, d(3.0), 100, at(9));
    assert_eq!((q.cancels.len(), q.takers.len(), q.makers.len()), (1, 0, 0));
    assert!(matches!(q.cancels[0], StrategyAction::CancelAll));
}

#[test]
fn halted_sessions_only_cancel_before_the_close() {
    let mut s = ready();
    s.risk.inventory = 7;
    let stand = Phase::Halted { first: true, step: HaltStep::Stand };
    assert_eq!(s.finish_batch(false, 239, at(2)), stand);
    assert!(matches!(
        s.finish_batch(false, 240, at(2)),
        Phase::Halted { step: HaltStep::WorkDown { .. }, .. }
    ));
    s.order_answered(Side::No, 52, 1, placed("n"), at(2));
    let cancel = Phase::Halted { first: false, step: HaltStep::CancelAll };
    assert_eq!(s.finish_batch(false, 239, at(2)), cancel);
    let mut t = ready();
    t.risk.hard_inventory_cap = 3;
    t.risk.inventory = 4;
    assert_eq!(t.finish_batch(false, 239, at(2)), stand);
    assert_eq!(t.risk.state, RiskState::Halted);
}

#[test]
fn failed_batches_are_cancelled_one_by_one() {
    let ids = vec!["a".to_string(), "b".to_string()];
    assert_eq!(after_cancel_batch(&ids, true), ids);
    assert!(after_cancel_batch(&ids, false).is_empty());
}

#[test]
fn markets_are_traded_waited_for_or_searched_again() {
    assert_eq!(market_step(None, 210), MarketStep::Retry { pause_secs: 10 });
    assert_eq!(market_step(Some(240), 210), MarketStep::Wait { pause_secs: 15 });
    assert_eq!(market_step(Some(241), 210), MarketStep::Trade);
}

#[test]
fn batches_note_changes_and_alarms() {
    let mut b = Batch::new();
    for step in [MessageStep::Quiet, MessageStep::Disconnected] {
        b.note(step);
    }
    assert_eq!(b, Batch { book_changed: false, emergency: false });
    b.note(MessageStep::BookChanged);
    b.note(MessageStep::Quiet);
    assert_eq!(b, Batch { book_changed: true, emergency: false });
    b.note(MessageStep::Emergency);
    assert_eq!(b, Batch { book_changed: true, emergency: true });
}

#[test]
fn a_batch_raises_one_alarm() {
    let mut s = ready();
    let mut b = Batch::new();
    let mut alarms = 0;
    for pos in [7i64, 8, 9] {
        let step = s.on_message(&fill("o", "yes", 45, 1, false, pos), 0, b.emergency, at(3));
        b.note(step);
        alarms += i32::from(step == MessageStep::Emergency);
    }
    assert_eq!(alarms, 1);
}

#[test]
fn no_message_but_a_snapshot_of_the_market_ends_the_silence() {
    let mut s = ready();
    let report = WsMessage::Error { code: 0, message: "WS disconnect: x".to_string() };
    s.on_message(&report, 0, false, at(2));
    for msg in [
        delta(Side::Yes, 46, 3, 2),
        fill("o", "yes", 45, 1, false, 1),
        told("o", "resting"),
        snapshot("U", 45, 48, 1),
    ] {
        s.on_message(&msg, 0, false, at(3));
        assert!(!s.book.initialized);
    }
    assert_eq!(s.finish_batch(true, 600, at(3)), Phase::NotReady);
}

#[test]
fn trading_stops_before_the_close_on_any_book() {
    let mut s = ready();
    for (bid, ask) in [(45, 48), (60, 50)] {
        s.on_message(&snapshot("T", bid, ask, 9), 0, false, at(3));
        let plan = s.decide(None, None, d(3.0), 10, at(3));
        assert!(matches!(plan.cancels[..], [StrategyAction::CancelAll]));
        assert!(plan.takers.is_empty() && plan.makers.is_empty());
    }
}

#[test]
fn a_halt_has_a_cause() {
    let mut s = ready();
    assert_eq!(s.risk.halt_cause(at(2)), None);
    assert_eq!(s.risk.halt_cause(at(60)), Some(HaltCause::StaleBook));
    s.risk.ws_connected = false;
    assert_eq!(s.risk.halt_cause(at(60)), Some(HaltCause::Disconnected));
    s.risk.daily_pnl_cents = -s.risk.daily_loss_cap_cents;
    assert_eq!(s.risk.halt_cause(at(60)), Some(HaltCause::LossCap));
    s.risk.inventory = -s.risk.hard_inventory_cap;
    assert_eq!(s.risk.halt_cause(at(60)), Some(HaltCause::HardCap));
}

#[test]
fn new_sessions_date_their_book() {
    assert_eq!(Session::new(&Config::default(), "T", 0, at(7)).book.last_update, at(7));
}
