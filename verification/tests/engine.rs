use kalshi_mm::config::Config;
use kalshi_mm::double::Double;
use kalshi_mm::execution::{OrderStatus, OrderTracker, TrackedOrder};
use kalshi_mm::market_data::{HalfCents, OrderBook};
use kalshi_mm::risk::RiskManager;
use kalshi_mm::signal::{
    cancel_all_resting, cancel_side_orders, count_resting_side, price_band, Band, Regime,
    SignalEngine, SignalEvent, StrategyAction, ZDirection,
};
use kalshi_mm::time::{Timestamp, SECOND};

fn at(secs: u64) -> Timestamp {
    Timestamp { nanos: secs * SECOND }
}

fn d(x: f64) -> Double {
    Double { bits: x.to_bits() }
}

fn book(bid: i64, ask: i64) -> OrderBook {
    let mut b = OrderBook::new(at(0));
    b.apply_snapshot(&[(bid, 10)], &[(100 - ask, 10)], 1, at(0));
    b
}

struct World {
    engine: SignalEngine,
    risk: RiskManager,
    tracker: OrderTracker,
    book: OrderBook,
}

impl World {
    fn new() -> World {
        let mut c = Config::default();
        c.gear2_enabled = true;
        World {
            engine: SignalEngine::new(&c),
            risk: RiskManager::new(&c, at(0)),
            tracker: OrderTracker::new(),
            book: book(45, 48),
        }
    }

    fn order(&mut self, id: &str, side: &str, price: i64) {
        self.tracker.track(TrackedOrder {
            order_id: id.to_string(),
            client_order_id: format!("c-{}", id),
            ticker: "T".to_string(),
            side: side.to_string(),
            action: "buy".to_string(),
            price_cents: price,
            count: 1,
            remaining: 1,
            status: OrderStatus::Resting,
            created_at: at(0),
        });
    }

    fn tick_at(&mut self, z: Option<f64>, z60: Option<f64>, left: i64, now: u64) -> Vec<String> {
        let acts = self.engine.tick(
            &self.book,
            z.map(d),
            z60.map(d),
            d(3.0),
            left,
            &self.risk,
            &self.tracker,
            "T",
            at(now),
        );
        acts.iter().map(show).collect()
    }

    fn tick(&mut self, z: Option<f64>) -> Vec<String> {
        self.tick_at(z, Some(0.0), 600, 10)
    }
}

fn show(a: &StrategyAction) -> String {
    match a {
        StrategyAction::PlaceBid { price_cents, count } => format!("bid {} x{}", price_cents, count),
        StrategyAction::PlaceAsk { price_cents, count } => format!("ask {} x{}", price_cents, count),
        StrategyAction::CancelOrder { order_id } => format!("cancel {}", order_id),
        StrategyAction::CancelAll => "cancel all".to_string(),
        StrategyAction::TakeYes { price, count } => format!("take yes {} x{}", price, count),
        StrategyAction::TakeNo { price, count } => format!("take no {} x{}", price, count),
    }
}

#[test]
fn bands_are_twenty_cents_wide() {
    let mid = |halves: i64| HalfCents { halves };
    assert_eq!(price_band(mid(0)), "0-20");
    assert_eq!(price_band(mid(39)), "0-20");
    assert_eq!(price_band(mid(40)), "20-40");
    assert_eq!(price_band(mid(80)), "40-60");
    assert_eq!(price_band(mid(119)), "40-60");
    assert_eq!(price_band(mid(120)), "60-80");
    assert_eq!(price_band(mid(160)), "80-100");
    assert_eq!(Band::of(mid(199)).index(), 4);
    assert_eq!(Band::To60.label(), "40-60");
}

#[test]
fn regimes_by_the_size_of_the_score() {
    let e = SignalEngine::new(&Config::default());
    assert_eq!(e.classify_regime(d(1.19)), Regime::Calm);
    assert_eq!(e.classify_regime(d(-1.2)), Regime::Stretched);
    assert_eq!(e.classify_regime(d(1.99)), Regime::Stretched);
    assert_eq!(e.classify_regime(d(-2.0)), Regime::Extreme);
    assert_eq!(e.classify_regime(d(f64::NAN)), Regime::Calm);
    assert_eq!(SignalEngine::z_direction(d(0.0)), ZDirection::Up);
    assert_eq!(SignalEngine::z_direction(d(-0.0)), ZDirection::Up);
    assert_eq!(SignalEngine::z_direction(d(-0.1)), ZDirection::Down);
    assert_eq!(SignalEngine::z_direction(d(f64::NAN)), ZDirection::Down);
}

#[test]
fn spreads_are_averaged_band_by_band() {
    let mut e = SignalEngine::new(&Config::default());
    assert_eq!(e.avg_spread(Band::To80), d(1.0));
    e.update_spread_ema(Band::To80, d(2.5));
    assert_eq!(e.avg_spread(Band::To80), d(2.5));
    assert_eq!(e.avg_spread(Band::To60), d(1.0));
    let s = e.spread_sample(&book(70, 73)).unwrap();
    assert_eq!((s.band, s.spread, s.average), (Band::To80, 3, Some(d(2.5))));
    let s = e.spread_sample(&book(45, 48)).unwrap();
    assert_eq!((s.band, s.spread, s.average), (Band::To60, 3, None));
    assert!(e.spread_sample(&OrderBook::new(at(0))).is_none());
    assert!(e.spread_sample(&book(60, 50)).is_none());
}

#[test]
fn taking_is_allowed_by_band() {
    let mut w = World::new();
    assert!(w.engine.band_allows_gear2(Band::To20));
    assert!(!w.engine.band_allows_gear2(Band::To40));
    assert!(w.engine.band_allows_gear2(Band::To60));
    assert!(w.engine.band_allows_gear2(Band::To80));
    w.engine.update_spread_ema(Band::To80, d(1.5));
    assert!(!w.engine.band_allows_gear2(Band::To80));
    assert!(w.engine.band_allows_gear2(Band::To100));
    w.engine.cfg_gear2_enabled = false;
    assert!(!w.engine.band_allows_gear2(Band::To20));
    assert_eq!(w.engine.ladder_levels_for_band(Band::To40), 1);
    assert_eq!(w.engine.ladder_levels_for_band(Band::To60), 2);
    assert!(w.engine.z60_is_noise(None));
    assert!(w.engine.z60_is_noise(Some(d(-0.9))));
    assert!(!w.engine.z60_is_noise(Some(d(1.0))));
}

#[test]
fn nothing_without_a_book() {
    let mut w = World::new();
    w.book.initialized = false;
    assert!(w.tick(None).is_empty());
    w.book = book(60, 50);
    assert!(w.tick(None).is_empty());
    assert_eq!(w.engine.spread_emas, [None; 5]);
}

#[test]
fn tick_keeps_the_average_of_its_band() {
    let mut w = World::new();
    w.tick(None);
    assert_eq!(w.engine.spread_emas, [None, None, Some(d(3.0)), None, None]);
}

#[test]
fn calm_market_is_quoted_with_ladders() {
    let mut w = World::new();
    assert_eq!(w.tick(None), ["bid 45 x1", "bid 44 x1", "ask 48 x1", "ask 49 x1"]);
    assert_eq!(w.tick(Some(0.5)), ["bid 45 x1", "bid 44 x1", "ask 48 x1", "ask 49 x1"]);
    w.order("y", "yes", 44);
    assert_eq!(w.tick(None), ["bid 45 x1", "ask 48 x1", "ask 49 x1"]);
    w.order("n1", "no", 50);
    w.order("n2", "no", 51);
    assert_eq!(w.tick(None), ["bid 45 x1"]);
}

#[test]
fn ladders_end_at_the_last_price() {
    let mut w = World::new();
    w.engine.cfg_ladder_levels = 4;
    w.book = book(2, 98);
    assert_eq!(w.tick(None), ["bid 2 x1", "bid 1 x1", "ask 98 x1", "ask 99 x1"]);
}

#[test]
fn one_rung_between_twenty_and_forty() {
    let mut w = World::new();
    w.book = book(28, 31);
    assert_eq!(w.tick(None), ["bid 28 x1", "ask 31 x1"]);
}

#[test]
fn crossing_orders_are_cancelled() {
    let mut w = World::new();
    w.order("y", "yes", 48);
    w.order("ok", "yes", 47);
    w.order("n", "no", 55);
    assert_eq!(w.tick(None), ["cancel y", "cancel n", "bid 45 x1", "ask 48 x1", "ask 49 x1"]);
}

#[test]
fn soft_cap_cancels_one_side() {
    let mut w = World::new();
    w.order("y", "yes", 44);
    w.order("n", "no", 50);
    w.risk.inventory = 5;
    assert_eq!(w.tick(None), ["cancel y", "ask 48 x1"]);
    w.risk.inventory = -5;
    assert_eq!(w.tick(None), ["cancel n", "bid 45 x1"]);
}

#[test]
fn a_position_is_quoted_towards_its_end() {
    let mut w = World::new();
    w.risk.inventory = 2;
    assert_eq!(w.tick(None), ["ask 48 x1", "ask 49 x1"]);
    w.order("y", "yes", 44);
    assert_eq!(w.tick(None), ["cancel y", "ask 48 x1", "ask 49 x1"]);
    let mut v = World::new();
    v.risk.inventory = -2;
    v.order("n", "no", 50);
    assert_eq!(v.tick(None), ["bid 45 x1", "bid 44 x1", "cancel n"]);
}

#[test]
fn hard_cap_and_last_minutes_cancel_everything() {
    let mut w = World::new();
    w.order("y", "yes", 44);
    w.risk.inventory = -7;
    assert_eq!(w.tick(None), ["cancel all"]);
    w.risk.inventory = i64::MIN;
    assert_eq!(w.tick(None), ["cancel all"]);
    w.risk.inventory = 0;
    assert_eq!(w.tick_at(None, None, 239, 10), ["cancel all"]);
    assert_eq!(w.tick_at(None, None, 240, 10), ["bid 45 x1", "ask 48 x1", "ask 49 x1"]);
}

#[test]
fn before_the_close_positions_are_only_closed() {
    let mut w = World::new();
    w.engine.cfg_no_open_before_close = 400;
    w.order("y", "yes", 44);
    w.order("n", "no", 50);
    let ev = SignalEvent {
        started_at: at(9),
        entry_mid: HalfCents { halves: 93 },
        gear: 2,
        band: Band::To60,
        resolved: false,
    };
    w.engine.active_yes_event = Some(ev);
    w.engine.active_no_event = Some(SignalEvent { gear: 1, ..ev });
    assert_eq!(w.tick_at(None, None, 300, 10), ["cancel y", "cancel n", "take no 55 x1"]);
    assert!(w.engine.active_yes_event.is_none());
    assert!(w.engine.active_no_event.is_some());
    w.engine.active_no_event = Some(ev);
    assert_eq!(w.tick_at(None, None, 300, 10), ["cancel y", "cancel n", "take yes 48 x1"]);
    assert!(w.engine.active_no_event.is_none());
}

#[test]
fn stretched_market_is_followed() {
    let mut w = World::new();
    assert_eq!(w.tick(Some(1.5)), ["bid 45 x1"]);
    let ev = w.engine.active_yes_event.unwrap();
    assert_eq!((ev.gear, ev.band, ev.started_at, ev.resolved), (1, Band::To60, at(10), false));
    assert_eq!(ev.entry_mid, HalfCents { halves: 93 });
    let mut v = World::new();
    assert_eq!(v.tick(Some(-1.5)), ["ask 48 x1"]);
    assert_eq!(v.engine.active_no_event.unwrap().gear, 1);
    let mut u = World::new();
    u.order("y", "yes", 40);
    assert!(u.tick(Some(1.5)).is_empty());
    let mut x = World::new();
    x.risk.inventory = 5;
    assert!(x.tick(Some(1.5)).is_empty());
}

#[test]
fn extreme_market_is_taken_against() {
    let mut w = World::new();
    w.order("y", "yes", 44);
    assert_eq!(w.tick(Some(-2.5)), ["cancel y", "take yes 48 x1"]);
    assert_eq!(w.engine.active_yes_event.unwrap().gear, 2);
    let mut v = World::new();
    assert_eq!(v.tick(Some(2.5)), ["take no 55 x1"]);
    assert_eq!(v.engine.active_no_event.unwrap().gear, 2);
    assert!(v.tick(Some(2.5)).is_empty());
    let mut u = World::new();
    assert!(u.tick_at(Some(2.5), Some(1.0), 600, 10).is_empty());
    u.risk.inventory = 1;
    assert!(u.tick(Some(-2.5)).is_empty());
    u.engine.cfg_gear2_enabled = false;
    assert!(u.tick(Some(2.5)).is_empty());
}

#[test]
fn taken_positions_are_sold_when_the_score_crosses_zero() {
    let mut w = World::new();
    w.tick(Some(-2.5));
    assert!(w.tick_at(Some(-1.3), Some(0.0), 600, 11).iter().all(|a| a.starts_with("ask")));
    assert!(w.engine.active_yes_event.is_some());
    let acts = w.tick_at(Some(0.0), Some(0.0), 600, 12);
    assert_eq!(acts[0], "take no 55 x1");
    assert!(w.engine.active_yes_event.is_none());
}

#[test]
fn signals_time_out() {
    let mut w = World::new();
    w.tick(Some(2.5));
    assert!(w.engine.active_no_event.is_some());
    w.tick_at(Some(0.5), None, 600, 39);
    assert!(w.engine.active_no_event.is_some());
    let acts = w.tick_at(Some(0.5), None, 600, 40);
    assert_eq!(acts[0], "take yes 48 x1");
    assert!(w.engine.active_no_event.is_none());
}

#[test]
fn signals_time_out_without_a_score() {
    let mut w = World::new();
    w.tick(Some(2.5));
    w.tick_at(None, None, 600, 39);
    assert!(w.engine.active_no_event.is_some());
    let acts = w.tick_at(None, None, 600, 40);
    assert_eq!(acts, ["take yes 48 x1", "bid 45 x1", "bid 44 x1", "ask 48 x1", "ask 49 x1"]);
    assert!(w.engine.active_no_event.is_none());
    let mut v = World::new();
    v.tick(Some(1.5));
    assert_eq!(v.tick_at(None, None, 600, 39), ["ask 48 x1", "ask 49 x1"]);
    assert!(v.engine.active_yes_event.is_some());
    v.tick_at(None, None, 600, 40);
    assert!(v.engine.active_yes_event.is_none());
}

#[test]
fn signals_without_an_order_end_after_a_second() {
    let mut w = World::new();
    w.tick(Some(-1.5));
    assert!(w.engine.active_no_event.is_some());
    w.tick_at(Some(-0.5), None, 600, 11);
    assert!(w.engine.active_no_event.is_some());
    w.tick_at(Some(-0.5), None, 600, 12);
    assert!(w.engine.active_no_event.is_none());
    let mut v = World::new();
    v.tick(Some(-1.5));
    v.order("n", "no", 52);
    v.tick_at(Some(-0.5), None, 600, 15);
    assert!(v.engine.active_no_event.is_some());
}

#[test]
fn first_gear_events_last_until_the_score_crosses_back() {
    let mut w = World::new();
    w.tick(Some(1.5));
    w.order("y", "yes", 45);
    let ev = w.engine.active_yes_event;
    w.tick_at(Some(0.5), None, 600, 11);
    assert_eq!(w.engine.active_yes_event, ev);
    let mut acts: Vec<StrategyAction> = Vec::new();
    w.engine.resolve_events(d(1.7), at(12), &mut acts, &w.book, "T", &w.tracker);
    assert!(acts.is_empty());
    assert_eq!(w.engine.active_yes_event, ev);
    w.engine.resolve_events(d(-0.5), at(13), &mut acts, &w.book, "T", &w.tracker);
    assert!(acts.is_empty());
    assert!(w.engine.active_yes_event.is_none());
    let mut v = World::new();
    v.tick(Some(-1.5));
    v.order("n", "no", 52);
    v.tick_at(Some(-1.4), None, 600, 11);
    assert!(v.engine.active_no_event.is_some());
    v.tick_at(Some(0.0), None, 600, 12);
    assert!(v.engine.active_no_event.is_none());
}

#[test]
fn crossing_back_depends_on_the_gear() {
    let ev = |gear: u8| SignalEvent {
        started_at: at(0),
        entry_mid: HalfCents { halves: 93 },
        gear,
        band: Band::To60,
        resolved: false,
    };
    for (gear, yes, z, crossed) in [
        (1u8, true, 0.1, false),
        (1, true, 0.0, true),
        (1, true, -0.1, true),
        (1, false, -0.1, false),
        (1, false, 0.1, true),
        (2, true, -0.1, false),
        (2, true, 0.1, true),
        (2, false, 0.1, false),
        (2, false, -0.0, true),
        (2, false, f64::NAN, false),
    ] {
        assert_eq!(ev(gear).has_crossed_back(yes, d(z)), crossed, "{} {} {}", gear, yes, z);
    }
    assert!(!ev(1).has_expired(at(29), 30 * SECOND));
    assert!(ev(1).has_expired(at(30), 30 * SECOND));
}

#[test]
fn resolved_events_are_dropped_without_an_action() {
    let mut w = World::new();
    w.tick(Some(2.5));
    if let Some(ev) = w.engine.active_no_event.as_mut() {
        ev.resolved = true;
    }
    let mut acts: Vec<StrategyAction> = Vec::new();
    w.engine.resolve_events(d(-1.0), at(10), &mut acts, &w.book, "T", &w.tracker);
    assert!(acts.is_empty());
    assert!(w.engine.active_no_event.is_none());
}

#[test]
fn cancels_pick_live_orders_of_the_market() {
    let mut w = World::new();
    w.order("a", "yes", 40);
    w.order("b", "no", 40);
    w.order("c", "yes", 41);
    w.tracker.update_status("c", OrderStatus::PendingCancel);
    let mut acts: Vec<StrategyAction> = Vec::new();
    cancel_side_orders(&mut acts, &w.tracker, "T", "yes");
    assert_eq!(acts.iter().map(show).collect::<Vec<_>>(), ["cancel a"]);
    cancel_all_resting(&mut acts, &w.tracker, "T");
    assert_eq!(acts.iter().map(show).collect::<Vec<_>>(), ["cancel a", "cancel a", "cancel b"]);
    cancel_all_resting(&mut acts, &w.tracker, "other");
    assert_eq!(acts.len(), 3);
    assert_eq!(count_resting_side(&w.tracker, "T", "yes"), 1);
    assert_eq!(count_resting_side(&w.tracker, "T", "no"), 1);
}

fn event(gear: u8, started: u64) -> SignalEvent {
    SignalEvent {
        started_at: at(started),
        entry_mid: HalfCents { halves: 93 },
        gear,
        band: Band::To60,
        resolved: false,
    }
}

#[test]
fn last_minutes_cancel_everything_on_any_book() {
    let mut w = World::new();
    w.book.apply_snapshot(&[(45, 10)], &[], 2, at(0));
    assert_eq!(w.tick_at(None, None, 10, 10), ["cancel all"]);
    assert!(w.tick_at(None, None, 240, 10).is_empty());
    w.book = book(60, 50);
    assert_eq!(w.tick_at(Some(1.5), None, 10, 10), ["cancel all"]);
    w.book = OrderBook::new(at(0));
    assert_eq!(w.tick_at(None, None, 10, 10), ["cancel all"]);
    w.book = book(45, 48);
    w.engine.active_yes_event = Some(event(2, 0));
    assert_eq!(w.tick_at(None, None, 10, 1000), ["cancel all"]);
    assert!(w.engine.active_yes_event.is_none());
}

#[test]
fn signals_time_out_where_nothing_is_opened() {
    let mut w = World::new();
    w.engine.cfg_no_open_before_close = 400;
    w.engine.active_yes_event = Some(event(1, 10));
    assert!(w.tick_at(None, None, 300, 39).is_empty());
    assert!(w.engine.active_yes_event.is_some());
    assert!(w.tick_at(None, None, 300, 40).is_empty());
    assert!(w.engine.active_yes_event.is_none());
    w.engine.active_no_event = Some(event(1, 10));
    w.order("n", "no", 50);
    assert_eq!(w.tick_at(Some(0.5), None, 300, 12), ["cancel n"]);
    assert!(w.engine.active_no_event.is_none());
}

#[test]
fn signals_time_out_at_the_hard_cap() {
    let mut w = World::new();
    w.risk.inventory = 7;
    w.engine.active_yes_event = Some(event(2, 10));
    w.engine.active_no_event = Some(event(1, 10));
    assert_eq!(w.tick_at(None, None, 600, 39), ["cancel all"]);
    assert!(w.engine.active_yes_event.is_some() && w.engine.active_no_event.is_some());
    assert_eq!(w.tick_at(None, None, 600, 40), ["take no 55 x1", "cancel all"]);
    assert!(w.engine.active_yes_event.is_none() && w.engine.active_no_event.is_none());
}

#[test]
fn taken_positions_wait_for_a_price_to_be_sold() {
    let mut w = World::new();
    w.book.apply_snapshot(&[(45, 10)], &[], 2, at(0));
    w.engine.active_yes_event = Some(event(2, 0));
    w.engine.active_no_event = Some(event(1, 0));
    assert!(w.tick_at(None, None, 600, 1000).is_empty());
    assert!(w.engine.active_yes_event.is_some());
    assert!(w.engine.active_no_event.is_none());
    w.book = book(45, 48);
    assert_eq!(w.tick_at(None, None, 600, 1001)[0], "take no 55 x1");
    assert!(w.engine.active_yes_event.is_none());
}
