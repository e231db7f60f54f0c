use kalshi_mm::config::Config;
use kalshi_mm::double::Double;
use kalshi_mm::market_data::HalfCents;
use kalshi_mm::risk::{RiskManager, RiskState};
use kalshi_mm::time::{Timestamp, SECOND};

fn at(secs: u64) -> Timestamp {
    Timestamp { nanos: secs * SECOND }
}

fn manager() -> RiskManager {
    let mut r = RiskManager::new(&Config::default(), at(0));
    r.set_ws_connected(true);
    r
}

#[test]
fn new_manager_is_idle() {
    let r = RiskManager::new(&Config::default(), at(3));
    assert_eq!(r.state, RiskState::Normal);
    assert!(!r.ws_connected);
    assert_eq!(r.last_book_update, at(3));
    assert_eq!(r.max_book_staleness, 5 * SECOND);
    assert!(!r.has_unpaired());
    assert_eq!(r.unpaired_side(), None);
    assert_eq!(r.oldest_open_leg_cost(), None);
}

#[test]
fn a_pair_earns_what_is_left_of_a_dollar() {
    let mut r = manager();
    r.record_fill("yes", "buy", 40, 2, 2);
    assert_eq!((r.inventory, r.open_yes_count(), r.open_leg_cost_cents), (2, 2, 80));
    assert_eq!(r.unpaired_side(), Some("yes"));
    assert_eq!(r.oldest_open_leg_cost(), Some(40));
    r.record_fill("no", "buy", 45, 1, 1);
    assert_eq!((r.inventory, r.open_yes_count(), r.open_no_count()), (1, 1, 0));
    assert_eq!((r.realized_pair_profit_cents, r.daily_pnl_cents, r.pairs_completed), (5, 5, 1));
    assert_eq!(r.open_leg_cost_cents, 40);
    r.record_fill("no", "buy", 38, 3, -2);
    assert_eq!((r.open_yes_count(), r.open_no_count(), r.pairs_completed), (0, 2, 2));
    assert_eq!((r.realized_pair_profit_cents, r.daily_pnl_cents), (3, 3));
    assert_eq!(r.open_leg_cost_cents, 124);
    assert_eq!(r.unpaired_side(), Some("no"));
    assert_eq!(r.oldest_open_leg_cost(), Some(62));
    r.record_fill("yes", "buy", 30, 2, 0);
    assert_eq!((r.realized_pair_profit_cents, r.open_leg_cost_cents), (19, 0));
    assert!(!r.has_unpaired());
}

#[test]
fn oldest_legs_are_paired_first() {
    let mut r = manager();
    r.record_fill("yes", "buy", 10, 1, 1);
    r.record_fill("yes", "buy", 90, 1, 2);
    r.record_fill("no", "buy", 50, 1, 1);
    assert_eq!(r.daily_pnl_cents, 40);
    assert_eq!(r.open_leg_cost_cents, 90);
}

#[test]
fn one_fill_or_two_come_to_the_same() {
    let mut a = manager();
    let mut b = manager();
    a.record_fill("yes", "buy", 33, 5, 5);
    b.record_fill("yes", "buy", 33, 2, 2);
    b.record_fill("yes", "buy", 33, 3, 5);
    a.record_fill("no", "buy", 35, 2, 3);
    b.record_fill("no", "buy", 35, 1, 4);
    b.record_fill("no", "buy", 35, 1, 3);
    assert_eq!(a.open_yes_legs, b.open_yes_legs);
    assert_eq!(a.daily_pnl_cents, b.daily_pnl_cents);
    assert_eq!(a.open_leg_cost_cents, b.open_leg_cost_cents);
    assert_eq!(a.pairs_completed, b.pairs_completed);
}

#[test]
fn empty_fills_only_move_the_position() {
    let mut r = manager();
    r.record_fill("yes", "buy", 33, 0, 4);
    r.record_fill("yes", "buy", 33, -3, 5);
    assert_eq!(r.inventory, 5);
    assert!(!r.has_unpaired());
}

#[test]
fn fills_beyond_the_books_are_found() {
    let mut r = manager();
    assert!(r.can_record_fill("yes", 40, 3));
    assert_eq!(r.daily_after_fill("yes", 40, 3), Some(0));
    assert!(!r.can_record_fill("no", i64::MIN, 1));
    assert!(!r.can_record_fill("yes", i64::MAX, 2));
    assert!(r.can_record_fill("yes", i64::MAX, 1));
    r.record_fill("yes", "buy", 40, 1, 1);
    assert_eq!(r.daily_after_fill("no", 43, 1), Some(3));
}

#[test]
fn states_follow_the_figures() {
    let mut r = manager();
    r.book_updated(at(10));
    assert_eq!(r.tick(at(11)), RiskState::Normal);
    r.inventory = 5;
    assert_eq!(r.tick(at(11)), RiskState::Cautious);
    r.inventory = -6;
    assert_eq!(r.tick(at(11)), RiskState::Cautious);
    r.inventory = -7;
    assert_eq!(r.tick(at(11)), RiskState::Halted);
    r.inventory = 0;
    r.carry_daily_pnl(-500);
    assert_eq!(r.tick(at(11)), RiskState::Halted);
    r.carry_daily_pnl(-499);
    assert_eq!(r.tick(at(11)), RiskState::Normal);
    assert_eq!(r.tick(at(15)), RiskState::Normal);
    assert_eq!(r.tick(Timestamp { nanos: 15 * SECOND + 1 }), RiskState::Halted);
    r.set_ws_connected(false);
    assert_eq!(r.state, RiskState::Halted);
    assert_eq!(r.tick(at(11)), RiskState::Halted);
    r.inventory = i64::MIN;
    assert_eq!(r.tick(at(11)), RiskState::Halted);
}

#[test]
fn quoting_depends_on_state_and_position() {
    let mut r = manager();
    assert!(r.can_bid() && r.can_ask() && r.should_quote());
    r.inventory = 5;
    assert!(!r.can_bid() && r.can_ask());
    r.inventory = -5;
    assert!(r.can_bid() && !r.can_ask());
    r.halt("test");
    assert!(!r.can_bid() && !r.can_ask() && !r.should_quote());
    r.reset();
    assert!(r.should_quote());
}

#[test]
fn taking_depends_on_band_and_spread() {
    let r = manager();
    let narrow = Double { bits: 1.0f64.to_bits() };
    let wide = Double { bits: 1.5f64.to_bits() };
    assert!(r.band_allows_spear(HalfCents { halves: 39 }, narrow));
    assert!(!r.band_allows_spear(HalfCents { halves: 40 }, narrow));
    assert!(!r.band_allows_spear(HalfCents { halves: 79 }, narrow));
    assert!(r.band_allows_spear(HalfCents { halves: 80 }, narrow));
    assert!(!r.band_allows_spear(HalfCents { halves: 80 }, wide));
}

#[test]
fn contracts_are_open_or_paired() {
    let mut r = manager();
    let fills = [("yes", 40i64, 3i64), ("no", 45, 1), ("no", 30, 4), ("yes", 20, 1), ("no", 50, 2)];
    let mut bought = 0u64;
    let mut net = 0i64;
    for (side, price, n) in fills {
        net += if side == "yes" { n } else { -n };
        bought += n as u64;
        let earned = r.realized_pair_profit_cents;
        let day = r.daily_pnl_cents;
        r.record_fill(side, "buy", price, n, net);
        let open = (r.open_yes_count() + r.open_no_count()) as u64;
        assert_eq!(2 * r.pairs_completed + open, bought);
        assert_eq!(r.open_yes_count() as i64 - r.open_no_count() as i64, net);
        assert!(r.open_yes_count() == 0 || r.open_no_count() == 0);
        assert_eq!(r.daily_pnl_cents - day, r.realized_pair_profit_cents - earned);
        let cost: i64 = r.open_yes_legs.iter().sum::<i64>()
            + r.open_no_legs.iter().map(|p| 100 - p).sum::<i64>();
        assert_eq!(r.open_leg_cost_cents, cost);
    }
}
