use kalshi_mm::market_data::{
    BookEvent, BookEventDetector, BookSide, HalfCents, Imbalance, OrderBook, PriceHistory, Side,
};
use kalshi_mm::time::{Timestamp, SECOND};

fn at(nanos: u64) -> Timestamp {
    Timestamp { nanos }
}

fn book(yes: &[(i64, i64)], no: &[(i64, i64)]) -> OrderBook {
    let mut b = OrderBook::new(at(0));
    b.apply_snapshot(yes, no, 10, at(5));
    b
}

#[test]
fn empty_side() {
    let s = BookSide::new();
    assert_eq!(s.best_bid, 0);
    assert_eq!(s.total_qty, 0);
    assert_eq!(s.occupied, 0);
    assert_eq!(s.best_bid_qty(), 0);
    assert_eq!(s.best_bid_below(99), 0);
    assert!(s.top_n(3).is_empty());
}

#[test]
fn snapshot_sets_levels() {
    let mut s = BookSide::new();
    s.apply_snapshot(&[(40, 5), (45, 7), (0, 9), (100, 9), (12, 0)]);
    assert_eq!(s.best_bid, 45);
    assert_eq!(s.best_bid_qty(), 7);
    assert_eq!(s.total_qty, 12);
    assert_eq!(s.quantities[40], 5);
    assert_eq!(s.occupied, (1u128 << 40) | (1u128 << 45));
    s.apply_snapshot(&[(3, 1)]);
    assert_eq!(s.best_bid, 3);
    assert_eq!(s.total_qty, 1);
    assert_eq!(s.quantities[45], 0);
}

#[test]
fn snapshot_with_a_price_twice_counts_both_and_keeps_the_last() {
    let mut s = BookSide::new();
    s.apply_snapshot(&[(40, 5), (40, 0)]);
    assert_eq!(s.quantities[40], 0);
    assert_eq!(s.total_qty, 5);
    assert_eq!(s.best_bid, 40);
    assert_eq!(s.best_bid_qty(), 0);
}

#[test]
fn delta_moves_the_best_bid() {
    let mut s = BookSide::new();
    s.apply_delta(50, 3);
    assert_eq!((s.best_bid, s.total_qty), (50, 3));
    s.apply_delta(60, 2);
    assert_eq!((s.best_bid, s.total_qty), (60, 5));
    s.apply_delta(60, -5);
    assert_eq!((s.best_bid, s.total_qty), (50, 3));
    assert_eq!(s.quantities[60], 0);
    s.apply_delta(0, 5);
    s.apply_delta(100, 5);
    s.apply_delta(-3, 5);
    assert_eq!((s.best_bid, s.total_qty), (50, 3));
}

#[test]
fn delta_undone_gives_the_side_back() {
    let mut s = BookSide::new();
    s.apply_snapshot(&[(20, 4), (30, 6)]);
    let before = s.clone();
    s.apply_delta(35, 9);
    s.apply_delta(35, -9);
    assert_eq!(s.quantities, before.quantities);
    assert_eq!(s.occupied, before.occupied);
    assert_eq!((s.best_bid, s.total_qty), (before.best_bid, before.total_qty));
}

#[test]
fn delta_that_does_not_fit_is_found() {
    let mut s = BookSide::new();
    s.apply_delta(10, i64::MAX);
    assert!(!s.can_apply_delta(10, 1));
    assert!(!s.can_apply_delta(11, 1));
    assert!(s.can_apply_delta(10, -1));
    assert!(s.can_apply_delta(0, i64::MAX));
    assert!(!BookSide::can_apply_snapshot(&[(1, i64::MAX), (2, 1)]));
    assert!(BookSide::can_apply_snapshot(&[(1, i64::MAX), (200, 1)]));
}

#[test]
fn best_bid_below_a_price() {
    let mut s = BookSide::new();
    s.apply_snapshot(&[(10, 1), (20, 2), (30, 3)]);
    assert_eq!(s.best_bid_below(30), 20);
    assert_eq!(s.best_bid_below(31), 30);
    assert_eq!(s.best_bid_below(10), 0);
    assert_eq!(s.best_bid_below(1), 0);
    assert_eq!(s.best_bid_below(-7), 0);
    assert_eq!(s.best_bid_below(99), 30);
}

#[test]
fn top_levels_come_best_first() {
    let mut s = BookSide::new();
    s.apply_snapshot(&[(10, 1), (99, 2), (30, 3), (1, 4)]);
    assert_eq!(s.top_n(2), vec![(99, 2), (30, 3)]);
    assert_eq!(s.top_n(9), vec![(99, 2), (30, 3), (10, 1), (1, 4)]);
    assert!(s.top_n(0).is_empty());
}

#[test]
fn quotes_of_a_book() {
    let b = book(&[(45, 10)], &[(50, 20)]);
    assert_eq!(b.best_yes_bid(), 45);
    assert_eq!(b.best_yes_ask(), 50);
    assert_eq!(b.best_no_bid(), 50);
    assert_eq!(b.best_no_ask(), 55);
    assert_eq!(b.yes_spread(), 5);
    assert_eq!(b.midprice(), Some(HalfCents { halves: 95 }));
    let q = b.microprice().unwrap();
    assert_eq!((q.bid, q.ask, q.bid_qty, q.ask_qty), (45, 50, 10, 20));
    assert_eq!(b.imbalance_ratio(), Some(Imbalance::Ratio { bid_qty: 10, ask_qty: 20 }));
    assert_eq!(b.best_no_ask() + b.best_yes_bid(), 100);
}

#[test]
fn one_sided_and_crossed_books_have_no_middle() {
    let b = book(&[(45, 10)], &[]);
    assert_eq!(b.best_yes_ask(), 0);
    assert_eq!(b.yes_spread(), i64::MAX);
    assert_eq!(b.midprice(), None);
    assert_eq!(b.microprice(), None);
    assert_eq!(b.imbalance_ratio(), Some(Imbalance::Unbounded));
    let c = book(&[(60, 1)], &[(50, 1)]);
    assert_eq!(c.midprice(), None);
    assert_eq!(c.yes_spread(), -10);
    assert_eq!(book(&[], &[]).imbalance_ratio(), None);
}

#[test]
fn deltas_must_come_in_sequence() {
    let mut b = book(&[(45, 10)], &[(50, 20)]);
    assert!(b.initialized);
    assert!(b.apply_delta(Side::Yes, 46, 2, 11, at(6)));
    assert_eq!((b.best_yes_bid(), b.seq, b.last_update), (46, 11, at(6)));
    assert!(!b.apply_delta(Side::No, 40, 2, 13, at(7)));
    assert_eq!((b.seq, b.last_update), (11, at(6)));
    assert!(b.apply_delta(Side::No, 53, 2, 12, at(8)));
    assert_eq!(b.best_yes_ask(), 47);
}

#[test]
fn depth_near_the_best_bids() {
    let b = book(&[(45, 10), (44, 5), (40, 7)], &[(50, 20), (47, 1)]);
    assert_eq!(b.near_bbo_depth(0), 30);
    assert_eq!(b.near_bbo_depth(1), 35);
    assert_eq!(b.near_bbo_depth(5), 43);
    assert_eq!(b.near_bbo_depth(100), 43);
    assert_eq!(book(&[], &[]).near_bbo_depth(3), 0);
}

#[test]
fn changes_of_the_top_are_noticed() {
    let mut d = BookEventDetector::new();
    let mut b = book(&[(45, 10)], &[(50, 20)]);
    assert!(d.detect(&b).is_empty());
    assert!(d.detect(&b).is_empty());
    b.apply_delta(Side::Yes, 46, 1, 11, at(6));
    let e = d.detect(&b);
    assert_eq!(
        e,
        vec![BookEvent::TopOfBookChanged { old_bid: 45, old_ask: 50, new_bid: 46, new_ask: 50 }]
    );
    assert!(d.detect(&b).is_empty());
}

#[test]
fn history_needs_ten_prices_over_half_the_window() {
    let mut h = PriceHistory::new(26 * SECOND);
    for i in 0..9u64 {
        h.push(at(i * SECOND), HalfCents { halves: 100 });
    }
    assert!(h.z_score(13 * SECOND, at(8 * SECOND)).is_none());
    h.push(at(9 * SECOND), HalfCents { halves: 110 });
    let s = h.z_score(13 * SECOND, at(9 * SECOND)).unwrap();
    assert_eq!((s.count, s.sum, s.sum_of_squares), (10, 1010, 9 * 10000 + 12100));
    assert_eq!(s.scored, HalfCents { halves: 110 });

    let mut fast = PriceHistory::new(26 * SECOND);
    for i in 0..20u64 {
        fast.push(at(i * 1_000_000), HalfCents { halves: 100 });
    }
    assert!(fast.z_score(13 * SECOND, at(20_000_000)).is_none());
}

#[test]
fn window_leaves_older_prices_out() {
    let mut h = PriceHistory::new(60 * SECOND);
    h.push(at(0), HalfCents { halves: 2 });
    for i in 0..12u64 {
        h.push(at((20 + i) * SECOND), HalfCents { halves: 90 + i as i64 });
    }
    let s = h.z_score(13 * SECOND, at(33 * SECOND)).unwrap();
    assert_eq!(s.count, 12);
    assert_eq!(s.scored, HalfCents { halves: 101 });
    let t = h.z_score(12 * SECOND, at(33 * SECOND)).unwrap();
    assert_eq!(t.count, 11);
    assert_eq!(t.scored, HalfCents { halves: 101 });
}

#[test]
fn history_forgets_what_is_too_old() {
    let mut h = PriceHistory::new(10 * SECOND);
    for i in 0..10u64 {
        h.push(at(i * SECOND), HalfCents { halves: 50 });
    }
    h.push(at(15 * SECOND), HalfCents { halves: 50 });
    let s = h.z_score(100 * SECOND, at(16 * SECOND));
    assert!(s.is_none());
    let t = h.z_score(20 * SECOND, at(15 * SECOND));
    assert!(t.is_none());
}

#[test]
fn the_latest_price_is_scored() {
    let mut h = PriceHistory::new(30 * SECOND);
    for i in 0..9u64 {
        h.push(at((10 + i) * SECOND), HalfCents { halves: 100 });
    }
    h.push(at(19 * SECOND), HalfCents { halves: 120 });
    let s = h.z_score(15 * SECOND, at(19 * SECOND)).unwrap();
    assert_eq!((s.count, s.sum, s.sum_of_squares), (10, 1020, 9 * 10000 + 14400));
    assert_eq!(s.scored, HalfCents { halves: 120 });
    let mean = s.sum as f64 / 2.0 / s.count as f64;
    let variance = s.sum_of_squares as f64 / 4.0 / s.count as f64 - mean * mean;
    assert_eq!((s.scored.halves as f64 / 2.0 - mean) / variance.sqrt(), 3.0);
}

#[test]
fn scores_follow_the_latest_move() {
    let score = |last: HalfCents| {
        let mut h = PriceHistory::new(30 * SECOND);
        for i in 0..9u64 {
            h.push(at((10 + i) * SECOND), HalfCents { halves: 100 });
        }
        h.push(at(19 * SECOND), last);
        h.z_score(15 * SECOND, at(19 * SECOND)).unwrap()
    };
    let up = score(HalfCents { halves: 102 });
    assert_eq!((up.count as u128 * up.scored.halves as u128, up.sum), (1020, 1002));
    let down = score(HalfCents { halves: 98 });
    assert_eq!((down.count as u128 * down.scored.halves as u128, down.sum), (980, 998));
}

#[test]
fn snapshots_may_hold_anything_at_other_prices() {
    let mut b = OrderBook::new(at(0));
    b.apply_snapshot(&[(0, -5), (0, 3), (100, 2), (40, 1)], &[], 1, at(0));
    assert_eq!(b.yes_bids.best_bid, 40);
    assert_eq!(b.yes_bids.total_qty, 1);
    assert_eq!(b.yes_bids.top_n(9), vec![(40, 1)]);
}

#[test]
fn changes_at_two_prices_commute() {
    let start = || {
        let mut b = OrderBook::new(at(0));
        b.apply_snapshot(&[(40, 5), (30, 2)], &[], 1, at(0));
        b
    };
    let (mut a, mut b) = (start(), start());
    a.apply_delta(Side::Yes, 40, -9, 2, at(1));
    a.apply_delta(Side::Yes, 35, 4, 3, at(2));
    b.apply_delta(Side::Yes, 35, 4, 2, at(1));
    b.apply_delta(Side::Yes, 40, -9, 3, at(2));
    assert_eq!(a.yes_bids.quantities, b.yes_bids.quantities);
    assert_eq!(a.yes_bids.occupied, b.yes_bids.occupied);
    assert_eq!((a.yes_bids.best_bid, a.yes_bids.total_qty), (35, 6));
    assert_eq!((b.yes_bids.best_bid, b.yes_bids.total_qty), (35, 6));
}
