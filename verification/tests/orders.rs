use kalshi_mm::execution::{OrderStatus, OrderTracker, TrackedOrder};
use kalshi_mm::time::{Timestamp, SECOND};

fn order(id: &str, side: &str, status: OrderStatus) -> TrackedOrder {
    TrackedOrder {
        order_id: id.to_string(),
        client_order_id: format!("c-{}", id),
        ticker: "T".to_string(),
        side: side.to_string(),
        action: "buy".to_string(),
        price_cents: 40,
        count: 2,
        remaining: 2,
        status,
        created_at: Timestamp { nanos: 0 },
    }
}

#[test]
fn orders_are_found_by_their_identifiers() {
    let mut t = OrderTracker::new();
    t.track(order("a", "yes", OrderStatus::Resting));
    t.track(order("b", "no", OrderStatus::PendingNew));
    assert_eq!(t.get("a").unwrap().side, "yes");
    assert!(t.get("x").is_none());
    assert_eq!(t.cached_bid_id.as_deref(), Some("a"));
    assert_eq!(t.cached_ask_id.as_deref(), Some("b"));
    let mut again = order("a", "yes", OrderStatus::Resting);
    again.price_cents = 50;
    t.track(again);
    assert_eq!(t.orders.len(), 2);
    assert_eq!(t.get("a").unwrap().price_cents, 50);
}

#[test]
fn orders_can_be_changed() {
    let mut t = OrderTracker::new();
    t.track(order("a", "yes", OrderStatus::Resting));
    t.get_mut("a").unwrap().remaining = 1;
    assert_eq!(t.get("a").unwrap().remaining, 1);
    assert!(t.get_mut("x").is_none());
    t.update_status("a", OrderStatus::Canceled);
    t.update_status("x", OrderStatus::Canceled);
    assert_eq!(t.get("a").unwrap().status, OrderStatus::Canceled);
}

#[test]
fn removed_orders_are_forgotten() {
    let mut t = OrderTracker::new();
    t.track(order("a", "yes", OrderStatus::Resting));
    t.track(order("b", "yes", OrderStatus::Resting));
    t.remove("a");
    assert!(t.get("a").is_none());
    assert_eq!(t.cached_bid_id.as_deref(), Some("b"));
    t.remove("b");
    assert_eq!(t.cached_bid_id, None);
    t.remove("b");
    assert!(t.orders.is_empty());
}

#[test]
fn resting_orders_are_looked_up() {
    let mut t = OrderTracker::new();
    assert!(t.resting_bid("T").is_none());
    t.track(order("a", "yes", OrderStatus::Resting));
    t.track(order("b", "yes", OrderStatus::Resting));
    t.track(order("n", "no", OrderStatus::PendingAmend));
    assert_eq!(t.resting_bid("T").unwrap().order_id, "b");
    t.update_status("b", OrderStatus::Executed);
    assert_eq!(t.resting_bid("T").unwrap().order_id, "a");
    assert_eq!(t.resting_ask("T").unwrap().order_id, "n");
    assert!(t.resting_bid("U").is_none());
    let mut ids = t.resting_order_ids("T");
    ids.sort();
    assert_eq!(ids, vec!["a".to_string(), "n".to_string()]);
    assert!(t.resting_order_ids("U").is_empty());
}

#[test]
fn old_finished_orders_are_collected() {
    let mut t = OrderTracker::new();
    t.track(order("done", "yes", OrderStatus::Executed));
    t.track(order("gone", "yes", OrderStatus::Canceled));
    t.track(order("open", "yes", OrderStatus::Resting));
    let mut young = order("young", "no", OrderStatus::Executed);
    young.created_at = Timestamp { nanos: 10 * SECOND };
    t.track(young);
    t.gc(300 * SECOND, Timestamp { nanos: 300 * SECOND });
    assert!(t.get("done").is_none() && t.get("gone").is_none());
    assert!(t.get("open").is_some() && t.get("young").is_some());
    t.gc(300 * SECOND, Timestamp { nanos: 310 * SECOND });
    assert!(t.get("young").is_none() && t.get("open").is_some());
}
