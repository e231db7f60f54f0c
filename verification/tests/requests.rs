use kalshi_mm::config::Config;
use kalshi_mm::execution::{
    amended_order, auth_headers, balance_of, new_client_order_id, placed_order, position_of,
    rate_limit_outcome, read_amend_order, read_balance, read_cancel_order, read_place_order,
    read_position, read_taker_order, refill_interval, wants_refill, ExecutionClient, PermitWait,
};

fn client() -> ExecutionClient {
    let mut c = Config::default();
    c.rest_base_url = "https://h/v2".to_string();
    ExecutionClient::new(&c)
}

fn value(s: &str) -> serde_json::Value {
    serde_json::from_str(s).unwrap()
}

#[test]
fn permits_come_evenly() {
    assert_eq!(refill_interval(28), 35714);
    assert_eq!(refill_interval(1), 1_000_000);
    assert_eq!(refill_interval(u32::MAX), 0);
    assert!(wants_refill(27, 28));
    assert!(!wants_refill(28, 28));
    assert_eq!(rate_limit_outcome(PermitWait::Granted), Ok(()));
    assert_eq!(rate_limit_outcome(PermitWait::Closed), Err("Rate limiter closed".to_string()));
    assert_eq!(
        rate_limit_outcome(PermitWait::TimedOut),
        Err("Rate limit exhausted (500ms timeout)".to_string())
    );
}

#[test]
fn identifiers_are_random_uuids() {
    let a = new_client_order_id();
    let b = new_client_order_id();
    assert_ne!(a, b);
    assert_eq!(a.len(), 36);
    let u = uuid::Uuid::parse_str(&a).unwrap();
    assert_eq!(u.get_version_num(), 4);
    assert_eq!(u.get_variant(), uuid::Variant::RFC4122);
    assert!("89ab".contains(&a[19..20]));
    assert_eq!(u.to_string(), a);
}

#[test]
fn maker_order() {
    let r = client().place_order_as("id", "T", "yes", "buy", "0.4200", 3);
    assert_eq!(r.method, "POST");
    assert_eq!(r.path, "/trade-api/v2/portfolio/orders");
    assert_eq!(r.url, "https://h/v2/portfolio/orders");
    assert_eq!(
        r.body.as_deref(),
        Some("{\"action\":\"buy\",\"cancel_order_on_pause\":true,\"client_order_id\":\"id\",\"count_fp\":\"3.00\",\"post_only\":true,\"self_trade_prevention_type\":\"taker_at_cross\",\"side\":\"yes\",\"ticker\":\"T\",\"time_in_force\":\"good_till_canceled\",\"type\":\"limit\",\"yes_price_dollars\":\"0.4200\"}")
    );
    let q = client().place_order("T", "no", "buy", 7, "x", 1);
    let body = value(q.request.body.as_deref().unwrap());
    assert_eq!(body["no_price_dollars"], "0.0700");
    assert!(body.get("yes_price_dollars").is_none());
    assert_eq!(body["client_order_id"], q.client_order_id.as_str());
    assert_eq!(q.client_order_id.len(), 36);
    let q = client().place_order("T", "no", "buy", i64::MAX, "92233720368547760.0000", 1);
    let body = value(q.request.body.as_deref().unwrap());
    assert_eq!(body["no_price_dollars"], "92233720368547760.0000");
    for (cents, shown) in [(1 << 45, "351843720888.3200"), ((1 << 45) + 1, "x")] {
        let q = client().place_order("T", "no", "buy", cents, "x", 1);
        assert_eq!(value(q.request.body.as_deref().unwrap())["no_price_dollars"], shown);
    }
}

#[test]
fn taker_order() {
    let r = client().place_taker_order_as("id", "T", "no", "buy", "0.5000", 1, true);
    let body = value(r.body.as_deref().unwrap());
    assert_eq!(body["time_in_force"], "immediate_or_cancel");
    assert_eq!(body["post_only"], false);
    assert_eq!(body["reduce_only"], true);
    assert_eq!(body["no_price_dollars"], "0.5000");
    let q = client().place_taker_order("T", "yes", "buy", 50, "x", 1, false);
    let body = value(q.request.body.as_deref().unwrap());
    assert!(body.get("reduce_only").is_none());
    assert_eq!(body["yes_price_dollars"], "0.5000");
    assert_eq!(body["count_fp"], "1.00");
    let q = client().place_taker_order("T", "yes", "buy", i64::MIN, "-1.0000", 1, false);
    assert_eq!(value(q.request.body.as_deref().unwrap())["yes_price_dollars"], "-1.0000");
}

#[test]
fn amended_orders() {
    let r = client().amend_order_as("o", "old", "new", "T", "yes", "buy", "0.1000", 2);
    assert_eq!(r.path, "/trade-api/v2/portfolio/orders/o/amend");
    assert_eq!(r.url, "https://h/v2/portfolio/orders/o/amend");
    assert_eq!(
        r.body.as_deref(),
        Some("{\"action\":\"buy\",\"client_order_id\":\"old\",\"count_fp\":\"2.00\",\"side\":\"yes\",\"ticker\":\"T\",\"updated_client_order_id\":\"new\",\"yes_price_dollars\":\"0.1000\"}")
    );
    let q = client().amend_order("o", "old", "T", "no", "buy", 10, "x", 2);
    let body = value(q.request.body.as_deref().unwrap());
    assert_eq!(body["updated_client_order_id"], q.client_order_id.as_str());
    assert_eq!(body["no_price_dollars"], "0.1000");
    let q = client().amend_order("o", "old", "T", "no", "buy", i64::MAX, "1.0000", 2);
    assert_eq!(value(q.request.body.as_deref().unwrap())["no_price_dollars"], "1.0000");
}

#[test]
fn cancels_and_questions() {
    let c = client();
    let r = c.cancel_order("o");
    assert_eq!(r.method, "DELETE");
    assert_eq!(r.path, "/trade-api/v2/portfolio/orders/o");
    assert_eq!(r.url, "https://h/v2/portfolio/orders/o");
    assert_eq!(r.body, None);
    let b = c.get_balance();
    assert_eq!((b.method.as_str(), b.path.as_str()), ("GET", "/trade-api/v2/portfolio/balance"));
    assert_eq!(b.url, "https://h/v2/portfolio/balance");
    let p = c.get_position("T");
    assert_eq!(p.path, "/trade-api/v2/portfolio/positions");
    assert_eq!(p.url, "https://h/v2/portfolio/positions?ticker=T");
}

#[test]
fn batches_hold_twenty() {
    let c = client();
    assert!(c.batch_cancel(&[]).is_empty());
    let ids: Vec<String> = (0..41).map(|i| format!("o{}", i)).collect();
    let r = c.batch_cancel(&ids);
    assert_eq!(r.len(), 3);
    let mut seen: Vec<String> = Vec::new();
    for (k, q) in r.iter().enumerate() {
        assert_eq!(q.method, "DELETE");
        assert_eq!(q.path, "/trade-api/v2/portfolio/orders/batched");
        assert_eq!(q.url, "https://h/v2/portfolio/orders/batched");
        let body = value(q.body.as_deref().unwrap());
        let orders = body["orders"].as_array().unwrap();
        assert_eq!(orders.len(), if k < 2 { 20 } else { 1 });
        for o in orders {
            seen.push(o["order_id"].as_str().unwrap().to_string());
        }
    }
    assert_eq!(seen, ids);
    assert_eq!(
        c.batch_cancel(&ids[..1])[0].body.as_deref(),
        Some("{\"orders\":[{\"order_id\":\"o0\"}]}")
    );
}

#[test]
fn headers_authorize() {
    let h = auth_headers("k".to_string(), "s".to_string(), "t".to_string());
    assert_eq!(h[0], ("KALSHI-ACCESS-KEY", "k".to_string()));
    assert_eq!(h[1], ("KALSHI-ACCESS-SIGNATURE", "s".to_string()));
    assert_eq!(h[2], ("KALSHI-ACCESS-TIMESTAMP", "t".to_string()));
}

#[test]
fn replies_to_maker_orders() {
    let id = || "c".to_string();
    let ok = read_place_order(
        201,
        "201 Created",
        "",
        b"{\"order\":{\"order_id\":\"o\",\"status\":\"resting\"}}",
        id(),
    )
    .unwrap();
    assert_eq!((ok.order_id.as_str(), ok.client_order_id.as_str(), ok.status.as_str()), ("o", "c", "resting"));
    let odd = read_place_order(200, "200 OK", "", b"[1]", id()).unwrap();
    assert_eq!((odd.order_id.as_str(), odd.status.as_str()), ("", ""));
    let e = |s: u16, t: &str, f: &str| read_place_order(s, t, f, b"", "c".to_string()).unwrap_err();
    assert_eq!(e(429, "429 Too Many Requests", ""), "Rate limited (429)");
    assert_eq!(e(409, "409 Conflict", ""), "Duplicate order (409)");
    assert_eq!(e(400, "400 Bad Request", "x post only cross y"), "Post-only cross");
    assert_eq!(e(400, "400 Bad Request", "no"), "Order failed: 400 Bad Request no");
    assert_eq!(e(199, "199", ""), "Order failed: 199 ");
    assert_eq!(e(300, "300 Multiple Choices", ""), "Order failed: 300 Multiple Choices ");
    assert_eq!(e(200, "200 OK", ""), "error decoding response body");
}

#[test]
fn replies_to_taker_orders() {
    let e = |s: u16, t: &str, f: &str| read_taker_order(s, t, f, b"{", "c".to_string());
    assert_eq!(e(429, "429", "").unwrap_err(), "Rate limited (429)");
    assert_eq!(e(409, "409 Conflict", "x").unwrap_err(), "Taker order failed: 409 Conflict x");
    assert_eq!(e(200, "200 OK", "").unwrap_err(), "error decoding response body");
    let ok = read_taker_order(200, "200 OK", "", b"{\"order\":{\"order_id\":\"o\"}}", "c".to_string()).unwrap();
    assert_eq!((ok.order_id.as_str(), ok.status.as_str()), ("o", ""));
}

#[test]
fn replies_to_cancels() {
    assert!(read_cancel_order(200, "200 OK", "").is_ok());
    assert!(read_cancel_order(404, "404 Not Found", "").is_ok());
    assert_eq!(read_cancel_order(429, "429", ""), Err("Rate limited (429)".to_string()));
    assert_eq!(
        read_cancel_order(500, "500 Internal Server Error", "b"),
        Err("Cancel failed: 500 Internal Server Error b".to_string())
    );
}

#[test]
fn replies_to_amends() {
    let e = |s: u16| read_amend_order(s, "S", "f", b"", "n".to_string()).unwrap_err();
    assert_eq!(e(429), "Rate limited (429)");
    assert_eq!(e(500), "Amend failed: S f");
    assert_eq!(e(200), "error decoding response body");
    let ok = read_amend_order(200, "S", "", b"{\"order\":{\"order_id\":\"o\",\"status\":\"s\"}}", "n".to_string())
        .unwrap();
    assert_eq!((ok.order_id.as_str(), ok.new_client_order_id.as_str(), ok.status.as_str()), ("o", "n", "s"));
}

#[test]
fn balances() {
    assert_eq!(read_balance(b"{\"balance\":1234}"), Ok(1234));
    assert_eq!(read_balance(b"{\"balance\":-9223372036854775808}"), Ok(i64::MIN));
    assert_eq!(read_balance(b"{\"balance\":9223372036854775808}"), Ok(0));
    assert_eq!(read_balance(b"{\"balance\":12.5}"), Ok(0));
    assert_eq!(read_balance(b"{}"), Ok(0));
    assert_eq!(read_balance(b"nope"), Err("error decoding response body".to_string()));
    assert_eq!(balance_of(&value("{\"balance\":7}")), 7);
}

#[test]
fn positions() {
    let body = b"{\"market_positions\":[{\"ticker\":\"A\",\"position\":1},{\"ticker\":5},{\"ticker\":\"T\",\"position\":-3},{\"ticker\":\"T\",\"position\":9}]}";
    assert_eq!(read_position(body, "T"), Ok(-3));
    assert_eq!(read_position(body, "X"), Ok(0));
    assert_eq!(read_position(b"{\"market_positions\":3}", "T"), Ok(0));
    assert_eq!(read_position(b"", "T"), Err("error decoding response body".to_string()));
    assert_eq!(position_of(&value("{\"market_positions\":[{\"ticker\":\"T\"}]}"), "T"), 0);
}

#[test]
fn orders_of_replies() {
    let reply = value("{\"order\":{\"order_id\":\"o\",\"status\":3}}");
    let p = placed_order(&reply, "c".to_string());
    assert_eq!((p.order_id.as_str(), p.client_order_id.as_str(), p.status.as_str()), ("o", "c", ""));
    let a = amended_order(&reply, "n".to_string());
    assert_eq!((a.order_id.as_str(), a.new_client_order_id.as_str()), ("o", "n"));
}
