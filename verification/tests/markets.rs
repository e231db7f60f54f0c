use kalshi_mm::market_finder::{
    active_markets_request, check_markets_reply, choose_market, find_active_markets,
    find_current_market, sort_by_close, Market,
};
use kalshi_mm::utc::UtcTime;

fn market(ticker: &str, close: Option<&str>, volume: Option<i64>, volume_fp: Option<i64>) -> Market {
    Market {
        ticker: ticker.to_string(),
        title: String::new(),
        status: "open".to_string(),
        yes_price: None,
        volume,
        volume_fp,
        event_ticker: None,
        close_time: close.map(|s| s.to_string()),
        expiration_time: None,
    }
}

fn tickers(v: &[Market]) -> Vec<String> {
    v.iter().map(|m| m.ticker.clone()).collect()
}

fn noon() -> UtcTime {
    UtcTime::parse("2025-03-01T12:00:00Z").unwrap()
}

#[test]
fn markets_are_asked_for() {
    let r = active_markets_request("KXBTC15M");
    assert_eq!(r.method, "GET");
    assert_eq!(r.path, "/trade-api/v2/markets?series_ticker=KXBTC15M&status=open&limit=100");
    assert_eq!(
        r.url,
        "https://api.elections.kalshi.com/trade-api/v2/markets?series_ticker=KXBTC15M&status=open&limit=100"
    );
    assert_eq!(r.body, None);
}

#[test]
fn refused_questions_are_reported() {
    assert!(check_markets_reply(200, "200 OK", "").is_ok());
    assert_eq!(
        check_markets_reply(500, "500 Internal Server Error", "oops"),
        Err("Kalshi API error 500 Internal Server Error: oops".to_string())
    );
    assert_eq!(
        find_active_markets(404, "404 Not Found", "x", vec![]).unwrap_err(),
        "Kalshi API error 404 Not Found: x"
    );
}

#[test]
fn markets_are_sorted_by_close_and_ties_keep_their_order() {
    let v = vec![
        market("c", Some("2025-03-02"), None, None),
        market("none", None, None, None),
        market("a1", Some("2025-03-01"), None, None),
        market("a2", Some("2025-03-01"), None, None),
        market("b", Some("2025-03-01T01"), None, None),
        market("a3", Some("2025-03-01"), None, None),
    ];
    let mut expected = v.clone();
    expected.sort_by(|a, b| {
        let x = a.close_time.as_deref().unwrap_or("9999");
        let y = b.close_time.as_deref().unwrap_or("9999");
        x.cmp(y)
    });
    let sorted = sort_by_close(v.clone());
    assert_eq!(tickers(&sorted), tickers(&expected));
    assert_eq!(tickers(&sorted), ["a1", "a2", "a3", "b", "c", "none"]);
    let found = find_active_markets(200, "200 OK", "", v).unwrap();
    assert_eq!(tickers(&found), tickers(&expected));
}

#[test]
fn traded_market_with_time_left_is_chosen() {
    let v = vec![
        market("soon", Some("2025-03-01T12:01:00Z"), Some(5), None),
        market("quiet", Some("2025-03-01T12:10:00Z"), Some(0), None),
        market("busy", Some("2025-03-01T12:20:00Z"), None, Some(3)),
        market("later", Some("2025-03-01T12:30:00Z"), Some(9), None),
    ];
    assert_eq!(choose_market(&v, noon()), Some(2));
    assert_eq!(find_current_market(&v, "S", noon()).unwrap().ticker, "busy");
}

#[test]
fn a_minute_must_be_left() {
    let at = |s: &str| vec![market("m", Some(s), Some(1), None)];
    assert_eq!(choose_market(&at("2025-03-01T12:01:00Z"), noon()), None);
    assert_eq!(choose_market(&at("2025-03-01T12:01:00.999Z"), noon()), None);
    assert_eq!(choose_market(&at("2025-03-01T12:01:01Z"), noon()), Some(0));
    assert_eq!(choose_market(&at("not a time"), noon()), Some(0));
}

#[test]
fn without_a_traded_market_the_first_with_time_left_is_chosen() {
    let v = vec![
        market("soon", Some("2025-03-01T12:00:30Z"), Some(5), None),
        market("quiet", None, None, None),
        market("other", None, None, None),
    ];
    assert_eq!(find_current_market(&v, "S", noon()).unwrap().ticker, "quiet");
}

#[test]
fn reasons_for_finding_none() {
    assert_eq!(
        find_current_market(&vec![], "KX", noon()).unwrap_err(),
        "No open KX markets found"
    );
    let v = vec![market("soon", Some("2025-03-01T12:00:30Z"), Some(5), None)];
    assert_eq!(
        find_current_market(&v, "KX", noon()).unwrap_err(),
        "No suitable KX market found (all expiring)"
    );
}

#[test]
fn volume_comes_from_either_field() {
    assert!(market("m", None, Some(1), None).has_volume());
    assert!(market("m", None, Some(-1), Some(2)).has_volume());
    assert!(!market("m", None, Some(0), Some(0)).has_volume());
    assert!(!market("m", None, None, None).has_volume());
}

#[test]
fn the_first_to_close_is_preferred() {
    let v = sort_by_close(vec![
        market("late", Some("2025-03-01T14:00:00Z"), Some(1), None),
        market("early", Some("2025-03-01T13:00:00Z"), Some(1), None),
        market("over", Some("2025-03-01T11:00:00Z"), Some(1), None),
    ]);
    assert_eq!(find_current_market(&v, "S", noon()).unwrap().ticker, "early");
}
