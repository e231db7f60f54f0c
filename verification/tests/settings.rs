use kalshi_mm::config::{env_assignments, Config, EnvSettings};
use kalshi_mm::double::Double;

fn nothing() -> EnvSettings {
    EnvSettings {
        series_ticker: None,
        order_size: None,
        max_inventory: None,
        hard_inventory_cap: None,
        taker_enabled: None,
        daily_loss_cap: None,
        rate_limit_wps: None,
        quote_refresh_ms: None,
        rest_timeout_ms: None,
        rotate_before_close_secs: None,
        rest_base_url: None,
        ws_url: None,
        z_score_window: None,
        z60_window: None,
        z_gear1_threshold: None,
        z_gear2_threshold: None,
        z60_noise_cap: None,
        signal_timeout: None,
        ladder_levels: None,
        gear2_enabled: None,
        no_open_before_close_secs: None,
        no_trade_before_close_secs: None,
        spread_max_for_gear2: None,
    }
}

fn some(s: &str) -> Option<String> {
    Some(s.to_string())
}

#[test]
fn defaults() {
    let c = Config::default();
    assert_eq!(c.series_ticker, "KXBTC15M");
    assert_eq!(c.rest_base_url, "https://api.elections.kalshi.com/trade-api/v2");
    assert_eq!(c.ws_url, "wss://api.elections.kalshi.com/trade-api/ws/v2");
    assert_eq!((c.order_size, c.max_inventory, c.hard_inventory_cap), (1, 5, 7));
    assert_eq!(c.daily_loss_cap_cents, 500);
    assert_eq!(c.rate_limit_writes_per_sec, 28);
    assert_eq!((c.quote_refresh_interval, c.rest_timeout), (5, 200));
    assert_eq!(c.market_check_interval, 30_000);
    assert_eq!(c.market_rotate_before_close_secs, 210);
    assert_eq!((c.z_score_window, c.z60_window), (13_000_000_000, 60_000_000_000));
    assert_eq!(f64::from_bits(c.z_gear1_threshold.bits), 1.2);
    assert_eq!(f64::from_bits(c.z_gear2_threshold.bits), 2.0);
    assert_eq!(f64::from_bits(c.z60_noise_cap.bits), 1.0);
    assert_eq!(f64::from_bits(c.spread_max_for_gear2.bits), 1.5);
    assert_eq!(c.signal_timeout, 30_000_000_000);
    assert_eq!(c.ladder_levels, 2);
    assert!(c.taker_enabled && !c.gear2_enabled);
    assert_eq!((c.no_open_before_close_secs, c.no_trade_before_close_secs), (210, 240));
}

#[test]
fn empty_environment_gives_the_defaults() {
    let c = Config::from_env(&nothing());
    let d = Config::default();
    assert_eq!(format!("{:?}", c), format!("{:?}", d));
}

#[test]
fn environment_overrides() {
    let mut e = nothing();
    e.series_ticker = some("KXETH");
    e.order_size = some("3");
    e.max_inventory = some("-4");
    e.taker_enabled = some("false");
    e.gear2_enabled = some("yes");
    e.ladder_levels = some("4");
    e.rate_limit_wps = some("10");
    e.quote_refresh_ms = some("50");
    e.z_gear1_threshold = Some(Double { bits: 1.5f64.to_bits() });
    e.signal_timeout = Some(7);
    let c = Config::from_env(&e);
    assert_eq!(c.series_ticker, "KXETH");
    assert_eq!((c.order_size, c.max_inventory), (3, -4));
    assert!(!c.taker_enabled && c.gear2_enabled);
    assert_eq!((c.ladder_levels, c.rate_limit_writes_per_sec), (4, 10));
    assert_eq!(c.quote_refresh_interval, 50);
    assert_eq!(f64::from_bits(c.z_gear1_threshold.bits), 1.5);
    assert_eq!(c.signal_timeout, 7);
}

#[test]
fn unreadable_numbers_change_nothing() {
    let mut e = nothing();
    e.order_size = some("three");
    e.rate_limit_wps = some("4294967296");
    e.ladder_levels = some("-1");
    e.daily_loss_cap = some("");
    e.taker_enabled = some("0");
    let c = Config::from_env(&e);
    assert_eq!(c.order_size, 1);
    assert_eq!(c.rate_limit_writes_per_sec, 28);
    assert_eq!(c.ladder_levels, 2);
    assert_eq!(c.daily_loss_cap_cents, 500);
    assert!(!c.taker_enabled);
}

#[test]
fn settings_file_is_read_line_by_line() {
    let text = "# a comment\n\nA=1\n  B = \"two words\" \r\nno sign\nC=x=y\n=z\nD=";
    let got = env_assignments(text);
    let want: Vec<(String, String)> = [("A", "1"), ("B", "two words"), ("C", "x=y"), ("", "z"), ("D", "")]
        .iter()
        .map(|(k, v)| (k.to_string(), v.to_string()))
        .collect();
    assert_eq!(got, want);
    assert!(env_assignments("").is_empty());
}
