use std::sync::Arc;

use kalshi_mm::market_data::Side;
use kalshi_mm::ws::{
    after_stream, parse_ws_message, stream_headers, stream_step, subscribe_cmd, unread_is_notable,
    unsubscribe_cmd, DeltaMsg, FillMsg, RawWsMessage, SnapshotMsg, StreamEvent, StreamStep,
    SubscribedMsg, TickerMsg, TradeMsg, UserOrderMsg, WsManager, WsMessage,
};

fn read(raw: RawWsMessage) -> WsMessage {
    parse_ws_message("text", Some(raw))
}

#[test]
fn unread_texts_are_kept() {
    match parse_ws_message("{}", None) {
        WsMessage::Unknown(t) => assert_eq!(t, "{}"),
        other => panic!("{:?}", other),
    }
}

#[test]
fn warnings_are_for_typed_texts() {
    assert!(unread_is_notable("{\"type\":\"odd\"}"));
    assert!(!unread_is_notable("{\"type\":\"heartbeat\"}"));
    assert!(!unread_is_notable("hello"));
}

#[test]
fn snapshots_prefer_the_newer_fields() {
    let msg = SnapshotMsg {
        market_ticker: "T",
        yes_dollars_fp: Some(vec![(40, 5)]),
        no_dollars_fp: None,
        yes: Some(vec![(1, 1)]),
        no: Some(vec![(50, 6)]),
    };
    match read(RawWsMessage::OrderbookSnapshot { seq: 9, msg }) {
        WsMessage::OrderbookSnapshot { market_ticker, yes_levels, no_levels, seq } => {
            assert_eq!(market_ticker, "T");
            assert_eq!(yes_levels, vec![(40, 5)]);
            assert_eq!(no_levels, vec![(50, 6)]);
            assert_eq!(seq, 9);
        }
        other => panic!("{:?}", other),
    }
    let empty =
        SnapshotMsg { market_ticker: "", yes_dollars_fp: None, no_dollars_fp: None, yes: None, no: None };
    match read(RawWsMessage::OrderbookSnapshot { seq: 0, msg: empty }) {
        WsMessage::OrderbookSnapshot { yes_levels, no_levels, .. } => {
            assert!(yes_levels.is_empty() && no_levels.is_empty());
        }
        other => panic!("{:?}", other),
    }
}

#[test]
fn deltas_name_a_side() {
    let delta = |side| DeltaMsg {
        market_ticker: "T",
        side,
        price_dollars: Some(42),
        price: Some(7),
        delta_fp: None,
        delta: Some(-3),
    };
    match read(RawWsMessage::OrderbookDelta { seq: 4, msg: delta("yes") }) {
        WsMessage::OrderbookDelta { side, price, delta, seq, .. } => {
            assert_eq!((side, price, delta, seq), (Side::Yes, 42, -3, 4));
        }
        other => panic!("{:?}", other),
    }
    match read(RawWsMessage::OrderbookDelta { seq: 4, msg: delta("anything") }) {
        WsMessage::OrderbookDelta { side, .. } => assert_eq!(side, Side::No),
        other => panic!("{:?}", other),
    }
}

#[test]
fn fills_fall_back_to_zero() {
    let msg = FillMsg {
        trade_id: "t",
        order_id: "o",
        market_ticker: "T",
        side: "no",
        action: "buy",
        yes_price_dollars: None,
        yes_price: Some(61),
        count_fp: Some(2),
        count: None,
        is_taker: None,
        post_position: Some(5),
        post_position_fp: Some(-4),
    };
    match read(RawWsMessage::Fill { msg }) {
        WsMessage::Fill {
            trade_id,
            order_id,
            market_ticker,
            side,
            yes_price,
            count,
            action,
            is_taker,
            post_position,
        } => {
            assert_eq!((trade_id.as_str(), order_id.as_str()), ("t", "o"));
            assert_eq!((market_ticker.as_str(), side.as_str(), action.as_str()), ("T", "no", "buy"));
            assert_eq!((yes_price, count, is_taker, post_position), (61, 2, false, -4));
        }
        other => panic!("{:?}", other),
    }
}

#[test]
fn other_messages_carry_over() {
    let msg = UserOrderMsg {
        order_id: "o",
        ticker: "T",
        status: "resting",
        side: "yes",
        remaining_count_fp: Some("3.00"),
        fill_count_fp: None,
        client_order_id: Some("c"),
        initial_count_fp: None,
    };
    match read(RawWsMessage::UserOrder { msg }) {
        WsMessage::UserOrder { remaining_count_fp, fill_count_fp, client_order_id, status, .. } => {
            assert_eq!(remaining_count_fp, "3.00");
            assert_eq!(fill_count_fp, "0.00");
            assert_eq!(client_order_id.as_deref(), Some("c"));
            assert_eq!(status, "resting");
        }
        other => panic!("{:?}", other),
    }
    let msg = TickerMsg {
        market_ticker: "T",
        yes_bid_dollars: Some(1),
        yes_bid: None,
        yes_ask_dollars: None,
        yes_ask: Some(2),
        price_dollars: None,
        price: None,
        volume_fp: Some(9),
        volume: Some(8),
    };
    match read(RawWsMessage::Ticker { msg }) {
        WsMessage::Ticker { yes_bid, yes_ask, price, volume, .. } => {
            assert_eq!((yes_bid, yes_ask, price, volume), (1, 2, 0, 9));
        }
        other => panic!("{:?}", other),
    }
    let msg = TradeMsg {
        market_ticker: "T",
        yes_price_dollars: None,
        yes_price: None,
        count_fp: None,
        count: Some(4),
        taker_side: "no",
    };
    match read(RawWsMessage::Trade { msg }) {
        WsMessage::Trade { yes_price, count, taker_side, .. } => {
            assert_eq!((yes_price, count, taker_side.as_str()), (0, 4, "no"));
        }
        other => panic!("{:?}", other),
    }
    match read(RawWsMessage::Subscribed { msg: SubscribedMsg { channel: "fill", sid: 3 } }) {
        WsMessage::Subscribed { channel, sid } => assert_eq!((channel.as_str(), sid), ("fill", 3)),
        other => panic!("{:?}", other),
    }
    match read(RawWsMessage::Error { code: 7, msg: "bad" }) {
        WsMessage::Error { code, message } => assert_eq!((code, message.as_str()), (7, "bad")),
        other => panic!("{:?}", other),
    }
}

#[test]
fn commands_are_json() {
    assert_eq!(
        subscribe_cmd(1, &["orderbook_delta", "fill"], "T\"x"),
        "{\"cmd\":\"subscribe\",\"id\":1,\"params\":{\"channels\":[\"orderbook_delta\",\"fill\"],\"market_ticker\":\"T\\\"x\"}}"
    );
    assert_eq!(
        unsubscribe_cmd(u64::MAX, &[1, 2]),
        "{\"cmd\":\"unsubscribe\",\"id\":18446744073709551615,\"params\":{\"sids\":[1,2]}}"
    );
    assert_eq!(
        unsubscribe_cmd(0, &[]),
        "{\"cmd\":\"unsubscribe\",\"id\":0,\"params\":{\"sids\":[]}}"
    );
}

#[test]
fn five_channels_are_subscribed_to() {
    let m = WsManager::new("wss://h/x".to_string(), Arc::new(()), "T".to_string());
    let cmds = m.subscriptions();
    let names = ["orderbook_delta", "fill", "user_orders", "trade", "ticker"];
    assert_eq!(cmds.len(), 5);
    for (i, name) in names.iter().enumerate() {
        assert_eq!(cmds[i], subscribe_cmd(i as u64 + 1, &[*name], "T"));
    }
}

#[test]
fn handshake_names_the_host() {
    let m = WsManager::new(
        "wss://api.elections.kalshi.com/trade-api/ws/v2".to_string(),
        Arc::new(()),
        "T".to_string(),
    );
    let h = m.handshake("k".to_string(), "s".to_string(), "1".to_string()).unwrap();
    assert_eq!(h.len(), 8);
    assert_eq!(h[0], ("KALSHI-ACCESS-KEY", "k".to_string()));
    assert_eq!(h[1], ("KALSHI-ACCESS-SIGNATURE", "s".to_string()));
    assert_eq!(h[2], ("KALSHI-ACCESS-TIMESTAMP", "1".to_string()));
    assert_eq!(h[3], ("Host", "api.elections.kalshi.com".to_string()));
    assert_eq!(h[4], ("Connection", "Upgrade".to_string()));
    assert_eq!(h[5], ("Upgrade", "websocket".to_string()));
    assert_eq!(h[6], ("Sec-WebSocket-Version", "13".to_string()));
    assert_eq!(h[7].0, "Sec-WebSocket-Key");
    assert_eq!(h[7].1.len(), 24);
    assert!(h[7].1.ends_with("=="));
    assert!(h[7].1[..22].chars().all(|c| c.is_ascii_alphanumeric() || c == '+' || c == '/'));
    let other = m.handshake("k".to_string(), "s".to_string(), "1".to_string()).unwrap();
    assert_ne!(h[7].1, other[7].1);
}

#[test]
fn handshake_without_a_host_or_a_url() {
    let no_host = WsManager::new("data:text/plain,x".to_string(), Arc::new(()), "T".to_string());
    let h = no_host.handshake(String::new(), String::new(), String::new()).unwrap();
    assert_eq!(h[3], ("Host", String::new()));
    let no_url = WsManager::new("not a url".to_string(), Arc::new(()), "T".to_string());
    let e = no_url.handshake(String::new(), String::new(), String::new()).unwrap_err();
    assert_eq!(e, "relative URL without a base");
    let made = stream_headers(
        String::new(),
        String::new(),
        String::new(),
        "h".to_string(),
        "key".to_string(),
    );
    assert_eq!(made[7].1, "key");
}

#[test]
fn events_on_a_stream() {
    assert_eq!(stream_step(StreamEvent::Text), StreamStep::Forward);
    assert_eq!(stream_step(StreamEvent::Ping), StreamStep::Wait);
    assert_eq!(stream_step(StreamEvent::Other), StreamStep::Wait);
    assert_eq!(stream_step(StreamEvent::Close), StreamStep::Leave);
    assert_eq!(stream_step(StreamEvent::Ended), StreamStep::Leave);
    assert_eq!(stream_step(StreamEvent::ReceiverGone), StreamStep::Leave);
    assert_eq!(stream_step(StreamEvent::Failed), StreamStep::Fail);
}

#[test]
fn broken_streams_are_reported_and_paused_for() {
    let r = after_stream(Some("gone"));
    assert_eq!(r.pause_secs, 1);
    match r.report {
        Some(WsMessage::Error { code, message }) => {
            assert_eq!((code, message.as_str()), (0, "WS disconnect: gone"));
        }
        other => panic!("{:?}", other),
    }
    let ok = after_stream(None);
    assert_eq!(ok.pause_secs, 0);
    assert!(ok.report.is_none());
}
