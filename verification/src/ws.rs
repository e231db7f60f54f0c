//! The stream of market data: its messages, the commands that subscribe to it,
//! and what to do as it comes and goes.

use std::sync::Arc;
use vstd::prelude::*;

use crate::json::{
    array, json_of, json_text, jsons, new_object, number, set_member, text, to_text, Json,
};
use crate::market_data::Side;
use crate::text::{begins_with, has_text, occurs_in, same_text};

verus! {

/// A message for the trading session.
#[derive(Debug, Clone)]
pub enum WsMessage {
    OrderbookSnapshot {
        market_ticker: String,
        yes_levels: Vec<(i64, i64)>,
        no_levels: Vec<(i64, i64)>,
        seq: u64,
    },
    OrderbookDelta { market_ticker: String, side: Side, price: i64, delta: i64, seq: u64 },
    Fill {
        trade_id: String,
        order_id: String,
        market_ticker: String,
        side: String,
        yes_price: i64,
        count: i64,
        action: String,
        is_taker: bool,
        post_position: i64,
    },
    UserOrder {
        order_id: String,
        client_order_id: Option<String>,
        ticker: String,
        status: String,
        side: String,
        remaining_count_fp: String,
        fill_count_fp: String,
    },
    Ticker { market_ticker: String, yes_bid: i64, yes_ask: i64, price: i64, volume: i64 },
    Trade { market_ticker: String, yes_price: i64, count: i64, taker_side: String },
    Subscribed { channel: String, sid: u64 },
    Error { code: u64, message: String },
    Unknown(String),
}

/// A message as it comes. A number that may be given as a text in dollars or
/// with a fraction stands beside the one that is given as an integer; it is
/// already read, prices in cents and counts as whole numbers.
#[derive(Debug)]
pub enum RawWsMessage<'a> {
    OrderbookSnapshot { seq: u64, msg: SnapshotMsg<'a> },
    OrderbookDelta { seq: u64, msg: DeltaMsg<'a> },
    Fill { msg: FillMsg<'a> },
    UserOrder { msg: UserOrderMsg<'a> },
    Ticker { msg: TickerMsg<'a> },
    Trade { msg: TradeMsg<'a> },
    Subscribed { msg: SubscribedMsg<'a> },
    Error { code: u64, msg: &'a str },
}

#[derive(Debug)]
pub struct SnapshotMsg<'a> {
    pub market_ticker: &'a str,
    pub yes_dollars_fp: Option<Vec<(i64, i64)>>,
    pub no_dollars_fp: Option<Vec<(i64, i64)>>,
    pub yes: Option<Vec<(i64, i64)>>,
    pub no: Option<Vec<(i64, i64)>>,
}

#[derive(Debug)]
pub struct DeltaMsg<'a> {
    pub market_ticker: &'a str,
    pub side: &'a str,
    pub price_dollars: Option<i64>,
    pub price: Option<i64>,
    pub delta_fp: Option<i64>,
    pub delta: Option<i64>,
}

#[derive(Debug)]
pub struct FillMsg<'a> {
    pub trade_id: &'a str,
    pub order_id: &'a str,
    pub market_ticker: &'a str,
    pub side: &'a str,
    pub action: &'a str,
    pub yes_price_dollars: Option<i64>,
    pub yes_price: Option<i64>,
    pub count_fp: Option<i64>,
    pub count: Option<i64>,
    pub is_taker: Option<bool>,
    pub post_position: Option<i64>,
    pub post_position_fp: Option<i64>,
}

#[derive(Debug)]
pub struct UserOrderMsg<'a> {
    pub order_id: &'a str,
    pub ticker: &'a str,
    pub status: &'a str,
    pub side: &'a str,
    pub remaining_count_fp: Option<&'a str>,
    pub fill_count_fp: Option<&'a str>,
    pub client_order_id: Option<&'a str>,
    pub initial_count_fp: Option<&'a str>,
}

#[derive(Debug)]
pub struct TickerMsg<'a> {
    pub market_ticker: &'a str,
    pub yes_bid_dollars: Option<i64>,
    pub yes_bid: Option<i64>,
    pub yes_ask_dollars: Option<i64>,
    pub yes_ask: Option<i64>,
    pub price_dollars: Option<i64>,
    pub price: Option<i64>,
    pub volume_fp: Option<i64>,
    pub volume: Option<i64>,
}

#[derive(Debug)]
pub struct TradeMsg<'a> {
    pub market_ticker: &'a str,
    pub yes_price_dollars: Option<i64>,
    pub yes_price: Option<i64>,
    pub count_fp: Option<i64>,
    pub count: Option<i64>,
    pub taker_side: &'a str,
}

#[derive(Debug)]
pub struct SubscribedMsg<'a> {
    pub channel: &'a str,
    pub sid: u64,
}

/// A number that may be given as a text or as an integer: the text counts, and
/// where neither is given it is 0.
pub open spec fn resolved(fp: Option<i64>, legacy: Option<i64>) -> i64 {
    match fp {
        Some(v) => v,
        None => match legacy {
            Some(v) => v,
            None => 0,
        },
    }
}

/// Price levels that may be given as texts or as integers.
pub open spec fn resolved_levels(
    fp: Option<Vec<(i64, i64)>>,
    legacy: Option<Vec<(i64, i64)>>,
) -> Seq<(i64, i64)> {
    match fp {
        Some(v) => v@,
        None => match legacy {
            Some(v) => v@,
            None => seq![],
        },
    }
}

/// The side that a text names: no, unless it is yes.
pub open spec fn side_named(side: Seq<char>) -> Side {
    if side == "yes"@ {
        Side::Yes
    } else {
        Side::No
    }
}

/// A text that may be missing.
pub open spec fn text_or<'a>(t: Option<&'a str>, default: Seq<char>) -> Seq<char> {
    match t {
        Some(s) => s@,
        None => default,
    }
}

/// Whether `m` says what a message that came as `raw` says.
pub open spec fn says<'a>(m: WsMessage, raw: RawWsMessage<'a>) -> bool {
    match raw {
        RawWsMessage::OrderbookSnapshot { seq, msg } => m matches WsMessage::OrderbookSnapshot {
            market_ticker,
            yes_levels,
            no_levels,
            seq: n,
        } && market_ticker@ == msg.market_ticker@ && yes_levels@ == resolved_levels(
            msg.yes_dollars_fp,
            msg.yes,
        ) && no_levels@ == resolved_levels(msg.no_dollars_fp, msg.no) && n == seq,
        RawWsMessage::OrderbookDelta { seq, msg } => m matches WsMessage::OrderbookDelta {
            market_ticker,
            side,
            price,
            delta,
            seq: n,
        } && market_ticker@ == msg.market_ticker@ && side == side_named(msg.side@) && price
            == resolved(msg.price_dollars, msg.price) && delta == resolved(
            msg.delta_fp,
            msg.delta,
        ) && n == seq,
        RawWsMessage::Fill { msg } => m matches WsMessage::Fill {
            trade_id,
            order_id,
            market_ticker,
            side,
            yes_price,
            count,
            action,
            is_taker,
            post_position,
        } && trade_id@ == msg.trade_id@ && order_id@ == msg.order_id@ && market_ticker@
            == msg.market_ticker@ && side@ == msg.side@ && yes_price == resolved(
            msg.yes_price_dollars,
            msg.yes_price,
        ) && count == resolved(msg.count_fp, msg.count) && action@ == msg.action@ && is_taker
            == (msg.is_taker == Some(true)) && post_position == resolved(
            msg.post_position_fp,
            msg.post_position,
        ),
        RawWsMessage::UserOrder { msg } => m matches WsMessage::UserOrder {
            order_id,
            client_order_id,
            ticker,
            status,
            side,
            remaining_count_fp,
            fill_count_fp,
        } && order_id@ == msg.order_id@ && match msg.client_order_id {
            Some(c) => client_order_id matches Some(d) && d@ == c@,
            None => client_order_id is None,
        } && ticker@ == msg.ticker@ && status@ == msg.status@ && side@ == msg.side@
            && remaining_count_fp@ == text_or(msg.remaining_count_fp, "0.00"@) && fill_count_fp@
            == text_or(msg.fill_count_fp, "0.00"@),
        RawWsMessage::Ticker { msg } => m matches WsMessage::Ticker {
            market_ticker,
            yes_bid,
            yes_ask,
            price,
            volume,
        } && market_ticker@ == msg.market_ticker@ && yes_bid == resolved(
            msg.yes_bid_dollars,
            msg.yes_bid,
        ) && yes_ask == resolved(msg.yes_ask_dollars, msg.yes_ask) && price == resolved(
            msg.price_dollars,
            msg.price,
        ) && volume == resolved(msg.volume_fp, msg.volume),
        RawWsMessage::Trade { msg } => m matches WsMessage::Trade {
            market_ticker,
            yes_price,
            count,
            taker_side,
        } && market_ticker@ == msg.market_ticker@ && yes_price == resolved(
            msg.yes_price_dollars,
            msg.yes_price,
        ) && count == resolved(msg.count_fp, msg.count) && taker_side@ == msg.taker_side@,
        RawWsMessage::Subscribed { msg } => m matches WsMessage::Subscribed { channel, sid }
            && channel@ == msg.channel@ && sid == msg.sid,
        RawWsMessage::Error { code, msg } => m matches WsMessage::Error { code: c, message } && c
            == code && message@ == msg@,
    }
}

fn resolve(fp: Option<i64>, legacy: Option<i64>) -> (r: i64)
    ensures
        r == resolved(fp, legacy),
{
    match fp {
        Some(v) => v,
        None => legacy.unwrap_or(0),
    }
}

fn resolve_levels(fp: Option<Vec<(i64, i64)>>, legacy: Option<Vec<(i64, i64)>>) -> (r: Vec<
    (i64, i64),
>)
    ensures
        r@ == resolved_levels(fp, legacy),
{
    match fp {
        Some(v) => v,
        None => match legacy {
            Some(v) => v,
            None => {
                let v: Vec<(i64, i64)> = Vec::new();
                assert(v@ =~= seq![]);
                v
            },
        },
    }
}

fn owned_or(t: Option<&str>, default: &str) -> (r: String)
    ensures
        r@ == text_or(t, default@),
{
    match t {
        Some(s) => s.to_owned(),
        None => default.to_owned(),
    }
}

/// The message for the session. `raw` is what `text` was read as; where it
/// could not be read the message holds the text as it came.
pub fn parse_ws_message<'a>(text: &str, raw: Option<RawWsMessage<'a>>) -> (r: WsMessage)
    ensures
        match raw {
            Some(m) => says(r, m),
            None => r matches WsMessage::Unknown(t) && t@ == text@,
        },
{
    let raw = match raw {
        Some(raw) => raw,
        None => {
            return WsMessage::Unknown(text.to_owned());
        },
    };
    match raw {
        RawWsMessage::OrderbookSnapshot { seq, msg } => WsMessage::OrderbookSnapshot {
            market_ticker: msg.market_ticker.to_owned(),
            yes_levels: resolve_levels(msg.yes_dollars_fp, msg.yes),
            no_levels: resolve_levels(msg.no_dollars_fp, msg.no),
            seq,
        },
        RawWsMessage::OrderbookDelta { seq, msg } => WsMessage::OrderbookDelta {
            market_ticker: msg.market_ticker.to_owned(),
            side: if same_text(msg.side, "yes") {
                Side::Yes
            } else {
                Side::No
            },
            price: resolve(msg.price_dollars, msg.price),
            delta: resolve(msg.delta_fp, msg.delta),
            seq,
        },
        RawWsMessage::Fill { msg } => WsMessage::Fill {
            trade_id: msg.trade_id.to_owned(),
            order_id: msg.order_id.to_owned(),
            market_ticker: msg.market_ticker.to_owned(),
            side: msg.side.to_owned(),
            yes_price: resolve(msg.yes_price_dollars, msg.yes_price),
            count: resolve(msg.count_fp, msg.count),
            action: msg.action.to_owned(),
            is_taker: msg.is_taker.unwrap_or(false),
            post_position: resolve(msg.post_position_fp, msg.post_position),
        },
        RawWsMessage::UserOrder { msg } => WsMessage::UserOrder {
            order_id: msg.order_id.to_owned(),
            client_order_id: match msg.client_order_id {
                Some(c) => Some(c.to_owned()),
                None => None,
            },
            ticker: msg.ticker.to_owned(),
            status: msg.status.to_owned(),
            side: msg.side.to_owned(),
            remaining_count_fp: owned_or(msg.remaining_count_fp, "0.00"),
            fill_count_fp: owned_or(msg.fill_count_fp, "0.00"),
        },
        RawWsMessage::Ticker { msg } => WsMessage::Ticker {
            market_ticker: msg.market_ticker.to_owned(),
            yes_bid: resolve(msg.yes_bid_dollars, msg.yes_bid),
            yes_ask: resolve(msg.yes_ask_dollars, msg.yes_ask),
            price: resolve(msg.price_dollars, msg.price),
            volume: resolve(msg.volume_fp, msg.volume),
        },
        RawWsMessage::Trade { msg } => WsMessage::Trade {
            market_ticker: msg.market_ticker.to_owned(),
            yes_price: resolve(msg.yes_price_dollars, msg.yes_price),
            count: resolve(msg.count_fp, msg.count),
            taker_side: msg.taker_side.to_owned(),
        },
        RawWsMessage::Subscribed { msg } => WsMessage::Subscribed {
            channel: msg.channel.to_owned(),
            sid: msg.sid,
        },
        RawWsMessage::Error { code, msg } => WsMessage::Error { code, message: msg.to_owned() },
    }
}

/// Whether a text that could not be read is worth a warning: one with a type,
/// unless it is a heartbeat.
pub fn unread_is_notable(text: &str) -> (r: bool)
    ensures
        r == (occurs_in(text@, "\"type\""@) && !occurs_in(text@, "\"heartbeat\""@)),
{
    has_text(text, "\"type\"") && !has_text(text, "\"heartbeat\"")
}

/// The command that subscribes to channels of a market.
pub open spec fn subscribe_json(id: u64, channels: Seq<&str>, ticker: Seq<char>) -> Json {
    Json::no_members().with("id"@, Json::Int(id as int)).with("cmd"@, Json::Text("subscribe"@)).with(
        "params"@,
        Json::no_members().with(
            "channels"@,
            Json::Array(channels.map_values(|c: &str| Json::Text(c@))),
        ).with("market_ticker"@, Json::Text(ticker)),
    )
}

/// The command that ends subscriptions.
pub open spec fn unsubscribe_json(id: u64, sids: Seq<u64>) -> Json {
    Json::no_members().with("id"@, Json::Int(id as int)).with(
        "cmd"@,
        Json::Text("unsubscribe"@),
    ).with(
        "params"@,
        Json::no_members().with(
            "sids"@,
            Json::Array(sids.map_values(|s: u64| Json::Int(s as int))),
        ),
    )
}

/// The command that subscribes to channels of a market.
pub fn subscribe_cmd(id: u64, channels: &[&str], market_ticker: &str) -> (r: String)
    ensures
        r@ == json_text(subscribe_json(id, channels@, market_ticker@)),
{
    let ghost listed = channels@.map_values(|c: &str| Json::Text(c@));
    let mut list: Vec<serde_json::Value> = Vec::new();
    let mut i: usize = 0;
    while i < channels.len()
        invariant
            i <= channels@.len(),
            list@.len() == i,
            listed == channels@.map_values(|c: &str| Json::Text(c@)),
            forall|k: int| 0 <= k < i ==> json_of(#[trigger] list@[k]) == listed[k],
        decreases channels@.len() - i,
    {
        list.push(text(channels[i]));
        i += 1;
    }
    assert(jsons(list@) =~= listed);
    let mut params = new_object();
    set_member(&mut params, "channels", array(list));
    set_member(&mut params, "market_ticker", text(market_ticker));
    let mut cmd = new_object();
    set_member(&mut cmd, "id", number(id));
    set_member(&mut cmd, "cmd", text("subscribe"));
    set_member(&mut cmd, "params", params);
    to_text(&cmd)
}

/// The command that ends subscriptions.
pub fn unsubscribe_cmd(id: u64, sids: &[u64]) -> (r: String)
    ensures
        r@ == json_text(unsubscribe_json(id, sids@)),
{
    let ghost listed = sids@.map_values(|s: u64| Json::Int(s as int));
    let mut list: Vec<serde_json::Value> = Vec::new();
    let mut i: usize = 0;
    while i < sids.len()
        invariant
            i <= sids@.len(),
            list@.len() == i,
            listed == sids@.map_values(|s: u64| Json::Int(s as int)),
            forall|k: int| 0 <= k < i ==> json_of(#[trigger] list@[k]) == listed[k],
        decreases sids@.len() - i,
    {
        list.push(number(sids[i]));
        i += 1;
    }
    assert(jsons(list@) =~= listed);
    let mut params = new_object();
    set_member(&mut params, "sids", array(list));
    let mut cmd = new_object();
    set_member(&mut cmd, "id", number(id));
    set_member(&mut cmd, "cmd", text("unsubscribe"));
    set_member(&mut cmd, "params", params);
    to_text(&cmd)
}

/// The host of a URL as `url` reads it: an error text where it is no URL, and
/// none where it names no host.
pub uninterp spec fn url_host(url: Seq<char>) -> Result<Option<Seq<char>>, Seq<char>>;

/// `url::Url::parse`, and `url::Url::host_str` of what it gives: the host, if
/// the URL names one, or the text of the error. Which URLs there are, and what
/// their hosts are, is left to it.
#[verifier::external_body]
fn host_of(url: &str) -> (r: Result<Option<String>, String>)
    ensures
        match r {
            Ok(Some(h)) => url_host(url@) == Ok::<Option<Seq<char>>, Seq<char>>(Some(h@)),
            Ok(None) => url_host(url@) == Ok::<Option<Seq<char>>, Seq<char>>(None),
            Err(e) => url_host(url@) == Err::<Option<Seq<char>>, Seq<char>>(e@),
        },
{
    match url::Url::parse(url) {
        Ok(u) => Ok(u.host_str().map(str::to_owned)),
        Err(e) => Err(e.to_string()),
    }
}

/// A character of Base64.
pub open spec fn base64_char(c: char) -> bool {
    ('A' <= c && c <= 'Z') || ('a' <= c && c <= 'z') || ('0' <= c && c <= '9') || c == '+' || c
        == '/'
}

/// The form of sixteen bytes in Base64: 22 characters, then two equals signs.
pub open spec fn stream_key(s: Seq<char>) -> bool {
    &&& s.len() == 24
    &&& forall|i: int| 0 <= i < 22 ==> base64_char(#[trigger] s[i])
    &&& s[22] == '=' && s[23] == '='
}

/// `tungstenite::handshake::client::generate_key`: sixteen random bytes in
/// padded Base64. Which ones they are is left to chance.
#[verifier::external_body]
fn generate_key() -> (r: String)
    ensures
        stream_key(r@),
{
    tokio_tungstenite::tungstenite::handshake::client::generate_key()
}

/// The characters of a list of headers.
pub open spec fn header_texts(h: Seq<(&'static str, String)>) -> Seq<(Seq<char>, Seq<char>)> {
    h.map_values(|p: (&'static str, String)| (p.0@, p.1@))
}

/// The headers that open the stream.
pub open spec fn handshake_headers(
    key: Seq<char>,
    sig: Seq<char>,
    ts: Seq<char>,
    host: Seq<char>,
    ws_key: Seq<char>,
) -> Seq<(Seq<char>, Seq<char>)> {
    seq![
        ("KALSHI-ACCESS-KEY"@, key),
        ("KALSHI-ACCESS-SIGNATURE"@, sig),
        ("KALSHI-ACCESS-TIMESTAMP"@, ts),
        ("Host"@, host),
        ("Connection"@, "Upgrade"@),
        ("Upgrade"@, "websocket"@),
        ("Sec-WebSocket-Version"@, "13"@),
        ("Sec-WebSocket-Key"@, ws_key),
    ]
}

/// The headers that open the stream at a host.
pub fn stream_headers(key: String, sig: String, ts: String, host: String, ws_key: String) -> (r:
    Vec<(&'static str, String)>)
    ensures
        header_texts(r@) == handshake_headers(key@, sig@, ts@, host@, ws_key@),
{
    let ghost h = handshake_headers(key@, sig@, ts@, host@, ws_key@);
    let mut r: Vec<(&'static str, String)> = Vec::new();
    r.push(("KALSHI-ACCESS-KEY", key));
    r.push(("KALSHI-ACCESS-SIGNATURE", sig));
    r.push(("KALSHI-ACCESS-TIMESTAMP", ts));
    r.push(("Host", host));
    r.push(("Connection", "Upgrade".to_owned()));
    r.push(("Upgrade", "websocket".to_owned()));
    r.push(("Sec-WebSocket-Version", "13".to_owned()));
    r.push(("Sec-WebSocket-Key", ws_key));
    assert(header_texts(r@) =~= h);
    r
}

/// What comes next on an open stream.
#[derive(Debug, Clone, Copy, PartialEq, Eq, Structural)]
pub enum StreamEvent {
    Text,
    Ping,
    Close,
    Failed,
    Other,
    Ended,
    ReceiverGone,
}

/// What to do about it.
#[derive(Debug, Clone, Copy, PartialEq, Eq, Structural)]
pub enum StreamStep {
    /// Read the message and hand it on.
    Forward,
    /// Wait for the next event.
    Wait,
    /// Leave the stream; nothing is wrong.
    Leave,
    /// Leave the stream with the error.
    Fail,
}

/// What to do about an event on an open stream.
pub fn stream_step(event: StreamEvent) -> (r: StreamStep)
    ensures
        r == match event {
            StreamEvent::Text => StreamStep::Forward,
            StreamEvent::Ping | StreamEvent::Other => StreamStep::Wait,
            StreamEvent::Close | StreamEvent::Ended | StreamEvent::ReceiverGone => {
                StreamStep::Leave
            },
            StreamEvent::Failed => StreamStep::Fail,
        },
{
    match event {
        StreamEvent::Text => StreamStep::Forward,
        StreamEvent::Ping | StreamEvent::Other => StreamStep::Wait,
        StreamEvent::Close | StreamEvent::Ended | StreamEvent::ReceiverGone => StreamStep::Leave,
        StreamEvent::Failed => StreamStep::Fail,
    }
}

/// What to do after a stream has ended, before the next one is opened.
#[derive(Debug)]
pub struct Reconnect {
    pub report: Option<WsMessage>,
    pub pause_secs: u64,
}

/// The text by which the session learns of a broken stream.
pub open spec fn disconnect_text(error: Seq<char>) -> Seq<char> {
    "WS disconnect: "@ + error
}

/// After a stream that ended well the next one is opened at once; after one
/// that failed the session is told and a second goes by.
pub fn after_stream(error: Option<&str>) -> (r: Reconnect)
    ensures
        match error {
            Some(e) => r.pause_secs == 1 && (r.report matches Some(
                WsMessage::Error { code, message },
            ) && code == 0 && message@ == disconnect_text(e@)),
            None => r.pause_secs == 0 && r.report is None,
        },
        error matches Some(e) ==> (r.report matches Some(WsMessage::Error { message, .. })
            && message@ == "WS disconnect: "@ + e@),
{
    match error {
        Some(e) => {
            let mut message = "WS disconnect: ".to_owned();
            message.append(e);
            Reconnect { report: Some(WsMessage::Error { code: 0, message }), pause_secs: 1 }
        },
        None => Reconnect { report: None, pause_secs: 0 },
    }
}

/// Whether an error of the stream says that the stream is broken.
pub open spec fn is_disconnect(message: Seq<char>) -> bool {
    begins_with(message, "WS disconnect"@)
}

/// The session recognizes what it is told of a broken stream.
pub proof fn law_disconnect_recognized(error: Seq<char>)
    ensures
        is_disconnect(disconnect_text(error)),
{
    reveal_strlit("WS disconnect: ");
    reveal_strlit("WS disconnect");
    assert(disconnect_text(error).subrange(0, "WS disconnect"@.len() as int)
        =~= "WS disconnect"@);
}

/// The channels of a market, in the order in which they are subscribed to.
pub open spec fn channel(i: int) -> Seq<char> {
    if i == 0 {
        "orderbook_delta"@
    } else if i == 1 {
        "fill"@
    } else if i == 2 {
        "user_orders"@
    } else if i == 3 {
        "trade"@
    } else {
        "ticker"@
    }
}

/// The command that subscribes to one channel.
pub open spec fn one_channel_json(id: u64, channel: Seq<char>, ticker: Seq<char>) -> Json {
    Json::no_members().with("id"@, Json::Int(id as int)).with("cmd"@, Json::Text("subscribe"@)).with(
        "params"@,
        Json::no_members().with("channels"@, Json::Array(seq![Json::Text(channel)])).with(
            "market_ticker"@,
            Json::Text(ticker),
        ),
    )
}

fn subscribe_to(id: u64, channel: &str, ticker: &str) -> (r: String)
    ensures
        r@ == json_text(one_channel_json(id, channel@, ticker@)),
{
    let channels: [&str; 1] = [channel];
    let r = subscribe_cmd(id, &channels, ticker);
    assert(channels@.map_values(|c: &str| Json::Text(c@)) =~= seq![Json::Text(channel@)]);
    r
}

/// Keeps the stream of one market. `C` is what signs its requests.
pub struct WsManager<C> {
    pub ws_url: String,
    pub creds: Arc<C>,
    pub ticker: String,
}

impl<C> WsManager<C> {
    pub fn new(ws_url: String, creds: Arc<C>, ticker: String) -> (r: WsManager<C>)
        ensures
            r.ws_url == ws_url,
            r.creds == creds,
            r.ticker == ticker,
    {
        WsManager { ws_url, creds, ticker }
    }

    /// The headers that open the stream, from what signing gave; the text of the
    /// error where the stream's address is no URL.
    pub fn handshake(&self, key: String, sig: String, ts: String) -> (r: Result<
        Vec<(&'static str, String)>,
        String,
    >)
        ensures
            match url_host(self.ws_url@) {
                Ok(host) => r matches Ok(h) && h@.len() == 8 && header_texts(h@)
                    == handshake_headers(
                    key@,
                    sig@,
                    ts@,
                    match host {
                        Some(t) => t,
                        None => seq![],
                    },
                    h@[7].1@,
                ) && stream_key(h@[7].1@),
                Err(t) => r matches Err(e) && e@ == t,
            },
    {
        let host = match host_of(self.ws_url.as_str()) {
            Ok(Some(h)) => h,
            Ok(None) => {
                let h = String::new();
                assert(h@ =~= seq![]);
                h
            },
            Err(e) => {
                return Err(e);
            },
        };
        let ws_key = generate_key();
        let ghost k = ws_key@;
        let headers = stream_headers(key, sig, ts, host, ws_key);
        assert(headers@.len() == header_texts(headers@).len());
        assert(header_texts(headers@)[7] == ("Sec-WebSocket-Key"@, k));
        assert(headers@[7].1@ == k);
        Ok(headers)
    }

    /// The commands that subscribe to the channels of the market.
    pub fn subscriptions(&self) -> (r: Vec<String>)
        ensures
            r@.len() == 5,
            forall|i: int|
                0 <= i < 5 ==> (#[trigger] r@[i])@ == json_text(
                    one_channel_json((i + 1) as u64, channel(i), self.ticker@),
                ),
    {
        let mut r: Vec<String> = Vec::new();
        r.push(subscribe_to(1, "orderbook_delta", self.ticker.as_str()));
        r.push(subscribe_to(2, "fill", self.ticker.as_str()));
        r.push(subscribe_to(3, "user_orders", self.ticker.as_str()));
        r.push(subscribe_to(4, "trade", self.ticker.as_str()));
        r.push(subscribe_to(5, "ticker", self.ticker.as_str()));
        r
    }
}

} // verus!
