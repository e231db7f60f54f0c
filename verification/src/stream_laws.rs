//! What holds of every message of the stream and of every command to it.

use vstd::prelude::*;

use crate::json::Json;
use crate::market_data::Side;
use crate::text::begins_with;
use crate::ws::{
    channel, handshake_headers, is_disconnect, one_channel_json, says, side_named, subscribe_json,
    unsubscribe_json, RawWsMessage, WsMessage,
};

verus! {

/// A snapshot that came says which market it is of, where the stream goes on, and
/// the levels of both sides, those given in dollars before those given in cents.
pub proof fn law_snapshot_read<'a>(m: WsMessage, raw: RawWsMessage<'a>)
    requires
        says(m, raw),
        raw is OrderbookSnapshot,
    ensures
        ({
            let msg = raw->OrderbookSnapshot_msg;
            &&& m matches WsMessage::OrderbookSnapshot { market_ticker, yes_levels, no_levels, seq } && {
                &&& market_ticker@ == msg.market_ticker@
                &&& seq == raw->OrderbookSnapshot_seq
                &&& msg.yes_dollars_fp matches Some(v) ==> yes_levels@ == v@
                &&& msg.yes_dollars_fp is None ==> (msg.yes matches Some(v) ==> yes_levels@ == v@)
                &&& msg.yes_dollars_fp is None && msg.yes is None ==> yes_levels@.len() == 0
                &&& msg.no_dollars_fp matches Some(v) ==> no_levels@ == v@
                &&& msg.no_dollars_fp is None ==> (msg.no matches Some(v) ==> no_levels@ == v@)
                &&& msg.no_dollars_fp is None && msg.no is None ==> no_levels@.len() == 0
            }
        }),
{
}

/// A change that came says of which market, side and price it is and by how much,
/// numbers given as texts before those given as integers.
pub proof fn law_delta_read<'a>(m: WsMessage, raw: RawWsMessage<'a>)
    requires
        says(m, raw),
        raw is OrderbookDelta,
    ensures
        ({
            let msg = raw->OrderbookDelta_msg;
            &&& m matches WsMessage::OrderbookDelta { market_ticker, side, price, delta, seq } && {
                &&& market_ticker@ == msg.market_ticker@
                &&& seq == raw->OrderbookDelta_seq
                &&& side == Side::Yes <==> msg.side@ == "yes"@
                &&& msg.price_dollars matches Some(v) ==> price == v
                &&& msg.price_dollars is None && msg.price is Some ==> price == msg.price.unwrap()
                &&& msg.price_dollars is None && msg.price is None ==> price == 0
                &&& msg.delta_fp matches Some(v) ==> delta == v
                &&& msg.delta_fp is None && msg.delta is Some ==> delta == msg.delta.unwrap()
                &&& msg.delta_fp is None && msg.delta is None ==> delta == 0
            }
        }),
{
}

/// A fill that came says which order was filled, at which price and for how many
/// contracts, and the position after it: numbers given as texts count before
/// those given as integers. Only one said to be a taker's is.
pub proof fn law_fill_read<'a>(m: WsMessage, raw: RawWsMessage<'a>)
    requires
        says(m, raw),
        raw is Fill,
    ensures
        ({
            let msg = raw->Fill_msg;
            &&& m matches WsMessage::Fill {
                trade_id,
                order_id,
                market_ticker,
                side,
                yes_price,
                count,
                action,
                is_taker,
                post_position,
            } && {
                &&& trade_id@ == msg.trade_id@
                &&& order_id@ == msg.order_id@
                &&& market_ticker@ == msg.market_ticker@
                &&& side@ == msg.side@
                &&& action@ == msg.action@
                &&& is_taker <==> msg.is_taker == Some(true)
                &&& msg.yes_price_dollars matches Some(v) ==> yes_price == v
                &&& msg.yes_price_dollars is None && msg.yes_price is Some ==> yes_price == msg.yes_price.unwrap()
                &&& msg.yes_price_dollars is None && msg.yes_price is None ==> yes_price == 0
                &&& msg.count_fp matches Some(v) ==> count == v
                &&& msg.count_fp is None && msg.count is Some ==> count == msg.count.unwrap()
                &&& msg.count_fp is None && msg.count is None ==> count == 0
                &&& msg.post_position_fp matches Some(v) ==> post_position == v
                &&& msg.post_position_fp is None && msg.post_position is Some ==> post_position == msg.post_position.unwrap()
                &&& msg.post_position_fp is None && msg.post_position is None ==> post_position == 0
            }
        }),
{
}

/// An update of an order that came says what it says, and counts that are not
/// given are zero.
pub proof fn law_order_update_read<'a>(m: WsMessage, raw: RawWsMessage<'a>)
    requires
        says(m, raw),
        raw is UserOrder,
    ensures
        ({
            let msg = raw->UserOrder_msg;
            &&& m matches WsMessage::UserOrder {
                order_id,
                client_order_id,
                ticker,
                status,
                side,
                remaining_count_fp,
                fill_count_fp,
            } && {
                &&& order_id@ == msg.order_id@
                &&& ticker@ == msg.ticker@
                &&& status@ == msg.status@
                &&& side@ == msg.side@
                &&& client_order_id is Some <==> msg.client_order_id is Some
                &&& client_order_id is Some ==> client_order_id.unwrap()@
                    == msg.client_order_id.unwrap()@
                &&& msg.remaining_count_fp is Some ==> remaining_count_fp@
                    == msg.remaining_count_fp.unwrap()@
                &&& msg.remaining_count_fp is None ==> remaining_count_fp@ == "0.00"@
                &&& msg.fill_count_fp is Some ==> fill_count_fp@ == msg.fill_count_fp.unwrap()@
                &&& msg.fill_count_fp is None ==> fill_count_fp@ == "0.00"@
            }
        }),
{
}

/// Quotes and trades that came say what they say, numbers given as texts before
/// those given as integers.
pub proof fn law_quotes_read<'a>(m: WsMessage, raw: RawWsMessage<'a>)
    requires
        says(m, raw),
    ensures
        raw is Ticker ==> {
            let msg = raw->Ticker_msg;
            &&& m matches WsMessage::Ticker { market_ticker, yes_bid, yes_ask, price, volume } && {
                &&& market_ticker@ == msg.market_ticker@
                &&& msg.yes_bid_dollars matches Some(v) ==> yes_bid == v
                &&& msg.yes_bid_dollars is None && msg.yes_bid is Some ==> yes_bid == msg.yes_bid.unwrap()
                &&& msg.yes_bid_dollars is None && msg.yes_bid is None ==> yes_bid == 0
                &&& msg.yes_ask_dollars matches Some(v) ==> yes_ask == v
                &&& msg.yes_ask_dollars is None && msg.yes_ask is Some ==> yes_ask == msg.yes_ask.unwrap()
                &&& msg.yes_ask_dollars is None && msg.yes_ask is None ==> yes_ask == 0
                &&& msg.price_dollars matches Some(v) ==> price == v
                &&& msg.price_dollars is None && msg.price is Some ==> price == msg.price.unwrap()
                &&& msg.price_dollars is None && msg.price is None ==> price == 0
                &&& msg.volume_fp matches Some(v) ==> volume == v
                &&& msg.volume_fp is None && msg.volume is Some ==> volume == msg.volume.unwrap()
                &&& msg.volume_fp is None && msg.volume is None ==> volume == 0
            }
        },
        raw is Trade ==> {
            let msg = raw->Trade_msg;
            &&& m matches WsMessage::Trade { market_ticker, yes_price, count, taker_side } && {
                &&& market_ticker@ == msg.market_ticker@
                &&& taker_side@ == msg.taker_side@
                &&& msg.yes_price_dollars matches Some(v) ==> yes_price == v
                &&& msg.yes_price_dollars is None && msg.yes_price is Some ==> yes_price == msg.yes_price.unwrap()
                &&& msg.yes_price_dollars is None && msg.yes_price is None ==> yes_price == 0
                &&& msg.count_fp matches Some(v) ==> count == v
                &&& msg.count_fp is None && msg.count is Some ==> count == msg.count.unwrap()
                &&& msg.count_fp is None && msg.count is None ==> count == 0
            }
        },
{
}

/// What the stream says of itself is handed on as it is.
pub proof fn law_notices_read<'a>(m: WsMessage, raw: RawWsMessage<'a>)
    requires
        says(m, raw),
    ensures
        raw is Subscribed ==> (m matches WsMessage::Subscribed { channel, sid } && channel@
            == raw->Subscribed_msg.channel@ && sid == raw->Subscribed_msg.sid),
        raw is Error ==> (m matches WsMessage::Error { code, message } && code == raw->Error_code
            && message@ == raw->Error_msg@),
{
}

proof fn lemma_command_keys_differ()
    ensures
        "id"@ != "cmd"@ && "id"@ != "params"@ && "cmd"@ != "params"@,
        "channels"@ != "market_ticker"@,
{
    reveal_strlit("id");
    reveal_strlit("cmd");
    reveal_strlit("params");
    reveal_strlit("channels");
    reveal_strlit("market_ticker");
    assert("id"@.len() == 2 && "cmd"@.len() == 3 && "params"@.len() == 6);
    assert("channels"@.len() == 8 && "market_ticker"@.len() == 13);
}

/// The command that subscribes names its number, the channels in their order and
/// the market.
pub proof fn law_subscription(id: u64, channels: Seq<&str>, ticker: Seq<char>)
    ensures
        ({
            let d = subscribe_json(id, channels, ticker);
            let params = d.member("params"@);
            &&& d.member("id"@) == Json::Int(id as int)
            &&& d.member("cmd"@) == Json::Text("subscribe"@)
            &&& params.member("market_ticker"@) == Json::Text(ticker)
            &&& params.member("channels"@) matches Json::Array(list) && list.len() == channels.len()
                && forall|i: int|
                0 <= i < channels.len() ==> #[trigger] list[i] == Json::Text(channels[i]@)
        }),
{
    lemma_command_keys_differ();
}

/// The command that subscribes to one channel of a market names that channel alone.
pub proof fn law_one_channel(id: u64, name: Seq<char>, ticker: Seq<char>)
    ensures
        ({
            let d = one_channel_json(id, name, ticker);
            let params = d.member("params"@);
            &&& d.member("id"@) == Json::Int(id as int)
            &&& d.member("cmd"@) == Json::Text("subscribe"@)
            &&& params.member("market_ticker"@) == Json::Text(ticker)
            &&& params.member("channels"@) == Json::Array(seq![Json::Text(name)])
        }),
        channel(0) == "orderbook_delta"@,
        channel(1) == "fill"@,
        channel(2) == "user_orders"@,
        channel(3) == "trade"@,
        channel(4) == "ticker"@,
{
    lemma_command_keys_differ();
}

/// The command that ends subscriptions names its number and theirs.
pub proof fn law_unsubscription(id: u64, sids: Seq<u64>)
    ensures
        ({
            let d = unsubscribe_json(id, sids);
            &&& d.member("id"@) == Json::Int(id as int)
            &&& d.member("cmd"@) == Json::Text("unsubscribe"@)
            &&& d.member("params"@).member("sids"@) matches Json::Array(list) && list.len()
                == sids.len() && forall|i: int|
                0 <= i < sids.len() ==> #[trigger] list[i] == Json::Int(sids[i] as int)
        }),
{
    lemma_command_keys_differ();
}

/// The stream is opened with the key, the signature, the time and the host that
/// were given, and asks for a stream.
pub proof fn law_handshake(
    key: Seq<char>,
    sig: Seq<char>,
    ts: Seq<char>,
    host: Seq<char>,
    ws_key: Seq<char>,
)
    ensures
        ({
            let h = handshake_headers(key, sig, ts, host, ws_key);
            &&& h.len() == 8
            &&& h.contains(("KALSHI-ACCESS-KEY"@, key))
            &&& h.contains(("KALSHI-ACCESS-SIGNATURE"@, sig))
            &&& h.contains(("KALSHI-ACCESS-TIMESTAMP"@, ts))
            &&& h.contains(("Host"@, host))
            &&& h.contains(("Connection"@, "Upgrade"@))
            &&& h.contains(("Upgrade"@, "websocket"@))
            &&& h.contains(("Sec-WebSocket-Version"@, "13"@))
            &&& h.contains(("Sec-WebSocket-Key"@, ws_key))
        }),
{
    let h = handshake_headers(key, sig, ts, host, ws_key);
    assert(h[0] == ("KALSHI-ACCESS-KEY"@, key));
    assert(h[1] == ("KALSHI-ACCESS-SIGNATURE"@, sig));
    assert(h[2] == ("KALSHI-ACCESS-TIMESTAMP"@, ts));
    assert(h[3] == ("Host"@, host));
    assert(h[4] == ("Connection"@, "Upgrade"@));
    assert(h[5] == ("Upgrade"@, "websocket"@));
    assert(h[6] == ("Sec-WebSocket-Version"@, "13"@));
    assert(h[7] == ("Sec-WebSocket-Key"@, ws_key));
}

/// A stream is broken exactly where its error begins by saying so, and a side is
/// yes exactly where it is called so.
pub proof fn law_names(message: Seq<char>, side: Seq<char>)
    ensures
        is_disconnect(message) <==> begins_with(message, "WS disconnect"@),
        side_named(side) == Side::Yes <==> side == "yes"@,
{
}

} // verus!
