//! What holds of every request to the exchange and of every reply.

use vstd::prelude::*;

use crate::execution::{
    amend_json, amend_request, batch_request, cancel_json, failure_text, listed_position,
    order_json, place_refusal, place_request, plain_refusal, position_in, price_text, says_placed,
    success, unreadable, HttpRequest, PlaceOrderResponse,
};
use crate::json::{json_text, Json};
use crate::text::{count_text, digits_value, law_dollars_shown, occurs_in};

verus! {

/// The keys of the documents differ.
proof fn lemma_keys_differ()
    ensures
        "ticker"@ != "side"@,
        "ticker"@ != "action"@,
        "ticker"@ != "client_order_id"@,
        "ticker"@ != "count_fp"@,
        "ticker"@ != "type"@,
        "ticker"@ != "time_in_force"@,
        "ticker"@ != "post_only"@,
        "ticker"@ != "self_trade_prevention_type"@,
        "ticker"@ != "cancel_order_on_pause"@,
        "ticker"@ != "reduce_only"@,
        "ticker"@ != "yes_price_dollars"@,
        "ticker"@ != "no_price_dollars"@,
        "ticker"@ != "updated_client_order_id"@,
        "side"@ != "action"@,
        "side"@ != "client_order_id"@,
        "side"@ != "count_fp"@,
        "side"@ != "type"@,
        "side"@ != "time_in_force"@,
        "side"@ != "post_only"@,
        "side"@ != "self_trade_prevention_type"@,
        "side"@ != "cancel_order_on_pause"@,
        "side"@ != "reduce_only"@,
        "side"@ != "yes_price_dollars"@,
        "side"@ != "no_price_dollars"@,
        "side"@ != "updated_client_order_id"@,
        "action"@ != "client_order_id"@,
        "action"@ != "count_fp"@,
        "action"@ != "type"@,
        "action"@ != "time_in_force"@,
        "action"@ != "post_only"@,
        "action"@ != "self_trade_prevention_type"@,
        "action"@ != "cancel_order_on_pause"@,
        "action"@ != "reduce_only"@,
        "action"@ != "yes_price_dollars"@,
        "action"@ != "no_price_dollars"@,
        "action"@ != "updated_client_order_id"@,
        "client_order_id"@ != "count_fp"@,
        "client_order_id"@ != "type"@,
        "client_order_id"@ != "time_in_force"@,
        "client_order_id"@ != "post_only"@,
        "client_order_id"@ != "self_trade_prevention_type"@,
        "client_order_id"@ != "cancel_order_on_pause"@,
        "client_order_id"@ != "reduce_only"@,
        "client_order_id"@ != "yes_price_dollars"@,
        "client_order_id"@ != "no_price_dollars"@,
        "client_order_id"@ != "updated_client_order_id"@,
        "count_fp"@ != "type"@,
        "count_fp"@ != "time_in_force"@,
        "count_fp"@ != "post_only"@,
        "count_fp"@ != "self_trade_prevention_type"@,
        "count_fp"@ != "cancel_order_on_pause"@,
        "count_fp"@ != "reduce_only"@,
        "count_fp"@ != "yes_price_dollars"@,
        "count_fp"@ != "no_price_dollars"@,
        "count_fp"@ != "updated_client_order_id"@,
        "type"@ != "time_in_force"@,
        "type"@ != "post_only"@,
        "type"@ != "self_trade_prevention_type"@,
        "type"@ != "cancel_order_on_pause"@,
        "type"@ != "reduce_only"@,
        "type"@ != "yes_price_dollars"@,
        "type"@ != "no_price_dollars"@,
        "type"@ != "updated_client_order_id"@,
        "time_in_force"@ != "post_only"@,
        "time_in_force"@ != "self_trade_prevention_type"@,
        "time_in_force"@ != "cancel_order_on_pause"@,
        "time_in_force"@ != "reduce_only"@,
        "time_in_force"@ != "yes_price_dollars"@,
        "time_in_force"@ != "no_price_dollars"@,
        "time_in_force"@ != "updated_client_order_id"@,
        "post_only"@ != "self_trade_prevention_type"@,
        "post_only"@ != "cancel_order_on_pause"@,
        "post_only"@ != "reduce_only"@,
        "post_only"@ != "yes_price_dollars"@,
        "post_only"@ != "no_price_dollars"@,
        "post_only"@ != "updated_client_order_id"@,
        "self_trade_prevention_type"@ != "cancel_order_on_pause"@,
        "self_trade_prevention_type"@ != "reduce_only"@,
        "self_trade_prevention_type"@ != "yes_price_dollars"@,
        "self_trade_prevention_type"@ != "no_price_dollars"@,
        "self_trade_prevention_type"@ != "updated_client_order_id"@,
        "cancel_order_on_pause"@ != "reduce_only"@,
        "cancel_order_on_pause"@ != "yes_price_dollars"@,
        "cancel_order_on_pause"@ != "no_price_dollars"@,
        "cancel_order_on_pause"@ != "updated_client_order_id"@,
        "reduce_only"@ != "yes_price_dollars"@,
        "reduce_only"@ != "no_price_dollars"@,
        "reduce_only"@ != "updated_client_order_id"@,
        "yes_price_dollars"@ != "no_price_dollars"@,
        "yes_price_dollars"@ != "updated_client_order_id"@,
        "no_price_dollars"@ != "updated_client_order_id"@,
{
    reveal_strlit("ticker");
    reveal_strlit("side");
    reveal_strlit("action");
    reveal_strlit("client_order_id");
    reveal_strlit("count_fp");
    reveal_strlit("type");
    reveal_strlit("time_in_force");
    reveal_strlit("post_only");
    reveal_strlit("self_trade_prevention_type");
    reveal_strlit("cancel_order_on_pause");
    reveal_strlit("reduce_only");
    reveal_strlit("yes_price_dollars");
    reveal_strlit("no_price_dollars");
    reveal_strlit("updated_client_order_id");
    assert("ticker"@.len() == 6);
    assert("side"@.len() == 4);
    assert("action"@.len() == 6);
    assert("client_order_id"@.len() == 15);
    assert("count_fp"@.len() == 8);
    assert("type"@.len() == 4);
    assert("time_in_force"@.len() == 13);
    assert("post_only"@.len() == 9);
    assert("self_trade_prevention_type"@.len() == 26);
    assert("cancel_order_on_pause"@.len() == 21);
    assert("reduce_only"@.len() == 11);
    assert("yes_price_dollars"@.len() == 17);
    assert("no_price_dollars"@.len() == 16);
    assert("updated_client_order_id"@.len() == 23);
    assert("ticker"@[0] == 't' && "action"@[0] == 'a');
    assert("side"@[0] == 's' && "type"@[0] == 't');
}

/// The document that places an order names the order as it was asked for: its
/// identifier, market, side and action, how many contracts at which price, how
/// long it is good for and whether it may take; and the price stands under the
/// key of its own side alone.
pub proof fn law_order_members(
    client_order_id: Seq<char>,
    ticker: Seq<char>,
    side: Seq<char>,
    action: Seq<char>,
    price: Seq<char>,
    count: int,
    time_in_force: Seq<char>,
    post_only: bool,
    reduce_only: bool,
)
    ensures
        ({
            let d = order_json(
                client_order_id,
                ticker,
                side,
                action,
                price,
                count,
                time_in_force,
                post_only,
                reduce_only,
            );
            &&& d is Object
            &&& d.member("client_order_id"@) == Json::Text(client_order_id)
            &&& d.member("ticker"@) == Json::Text(ticker)
            &&& d.member("side"@) == Json::Text(side)
            &&& d.member("action"@) == Json::Text(action)
            &&& d.member("count_fp"@) == Json::Text(count_text(count))
            &&& d.member("type"@) == Json::Text("limit"@)
            &&& d.member("time_in_force"@) == Json::Text(time_in_force)
            &&& d.member("post_only"@) == Json::Bool(post_only)
            &&& d.member("self_trade_prevention_type"@) == Json::Text("taker_at_cross"@)
            &&& d.member("cancel_order_on_pause"@) == Json::Bool(true)
            &&& reduce_only ==> d.member("reduce_only"@) == Json::Bool(true)
            &&& !reduce_only ==> d.member("reduce_only"@) == Json::Null
            &&& side == "yes"@ ==> d.member("yes_price_dollars"@) == Json::Text(price) && d.member(
                "no_price_dollars"@,
            ) == Json::Null
            &&& side != "yes"@ ==> d.member("no_price_dollars"@) == Json::Text(price) && d.member(
                "yes_price_dollars"@,
            ) == Json::Null
        }),
{
    lemma_keys_differ();
}

/// The document that amends an order names the order by both its identifiers, and
/// what it is to be.
pub proof fn law_amend_members(
    client_order_id: Seq<char>,
    new_client_order_id: Seq<char>,
    ticker: Seq<char>,
    side: Seq<char>,
    action: Seq<char>,
    price: Seq<char>,
    count: int,
)
    ensures
        ({
            let d = amend_json(
                client_order_id,
                new_client_order_id,
                ticker,
                side,
                action,
                price,
                count,
            );
            &&& d.member("client_order_id"@) == Json::Text(client_order_id)
            &&& d.member("updated_client_order_id"@) == Json::Text(new_client_order_id)
            &&& d.member("ticker"@) == Json::Text(ticker)
            &&& d.member("side"@) == Json::Text(side)
            &&& d.member("action"@) == Json::Text(action)
            &&& d.member("count_fp"@) == Json::Text(count_text(count))
            &&& side == "yes"@ ==> d.member("yes_price_dollars"@) == Json::Text(price) && d.member(
                "no_price_dollars"@,
            ) == Json::Null
            &&& side != "yes"@ ==> d.member("no_price_dollars"@) == Json::Text(price) && d.member(
                "yes_price_dollars"@,
            ) == Json::Null
        }),
{
    lemma_keys_differ();
}

/// The document that cancels orders lists each of them by its identifier, in order.
pub proof fn law_cancel_members(ids: Seq<Seq<char>>, i: int)
    requires
        0 <= i < ids.len(),
    ensures
        cancel_json(ids).member("orders"@) matches Json::Array(list) && list.len() == ids.len()
            && list[i].member("order_id"@) == Json::Text(ids[i]),
{
}

/// Requests go where orders are kept at the exchange, and carry their document;
/// what is signed is the path without the host.
pub proof fn law_requests(base: Seq<char>, id: Seq<char>, body: Json, ids: Seq<Seq<char>>)
    ensures
        place_request(base, body).method == "POST"@,
        place_request(base, body).path == "/trade-api/v2/portfolio/orders"@,
        place_request(base, body).url == base + "/portfolio/orders"@,
        place_request(base, body).body == Some(json_text(body)),
        amend_request(base, id, body).method == "POST"@,
        amend_request(base, id, body).path == "/trade-api/v2/portfolio/orders/"@ + id + "/amend"@,
        amend_request(base, id, body).url == base + "/portfolio/orders/"@ + id + "/amend"@,
        amend_request(base, id, body).body == Some(json_text(body)),
        batch_request(base, ids).method == "DELETE"@,
        batch_request(base, ids).path == "/trade-api/v2/portfolio/orders/batched"@,
        batch_request(base, ids).url == base + "/portfolio/orders/batched"@,
        batch_request(base, ids).body == Some(json_text(cancel_json(ids))),
{
}

/// A price of up to 2^45 cents is sent as it is: the dollars before the point and
/// the cents after it make the price again, with two zeros at the end.
pub proof fn law_price_sent(cents: int, rounded: Seq<char>)
    requires
        0 <= cents <= 0x2000_0000_0000,
    ensures
        ({
            let t = price_text(cents, rounded);
            let n = t.len() as int;
            let whole = digits_value(t.subrange(0, n - 5));
            &&& n >= 6 && whole is Some
            &&& t[n - 5] == '.' && t[n - 2] == '0' && t[n - 1] == '0'
            &&& '0' <= t[n - 4] <= '9' && '0' <= t[n - 3] <= '9'
            &&& 100 * whole.unwrap() + 10 * (t[n - 4] as int - '0' as int) + (t[n - 3] as int
                - '0' as int) == cents
        }),
{
    law_dollars_shown(cents);
}

/// A maker order is placed exactly where the status is of the two hundreds; too
/// many requests, a double and one that would have crossed are told apart, and
/// of anything else the status and the text are told.
pub proof fn law_place_refused(status: u16, status_text: Seq<char>, failure: Seq<char>)
    ensures
        place_refusal(status, status_text, failure) is None <==> 200 <= status <= 299,
        status == 429 ==> place_refusal(status, status_text, failure) == Some(
            "Rate limited (429)"@,
        ),
        status == 409 ==> place_refusal(status, status_text, failure) == Some(
            "Duplicate order (409)"@,
        ),
        !(200 <= status <= 299) && status != 429 && status != 409 && occurs_in(
            failure,
            "post only cross"@,
        ) ==> place_refusal(status, status_text, failure) == Some("Post-only cross"@),
        !(200 <= status <= 299) && status != 429 && status != 409 && !occurs_in(
            failure,
            "post only cross"@,
        ) ==> place_refusal(status, status_text, failure) == Some(
            "Order failed: "@ + status_text + " "@ + failure,
        ),
{
}

/// Any other request is carried out exactly where the status is of the two
/// hundreds; too many requests are told apart from any other failure.
pub proof fn law_plainly_refused(
    what: Seq<char>,
    status: u16,
    status_text: Seq<char>,
    failure: Seq<char>,
)
    ensures
        plain_refusal(what, status, status_text, failure) is None <==> 200 <= status <= 299,
        status == 429 ==> plain_refusal(what, status, status_text, failure) == Some(
            "Rate limited (429)"@,
        ),
        !(200 <= status <= 299) && status != 429 ==> plain_refusal(
            what,
            status,
            status_text,
            failure,
        ) == Some(what + status_text + " "@ + failure),
        success(status) <==> 200 <= status <= 299,
        failure_text(what, status_text, failure) == what + status_text + " "@ + failure,
{
}

/// The position in a market is that of the first entry that names the market; an
/// entry of another market changes nothing, and without one there is none.
pub proof fn law_position_read(entry: Json, rest: Seq<Json>, ticker: Seq<char>)
    ensures
        listed_position(Seq::empty(), ticker) == 0,
        entry.member("ticker"@) == Json::Text(ticker) ==> listed_position(
            seq![entry] + rest,
            ticker,
        ) == match entry.member("position"@) {
            Json::Int(n) => if i64::MIN <= n <= i64::MAX {
                n
            } else {
                0
            },
            _ => 0,
        },
        entry.member("ticker"@) != Json::Text(ticker) ==> listed_position(
            seq![entry] + rest,
            ticker,
        ) == listed_position(rest, ticker),
{
    let all = seq![entry] + rest;
    assert(all[0] == entry);
    assert(all.subrange(1, all.len() as int) =~= rest);
}

/// A reply tells positions in its list of market positions.
pub proof fn law_positions_listed(reply: Json, list: Seq<Json>, ticker: Seq<char>)
    ensures
        reply.member("market_positions"@) == Json::Array(list) ==> position_in(reply, ticker)
            == listed_position(list, ticker),
        !(reply.member("market_positions"@) is Array) ==> position_in(reply, ticker) == 0,
{
}

/// A reply tells of the order that it names: its identifier and its status, each
/// empty where none is given.
pub proof fn law_order_answered(r: PlaceOrderResponse, reply: Json, id: Seq<char>)
    requires
        says_placed(r, reply, id),
    ensures
        r.client_order_id@ == id,
        reply.member("order"@).member("order_id"@) matches Json::Text(t) ==> r.order_id@ == t,
        !(reply.member("order"@).member("order_id"@) is Text) ==> r.order_id@.len() == 0,
        reply.member("order"@).member("status"@) matches Json::Text(t) ==> r.status@ == t,
        !(reply.member("order"@).member("status"@) is Text) ==> r.status@.len() == 0,
        unreadable() == "error decoding response body"@,
{
}

/// A request is seen as what it is.
pub proof fn law_request_seen(r: HttpRequest)
    ensures
        r@.method == r.method@,
        r@.path == r.path@,
        r@.url == r.url@,
        r.body matches Some(b) ==> r@.body == Some(b@),
        r.body is None ==> r@.body is None,
{
}

} // verus!
