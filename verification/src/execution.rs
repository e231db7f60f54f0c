//! Orders at the exchange: the requests that place, amend and cancel them, and
//! what the replies say.

use vstd::prelude::*;

use crate::config::Config;
use crate::json::{
    array, as_array, as_text, boolean, int_or_zero, json_document, json_of, json_text, jsons,
    member, new_object, parse, set_member, text, text_or_empty, to_text, Json,
};
use crate::text::{
    count_fp, count_text, dollars, dollars_text, has_text, occurs_in, same_text, shows_exactly,
};
use crate::tracker::texts;

pub use crate::tracker::{OrderStatus, OrderTracker, TrackedOrder};

verus! {

/// The microseconds from one permit to the next, at a number of permits per second.
pub fn refill_interval(rate_per_sec: u32) -> (r: u64)
    requires
        rate_per_sec > 0,
    ensures
        r == 1_000_000int / rate_per_sec as int,
{
    1_000_000 / rate_per_sec as u64
}

/// Whether a permit is added: as long as there are fewer than come in a second.
pub fn wants_refill(available: usize, rate_per_sec: u32) -> (r: bool)
    ensures
        r == (available < rate_per_sec),
        r ==> available + 1 <= rate_per_sec,
{
    available < rate_per_sec as usize
}

/// How waiting for a permit ended.
#[derive(Debug, Clone, Copy, PartialEq, Eq, Structural)]
pub enum PermitWait {
    Granted,
    Closed,
    TimedOut,
}

/// What an ended wait for a permit means for the request.
pub fn rate_limit_outcome(wait: PermitWait) -> (r: Result<(), String>)
    ensures
        match wait {
            PermitWait::Granted => r is Ok,
            PermitWait::Closed => r matches Err(e) && e@ == "Rate limiter closed"@,
            PermitWait::TimedOut => r matches Err(e) && e@
                == "Rate limit exhausted (500ms timeout)"@,
        },
{
    match wait {
        PermitWait::Granted => Ok(()),
        PermitWait::Closed => Err("Rate limiter closed".to_owned()),
        PermitWait::TimedOut => Err("Rate limit exhausted (500ms timeout)".to_owned()),
    }
}

/// A request to the exchange. The path is what is signed.
#[derive(Debug)]
pub struct HttpRequest {
    pub method: String,
    pub path: String,
    pub url: String,
    pub body: Option<String>,
}

/// The characters of a request.
pub struct RequestView {
    pub method: Seq<char>,
    pub path: Seq<char>,
    pub url: Seq<char>,
    pub body: Option<Seq<char>>,
}

impl View for HttpRequest {
    type V = RequestView;

    open spec fn view(&self) -> RequestView {
        RequestView {
            method: self.method@,
            path: self.path@,
            url: self.url@,
            body: match self.body {
                Some(b) => Some(b@),
                None => None,
            },
        }
    }
}

/// A request that places or amends an order under a new identifier.
#[derive(Debug)]
pub struct OrderRequest {
    pub client_order_id: String,
    pub request: HttpRequest,
}

#[derive(Debug)]
pub struct PlaceOrderResponse {
    pub order_id: String,
    pub client_order_id: String,
    pub status: String,
}

#[derive(Debug)]
pub struct AmendOrderResponse {
    pub order_id: String,
    pub new_client_order_id: String,
    pub status: String,
}

/// A digit of the form in which identifiers are written.
pub open spec fn hex_digit(c: char) -> bool {
    ('0' <= c && c <= '9') || ('a' <= c && c <= 'f')
}

/// The form of a random identifier: groups of 8, 4, 4, 4 and 12 digits between
/// hyphens, the third one beginning with the version and the fourth with the
/// variant.
pub open spec fn uuid_text(s: Seq<char>) -> bool {
    &&& s.len() == 36
    &&& forall|i: int|
        0 <= i < 36 ==> if i == 8 || i == 13 || i == 18 || i == 23 {
            #[trigger] s[i] == '-'
        } else {
            hex_digit(s[i])
        }
    &&& s[14] == '4'
    &&& s[19] == '8' || s[19] == '9' || s[19] == 'a' || s[19] == 'b'
}

/// `uuid::Uuid::new_v4`, written by `to_string`: 36 characters, hyphenated, in
/// lower case, with version 4 and the variant of RFC 4122. Which ones they are is
/// left to chance.
#[verifier::external_body]
fn random_uuid() -> (r: String)
    ensures
        uuid_text(r@),
{
    uuid::Uuid::new_v4().to_string()
}

/// A new identifier for an order.
pub fn new_client_order_id() -> (r: String)
    ensures
        uuid_text(r@),
{
    random_uuid()
}

/// The key under which the price of a side is given.
pub open spec fn price_key(side: Seq<char>) -> Seq<char> {
    if side == "yes"@ {
        "yes_price_dollars"@
    } else {
        "no_price_dollars"@
    }
}

/// A price in dollars: exact where the double nearest to it shows it exactly, else
/// as it is `rounded`.
pub open spec fn price_text(cents: int, rounded: Seq<char>) -> Seq<char> {
    if shows_exactly(cents) {
        dollars_text(cents)
    } else {
        rounded
    }
}

fn price_in_dollars(cents: i64, rounded: &str) -> (r: String)
    ensures
        r@ == price_text(cents as int, rounded@),
{
    match dollars(cents) {
        Some(price) => price,
        None => rounded.to_owned(),
    }
}

/// The body that places an order.
pub open spec fn order_json(
    client_order_id: Seq<char>,
    ticker: Seq<char>,
    side: Seq<char>,
    action: Seq<char>,
    price: Seq<char>,
    count: int,
    time_in_force: Seq<char>,
    post_only: bool,
    reduce_only: bool,
) -> Json {
    let base = Json::no_members().with("ticker"@, Json::Text(ticker)).with(
        "side"@,
        Json::Text(side),
    ).with("action"@, Json::Text(action)).with(
        "client_order_id"@,
        Json::Text(client_order_id),
    ).with("count_fp"@, Json::Text(count_text(count))).with("type"@, Json::Text("limit"@)).with(
        "time_in_force"@,
        Json::Text(time_in_force),
    ).with("post_only"@, Json::Bool(post_only)).with(
        "self_trade_prevention_type"@,
        Json::Text("taker_at_cross"@),
    ).with("cancel_order_on_pause"@, Json::Bool(true));
    (if reduce_only {
        base.with("reduce_only"@, Json::Bool(true))
    } else {
        base
    }).with(price_key(side), Json::Text(price))
}

/// The body that amends an order.
pub open spec fn amend_json(
    client_order_id: Seq<char>,
    new_client_order_id: Seq<char>,
    ticker: Seq<char>,
    side: Seq<char>,
    action: Seq<char>,
    price: Seq<char>,
    count: int,
) -> Json {
    Json::no_members().with("ticker"@, Json::Text(ticker)).with("side"@, Json::Text(side)).with(
        "action"@,
        Json::Text(action),
    ).with("count_fp"@, Json::Text(count_text(count))).with(
        "client_order_id"@,
        Json::Text(client_order_id),
    ).with("updated_client_order_id"@, Json::Text(new_client_order_id)).with(
        price_key(side),
        Json::Text(price),
    )
}

/// The body that cancels a number of orders.
pub open spec fn cancel_json(ids: Seq<Seq<char>>) -> Json {
    Json::no_members().with(
        "orders"@,
        Json::Array(
            ids.map_values(
                |id: Seq<char>| Json::no_members().with("order_id"@, Json::Text(id)),
            ),
        ),
    )
}

/// The request that places an order with a body.
pub open spec fn place_request(base_url: Seq<char>, body: Json) -> RequestView {
    RequestView {
        method: "POST"@,
        path: "/trade-api/v2/portfolio/orders"@,
        url: base_url + "/portfolio/orders"@,
        body: Some(json_text(body)),
    }
}

/// The request that amends an order with a body.
pub open spec fn amend_request(base_url: Seq<char>, id: Seq<char>, body: Json) -> RequestView {
    RequestView {
        method: "POST"@,
        path: "/trade-api/v2/portfolio/orders/"@ + id + "/amend"@,
        url: base_url + "/portfolio/orders/"@ + id + "/amend"@,
        body: Some(json_text(body)),
    }
}

/// The request that cancels up to twenty orders.
pub open spec fn batch_request(base_url: Seq<char>, ids: Seq<Seq<char>>) -> RequestView {
    RequestView {
        method: "DELETE"@,
        path: "/trade-api/v2/portfolio/orders/batched"@,
        url: base_url + "/portfolio/orders/batched"@,
        body: Some(json_text(cancel_json(ids))),
    }
}

/// The identifiers of batch number `k`: twenty of them, or those that are left.
pub open spec fn batch(ids: Seq<Seq<char>>, k: int) -> Seq<Seq<char>> {
    ids.subrange(
        20 * k,
        if 20 * k + 20 <= ids.len() {
            20 * k + 20
        } else {
            ids.len() as int
        },
    )
}

fn join(a: &str, b: &str) -> (r: String)
    ensures
        r@ == a@ + b@,
{
    let mut s = a.to_owned();
    s.append(b);
    s
}

fn add_text(object: &mut serde_json::Value, key: &str, value: &str)
    requires
        json_of(*old(object)) is Object,
    ensures
        json_of(*final(object)) == json_of(*old(object)).with(key@, Json::Text(value@)),
        json_of(*final(object)) is Object,
{
    set_member(object, key, text(value));
}

fn add_bool(object: &mut serde_json::Value, key: &str, value: bool)
    requires
        json_of(*old(object)) is Object,
    ensures
        json_of(*final(object)) == json_of(*old(object)).with(key@, Json::Bool(value)),
        json_of(*final(object)) is Object,
{
    set_member(object, key, boolean(value));
}

fn add_price(object: &mut serde_json::Value, side: &str, price: &str)
    requires
        json_of(*old(object)) is Object,
    ensures
        json_of(*final(object)) == json_of(*old(object)).with(
            price_key(side@),
            Json::Text(price@),
        ),
{
    if same_text(side, "yes") {
        add_text(object, "yes_price_dollars", price);
    } else {
        add_text(object, "no_price_dollars", price);
    }
}

/// The text of the body that places an order.
fn order_body(
    client_order_id: &str,
    ticker: &str,
    side: &str,
    action: &str,
    price_dollars: &str,
    count: i64,
    time_in_force: &str,
    post_only: bool,
    reduce_only: bool,
) -> (r: String)
    ensures
        r@ == json_text(
            order_json(
                client_order_id@,
                ticker@,
                side@,
                action@,
                price_dollars@,
                count as int,
                time_in_force@,
                post_only,
                reduce_only,
            ),
        ),
{
    let count_fp = count_fp(count);
    let mut body = new_object();
    add_text(&mut body, "ticker", ticker);
    add_text(&mut body, "side", side);
    add_text(&mut body, "action", action);
    add_text(&mut body, "client_order_id", client_order_id);
    add_text(&mut body, "count_fp", count_fp.as_str());
    add_text(&mut body, "type", "limit");
    add_text(&mut body, "time_in_force", time_in_force);
    add_bool(&mut body, "post_only", post_only);
    add_text(&mut body, "self_trade_prevention_type", "taker_at_cross");
    add_bool(&mut body, "cancel_order_on_pause", true);
    if reduce_only {
        add_bool(&mut body, "reduce_only", true);
    }
    add_price(&mut body, side, price_dollars);
    to_text(&body)
}

/// The headers that authorize a request, from what signing it gave.
pub fn auth_headers(key: String, sig: String, ts: String) -> (r: [(&'static str, String); 3])
    ensures
        r@[0].0@ == "KALSHI-ACCESS-KEY"@ && r@[0].1 == key,
        r@[1].0@ == "KALSHI-ACCESS-SIGNATURE"@ && r@[1].1 == sig,
        r@[2].0@ == "KALSHI-ACCESS-TIMESTAMP"@ && r@[2].1 == ts,
{
    [
        ("KALSHI-ACCESS-KEY", key),
        ("KALSHI-ACCESS-SIGNATURE", sig),
        ("KALSHI-ACCESS-TIMESTAMP", ts),
    ]
}

/// Writes the requests to the exchange.
#[derive(Debug)]
pub struct ExecutionClient {
    pub base_url: String,
}

impl ExecutionClient {
    pub fn new(config: &Config) -> (r: ExecutionClient)
        ensures
            r.base_url@ == config.rest_base_url@,
    {
        ExecutionClient { base_url: config.rest_base_url.clone() }
    }

    /// Places a maker order under a given identifier and at a price already
    /// written in dollars.
    pub fn place_order_as(
        &self,
        client_order_id: &str,
        ticker: &str,
        side: &str,
        action: &str,
        price_dollars: &str,
        count: i64,
    ) -> (r: HttpRequest)
        ensures
            r@ == place_request(
                self.base_url@,
                order_json(
                    client_order_id@,
                    ticker@,
                    side@,
                    action@,
                    price_dollars@,
                    count as int,
                    "good_till_canceled"@,
                    true,
                    false,
                ),
            ),
    {
        HttpRequest {
            method: "POST".to_owned(),
            path: "/trade-api/v2/portfolio/orders".to_owned(),
            url: join(self.base_url.as_str(), "/portfolio/orders"),
            body: Some(
                order_body(
                    client_order_id,
                    ticker,
                    side,
                    action,
                    price_dollars,
                    count,
                    "good_till_canceled",
                    true,
                    false,
                ),
            ),
        }
    }

    /// Places a maker order under a new identifier. `rounded` is the price in
    /// dollars as it is shown where it is too large to be shown exactly.
    pub fn place_order(
        &self,
        ticker: &str,
        side: &str,
        action: &str,
        price_cents: i64,
        rounded: &str,
        count: i64,
    ) -> (r: OrderRequest)
        ensures
            uuid_text(r.client_order_id@),
            r.request@ == place_request(
                self.base_url@,
                order_json(
                    r.client_order_id@,
                    ticker@,
                    side@,
                    action@,
                    price_text(price_cents as int, rounded@),
                    count as int,
                    "good_till_canceled"@,
                    true,
                    false,
                ),
            ),
    {
        let client_order_id = new_client_order_id();
        let price = price_in_dollars(price_cents, rounded);
        let request = self.place_order_as(
            client_order_id.as_str(),
            ticker,
            side,
            action,
            price.as_str(),
            count,
        );
        OrderRequest { client_order_id, request }
    }

    /// Places a taker order, which is filled at once or cancelled, under a given
    /// identifier and at a price already written in dollars.
    pub fn place_taker_order_as(
        &self,
        client_order_id: &str,
        ticker: &str,
        side: &str,
        action: &str,
        price_dollars: &str,
        count: i64,
        reduce_only: bool,
    ) -> (r: HttpRequest)
        ensures
            r@ == place_request(
                self.base_url@,
                order_json(
                    client_order_id@,
                    ticker@,
                    side@,
                    action@,
                    price_dollars@,
                    count as int,
                    "immediate_or_cancel"@,
                    false,
                    reduce_only,
                ),
            ),
    {
        HttpRequest {
            method: "POST".to_owned(),
            path: "/trade-api/v2/portfolio/orders".to_owned(),
            url: join(self.base_url.as_str(), "/portfolio/orders"),
            body: Some(
                order_body(
                    client_order_id,
                    ticker,
                    side,
                    action,
                    price_dollars,
                    count,
                    "immediate_or_cancel",
                    false,
                    reduce_only,
                ),
            ),
        }
    }

    /// Places a taker order under a new identifier. `rounded` is the price in
    /// dollars as it is shown where it is too large to be shown exactly.
    pub fn place_taker_order(
        &self,
        ticker: &str,
        side: &str,
        action: &str,
        price_cents: i64,
        rounded: &str,
        count: i64,
        reduce_only: bool,
    ) -> (r: OrderRequest)
        ensures
            uuid_text(r.client_order_id@),
            r.request@ == place_request(
                self.base_url@,
                order_json(
                    r.client_order_id@,
                    ticker@,
                    side@,
                    action@,
                    price_text(price_cents as int, rounded@),
                    count as int,
                    "immediate_or_cancel"@,
                    false,
                    reduce_only,
                ),
            ),
    {
        let client_order_id = new_client_order_id();
        let price = price_in_dollars(price_cents, rounded);
        let request = self.place_taker_order_as(
            client_order_id.as_str(),
            ticker,
            side,
            action,
            price.as_str(),
            count,
            reduce_only,
        );
        OrderRequest { client_order_id, request }
    }

    /// Cancels an order.
    pub fn cancel_order(&self, order_id: &str) -> (r: HttpRequest)
        ensures
            r@ == (RequestView {
                method: "DELETE"@,
                path: "/trade-api/v2/portfolio/orders/"@ + order_id@,
                url: self.base_url@ + "/portfolio/orders/"@ + order_id@,
                body: None,
            }),
    {
        let mut url = join(self.base_url.as_str(), "/portfolio/orders/");
        url.append(order_id);
        HttpRequest {
            method: "DELETE".to_owned(),
            path: join("/trade-api/v2/portfolio/orders/", order_id),
            url,
            body: None,
        }
    }

    /// Amends an order, which gets a given new identifier and a price already
    /// written in dollars.
    pub fn amend_order_as(
        &self,
        order_id: &str,
        client_order_id: &str,
        new_client_order_id: &str,
        ticker: &str,
        side: &str,
        action: &str,
        price_dollars: &str,
        count: i64,
    ) -> (r: HttpRequest)
        ensures
            r@ == amend_request(
                self.base_url@,
                order_id@,
                amend_json(
                    client_order_id@,
                    new_client_order_id@,
                    ticker@,
                    side@,
                    action@,
                    price_dollars@,
                    count as int,
                ),
            ),
    {
        let mut path = join("/trade-api/v2/portfolio/orders/", order_id);
        path.append("/amend");
        let mut url = join(self.base_url.as_str(), "/portfolio/orders/");
        url.append(order_id);
        url.append("/amend");
        let count_fp = count_fp(count);
        let mut body = new_object();
        add_text(&mut body, "ticker", ticker);
        add_text(&mut body, "side", side);
        add_text(&mut body, "action", action);
        add_text(&mut body, "count_fp", count_fp.as_str());
        add_text(&mut body, "client_order_id", client_order_id);
        add_text(&mut body, "updated_client_order_id", new_client_order_id);
        add_price(&mut body, side, price_dollars);
        HttpRequest { method: "POST".to_owned(), path, url, body: Some(to_text(&body)) }
    }

    /// Amends an order, which gets a new identifier. `rounded` is the price in
    /// dollars as it is shown where it is too large to be shown exactly.
    pub fn amend_order(
        &self,
        order_id: &str,
        client_order_id: &str,
        ticker: &str,
        side: &str,
        action: &str,
        new_price_cents: i64,
        rounded: &str,
        count: i64,
    ) -> (r: OrderRequest)
        ensures
            uuid_text(r.client_order_id@),
            r.request@ == amend_request(
                self.base_url@,
                order_id@,
                amend_json(
                    client_order_id@,
                    r.client_order_id@,
                    ticker@,
                    side@,
                    action@,
                    price_text(new_price_cents as int, rounded@),
                    count as int,
                ),
            ),
    {
        let new_id = new_client_order_id();
        let price = price_in_dollars(new_price_cents, rounded);
        let request = self.amend_order_as(
            order_id,
            client_order_id,
            new_id.as_str(),
            ticker,
            side,
            action,
            price.as_str(),
            count,
        );
        OrderRequest { client_order_id: new_id, request }
    }

    /// Cancels orders, twenty by one request.
    pub fn batch_cancel(&self, order_ids: &[String]) -> (r: Vec<HttpRequest>)
        ensures
            r@.len() == (order_ids@.len() + 19) / 20,
            forall|k: int|
                0 <= k < r@.len() ==> (#[trigger] r@[k])@ == batch_request(
                    self.base_url@,
                    batch(texts(order_ids@), k),
                ),
    {
        let mut out: Vec<HttpRequest> = Vec::new();
        let mut start: usize = 0;
        while start < order_ids.len()
            invariant
                start <= order_ids@.len(),
                start == 20 * out@.len() || start == order_ids@.len(),
                out@.len() == (start + 19) / 20,
                forall|k: int|
                    0 <= k < out@.len() ==> (#[trigger] out@[k])@ == batch_request(
                        self.base_url@,
                        batch(texts(order_ids@), k),
                    ),
            decreases order_ids@.len() - start,
        {
            let end: usize = if order_ids.len() - start <= 20 {
                order_ids.len()
            } else {
                start + 20
            };
            let body = cancel_body(order_ids, start, end);
            assert(texts(order_ids@).subrange(start as int, end as int) == batch(
                texts(order_ids@),
                out@.len() as int,
            ));
            out.push(
                HttpRequest {
                    method: "DELETE".to_owned(),
                    path: "/trade-api/v2/portfolio/orders/batched".to_owned(),
                    url: join(self.base_url.as_str(), "/portfolio/orders/batched"),
                    body: Some(body),
                },
            );
            start = end;
        }
        out
    }

    /// Asks for the balance.
    pub fn get_balance(&self) -> (r: HttpRequest)
        ensures
            r@ == (RequestView {
                method: "GET"@,
                path: "/trade-api/v2/portfolio/balance"@,
                url: self.base_url@ + "/portfolio/balance"@,
                body: None,
            }),
    {
        HttpRequest {
            method: "GET".to_owned(),
            path: "/trade-api/v2/portfolio/balance".to_owned(),
            url: join(self.base_url.as_str(), "/portfolio/balance"),
            body: None,
        }
    }

    /// Asks for the position in a market.
    pub fn get_position(&self, ticker: &str) -> (r: HttpRequest)
        ensures
            r@ == (RequestView {
                method: "GET"@,
                path: "/trade-api/v2/portfolio/positions"@,
                url: self.base_url@ + "/portfolio/positions?ticker="@ + ticker@,
                body: None,
            }),
    {
        let mut url = join(self.base_url.as_str(), "/portfolio/positions?ticker=");
        url.append(ticker);
        HttpRequest {
            method: "GET".to_owned(),
            path: "/trade-api/v2/portfolio/positions".to_owned(),
            url,
            body: None,
        }
    }
}

/// The text of the body that cancels the orders from `start` to `end`.
fn cancel_body(order_ids: &[String], start: usize, end: usize) -> (r: String)
    requires
        start <= end <= order_ids@.len(),
    ensures
        r@ == json_text(cancel_json(texts(order_ids@).subrange(start as int, end as int))),
{
    let ghost ids = texts(order_ids@).subrange(start as int, end as int);
    let ghost listed = ids.map_values(
        |id: Seq<char>| Json::no_members().with("order_id"@, Json::Text(id)),
    );
    let mut orders: Vec<serde_json::Value> = Vec::new();
    let mut i: usize = start;
    while i < end
        invariant
            start <= i <= end <= order_ids@.len(),
            ids == texts(order_ids@).subrange(start as int, end as int),
            listed == ids.map_values(
                |id: Seq<char>| Json::no_members().with("order_id"@, Json::Text(id)),
            ),
            orders@.len() == i - start,
            forall|k: int| 0 <= k < orders@.len() ==> json_of(#[trigger] orders@[k]) == listed[k],
        decreases end - i,
    {
        let mut order = new_object();
        add_text(&mut order, "order_id", order_ids[i].as_str());
        orders.push(order);
        i += 1;
    }
    assert(jsons(orders@) =~= listed);
    let mut body = new_object();
    set_member(&mut body, "orders", array(orders));
    to_text(&body)
}

/// Whether a status says that the request was carried out.
pub open spec fn success(status: u16) -> bool {
    200 <= status <= 299
}

/// What a failed request to the exchange is reported as.
pub open spec fn failure_text(
    what: Seq<char>,
    status_text: Seq<char>,
    failure: Seq<char>,
) -> Seq<char> {
    what + status_text + " "@ + failure
}

/// Why a maker order was not placed; none where it was.
pub open spec fn place_refusal(
    status: u16,
    status_text: Seq<char>,
    failure: Seq<char>,
) -> Option<Seq<char>> {
    if status == 429 {
        Some("Rate limited (429)"@)
    } else if status == 409 {
        Some("Duplicate order (409)"@)
    } else if success(status) {
        None
    } else if occurs_in(failure, "post only cross"@) {
        Some("Post-only cross"@)
    } else {
        Some(failure_text("Order failed: "@, status_text, failure))
    }
}

/// Why a request was not carried out, where the status of a reply is all that
/// counts but for the limit of the rate; none where it was.
pub open spec fn plain_refusal(
    what: Seq<char>,
    status: u16,
    status_text: Seq<char>,
    failure: Seq<char>,
) -> Option<Seq<char>> {
    if status == 429 {
        Some("Rate limited (429)"@)
    } else if success(status) {
        None
    } else {
        Some(failure_text(what, status_text, failure))
    }
}

/// The text of a reply that is no JSON document.
pub open spec fn unreadable() -> Seq<char> {
    "error decoding response body"@
}

fn report(what: &str, status_text: &str, failure: &str) -> (r: String)
    ensures
        r@ == failure_text(what@, status_text@, failure@),
{
    let mut s = join(what, status_text);
    s.append(" ");
    s.append(failure);
    s
}

fn check_plain(what: &str, status: u16, status_text: &str, failure: &str) -> (r: Result<(), String>)
    ensures
        match plain_refusal(what@, status, status_text@, failure@) {
            Some(t) => r matches Err(e) && e@ == t,
            None => r is Ok,
        },
{
    if status == 429 {
        return Err("Rate limited (429)".to_owned());
    }
    if status < 200 || status > 299 {
        return Err(report(what, status_text, failure));
    }
    Ok(())
}

/// What a reply to a placed order says of the order.
pub fn placed_order(reply: &serde_json::Value, client_order_id: String) -> (r: PlaceOrderResponse)
    ensures
        r.order_id@ == json_of(*reply).member("order"@).member("order_id"@).text_or(seq![]),
        r.client_order_id == client_order_id,
        r.status@ == json_of(*reply).member("order"@).member("status"@).text_or(seq![]),
{
    let order = member(reply, "order");
    PlaceOrderResponse {
        order_id: text_or_empty(member(order, "order_id")),
        client_order_id,
        status: text_or_empty(member(order, "status")),
    }
}

/// What a reply to an amended order says of the order.
pub fn amended_order(reply: &serde_json::Value, new_client_order_id: String) -> (r:
    AmendOrderResponse)
    ensures
        r.order_id@ == json_of(*reply).member("order"@).member("order_id"@).text_or(seq![]),
        r.new_client_order_id == new_client_order_id,
        r.status@ == json_of(*reply).member("order"@).member("status"@).text_or(seq![]),
{
    let order = member(reply, "order");
    AmendOrderResponse {
        order_id: text_or_empty(member(order, "order_id")),
        new_client_order_id,
        status: text_or_empty(member(order, "status")),
    }
}

/// Whether a response says of an order what the document of a reply does.
pub open spec fn says_placed(r: PlaceOrderResponse, reply: Json, id: Seq<char>) -> bool {
    &&& r.order_id@ == reply.member("order"@).member("order_id"@).text_or(seq![])
    &&& r.client_order_id@ == id
    &&& r.status@ == reply.member("order"@).member("status"@).text_or(seq![])
}

/// The reply to a maker order: `failure` is the text of one that was refused,
/// `body` the bytes of one that was not.
pub fn read_place_order(
    status: u16,
    status_text: &str,
    failure: &str,
    body: &[u8],
    client_order_id: String,
) -> (r: Result<PlaceOrderResponse, String>)
    ensures
        match place_refusal(status, status_text@, failure@) {
            Some(t) => r matches Err(e) && e@ == t,
            None => match json_document(body@) {
                Some(j) => r matches Ok(o) && says_placed(o, j, client_order_id@),
                None => r matches Err(e) && e@ == unreadable(),
            },
        },
{
    if status == 429 {
        return Err("Rate limited (429)".to_owned());
    }
    if status == 409 {
        return Err("Duplicate order (409)".to_owned());
    }
    if status < 200 || status > 299 {
        if has_text(failure, "post only cross") {
            return Err("Post-only cross".to_owned());
        }
        return Err(report("Order failed: ", status_text, failure));
    }
    match parse(body) {
        Some(reply) => Ok(placed_order(&reply, client_order_id)),
        None => Err("error decoding response body".to_owned()),
    }
}

/// The reply to a taker order.
pub fn read_taker_order(
    status: u16,
    status_text: &str,
    failure: &str,
    body: &[u8],
    client_order_id: String,
) -> (r: Result<PlaceOrderResponse, String>)
    ensures
        match plain_refusal("Taker order failed: "@, status, status_text@, failure@) {
            Some(t) => r matches Err(e) && e@ == t,
            None => match json_document(body@) {
                Some(j) => r matches Ok(o) && says_placed(o, j, client_order_id@),
                None => r matches Err(e) && e@ == unreadable(),
            },
        },
{
    match check_plain("Taker order failed: ", status, status_text, failure) {
        Err(e) => Err(e),
        Ok(_) => match parse(body) {
            Some(reply) => Ok(placed_order(&reply, client_order_id)),
            None => Err("error decoding response body".to_owned()),
        },
    }
}

/// The reply to a cancel: an order that is not found is gone already.
pub fn read_cancel_order(status: u16, status_text: &str, failure: &str) -> (r: Result<(), String>)
    ensures
        status == 404 ==> r is Ok,
        status != 404 ==> match plain_refusal("Cancel failed: "@, status, status_text@, failure@) {
            Some(t) => r matches Err(e) && e@ == t,
            None => r is Ok,
        },
{
    if status == 404 {
        return Ok(());
    }
    check_plain("Cancel failed: ", status, status_text, failure)
}

/// The reply to an amended order.
pub fn read_amend_order(
    status: u16,
    status_text: &str,
    failure: &str,
    body: &[u8],
    new_client_order_id: String,
) -> (r: Result<AmendOrderResponse, String>)
    ensures
        match plain_refusal("Amend failed: "@, status, status_text@, failure@) {
            Some(t) => r matches Err(e) && e@ == t,
            None => match json_document(body@) {
                Some(j) => r matches Ok(o) && o.order_id@ == j.member("order"@).member(
                    "order_id"@,
                ).text_or(seq![]) && o.new_client_order_id == new_client_order_id && o.status@
                    == j.member("order"@).member("status"@).text_or(seq![]),
                None => r matches Err(e) && e@ == unreadable(),
            },
        },
{
    match check_plain("Amend failed: ", status, status_text, failure) {
        Err(e) => Err(e),
        Ok(_) => match parse(body) {
            Some(reply) => Ok(amended_order(&reply, new_client_order_id)),
            None => Err("error decoding response body".to_owned()),
        },
    }
}

/// The balance of a reply; 0 where it tells none.
pub fn balance_of(reply: &serde_json::Value) -> (r: i64)
    ensures
        r == json_of(*reply).member("balance"@).int_or(0),
{
    int_or_zero(member(reply, "balance"))
}

/// The reply to a question for the balance.
pub fn read_balance(body: &[u8]) -> (r: Result<i64, String>)
    ensures
        match json_document(body@) {
            Some(j) => r matches Ok(b) && b == j.member("balance"@).int_or(0),
            None => r matches Err(e) && e@ == unreadable(),
        },
{
    match parse(body) {
        Some(reply) => Ok(balance_of(&reply)),
        None => Err("error decoding response body".to_owned()),
    }
}

/// The position in a market: that of the first entry for it, 0 where there is none.
pub open spec fn listed_position(list: Seq<Json>, ticker: Seq<char>) -> int
    decreases list.len(),
{
    if list.len() == 0 {
        0
    } else if list[0].member("ticker"@) == Json::Text(ticker) {
        list[0].member("position"@).int_or(0)
    } else {
        listed_position(list.subrange(1, list.len() as int), ticker)
    }
}

/// The position that a reply tells.
pub open spec fn position_in(reply: Json, ticker: Seq<char>) -> int {
    match reply.member("market_positions"@) {
        Json::Array(list) => listed_position(list, ticker),
        _ => 0,
    }
}

/// The position in a market that a reply tells.
pub fn position_of(reply: &serde_json::Value, ticker: &str) -> (r: i64)
    ensures
        r == position_in(json_of(*reply), ticker@),
{
    let list = match as_array(member(reply, "market_positions")) {
        Some(list) => list,
        None => {
            return 0;
        },
    };
    let ghost all = jsons(list@);
    let mut i: usize = 0;
    assert(all.subrange(0, all.len() as int) =~= all);
    while i < list.len()
        invariant
            i <= list@.len(),
            all == jsons(list@),
            json_of(*reply).member("market_positions"@) == Json::Array(all),
            listed_position(all, ticker@) == listed_position(
                all.subrange(i as int, all.len() as int),
                ticker@,
            ),
        decreases list@.len() - i,
    {
        let ghost rest = all.subrange(i as int, all.len() as int);
        assert(rest.subrange(1, rest.len() as int) =~= all.subrange(i + 1, all.len() as int));
        let pos = &list[i];
        let found = match as_text(member(pos, "ticker")) {
            Some(t) => same_text(t, ticker),
            None => false,
        };
        if found {
            return int_or_zero(member(pos, "position"));
        }
        i += 1;
    }
    0
}

/// The reply to a question for the position in a market.
pub fn read_position(body: &[u8], ticker: &str) -> (r: Result<i64, String>)
    ensures
        match json_document(body@) {
            Some(j) => r matches Ok(p) && p == position_in(j, ticker@),
            None => r matches Err(e) && e@ == unreadable(),
        },
{
    match parse(body) {
        Some(reply) => Ok(position_of(&reply, ticker)),
        None => Err("error decoding response body".to_owned()),
    }
}

/// Every order to be cancelled is in a batch, none of which holds more than twenty.
pub proof fn law_batches_cover(ids: Seq<Seq<char>>, i: int)
    requires
        0 <= i < ids.len(),
    ensures
        0 <= i / 20 < (ids.len() + 19) / 20,
        1 <= batch(ids, i / 20).len() <= 20,
        batch(ids, i / 20)[i % 20] == ids[i],
{
}

/// What stands at a place of a batch is the order that many places after twenty
/// times the number of the batch: so no two batches share an order's place.
pub proof fn law_batches_disjoint(ids: Seq<Seq<char>>, k: int, j: int)
    requires
        0 <= k < (ids.len() + 19) / 20,
        0 <= j < batch(ids, k).len(),
    ensures
        0 <= 20 * k + j < ids.len(),
        batch(ids, k)[j] == ids[20 * k + j],
        (20 * k + j) / 20 == k,
{
}

} // verus!
