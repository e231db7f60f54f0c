//! Finding the market to trade: the request for the open markets, their order
//! by closing time, and the choice among them.

use vstd::prelude::*;

use crate::execution::{HttpRequest, RequestView};
use crate::seqs::{
    first_where, lemma_filter_none, lemma_first_where, lemma_first_where_meaning,
};
use crate::text::{comes_first, lemma_text_le_total, lemma_text_le_transitive, text_le};
use crate::utc::{rfc3339, UtcTime};

verus! {

/// A market as the exchange lists it. `volume_fp` is the rounded number of the
/// text given for it, where it is one.
#[derive(Debug, Clone)]
pub struct Market {
    pub ticker: String,
    pub title: String,
    pub status: String,
    pub yes_price: Option<i64>,
    pub volume: Option<i64>,
    pub volume_fp: Option<i64>,
    pub event_ticker: Option<String>,
    pub close_time: Option<String>,
    pub expiration_time: Option<String>,
}

/// The query for the open markets of a series.
pub open spec fn markets_query(series: Seq<char>) -> Seq<char> {
    "/markets?series_ticker="@ + series + "&status=open&limit=100"@
}

/// Asks for the open markets of a series.
pub fn active_markets_request(series: &str) -> (r: HttpRequest)
    ensures
        r@ == (RequestView {
            method: "GET"@,
            path: "/trade-api/v2"@ + markets_query(series@),
            url: "https://api.elections.kalshi.com/trade-api/v2"@ + markets_query(series@),
            body: None,
        }),
        r.method@ == "GET"@,
        r.path@ == "/trade-api/v2"@ + ("/markets?series_ticker="@ + series@
            + "&status=open&limit=100"@),
        r.url@ == "https://api.elections.kalshi.com/trade-api/v2"@ + ("/markets?series_ticker="@
            + series@ + "&status=open&limit=100"@),
        r.body is None,
{
    let mut query = "/markets?series_ticker=".to_owned();
    query.append(series);
    query.append("&status=open&limit=100");
    let mut path = "/trade-api/v2".to_owned();
    path.append(query.as_str());
    let mut url = "https://api.elections.kalshi.com/trade-api/v2".to_owned();
    url.append(query.as_str());
    HttpRequest { method: "GET".to_owned(), path, url, body: None }
}

/// Whether the exchange answered the question for the open markets.
pub fn check_markets_reply(status: u16, status_text: &str, failure: &str) -> (r: Result<
    (),
    String,
>)
    ensures
        match r {
            Ok(_) => 200 <= status <= 299,
            Err(e) => !(200 <= status <= 299) && e@ == "Kalshi API error "@ + status_text@ + ": "@
                + failure@,
        },
{
    if 200 <= status && status <= 299 {
        return Ok(());
    }
    let mut e = "Kalshi API error ".to_owned();
    e.append(status_text);
    e.append(": ");
    e.append(failure);
    Err(e)
}

impl Market {
    /// What the market is sorted by: its closing time as it is written, or a
    /// text after those of this era where none is.
    pub open spec fn close_key(self) -> Seq<char> {
        match self.close_time {
            Some(t) => t@,
            None => "9999"@,
        }
    }

    /// Whether anything was traded.
    pub open spec fn traded(self) -> bool {
        (self.volume matches Some(v) && v > 0) || (self.volume_fp matches Some(v) && v > 0)
    }

    /// The time at which the market closes; none where it is not given or not readable.
    pub open spec fn closes(self) -> Option<UtcTime> {
        match self.close_time {
            Some(t) => match rfc3339(t@) {
                Some((secs, nanos)) => Some(UtcTime { secs, nanos }),
                None => None,
            },
            None => None,
        }
    }

    /// Whether the market has more than a minute left, as far as is known.
    pub open spec fn lasting(self, now: UtcTime) -> bool {
        match self.closes() {
            Some(t) => t.seconds_since_spec(now) > 60,
            None => true,
        }
    }

    fn key(&self) -> (r: &str)
        ensures
            r@ == self.close_key(),
    {
        match &self.close_time {
            Some(t) => t.as_str(),
            None => "9999",
        }
    }

    /// Whether anything was traded.
    pub fn has_volume(&self) -> (r: bool)
        ensures
            r == self.traded(),
            r <==> (self.volume matches Some(v) && v > 0) || (self.volume_fp matches Some(v) && v
                > 0),
    {
        self.volume.unwrap_or(0) > 0 || self.volume_fp.unwrap_or(0) > 0
    }

    /// The time at which the market closes; none where it is not given or not readable.
    pub fn closing_time(&self) -> (r: Option<UtcTime>)
        ensures
            r == self.closes(),
            r matches Some(t) ==> t.wf(),
    {
        match &self.close_time {
            Some(t) => UtcTime::parse(t.as_str()),
            None => None,
        }
    }

    /// Whether the market has more than a minute left, as far as is known.
    pub fn not_expiring(&self, now: UtcTime) -> (r: bool)
        requires
            now.wf(),
        ensures
            r == self.lasting(now),
            self.close_time is None ==> r,
            self.close_time matches Some(t) && rfc3339(t@) is None ==> r,
            self.close_time matches Some(t) && rfc3339(t@) is Some ==> r == (UtcTime {
                secs: rfc3339(self.close_time.unwrap()@).unwrap().0,
                nanos: rfc3339(self.close_time.unwrap()@).unwrap().1,
            }.seconds_since_spec(now) > 60),
    {
        match self.closing_time() {
            Some(t) => t.seconds_since(now) > 60,
            None => true,
        }
    }
}

/// The markets with a closing time, in the order in which they stand.
pub open spec fn closing_at(markets: Seq<Market>, key: Seq<char>) -> Seq<Market> {
    markets.filter(|m: Market| m.close_key() == key)
}

/// Whether no market closes before one that stands before it.
pub open spec fn in_closing_order(markets: Seq<Market>) -> bool {
    forall|i: int, j: int|
        0 <= i <= j < markets.len() ==> text_le(
            (#[trigger] markets[i]).close_key(),
            (#[trigger] markets[j]).close_key(),
        )
}

/// Whether `sorted` holds `markets` by closing time, those that close together
/// in the order in which they stood.
pub open spec fn sorted_from(sorted: Seq<Market>, markets: Seq<Market>) -> bool {
    &&& in_closing_order(sorted)
    &&& forall|key: Seq<char>| #[trigger] closing_at(sorted, key) == closing_at(markets, key)
}

proof fn lemma_closing_at_insert(out: Seq<Market>, p: int, m: Market, tail: Seq<Market>)
    requires
        0 <= p <= out.len(),
        forall|i: int|
            0 <= i < p ==> !text_le(m.close_key(), (#[trigger] out[i]).close_key()),
        forall|key: Seq<char>| #[trigger] closing_at(out, key) == closing_at(tail, key),
    ensures
        forall|key: Seq<char>|
            #[trigger] closing_at(out.insert(p, m), key) == closing_at(seq![m] + tail, key),
{
    let a = out.take(p);
    let b = out.skip(p);
    assert(out =~= a + b);
    assert(out.insert(p, m) =~= a + (seq![m] + b));
    assert forall|key: Seq<char>|
        #[trigger] closing_at(out.insert(p, m), key) == closing_at(seq![m] + tail, key) by {
        let f = |x: Market| x.close_key() == key;
        assert(closing_at(out, key) == closing_at(tail, key));
        assert(out.filter(f) == closing_at(out, key));
        assert(tail.filter(f) == closing_at(tail, key));
        Seq::filter_distributes_over_add(a, b, f);
        Seq::filter_distributes_over_add(a, seq![m] + b, f);
        b.lemma_filter_prepend(m, f);
        tail.lemma_filter_prepend(m, f);
        if m.close_key() == key {
            assert forall|i: int| 0 <= i < a.len() implies !f(#[trigger] a[i]) by {
                assert(a[i] == out[i]);
                lemma_text_le_total(key, out[i].close_key());
            }
            lemma_filter_none(a, f);
            assert(closing_at(out.insert(p, m), key) =~= seq![m] + b.filter(f));
            assert(out.filter(f) =~= b.filter(f));
        } else {
            assert(closing_at(out.insert(p, m), key) =~= a.filter(f) + b.filter(f));
            assert(closing_at(seq![m] + tail, key) =~= tail.filter(f));
        }
    }
}

proof fn lemma_insert_in_order(out: Seq<Market>, p: int, m: Market)
    requires
        0 <= p <= out.len(),
        in_closing_order(out),
        forall|i: int|
            0 <= i < p ==> !text_le(m.close_key(), (#[trigger] out[i]).close_key()),
        p < out.len() ==> text_le(m.close_key(), out[p].close_key()),
    ensures
        in_closing_order(out.insert(p, m)),
{
    let r = out.insert(p, m);
    assert forall|i: int, j: int| 0 <= i <= j < r.len() implies text_le(
        (#[trigger] r[i]).close_key(),
        (#[trigger] r[j]).close_key(),
    ) by {
        lemma_text_le_total(r[i].close_key(), r[j].close_key());
        if i < p && j < p {
            assert(r[i] == out[i] && r[j] == out[j]);
        } else if i < p && j > p {
            assert(r[i] == out[i] && r[j] == out[j - 1]);
        } else if i > p {
            assert(r[i] == out[i - 1] && r[j] == out[j - 1]);
        } else if i == p && j > p {
            assert(r[j] == out[j - 1]);
            lemma_text_le_transitive(m.close_key(), out[p].close_key(), out[j - 1].close_key());
        } else if i < p {
            assert(r[i] == out[i]);
        }
    }
}

/// The markets by closing time.
pub fn sort_by_close(markets: Vec<Market>) -> (r: Vec<Market>)
    ensures
        sorted_from(r@, markets@),
        r@.len() == markets@.len(),
{
    let ghost all = markets@;
    let mut rest = markets;
    let mut out: Vec<Market> = Vec::new();
    assert(all.skip(all.len() as int) =~= out@);
    while rest.len() > 0
        invariant
            rest@.len() <= all.len(),
            rest@ == all.take(rest@.len() as int),
            out@.len() == all.len() - rest@.len(),
            sorted_from(out@, all.skip(rest@.len() as int)),
        decreases rest@.len(),
    {
        let ghost tail = all.skip(rest@.len() as int);
        let m = match rest.pop() {
            Some(m) => m,
            None => {
                return out;
            },
        };
        let ghost moved = m;
        let mut p: usize = 0;
        while p < out.len() && !comes_first(m.key(), out[p].key())
            invariant
                p <= out@.len(),
                forall|i: int|
                    0 <= i < p ==> !text_le(m.close_key(), (#[trigger] out@[i]).close_key()),
            decreases out@.len() - p,
        {
            p += 1;
        }
        proof {
            lemma_insert_in_order(out@, p as int, moved);
            lemma_closing_at_insert(out@, p as int, moved, tail);
            assert(seq![moved] + tail =~= all.skip(rest@.len() as int));
            assert(rest@ =~= all.take(rest@.len() as int));
        }
        out.insert(p, m);
    }
    assert(all.skip(0) =~= all);
    out
}

/// The reply to the question for the open markets, whose document lists `markets`:
/// those markets by closing time.
pub fn find_active_markets(
    status: u16,
    status_text: &str,
    failure: &str,
    markets: Vec<Market>,
) -> (r: Result<Vec<Market>, String>)
    ensures
        match r {
            Ok(m) => 200 <= status <= 299 && sorted_from(m@, markets@),
            Err(e) => !(200 <= status <= 299) && e@ == "Kalshi API error "@ + status_text@ + ": "@
                + failure@,
        },
{
    match check_markets_reply(status, status_text, failure) {
        Ok(_) => Ok(sort_by_close(markets)),
        Err(e) => Err(e),
    }
}

/// The place of the market to trade: the first that has been traded and has
/// more than a minute left, else the first that has more than a minute left.
pub open spec fn current(markets: Seq<Market>, now: UtcTime) -> Option<int> {
    let a = first_where(markets, |m: Market| m.traded() && m.lasting(now));
    let b = first_where(markets, |m: Market| m.lasting(now));
    if a < markets.len() {
        Some(a)
    } else if b < markets.len() {
        Some(b)
    } else {
        None
    }
}

/// The place of the market to trade.
pub fn choose_market(markets: &Vec<Market>, now: UtcTime) -> (r: Option<usize>)
    requires
        now.wf(),
    ensures
        match r {
            Some(k) => current(markets@, now) == Some(k as int) && k < markets@.len(),
            None => current(markets@, now) is None,
        },
        r is None ==> forall|i: int|
            0 <= i < markets@.len() ==> !(#[trigger] markets@[i]).lasting(now),
        r matches Some(k) ==> markets@[k as int].lasting(now),
        r matches Some(k) && !markets@[k as int].traded() ==> forall|i: int|
            0 <= i < markets@.len() ==> !((#[trigger] markets@[i]).lasting(now)
                && markets@[i].traded()),
        r matches Some(k) ==> forall|i: int|
            0 <= i < k ==> !((#[trigger] markets@[i]).lasting(now) && (markets@[i].traded()
                || !markets@[k as int].traded())),
{
    let ghost both = |m: Market| m.traded() && m.lasting(now);
    let ghost one = |m: Market| m.lasting(now);
    let mut i: usize = 0;
    while i < markets.len() && !(markets[i].has_volume() && markets[i].not_expiring(now))
        invariant
            i <= markets@.len(),
            now.wf(),
            both == |m: Market| m.traded() && m.lasting(now),
            forall|k: int| 0 <= k < i ==> !both(#[trigger] markets@[k]),
        decreases markets@.len() - i,
    {
        i += 1;
    }
    proof {
        lemma_first_where(markets@, both, i as int);
        assert forall|k: int| 0 <= k < i implies !((#[trigger] markets@[k]).lasting(now)
            && markets@[k].traded()) by {
            assert(!both(markets@[k]));
        }
    }
    if i < markets.len() {
        return Some(i);
    }
    let mut j: usize = 0;
    while j < markets.len() && !markets[j].not_expiring(now)
        invariant
            j <= markets@.len(),
            now.wf(),
            one == |m: Market| m.lasting(now),
            forall|k: int| 0 <= k < j ==> !one(#[trigger] markets@[k]),
        decreases markets@.len() - j,
    {
        j += 1;
    }
    proof {
        lemma_first_where(markets@, one, j as int);
        assert forall|k: int| 0 <= k < j implies !(#[trigger] markets@[k]).lasting(now) by {
            assert(!one(markets@[k]));
        }
    }
    if j < markets.len() {
        Some(j)
    } else {
        None
    }
}

/// The market to trade, or why there is none.
pub fn find_current_market<'a>(markets: &'a Vec<Market>, series: &str, now: UtcTime) -> (r: Result<
    &'a Market,
    String,
>)
    requires
        now.wf(),
    ensures
        match current(markets@, now) {
            Some(k) => r matches Ok(m) && *m == markets@[k],
            None => r matches Err(e) && e@ == if markets@.len() == 0 {
                "No open "@ + series@ + " markets found"@
            } else {
                "No suitable "@ + series@ + " market found (all expiring)"@
            },
        },
{
    if markets.len() == 0 {
        let mut e = "No open ".to_owned();
        e.append(series);
        e.append(" markets found");
        return Err(e);
    }
    match choose_market(markets, now) {
        Some(k) => Ok(&markets[k]),
        None => {
            let mut e = "No suitable ".to_owned();
            e.append(series);
            e.append(" market found (all expiring)");
            Err(e)
        },
    }
}

/// The seconds until a market closes: none where it has closed, and as many as
/// can be where it is not known when it does.
pub open spec fn seconds_left(close: Option<UtcTime>, now: UtcTime) -> int {
    match close {
        Some(t) => if t.seconds_since_spec(now) > 0 {
            t.seconds_since_spec(now)
        } else {
            0
        },
        None => i64::MAX as int,
    }
}

/// The seconds until a market closes.
pub fn time_to_expiry(close: Option<UtcTime>, now: UtcTime) -> (r: i64)
    requires
        now.wf(),
        close matches Some(t) ==> t.wf(),
    ensures
        r == seconds_left(close, now),
        r >= 0,
        close is None ==> r == i64::MAX,
        close matches Some(t) ==> (t.seconds_since_spec(now) >= 0 ==> r == t.seconds_since_spec(
            now,
        )),
        close matches Some(t) ==> (t.seconds_since_spec(now) < 0 ==> r == 0),
{
    match close {
        Some(t) => {
            let s: i64 = t.seconds_since(now);
            if s > 0 {
                s
            } else {
                0
            }
        },
        None => i64::MAX,
    }
}

/// A market is found exactly where one has more than a minute left, and it is
/// such a market. One that was traded is preferred.
pub proof fn law_market_found(markets: Seq<Market>, now: UtcTime)
    ensures
        current(markets, now) is Some <==> exists|i: int|
            0 <= i < markets.len() && (#[trigger] markets[i]).lasting(now),
        current(markets, now) matches Some(k) ==> 0 <= k < markets.len() && markets[k].lasting(now),
        (exists|i: int|
            0 <= i < markets.len() && (#[trigger] markets[i]).lasting(now) && markets[i].traded())
            ==> (current(markets, now) matches Some(k) && markets[k].traded()),
{
    let both = |m: Market| m.traded() && m.lasting(now);
    let one = |m: Market| m.lasting(now);
    lemma_first_where_meaning(markets, both);
    lemma_first_where_meaning(markets, one);
    assert forall|i: int|
        0 <= i < markets.len() && (#[trigger] markets[i]).lasting(now) && markets[i].traded()
        implies first_where(markets, both) < markets.len() by {
        if first_where(markets, both) >= markets.len() {
            assert(!both(markets[i]));
        }
    }
    assert forall|i: int| 0 <= i < markets.len() && (#[trigger] markets[i]).lasting(now) implies
        first_where(markets, one) < markets.len() by {
        if first_where(markets, one) >= markets.len() {
            assert(!one(markets[i]));
        }
    }
}

/// Of the traded markets that have more than a minute left, the one that is
/// chosen closes first.
pub proof fn law_first_to_close(markets: Seq<Market>, now: UtcTime, i: int)
    requires
        in_closing_order(markets),
        0 <= i < markets.len(),
        markets[i].traded() && markets[i].lasting(now),
    ensures
        current(markets, now) matches Some(k) && text_le(
            markets[k].close_key(),
            markets[i].close_key(),
        ),
{
    let both = |m: Market| m.traded() && m.lasting(now);
    lemma_first_where_meaning(markets, both);
    let k = first_where(markets, both);
    if i < k {
        assert(!both(markets[i]));
    }
}

/// What a market is known by: it was traded where either volume says so, and it
/// lasts where its closing time is not known or more than a minute away. It is
/// sorted by its closing time as it is written, after all others without one.
pub proof fn law_market_known(m: Market, now: UtcTime)
    ensures
        m.traded() <==> (m.volume matches Some(v) && v > 0) || (m.volume_fp matches Some(v) && v
            > 0),
        m.close_time is None ==> m.lasting(now) && m.close_key() == "9999"@,
        m.close_time matches Some(t) ==> {
            &&& m.close_key() == t@
            &&& rfc3339(t@) is None ==> m.lasting(now)
            &&& rfc3339(t@) matches Some(at) ==> (m.lasting(now) <==> (UtcTime {
                secs: at.0,
                nanos: at.1,
            }).seconds_since_spec(now) > 60)
        },
{
}

/// Sorting keeps every market, and as many of each.
pub proof fn law_sorting_keeps(sorted: Seq<Market>, markets: Seq<Market>, m: Market)
    requires
        sorted_from(sorted, markets),
    ensures
        sorted.contains(m) <==> markets.contains(m),
{
    let key = m.close_key();
    let f = |x: Market| x.close_key() == key;
    assert(closing_at(sorted, key) == closing_at(markets, key));
    assert(sorted.filter(f) == closing_at(sorted, key));
    assert(markets.filter(f) == closing_at(markets, key));
    if sorted.contains(m) {
        sorted.lemma_filter_contains(f, sorted.index_of(m));
        markets.lemma_filter_contains_rev(f, m);
    }
    if markets.contains(m) {
        markets.lemma_filter_contains(f, markets.index_of(m));
        sorted.lemma_filter_contains_rev(f, m);
    }
}

/// Markets in closing order close one after the other, and those that close
/// together keep their order.
pub proof fn law_closing_order(sorted: Seq<Market>, markets: Seq<Market>, i: int, j: int)
    requires
        sorted_from(sorted, markets),
        0 <= i <= j < sorted.len(),
    ensures
        text_le(sorted[i].close_key(), sorted[j].close_key()),
        sorted.filter(|m: Market| m.close_key() == sorted[i].close_key()) == markets.filter(
            |m: Market| m.close_key() == sorted[i].close_key(),
        ),
{
    let key = sorted[i].close_key();
    assert(closing_at(sorted, key) == closing_at(markets, key));
    assert(closing_at(sorted, key) == sorted.filter(|m: Market| m.close_key() == key));
}

} // verus!
