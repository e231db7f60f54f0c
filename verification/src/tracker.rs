//! The orders that were placed and what is known of them.

use vstd::hash_map::StringHashMap;
use vstd::prelude::*;

use crate::seqs::{lemma_filter_ends, lemma_filter_step};
use crate::text::same_text;
use crate::time::Timestamp;

verus! {

#[derive(Debug, Clone, Copy, PartialEq, Eq, Structural)]
pub enum OrderStatus {
    PendingNew,
    Resting,
    Executed,
    Canceled,
    PendingCancel,
    PendingAmend,
}

#[derive(Debug, Clone)]
pub struct TrackedOrder {
    pub order_id: String,
    pub client_order_id: String,
    pub ticker: String,
    pub side: String,
    pub action: String,
    pub price_cents: i64,
    pub count: i64,
    pub remaining: i64,
    pub status: OrderStatus,
    pub created_at: Timestamp,
}

impl TrackedOrder {
    /// The order rests, or is on its way to the book.
    pub open spec fn live(&self) -> bool {
        self.status == OrderStatus::Resting || self.status == OrderStatus::PendingNew
    }

    /// The order rests, is on its way to the book or is being amended.
    pub open spec fn working(&self) -> bool {
        self.live() || self.status == OrderStatus::PendingAmend
    }

    /// The order is over.
    pub open spec fn finished(&self) -> bool {
        self.status == OrderStatus::Executed || self.status == OrderStatus::Canceled
    }

    /// The order buys contracts of a side.
    pub open spec fn buys(&self, side: Seq<char>) -> bool {
        self.side@ == side && self.action@ == "buy"@
    }

    /// The order rests, or is on its way to the book.
    pub fn is_live(&self) -> (r: bool)
        ensures
            r == self.live(),
            r == (self.status == OrderStatus::Resting || self.status == OrderStatus::PendingNew),
    {
        matches!(self.status, OrderStatus::Resting | OrderStatus::PendingNew)
    }

    /// The order rests, is on its way to the book or is being amended.
    pub fn is_working(&self) -> (r: bool)
        ensures
            r == self.working(),
            r == (self.status == OrderStatus::Resting || self.status == OrderStatus::PendingNew
                || self.status == OrderStatus::PendingAmend),
    {
        matches!(
            self.status,
            OrderStatus::Resting | OrderStatus::PendingNew | OrderStatus::PendingAmend
        )
    }

    /// The order is over.
    pub fn is_finished(&self) -> (r: bool)
        ensures
            r == self.finished(),
            r == (self.status == OrderStatus::Executed || self.status == OrderStatus::Canceled),
    {
        matches!(self.status, OrderStatus::Executed | OrderStatus::Canceled)
    }

    /// The order buys contracts of a side.
    pub fn is_buy_of(&self, side: &str) -> (r: bool)
        ensures
            r == self.buys(side@),
            r == (self.side@ == side@ && self.action@ == "buy"@),
    {
        same_text(self.side.as_str(), side) && same_text(self.action.as_str(), "buy")
    }
}

/// The names of the two sides differ.
pub proof fn lemma_sides_differ()
    ensures
        "yes"@ != "no"@,
{
    reveal_strlit("yes");
    reveal_strlit("no");
    assert("yes"@.len() != "no"@.len());
}

/// An order under the identifier by which it was taken in.
#[derive(Debug, Clone)]
pub struct OrderEntry {
    pub id: String,
    pub order: TrackedOrder,
}

/// The place of the entry with identifier `id`, or the number of entries where there is none.
pub open spec fn slot(entries: Seq<OrderEntry>, id: Seq<char>) -> int
    decreases entries.len(),
{
    if entries.len() == 0 || entries[0].id@ == id {
        0
    } else {
        1 + slot(entries.subrange(1, entries.len() as int), id)
    }
}

/// Whether there is an entry with identifier `id`.
pub open spec fn known(entries: Seq<OrderEntry>, id: Seq<char>) -> bool {
    slot(entries, id) < entries.len()
}

/// Whether no identifier occurs twice.
pub open spec fn distinct_ids(entries: Seq<OrderEntry>) -> bool {
    forall|i: int, j: int|
        0 <= i < j < entries.len() ==> (#[trigger] entries[i]).id@ != (#[trigger] entries[j]).id@
}

/// Whether each order is kept under its own identifier.
pub open spec fn own_ids(entries: Seq<OrderEntry>) -> bool {
    forall|i: int|
        0 <= i < entries.len() ==> (#[trigger] entries[i]).id@ == entries[i].order.order_id@
}

/// Where the entry stands.
pub proof fn lemma_slot(entries: Seq<OrderEntry>, id: Seq<char>, i: int)
    requires
        0 <= i <= entries.len(),
        forall|k: int| 0 <= k < i ==> (#[trigger] entries[k]).id@ != id,
        i < entries.len() ==> entries[i].id@ == id,
    ensures
        slot(entries, id) == i,
    decreases i,
{
    if i > 0 {
        assert(entries[0].id@ != id);
        let t = entries.subrange(1, entries.len() as int);
        assert forall|k: int| 0 <= k < i - 1 implies (#[trigger] t[k]).id@ != id by {
            assert(t[k] == entries[k + 1]);
        }
        lemma_slot(t, id, i - 1);
    }
}

/// What the place of an entry says.
pub proof fn lemma_slot_meaning(entries: Seq<OrderEntry>, id: Seq<char>)
    ensures
        0 <= slot(entries, id) <= entries.len(),
        known(entries, id) ==> entries[slot(entries, id)].id@ == id,
        forall|k: int| 0 <= k < slot(entries, id) ==> (#[trigger] entries[k]).id@ != id,
    decreases entries.len(),
{
    if entries.len() > 0 && entries[0].id@ != id {
        let t = entries.subrange(1, entries.len() as int);
        lemma_slot_meaning(t, id);
        assert forall|k: int| 0 <= k < slot(entries, id) implies (#[trigger] entries[k]).id@
            != id by {
            if k > 0 {
                assert(t[k - 1] == entries[k]);
            }
        }
    }
}

/// The entries after an order is taken in: it takes the place of the one with
/// its identifier, or comes last.
pub open spec fn put(entries: Seq<OrderEntry>, order: TrackedOrder) -> Seq<OrderEntry> {
    let i = slot(entries, order.order_id@);
    if i < entries.len() {
        entries.update(i, OrderEntry { id: entries[i].id, order })
    } else {
        entries.push(OrderEntry { id: order.order_id, order })
    }
}

/// The entries without the one with identifier `id`.
pub open spec fn without(entries: Seq<OrderEntry>, id: Seq<char>) -> Seq<OrderEntry> {
    if known(entries, id) {
        entries.remove(slot(entries, id))
    } else {
        entries
    }
}

/// The orders by identifier.
pub open spec fn by_id(entries: Seq<OrderEntry>) -> Map<Seq<char>, TrackedOrder> {
    Map::new(
        |id: Seq<char>| known(entries, id),
        |id: Seq<char>| entries[slot(entries, id)].order,
    )
}

pub struct OrderTracker {
    /// The orders, in the order in which they were taken in.
    pub orders: Vec<OrderEntry>,
    /// From a client's identifier to the exchange's.
    pub client_id_map: StringHashMap<String>,
    /// The last live order to buy yes.
    pub cached_bid_id: Option<String>,
    /// The last live order to buy no.
    pub cached_ask_id: Option<String>,
}

/// Whether an order is the one that a resting side is looked up for.
pub open spec fn rests_on(order: TrackedOrder, ticker: Seq<char>, side: Seq<char>) -> bool {
    order.ticker@ == ticker && order.buys(side) && order.working()
}

/// Whether an order is at work in a market.
pub open spec fn works_in(order: TrackedOrder, ticker: Seq<char>) -> bool {
    order.ticker@ == ticker && order.working()
}

/// The first order of a side that is at work.
pub open spec fn first_resting(
    entries: Seq<OrderEntry>,
    ticker: Seq<char>,
    side: Seq<char>,
) -> Option<TrackedOrder>
    decreases entries.len(),
{
    if entries.len() == 0 {
        None
    } else if rests_on(entries[0].order, ticker, side) {
        Some(entries[0].order)
    } else {
        first_resting(entries.subrange(1, entries.len() as int), ticker, side)
    }
}

/// The order under a remembered identifier where it is one of the side at
/// work, else the first one that is.
pub open spec fn resting_order(
    entries: Seq<OrderEntry>,
    cached: Option<String>,
    ticker: Seq<char>,
    side: Seq<char>,
) -> Option<TrackedOrder> {
    match cached {
        Some(id) => if known(entries, id@) && rests_on(
            entries[slot(entries, id@)].order,
            ticker,
            side,
        ) {
            Some(entries[slot(entries, id@)].order)
        } else {
            first_resting(entries, ticker, side)
        },
        None => first_resting(entries, ticker, side),
    }
}

/// The characters of a list of strings.
pub open spec fn texts(s: Seq<String>) -> Seq<Seq<char>> {
    s.map_values(|t: String| t@)
}

/// Whether a remembered identifier is `id`.
pub open spec fn remembers(cached: Option<String>, id: Seq<char>) -> bool {
    match cached {
        Some(c) => c@ == id,
        None => false,
    }
}

/// What a tracker holds.
pub struct TrackerView {
    pub orders: Seq<OrderEntry>,
    pub clients: Map<Seq<char>, String>,
    pub bid: Option<String>,
    pub ask: Option<String>,
}

impl View for OrderTracker {
    type V = TrackerView;

    open spec fn view(&self) -> TrackerView {
        TrackerView {
            orders: self.orders@,
            clients: self.client_id_map@,
            bid: self.cached_bid_id,
            ask: self.cached_ask_id,
        }
    }
}

/// The entries with another status for the order of an identifier.
pub open spec fn status_set(
    entries: Seq<OrderEntry>,
    id: Seq<char>,
    status: OrderStatus,
) -> Seq<OrderEntry> {
    let i = slot(entries, id);
    if i < entries.len() {
        entries.update(
            i,
            OrderEntry { id: entries[i].id, order: TrackedOrder { status, ..entries[i].order } },
        )
    } else {
        entries
    }
}

impl TrackerView {
    /// The tracker with another status for one order.
    pub open spec fn with_status(self, id: Seq<char>, status: OrderStatus) -> TrackerView {
        TrackerView { orders: status_set(self.orders, id, status), ..self }
    }

    /// The tracker without an order: its entry, its client's identifier and
    /// every memory of it are gone.
    pub open spec fn forget(self, id: Seq<char>) -> TrackerView {
        if known(self.orders, id) {
            TrackerView {
                orders: without(self.orders, id),
                clients: self.clients.remove(
                    self.orders[slot(self.orders, id)].order.client_order_id@,
                ),
                bid: if remembers(self.bid, id) {
                    None
                } else {
                    self.bid
                },
                ask: if remembers(self.ask, id) {
                    None
                } else {
                    self.ask
                },
            }
        } else {
            self
        }
    }

    /// The tracker without a number of orders.
    pub open spec fn forget_all(self, ids: Seq<Seq<char>>) -> TrackerView
        decreases ids.len(),
    {
        if ids.len() == 0 {
            self
        } else {
            self.forget_all(ids.drop_last()).forget(ids.last())
        }
    }
}

impl OrderTracker {
    /// No identifier occurs twice, and each order is kept under its own.
    pub open spec fn wf(&self) -> bool {
        distinct_ids(self.orders@) && own_ids(self.orders@)
    }

    /// Whether an order survives collection at `now`: it is not over, or it is
    /// younger than `max_age`.
    pub open spec fn kept(order: TrackedOrder, now: Timestamp, max_age: int) -> bool {
        order.finished() ==> now.since(order.created_at) < max_age
    }

    /// A tracker without orders.
    pub fn new() -> (r: OrderTracker)
        ensures
            r.wf(),
            r.orders@ == Seq::<OrderEntry>::empty(),
            r.client_id_map@ == Map::<Seq<char>, String>::empty(),
            r.cached_bid_id is None,
            r.cached_ask_id is None,
    {
        OrderTracker {
            orders: Vec::new(),
            client_id_map: StringHashMap::new(),
            cached_bid_id: None,
            cached_ask_id: None,
        }
    }

    fn find(&self, order_id: &str) -> (r: usize)
        ensures
            r == slot(self.orders@, order_id@),
            r <= self.orders@.len(),
            r < self.orders@.len() ==> self.orders@[r as int].id@ == order_id@,
    {
        let mut i: usize = 0;
        while i < self.orders.len() && !same_text(self.orders[i].id.as_str(), order_id)
            invariant
                i <= self.orders@.len(),
                forall|k: int| 0 <= k < i ==> (#[trigger] self.orders@[k]).id@ != order_id@,
            decreases self.orders@.len() - i,
        {
            i += 1;
        }
        proof {
            lemma_slot(self.orders@, order_id@, i as int);
        }
        i
    }

    /// Takes an order in, and remembers it where it is a live order to buy.
    pub fn track(&mut self, order: TrackedOrder)
        ensures
            old(self).wf() ==> final(self).wf(),
            final(self).orders@ == put(old(self).orders@, order),
            exists|k: int|
                0 <= k < final(self).orders@.len() && (#[trigger] final(self).orders@[k]).id@
                    == order.order_id@ && final(self).orders@[k].order == order,
            forall|k: int|
                0 <= k < old(self).orders@.len() && (#[trigger] old(self).orders@[k]).id@
                    != order.order_id@ ==> final(self).orders@[k] == old(self).orders@[k],
            old(self).orders@.len() <= final(self).orders@.len() <= old(self).orders@.len() + 1,
            final(self).client_id_map@ == old(self).client_id_map@.insert(
                order.client_order_id@,
                order.order_id,
            ),
            final(self).cached_bid_id == if order.buys("yes"@) && order.live() {
                Some(order.order_id)
            } else {
                old(self).cached_bid_id
            },
            final(self).cached_ask_id == if order.buys("no"@) && order.live() {
                Some(order.order_id)
            } else {
                old(self).cached_ask_id
            },
    {
        proof {
            lemma_sides_differ();
        }
        if order.is_buy_of("yes") && order.is_live() {
            self.cached_bid_id = Some(order.order_id.clone());
        } else if order.is_buy_of("no") && order.is_live() {
            self.cached_ask_id = Some(order.order_id.clone());
        }
        self.client_id_map.insert(order.client_order_id.clone(), order.order_id.clone());
        let i: usize = self.find(order.order_id.as_str());
        let ghost was = self.orders@;
        let ghost o = order;
        let ghost at = i as int;
        if i < self.orders.len() {
            self.orders[i].order = order;
            assert(self.orders@ =~= put(was, o));
        } else {
            proof {
                lemma_slot_meaning(was, order.order_id@);
            }
            self.orders.push(OrderEntry { id: order.order_id.clone(), order });
        }
        assert(self.orders@[at].id@ == o.order_id@ && self.orders@[at].order == o);
    }

    /// The order with an identifier.
    pub fn get(&self, order_id: &str) -> (r: Option<&TrackedOrder>)
        ensures
            match r {
                Some(o) => known(self.orders@, order_id@) && *o == self.orders@[slot(
                    self.orders@,
                    order_id@,
                )].order,
                None => !known(self.orders@, order_id@),
            },
            r is None ==> forall|k: int|
                0 <= k < self.orders@.len() ==> (#[trigger] self.orders@[k]).id@ != order_id@,
            r matches Some(o) ==> exists|k: int|
                0 <= k < self.orders@.len() && (#[trigger] self.orders@[k]).id@ == order_id@
                    && self.orders@[k].order == *o,
    {
        proof {
            lemma_slot_meaning(self.orders@, order_id@);
        }
        let i: usize = self.find(order_id);
        if i < self.orders.len() {
            Some(&self.orders[i].order)
        } else {
            None
        }
    }

    /// The order with an identifier, to be changed.
    pub fn get_mut(&mut self, order_id: &str) -> (r: Option<&mut TrackedOrder>)
        ensures
            match r {
                Some(o) => {
                    let i = slot(old(self).orders@, order_id@);
                    &&& known(old(self).orders@, order_id@)
                    &&& *o == old(self).orders@[i].order
                    &&& final(self).orders@ == old(self).orders@.update(
                        i,
                        OrderEntry { id: old(self).orders@[i].id, order: *final(o) },
                    )
                    &&& final(self).client_id_map == old(self).client_id_map
                    &&& final(self).cached_bid_id == old(self).cached_bid_id
                    &&& final(self).cached_ask_id == old(self).cached_ask_id
                },
                None => !known(old(self).orders@, order_id@) && *final(self) == *old(self),
            },
    {
        let i: usize = self.find(order_id);
        if i < self.orders.len() {
            Some(&mut self.orders[i].order)
        } else {
            None
        }
    }

    /// Gives an order another status, if it is there.
    pub fn update_status(&mut self, order_id: &str, status: OrderStatus)
        ensures
            final(self)@ == old(self)@.with_status(order_id@, status),
            old(self).wf() ==> final(self).wf(),
            final(self).orders@.len() == old(self).orders@.len(),
            forall|k: int|
                0 <= k < old(self).orders@.len() && (#[trigger] old(self).orders@[k]).id@
                    != order_id@ ==> final(self).orders@[k] == old(self).orders@[k],
            old(self).wf() ==> forall|k: int|
                0 <= k < old(self).orders@.len() && (#[trigger] old(self).orders@[k]).id@
                    == order_id@ ==> final(self).orders@[k].order == (TrackedOrder {
                    status,
                    ..old(self).orders@[k].order
                }),
    {
        proof {
            lemma_slot_meaning(self.orders@, order_id@);
        }
        let i: usize = self.find(order_id);
        if i < self.orders.len() {
            self.orders[i].order.status = status;
        }
    }

    /// Forgets an order, if it is there.
    pub fn remove(&mut self, order_id: &str)
        ensures
            final(self)@ == old(self)@.forget(order_id@),
            old(self).wf() ==> final(self).wf(),
            old(self).wf() ==> forall|e: OrderEntry|
                #[trigger] final(self).orders@.contains(e) <==> old(self).orders@.contains(e)
                    && e.id@ != order_id@,
            forall|k: int|
                0 <= k < old(self).orders@.len() && (#[trigger] old(self).orders@[k]).id@
                    == order_id@ ==> {
                    &&& old(self).cached_bid_id matches Some(c) ==> (c@ == order_id@ ==> final(self).cached_bid_id is None)
                    &&& old(self).cached_ask_id matches Some(c) ==> (c@ == order_id@ ==> final(self).cached_ask_id is None)
                },
            old(self).cached_bid_id matches Some(c) ==> (c@ != order_id@ ==> final(self).cached_bid_id == old(self).cached_bid_id),
            old(self).cached_ask_id matches Some(c) ==> (c@ != order_id@ ==> final(self).cached_ask_id == old(self).cached_ask_id),
            old(self).wf() ==> forall|k: int|
                0 <= k < old(self).orders@.len() && (#[trigger] old(self).orders@[k]).id@
                    == order_id@ ==> final(self).client_id_map@ == old(self).client_id_map@.remove(
                    old(self).orders@[k].order.client_order_id@,
                ),
    {
        proof {
            lemma_slot_meaning(self.orders@, order_id@);
            if old(self).wf() {
                lemma_without_keeps(self.orders@, order_id@);
            }
        }
        let i: usize = self.find(order_id);
        if i < self.orders.len() {
            let entry = self.orders.remove(i);
            self.client_id_map.remove(entry.order.client_order_id.as_str());
            if is_remembered(&self.cached_bid_id, order_id) {
                self.cached_bid_id = None;
            }
            if is_remembered(&self.cached_ask_id, order_id) {
                self.cached_ask_id = None;
            }
        }
    }

    fn find_resting(&self, cached: &Option<String>, ticker: &str, side: &str) -> (r: Option<
        &TrackedOrder,
    >)
        ensures
            match r {
                Some(o) => resting_order(self.orders@, *cached, ticker@, side@) == Some(*o),
                None => resting_order(self.orders@, *cached, ticker@, side@) is None,
            },
    {
        if let Some(id) = cached {
            if let Some(o) = self.get(id.as_str()) {
                if same_text(o.ticker.as_str(), ticker) && o.is_buy_of(side) && o.is_working() {
                    return Some(o);
                }
            }
        }
        let mut i: usize = 0;
        assert(self.orders@.subrange(0, self.orders@.len() as int) =~= self.orders@);
        while i < self.orders.len()
            invariant
                i <= self.orders@.len(),
                first_resting(
                    self.orders@.subrange(i as int, self.orders@.len() as int),
                    ticker@,
                    side@,
                ) == resting_order(self.orders@, *cached, ticker@, side@),
            decreases self.orders@.len() - i,
        {
            let ghost rest = self.orders@.subrange(i as int, self.orders@.len() as int);
            assert(rest.subrange(1, rest.len() as int) =~= self.orders@.subrange(
                i + 1,
                self.orders@.len() as int,
            ));
            let o = &self.orders[i].order;
            if same_text(o.ticker.as_str(), ticker) && o.is_buy_of(side) && o.is_working() {
                return Some(o);
            }
            i += 1;
        }
        None
    }

    /// The order that bids for yes: the remembered one where it is at work, else any.
    pub fn resting_bid(&self, ticker: &str) -> (r: Option<&TrackedOrder>)
        ensures
            match r {
                Some(o) => resting_order(self.orders@, self.cached_bid_id, ticker@, "yes"@)
                    == Some(*o),
                None => resting_order(self.orders@, self.cached_bid_id, ticker@, "yes"@) is None,
            },
            r matches Some(o) ==> o.ticker@ == ticker@ && o.side@ == "yes"@ && o.action@ == "buy"@
                && (o.status == OrderStatus::Resting || o.status == OrderStatus::PendingNew
                || o.status == OrderStatus::PendingAmend),
            r is None ==> forall|k: int|
                0 <= k < self.orders@.len() ==> !({
                    let o = (#[trigger] self.orders@[k]).order;
                    &&& o.ticker@ == ticker@ && o.side@ == "yes"@ && o.action@ == "buy"@
                    &&& o.status == OrderStatus::Resting || o.status == OrderStatus::PendingNew
                        || o.status == OrderStatus::PendingAmend
                }),
    {
        proof {
            law_resting_order(self.orders@, self.cached_bid_id, ticker@, "yes"@);
        }
        self.find_resting(&self.cached_bid_id, ticker, "yes")
    }

    /// The order that bids for no: the remembered one where it is at work, else any.
    pub fn resting_ask(&self, ticker: &str) -> (r: Option<&TrackedOrder>)
        ensures
            match r {
                Some(o) => resting_order(self.orders@, self.cached_ask_id, ticker@, "no"@)
                    == Some(*o),
                None => resting_order(self.orders@, self.cached_ask_id, ticker@, "no"@) is None,
            },
            r matches Some(o) ==> o.ticker@ == ticker@ && o.side@ == "no"@ && o.action@ == "buy"@
                && (o.status == OrderStatus::Resting || o.status == OrderStatus::PendingNew
                || o.status == OrderStatus::PendingAmend),
            r is None ==> forall|k: int|
                0 <= k < self.orders@.len() ==> !({
                    let o = (#[trigger] self.orders@[k]).order;
                    &&& o.ticker@ == ticker@ && o.side@ == "no"@ && o.action@ == "buy"@
                    &&& o.status == OrderStatus::Resting || o.status == OrderStatus::PendingNew
                        || o.status == OrderStatus::PendingAmend
                }),
    {
        proof {
            law_resting_order(self.orders@, self.cached_ask_id, ticker@, "no"@);
        }
        self.find_resting(&self.cached_ask_id, ticker, "no")
    }

    /// The identifiers of the orders at work in a market.
    pub open spec fn working_ids(&self, ticker: Seq<char>) -> Seq<Seq<char>> {
        self.orders@.filter(
            |e: OrderEntry| works_in(e.order, ticker),
        ).map_values(|e: OrderEntry| e.order.order_id@)
    }

    /// The identifiers of the orders at work in a market.
    pub fn resting_order_ids(&self, ticker: &str) -> (r: Vec<String>)
        ensures
            texts(r@) == self.working_ids(ticker@),
            forall|id: Seq<char>| #[trigger]
                texts(r@).contains(id) <==> exists|k: int|
                    0 <= k < self.orders@.len() && (#[trigger] self.orders@[k]).order.order_id@
                        == id && self.orders@[k].order.ticker@ == ticker@ && (
                    self.orders@[k].order.status == OrderStatus::Resting
                        || self.orders@[k].order.status == OrderStatus::PendingNew
                        || self.orders@[k].order.status == OrderStatus::PendingAmend),
    {
        let mut out: Vec<String> = Vec::new();
        let mut i: usize = 0;
        let ghost p = |e: OrderEntry| works_in(e.order, ticker@);
        let ghost f = |e: OrderEntry| e.order.order_id@;
        proof {
            lemma_filter_ends(self.orders@, p);
            assert(texts(out@) =~= seq![]);
            assert(self.orders@.take(0).filter(p).map_values(f) =~= seq![]);
        }
        while i < self.orders.len()
            invariant
                i <= self.orders@.len(),
                p == |e: OrderEntry| works_in(e.order, ticker@),
                f == |e: OrderEntry| e.order.order_id@,
                texts(out@) == self.orders@.take(i as int).filter(p).map_values(f),
            decreases self.orders@.len() - i,
        {
            proof {
                lemma_filter_step(self.orders@, i as int, p);
            }
            let ghost before = out@;
            let o = &self.orders[i].order;
            if same_text(o.ticker.as_str(), ticker) && o.is_working() {
                out.push(o.order_id.clone());
                assert(texts(out@) =~= texts(before).push(o.order_id@));
                assert(self.orders@.take(i as int).filter(p).push(self.orders@[i as int]).map_values(
                    f,
                ) =~= self.orders@.take(i as int).filter(p).map_values(f).push(o.order_id@));
            }
            i += 1;
        }
        proof {
            lemma_filter_ends(self.orders@, p);
            lemma_working_ids(self, ticker@);
            assert(texts(out@) == self.working_ids(ticker@));
            assert forall|k: int| 0 <= k < self.orders@.len() implies works_in(
                (#[trigger] self.orders@[k]).order,
                ticker@,
            ) == (self.orders@[k].order.ticker@ == ticker@ && (self.orders@[k].order.status
                == OrderStatus::Resting || self.orders@[k].order.status == OrderStatus::PendingNew
                || self.orders@[k].order.status == OrderStatus::PendingAmend)) by {}
        }
        out
    }

    /// Drops the orders that have been over for long.
    pub fn gc(&mut self, max_age: u64, now: Timestamp)
        ensures
            old(self).wf() ==> final(self).wf(),
            final(self).orders@ == old(self).orders@.filter(
                |e: OrderEntry| Self::kept(e.order, now, max_age as int),
            ),
            final(self).client_id_map == old(self).client_id_map,
            final(self).cached_bid_id == old(self).cached_bid_id,
            final(self).cached_ask_id == old(self).cached_ask_id,
            forall|e: OrderEntry| #[trigger]
                final(self).orders@.contains(e) <==> old(self).orders@.contains(e) && !((
                e.order.status == OrderStatus::Executed || e.order.status == OrderStatus::Canceled)
                    && now.since(e.order.created_at) >= max_age),
    {
        let ghost p = |e: OrderEntry| Self::kept(e.order, now, max_age as int);
        let ghost all = self.orders@;
        let ghost mut seen: int = 0;
        let mut i: usize = 0;
        proof {
            lemma_filter_ends(all, p);
            assert(all.take(0).filter(p) + all.skip(0) =~= all);
        }
        while i < self.orders.len()
            invariant
                p == |e: OrderEntry| Self::kept(e.order, now, max_age as int),
                all == old(self).orders@,
                0 <= seen <= all.len(),
                i == all.take(seen).filter(p).len(),
                self.orders@ == all.take(seen).filter(p) + all.skip(seen),
                self.client_id_map == old(self).client_id_map,
                self.cached_bid_id == old(self).cached_bid_id,
                self.cached_ask_id == old(self).cached_ask_id,
            decreases all.len() - seen,
        {
            let ghost done = all.take(seen).filter(p);
            proof {
                lemma_filter_step(all, seen, p);
                assert(self.orders@[i as int] == all[seen]);
                assert(all.skip(seen) =~= seq![all[seen]] + all.skip(seen + 1));
            }
            let o = &self.orders[i].order;
            if o.is_finished() && now.duration_since(o.created_at) >= max_age {
                let _ = self.orders.remove(i);
                assert(self.orders@ =~= done + all.skip(seen + 1));
            } else {
                assert(self.orders@ =~= done.push(all[seen]) + all.skip(seen + 1));
                i += 1;
            }
            proof {
                seen = seen + 1;
            }
        }
        proof {
            assert(seen == all.len());
            lemma_filter_ends(all, p);
            assert(self.orders@ =~= all.filter(p));
            assert forall|e: OrderEntry| #[trigger]
                all.filter(p).contains(e) <==> all.contains(e) && p(e) by {
                if all.filter(p).contains(e) {
                    all.lemma_filter_pred(p, all.filter(p).index_of(e));
                    all.lemma_filter_contains_rev(p, e);
                }
                if all.contains(e) && p(e) {
                    all.lemma_filter_contains(p, all.index_of(e));
                }
            }
            if old(self).wf() {
                lemma_filter_distinct(all, p);
            }
        }
    }
}

pub proof fn lemma_working_ids(tracker: &OrderTracker, ticker: Seq<char>)
    ensures
        forall|id: Seq<char>| #[trigger]
            tracker.working_ids(ticker).contains(id) <==> exists|k: int|
                0 <= k < tracker.orders@.len() && (#[trigger] tracker.orders@[k]).order.order_id@
                    == id && works_in(tracker.orders@[k].order, ticker),
{
    let all = tracker.orders@;
    let p = |e: OrderEntry| works_in(e.order, ticker);
    let f = |e: OrderEntry| e.order.order_id@;
    assert(tracker.working_ids(ticker) == all.filter(p).map_values(f));
    assert forall|id: Seq<char>| #[trigger]
        tracker.working_ids(ticker).contains(id) <==> exists|k: int|
            0 <= k < all.len() && (#[trigger] all[k]).order.order_id@ == id && works_in(
                all[k].order,
                ticker,
            ) by {
        if tracker.working_ids(ticker).contains(id) {
            let j = tracker.working_ids(ticker).index_of(id);
            all.lemma_filter_pred(p, j);
            all.lemma_filter_contains_rev(p, all.filter(p)[j]);
            let k = all.index_of(all.filter(p)[j]);
            assert(all[k].order.order_id@ == id);
        }
        if exists|k: int|
            0 <= k < all.len() && (#[trigger] all[k]).order.order_id@ == id && works_in(
                all[k].order,
                ticker,
            ) {
            let k = choose|k: int|
                0 <= k < all.len() && (#[trigger] all[k]).order.order_id@ == id && works_in(
                    all[k].order,
                    ticker,
                );
            all.lemma_filter_contains(p, k);
            let j = all.filter(p).index_of(all[k]);
            assert(all.filter(p).map_values(f)[j] == id);
        }
    }
}

fn is_remembered(cached: &Option<String>, id: &str) -> (r: bool)
    ensures
        r == remembers(*cached, id@),
{
    match cached {
        Some(c) => same_text(c.as_str(), id),
        None => false,
    }
}

proof fn lemma_filter_distinct(entries: Seq<OrderEntry>, p: spec_fn(OrderEntry) -> bool)
    requires
        distinct_ids(entries),
    ensures
        distinct_ids(entries.filter(p)),
        forall|k: int|
            0 <= k < entries.filter(p).len() ==> exists|j: int|
                0 <= j < entries.len() && #[trigger] entries[j] == (#[trigger] entries.filter(
                    p,
                )[k]),
    decreases entries.len(),
{
    reveal(Seq::filter);
    if entries.len() > 0 {
        let t = entries.drop_last();
        lemma_filter_distinct(t, p);
        let f = entries.filter(p);
        assert forall|k: int| 0 <= k < f.len() implies exists|j: int|
            0 <= j < entries.len() && #[trigger] entries[j] == (#[trigger] f[k]) by {
            if k < t.filter(p).len() {
                let j = choose|j: int|
                    0 <= j < t.len() && #[trigger] t[j] == (#[trigger] t.filter(p)[k]);
                assert(entries[j] == f[k]);
            } else {
                assert(entries[entries.len() - 1] == f[k]);
            }
        }
        assert forall|a: int, b: int| 0 <= a < b < f.len() implies (#[trigger] f[a]).id@ != (
        #[trigger] f[b]).id@ by {
            if b == t.filter(p).len() {
                let j = choose|j: int|
                    0 <= j < t.len() && #[trigger] t[j] == (#[trigger] t.filter(p)[a]);
                assert(entries[j] == f[a]);
                assert(entries[entries.len() - 1] == f[b]);
            }
        }
    }
}

/// What the status of an order says: it is live while it rests or is on its way,
/// at work while it is live or being amended, and over once it is executed or
/// cancelled.
pub proof fn law_status_meaning(order: TrackedOrder, side: Seq<char>)
    ensures
        match order.status {
            OrderStatus::Resting | OrderStatus::PendingNew => order.live() && order.working()
                && !order.finished(),
            OrderStatus::PendingAmend => !order.live() && order.working() && !order.finished(),
            OrderStatus::PendingCancel => !order.live() && !order.working() && !order.finished(),
            OrderStatus::Executed | OrderStatus::Canceled => !order.live() && !order.working()
                && order.finished(),
        },
        order.buys(side) <==> order.side@ == side && order.action@ == "buy"@,
{
}

/// Taking an order in binds its identifier to it and to nothing else.
pub proof fn law_put_binds(entries: Seq<OrderEntry>, order: TrackedOrder)
    requires
        distinct_ids(entries),
    ensures
        distinct_ids(put(entries, order)),
        by_id(put(entries, order)) == by_id(entries).insert(order.order_id@, order),
{
    let after = put(entries, order);
    let id = order.order_id@;
    let at = slot(entries, id);
    lemma_slot_meaning(entries, id);
    assert forall|other: Seq<char>|
        known(after, other) == (other == id || known(entries, other)) && (other == id ==> after[slot(
            after,
            other,
        )].order == order) && (other != id && known(entries, other) ==> after[slot(
            after,
            other,
        )].order == entries[slot(entries, other)].order) by {
        lemma_slot_meaning(entries, other);
        if other == id {
            lemma_slot(after, id, at);
        } else if known(entries, other) {
            lemma_slot(after, other, slot(entries, other));
        } else {
            lemma_slot(after, other, after.len() as int);
        }
    }
    assert(by_id(after) =~= by_id(entries).insert(id, order));
}

/// Forgetting an order unbinds its identifier and nothing else.
pub proof fn law_without_unbinds(entries: Seq<OrderEntry>, id: Seq<char>)
    requires
        distinct_ids(entries),
    ensures
        distinct_ids(without(entries, id)),
        by_id(without(entries, id)) == by_id(entries).remove(id),
{
    let after = without(entries, id);
    let at = slot(entries, id);
    lemma_slot_meaning(entries, id);
    assert forall|other: Seq<char>|
        known(after, other) == (other != id && known(entries, other)) && (other != id && known(
            entries,
            other,
        ) ==> after[slot(after, other)].order == entries[slot(entries, other)].order) by {
        lemma_slot_meaning(entries, other);
        let was = slot(entries, other);
        if other == id {
            assert forall|k: int| 0 <= k < after.len() implies (#[trigger] after[k]).id@ != id by {
                if known(entries, id) {
                    if k < at {
                        assert(after[k] == entries[k]);
                    } else {
                        assert(after[k] == entries[k + 1]);
                    }
                }
            }
            lemma_slot(after, id, after.len() as int);
        } else if known(entries, other) {
            let to = if at < was {
                was - 1
            } else {
                was
            };
            assert(after[to] == entries[was]);
            lemma_slot(after, other, to);
        } else {
            lemma_slot(after, other, after.len() as int);
        }
    }
    assert(by_id(after) =~= by_id(entries).remove(id));
}

pub proof fn lemma_without_keeps(entries: Seq<OrderEntry>, id: Seq<char>)
    requires
        distinct_ids(entries),
    ensures
        forall|e: OrderEntry| #[trigger]
            without(entries, id).contains(e) <==> entries.contains(e) && e.id@ != id,
{
    let after = without(entries, id);
    let at = slot(entries, id);
    lemma_slot_meaning(entries, id);
    assert forall|e: OrderEntry| #[trigger]
        after.contains(e) <==> entries.contains(e) && e.id@ != id by {
        if after.contains(e) {
            let k = after.index_of(e);
            let j = if known(entries, id) && k >= at {
                k + 1
            } else {
                k
            };
            assert(entries[j] == e);
        }
        if entries.contains(e) && e.id@ != id {
            let j = entries.index_of(e);
            let k = if known(entries, id) && j > at {
                j - 1
            } else {
                j
            };
            assert(after[k] == e);
        }
    }
}

/// An order that was just taken in is the one that its identifier finds, and
/// once it is forgotten its identifier finds nothing.
pub proof fn law_put_then_without(entries: Seq<OrderEntry>, order: TrackedOrder)
    requires
        distinct_ids(entries),
    ensures
        known(put(entries, order), order.order_id@),
        put(entries, order)[slot(put(entries, order), order.order_id@)].order == order,
        !known(without(put(entries, order), order.order_id@), order.order_id@),
{
    law_put_binds(entries, order);
    law_without_unbinds(put(entries, order), order.order_id@);
    let m = by_id(put(entries, order));
    assert(m.dom().contains(order.order_id@));
    assert(m[order.order_id@] == order);
    assert(!by_id(without(put(entries, order), order.order_id@)).dom().contains(order.order_id@));
}

/// Whatever order a resting side is looked up for, the one that is found is
/// of that market and side and at work; and where one exists, one is found.
pub proof fn law_resting_order(
    entries: Seq<OrderEntry>,
    cached: Option<String>,
    ticker: Seq<char>,
    side: Seq<char>,
)
    ensures
        match resting_order(entries, cached, ticker, side) {
            Some(o) => rests_on(o, ticker, side),
            None => forall|i: int|
                0 <= i < entries.len() ==> !rests_on((#[trigger] entries[i]).order, ticker, side),
        },
{
    lemma_first_resting(entries, ticker, side);
}

proof fn lemma_first_resting(entries: Seq<OrderEntry>, ticker: Seq<char>, side: Seq<char>)
    ensures
        match first_resting(entries, ticker, side) {
            Some(o) => rests_on(o, ticker, side),
            None => forall|i: int|
                0 <= i < entries.len() ==> !rests_on((#[trigger] entries[i]).order, ticker, side),
        },
    decreases entries.len(),
{
    if entries.len() > 0 && !rests_on(entries[0].order, ticker, side) {
        let t = entries.subrange(1, entries.len() as int);
        lemma_first_resting(t, ticker, side);
        if first_resting(t, ticker, side) is None {
            assert forall|i: int| 0 <= i < entries.len() implies !rests_on(
                (#[trigger] entries[i]).order,
                ticker,
                side,
            ) by {
                if i > 0 {
                    assert(t[i - 1] == entries[i]);
                }
            }
        }
    }
}

/// Collection never drops an order that is not over.
pub proof fn law_collection_spares_open_orders(
    entries: Seq<OrderEntry>,
    i: int,
    now: Timestamp,
    max_age: int,
)
    requires
        0 <= i < entries.len(),
        !entries[i].order.finished(),
    ensures
        entries.filter(|e: OrderEntry| OrderTracker::kept(e.order, now, max_age)).contains(
            entries[i],
        ),
{
    let p = |e: OrderEntry| OrderTracker::kept(e.order, now, max_age);
    assert(p(entries[i]));
    entries.lemma_filter_contains(p, i);
}

/// A remembered order of the side that is at work is the one that is found.
pub proof fn law_remembered_found(
    entries: Seq<OrderEntry>,
    id: String,
    k: int,
    ticker: Seq<char>,
    side: Seq<char>,
)
    requires
        distinct_ids(entries),
        0 <= k < entries.len(),
        entries[k].id@ == id@,
        ({
            let o = entries[k].order;
            &&& o.ticker@ == ticker && o.side@ == side && o.action@ == "buy"@
            &&& o.status == OrderStatus::Resting || o.status == OrderStatus::PendingNew || o.status
                == OrderStatus::PendingAmend
        }),
    ensures
        resting_order(entries, Some(id), ticker, side) == Some(entries[k].order),
{
    lemma_slot_meaning(entries, id@);
    let i = slot(entries, id@);
    if i < k {
        assert(entries[i].id@ != entries[k].id@);
    }
}

/// Without a remembered order the one found is the first of the side at work.
pub proof fn law_first_found(
    entries: Seq<OrderEntry>,
    e: OrderEntry,
    ticker: Seq<char>,
    side: Seq<char>,
)
    ensures
        ({
            let o = e.order;
            let found = resting_order(seq![e] + entries, None, ticker, side);
            if o.ticker@ == ticker && o.side@ == side && o.action@ == "buy"@ && (o.status
                == OrderStatus::Resting || o.status == OrderStatus::PendingNew || o.status
                == OrderStatus::PendingAmend) {
                found == Some(o)
            } else {
                found == resting_order(entries, None, ticker, side)
            }
        }),
        resting_order(Seq::empty(), None, ticker, side) is None,
{
    let all = seq![e] + entries;
    assert(all[0] == e);
    assert(all.subrange(1, all.len() as int) =~= entries);
}

/// An order is dropped exactly where it is executed or cancelled and old enough.
pub proof fn law_kept(order: TrackedOrder, now: Timestamp, max_age: int)
    ensures
        OrderTracker::kept(order, now, max_age) <==> !((order.status == OrderStatus::Executed
            || order.status == OrderStatus::Canceled) && now.since(order.created_at) >= max_age),
{
}

/// Forgetting some orders forgets them and spares the others.
pub proof fn law_forgetting(v: TrackerView, ids: Seq<Seq<char>>, e: OrderEntry)
    requires
        distinct_ids(v.orders),
    ensures
        distinct_ids(v.forget_all(ids).orders),
        v.forget_all(ids).orders.contains(e) <==> v.orders.contains(e) && !ids.contains(e.id@),
    decreases ids.len(),
{
    if ids.len() > 0 {
        let t = ids.drop_last();
        let u = v.forget_all(t);
        law_forgetting(v, t, e);
        law_without_unbinds(u.orders, ids.last());
        lemma_without_keeps(u.orders, ids.last());
        lemma_slot_meaning(u.orders, ids.last());
        assert(without(u.orders, ids.last()).contains(e) <==> u.orders.contains(e) && e.id@
            != ids.last());
        assert(ids.contains(e.id@) <==> t.contains(e.id@) || e.id@ == ids.last()) by {
            if ids.contains(e.id@) {
                let k = ids.index_of(e.id@);
                assert(k < t.len() ==> t[k] == e.id@);
            }
            if t.contains(e.id@) {
                assert(ids[t.index_of(e.id@)] == e.id@);
            }
            if e.id@ == ids.last() {
                assert(ids[ids.len() - 1] == e.id@);
            }
        }
    }
}

} // verus!
