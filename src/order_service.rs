//! The order service: the use cases (create, cancel, query, list, clear) over
//! one order store, reporting outcomes as values rather than printing them.
use crate::order::{order_text, CancelOutcome, Order, OrderModel, OrderStatus};
use crate::order_repository::{lists_all, OrderRepository};
use vstd::prelude::*;

verus! {

/// What `OrderService::cancel_order` reports.
#[derive(Clone, Copy, Debug, PartialEq, Eq, Structural)]
pub enum CancelNotice {
    /// The order went from `Created` to `Canceled`.
    Canceled,
    /// The order was already canceled; nothing changed.
    AlreadyCanceled,
    /// No order has that id; nothing changed.
    NotFound,
}

/// The store after `create_order(id, customer_name, amount)`: a new order
/// under `id`, replacing whatever was there.
pub open spec fn store_after_create(
    m: Map<u32, OrderModel>,
    id: u32,
    customer_name: Seq<char>,
    amount: i64,
) -> Map<u32, OrderModel> {
    m.insert(id, OrderModel::created(id, customer_name, amount))
}

/// The store after `cancel_order(id)`.
pub open spec fn store_after_cancel(m: Map<u32, OrderModel>, id: u32) -> Map<u32, OrderModel> {
    if m.contains_key(id) {
        m.insert(id, m[id].canceled())
    } else {
        m
    }
}

/// What `cancel_order(id)` reports on the store `m`.
pub open spec fn cancel_notice(m: Map<u32, OrderModel>, id: u32) -> CancelNotice {
    if !m.contains_key(id) {
        CancelNotice::NotFound
    } else if m[id].status == OrderStatus::Created {
        CancelNotice::Canceled
    } else {
        CancelNotice::AlreadyCanceled
    }
}

/// What `query_order(id)` returns on the store `m`: the rendered order, or
/// nothing when no order has that id.
pub open spec fn query_text(m: Map<u32, OrderModel>, id: u32) -> Option<Seq<char>> {
    if m.contains_key(id) {
        Some(order_text(m[id]))
    } else {
        None
    }
}

/// `r` renders every order of `m` once, in some order.
pub open spec fn history_text(m: Map<u32, OrderModel>, r: Seq<Seq<char>>) -> bool {
    exists|s: Seq<OrderModel>|
        #![trigger lists_all(m, s)]
        lists_all(m, s) && r.len() == s.len() && forall|i: int|
            0 <= i < r.len() ==> #[trigger] r[i] == order_text(s[i])
}

/// The store after creating each entry `(id, customer_name, amount)` in turn.
pub open spec fn store_after_creates(
    m: Map<u32, OrderModel>,
    entries: Seq<(u32, Seq<char>, i64)>,
) -> Map<u32, OrderModel>
    decreases entries.len(),
{
    if entries.len() == 0 {
        m
    } else {
        let e = entries.last();
        store_after_create(store_after_creates(m, entries.drop_last()), e.0, e.1, e.2)
    }
}

/// The ids of the entries are pairwise distinct.
pub open spec fn distinct_ids(entries: Seq<(u32, Seq<char>, i64)>) -> bool {
    forall|i: int, j: int|
        0 <= i < j < entries.len() ==> #[trigger] entries[i].0 != #[trigger] entries[j].0
}

/// Creating an order and then querying its id finds exactly that order: status
/// `Created` and the given fields.
pub proof fn lemma_create_then_query(
    m: Map<u32, OrderModel>,
    id: u32,
    customer_name: Seq<char>,
    amount: i64,
)
    ensures
        ({
            let after = store_after_create(m, id, customer_name, amount);
            let expected = OrderModel {
                id,
                customer_name,
                amount,
                status: OrderStatus::Created,
            };
            &&& after.contains_key(id)
            &&& after[id] == expected
            &&& query_text(after, id) == Some(order_text(expected))
        }),
{
}

/// Canceling an existing order twice in a row leaves it `Canceled`; the second
/// cancellation changes nothing and reports that the order was already canceled.
pub proof fn lemma_cancel_twice(m: Map<u32, OrderModel>, id: u32)
    requires
        m.contains_key(id),
    ensures
        ({
            let once = store_after_cancel(m, id);
            let twice = store_after_cancel(once, id);
            &&& twice == once
            &&& twice[id].status == OrderStatus::Canceled
            &&& cancel_notice(once, id) == CancelNotice::AlreadyCanceled
        }),
{
    let once = store_after_cancel(m, id);
    assert(once[id].canceled() == once[id]);
    assert(store_after_cancel(once, id) =~= once);
}

/// Canceling or querying an id that has no order reports not-found and leaves
/// the store unchanged.
pub proof fn lemma_unknown_id(m: Map<u32, OrderModel>, id: u32)
    requires
        !m.contains_key(id),
    ensures
        store_after_cancel(m, id) == m,
        cancel_notice(m, id) == CancelNotice::NotFound,
        query_text(m, id) is None,
{
}

/// The history of an empty store (a new one, or one just cleared) is empty.
pub proof fn lemma_empty_history(r: Seq<Seq<char>>)
    requires
        history_text(Map::<u32, OrderModel>::empty(), r),
    ensures
        r.len() == 0,
{
}

/// The ids of the store after creating distinct entries on an empty store are
/// exactly the entries' ids.
proof fn lemma_creates_domain(entries: Seq<(u32, Seq<char>, i64)>)
    requires
        distinct_ids(entries),
    ensures
        ({
            let d = store_after_creates(Map::<u32, OrderModel>::empty(), entries).dom();
            &&& d.finite()
            &&& d.len() == entries.len()
            &&& forall|k: u32| #[trigger] d.contains(k) <==> exists|i: int|
                0 <= i < entries.len() && #[trigger] entries[i].0 == k
        }),
    decreases entries.len(),
{
    let empty = Map::<u32, OrderModel>::empty();
    if entries.len() == 0 {
        assert(store_after_creates(empty, entries).dom() =~= Set::<u32>::empty());
    } else {
        let prefix = entries.drop_last();
        let e = entries.last();
        assert forall|i: int, j: int| 0 <= i < j < prefix.len() implies #[trigger] prefix[i].0
            != #[trigger] prefix[j].0 by {
            assert(prefix[i] == entries[i] && prefix[j] == entries[j]);
        }
        lemma_creates_domain(prefix);
        let before = store_after_creates(empty, prefix).dom();
        let d = store_after_creates(empty, entries).dom();
        assert(d =~= before.insert(e.0));
        assert(!before.contains(e.0)) by {
            if before.contains(e.0) {
                let i = choose|i: int| 0 <= i < prefix.len() && #[trigger] prefix[i].0 == e.0;
                assert(entries[i].0 == entries[entries.len() - 1].0);
            }
        }
        assert forall|k: u32| #[trigger] d.contains(k) <==> exists|i: int|
            0 <= i < entries.len() && #[trigger] entries[i].0 == k by {
            if d.contains(k) && k != e.0 {
                let i = choose|i: int| 0 <= i < prefix.len() && #[trigger] prefix[i].0 == k;
                assert(entries[i].0 == k);
            }
            if k == e.0 {
                assert(entries[entries.len() - 1].0 == k);
            }
            if exists|i: int| 0 <= i < entries.len() && #[trigger] entries[i].0 == k {
                let i = choose|i: int| 0 <= i < entries.len() && #[trigger] entries[i].0 == k;
                if i < entries.len() - 1 {
                    assert(prefix[i].0 == k);
                }
            }
        }
    }
}

/// After creating N orders with distinct ids on an empty store, listing the
/// store gives exactly N orders, no two with the same id, one for each entry.
pub proof fn lemma_history_after_distinct_creates(
    entries: Seq<(u32, Seq<char>, i64)>,
    s: Seq<OrderModel>,
)
    requires
        distinct_ids(entries),
        lists_all(store_after_creates(Map::<u32, OrderModel>::empty(), entries), s),
    ensures
        s.len() == entries.len(),
        forall|i: int, j: int| 0 <= i < j < s.len() ==> #[trigger] s[i].id != #[trigger] s[j].id,
        forall|k: int|
            0 <= k < entries.len() ==> exists|i: int|
                0 <= i < s.len() && #[trigger] s[i].id == #[trigger] entries[k].0,
{
    lemma_creates_domain(entries);
    let m = store_after_creates(Map::<u32, OrderModel>::empty(), entries);
    assert forall|k: int| 0 <= k < entries.len() implies exists|i: int|
        0 <= i < s.len() && #[trigger] s[i].id == #[trigger] entries[k].0 by {
        assert(m.dom().contains(entries[k].0));
        assert(m.contains_key(entries[k].0));
    }
}

/// Creating twice under one id keeps a single entry for it, which holds the
/// fields of the second creation only.
pub proof fn lemma_create_overwrites(
    m: Map<u32, OrderModel>,
    id: u32,
    first_name: Seq<char>,
    first_amount: i64,
    customer_name: Seq<char>,
    amount: i64,
)
    ensures
        ({
            let once = store_after_create(m, id, first_name, first_amount);
            let twice = store_after_create(once, id, customer_name, amount);
            &&& twice == store_after_create(m, id, customer_name, amount)
            &&& twice.dom() == once.dom()
            &&& twice[id] == OrderModel::created(id, customer_name, amount)
        }),
{
    let once = store_after_create(m, id, first_name, first_amount);
    let twice = store_after_create(once, id, customer_name, amount);
    assert(twice =~= store_after_create(m, id, customer_name, amount));
    assert(twice.dom() =~= once.dom());
}

/// Orchestrates the order entity and the order store.
pub struct OrderService {
    order_repository: OrderRepository,
}

impl View for OrderService {
    type V = Map<u32, OrderModel>;

    closed spec fn view(&self) -> Map<u32, OrderModel> {
        self.order_repository@
    }
}

impl OrderService {
    /// Well-formedness of the underlying store.
    pub closed spec fn wf(&self) -> bool {
        self.order_repository.wf()
    }

    /// A service over an empty store.
    pub fn new() -> (r: OrderService)
        ensures
            r.wf(),
            r@ == Map::<u32, OrderModel>::empty(),
    {
        OrderService { order_repository: OrderRepository::new() }
    }

    /// Creates an order with status `Created` and saves it, replacing any order
    /// with the same id.
    pub fn create_order(&mut self, id: u32, customer_name: String, amount: i64)
        requires
            old(self).wf(),
        ensures
            final(self).wf(),
            final(self)@ == store_after_create(old(self)@, id, customer_name@, amount),
    {
        let order = Order::new(id, customer_name, amount);
        self.order_repository.save(order);
    }

    /// Cancels the order with this id: a copy of the stored order is canceled
    /// and written back. An unknown id, or an order already canceled, leaves
    /// the store as it was.
    pub fn cancel_order(&mut self, id: u32) -> (r: CancelNotice)
        requires
            old(self).wf(),
        ensures
            final(self).wf(),
            final(self)@ == store_after_cancel(old(self)@, id),
            r == cancel_notice(old(self)@, id),
    {
        let found = self.order_repository.find_by_id(id);
        match found {
            Some(stored) => {
                let mut order = stored.clone();
                let outcome = order.cancel();
                self.order_repository.save(order);
                match outcome {
                    CancelOutcome::Canceled => CancelNotice::Canceled,
                    CancelOutcome::AlreadyCanceled => {
                        assert(old(self)@[id].canceled() == old(self)@[id]);
                        CancelNotice::AlreadyCanceled
                    },
                }
            },
            None => CancelNotice::NotFound,
        }
    }

    /// The rendered order with this id, or `None` when there is none.
    pub fn query_order(&self, id: u32) -> (r: Option<String>)
        requires
            self.wf(),
        ensures
            match r {
                Some(t) => query_text(self@, id) == Some(t@),
                None => query_text(self@, id) is None,
            },
    {
        match self.order_repository.find_by_id(id) {
            Some(order) => Some(order.display()),
            None => None,
        }
    }

    /// Every stored order, rendered, each once; empty when there is no order.
    pub fn view_order_history(&self) -> (r: Vec<String>)
        requires
            self.wf(),
        ensures
            history_text(self@, r@.map_values(|t: String| t@)),
    {
        let orders = self.order_repository.find_all();
        let mut out: Vec<String> = Vec::new();
        for i in 0..orders.len()
            invariant
                out@.len() == i,
                forall|j: int| 0 <= j < i ==> #[trigger] out@[j]@ == order_text(orders@[j]@),
        {
            out.push(orders[i].display());
        }
        proof {
            let s = orders@.map_values(|o: &Order| o@);
            let r = out@.map_values(|t: String| t@);
            assert(forall|j: int| 0 <= j < r.len() ==> #[trigger] r[j] == order_text(s[j]));
            assert(lists_all(self@, s));
        }
        out
    }

    /// Removes every order; the service stays usable.
    pub fn clear_orders(&mut self)
        requires
            old(self).wf(),
        ensures
            final(self).wf(),
            final(self)@ == Map::<u32, OrderModel>::empty(),
    {
        self.order_repository.clear();
    }
}

} // verus!
