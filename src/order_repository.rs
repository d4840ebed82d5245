//! The order store: an in-memory map from order id to order.
use crate::order::{Order, OrderModel};
use std::collections::HashMap;
use vstd::std_specs::hash::spec_keys_iter;
use vstd::std_specs::iter::IteratorSpec;
use vstd::prelude::*;

verus! {

broadcast use vstd::std_specs::hash::group_hash_axioms;

/// `s` lists the orders of the store `m`: each stored order exactly once, in
/// some order.
pub open spec fn lists_all(m: Map<u32, OrderModel>, s: Seq<OrderModel>) -> bool {
    &&& s.len() == m.dom().len()
    &&& forall|i: int| 0 <= i < s.len() ==> #[trigger] m.contains_key(s[i].id) && m[s[i].id] == s[i]
    &&& forall|i: int, j: int| 0 <= i < j < s.len() ==> #[trigger] s[i].id != #[trigger] s[j].id
    &&& forall|k: u32| #[trigger] m.contains_key(k) ==> exists|i: int| 0 <= i < s.len() && #[trigger] s[i].id == k
}

/// In-memory store of orders keyed by id.
pub struct OrderRepository {
    orders: HashMap<u32, Order>,
}

impl View for OrderRepository {
    type V = Map<u32, OrderModel>;

    closed spec fn view(&self) -> Map<u32, OrderModel> {
        self.orders@.map_values(|o: Order| o@)
    }
}

impl OrderRepository {
    /// Well-formedness: every order is stored under its own id.
    pub closed spec fn wf(&self) -> bool {
        forall|k: u32| #[trigger] self.orders@.contains_key(k) ==> self.orders@[k]@.id == k
    }

    /// An empty store.
    pub fn new() -> (r: OrderRepository)
        ensures
            r.wf(),
            r@ == Map::<u32, OrderModel>::empty(),
    {
        let r = OrderRepository { orders: HashMap::new() };
        assert(r@ =~= Map::<u32, OrderModel>::empty());
        r
    }

    /// Inserts the order under its id, replacing any order stored there before.
    pub fn save(&mut self, order: Order)
        requires
            old(self).wf(),
        ensures
            final(self).wf(),
            final(self)@ == old(self)@.insert(order@.id, order@),
    {
        let id = order.get_id();
        self.orders.insert(id, order);
        assert(final(self)@ =~= old(self)@.insert(order@.id, order@));
    }

    /// The order stored under `id`, if any. Absence is not an error.
    pub fn find_by_id(&self, id: u32) -> (r: Option<&Order>)
        requires
            self.wf(),
        ensures
            match r {
                Some(o) => self@.contains_key(id) && self@[id] == o@ && o@.id == id,
                None => !self@.contains_key(id),
            },
    {
        self.orders.get(&id)
    }

    /// Every stored order, each once, in an unspecified order.
    pub fn find_all(&self) -> (r: Vec<&Order>)
        requires
            self.wf(),
        ensures
            lists_all(self@, r@.map_values(|o: &Order| o@)),
    {
        let ghost keys = spec_keys_iter(&self.orders).remaining();
        let mut out: Vec<&Order> = Vec::new();
        for k in it: self.orders.keys()
            invariant
                self.wf(),
                it.seq() == keys,
                keys.unref().to_set() == self.orders@.dom(),
                keys.no_duplicates(),
                keys.len() == self.orders@.dom().len(),
                out@.len() == it.index(),
                forall|i: int| 0 <= i < out@.len() ==> #[trigger] self@.contains_key(*keys[i]),
                forall|i: int| 0 <= i < out@.len() ==> #[trigger] out@[i]@ == self@[*keys[i]],
        {
            proof {
                assert(keys.unref()[it.index()] == *k);
                assert(keys.unref().to_set().contains(*k));
            }
            match self.orders.get(k) {
                Some(o) => {
                    let ghost prev = out@;
                    out.push(o);
                    assert forall|i: int| 0 <= i < out@.len() implies #[trigger] out@[i]@
                        == self@[*keys[i]] && self@.contains_key(*keys[i]) by {
                        if i < prev.len() {
                            assert(out@[i] == prev[i]);
                        }
                    }
                },
                None => {
                    // unreachable: `k` is a key of the map
                    assert(false);
                },
            }
        }
        proof {
            let s = out@.map_values(|o: &Order| o@);
            assert forall|i: int| 0 <= i < s.len() implies #[trigger] s[i].id == *keys[i] by {
                assert(self@.contains_key(*keys[i]));
                assert(self.orders@.contains_key(*keys[i]));
            }
            assert forall|k: u32| #[trigger] self@.contains_key(k) implies exists|i: int|
                0 <= i < s.len() && #[trigger] s[i].id == k by {
                assert(keys.unref().to_set().contains(k));
                let i = choose|i: int| 0 <= i < keys.unref().len() && keys.unref()[i] == k;
                assert(s[i].id == k);
            }
            assert forall|i: int, j: int| 0 <= i < j < s.len() implies #[trigger] s[i].id
                != #[trigger] s[j].id by {
                assert(s[i].id == *keys[i]);
                assert(s[j].id == *keys[j]);
            }
            assert(self@.dom() =~= self.orders@.dom());
        }
        out
    }

    /// Removes every order; the store stays usable.
    pub fn clear(&mut self)
        ensures
            final(self).wf(),
            final(self)@ == Map::<u32, OrderModel>::empty(),
    {
        self.orders.clear();
        assert(final(self)@ =~= Map::<u32, OrderModel>::empty());
    }
}

} // verus!
