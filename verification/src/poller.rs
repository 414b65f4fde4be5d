use vstd::prelude::*;

use crate::envelope::FetchOutcome;
use crate::order::{dedup_orders, order_value_set, order_views, vec_contains_order, Order, OrderView};

verus! {

/// The mutable state of the polling loop: the set of orders considered
/// already seen, and whether a cycle has ever succeeded.  The baseline
/// is replaced wholesale by each successful cycle, so orders that age
/// out of the upstream reporting window leave the baseline even if they
/// were never reported as new; this is inherent to the design, not a
/// defect, but it means records can be missed when the upstream window
/// turns over faster than the polling interval.
pub struct Baseline {
    pub orders: Vec<Order>,
    pub seen_success: bool,
}

/// What one successful cycle reports: the orders not seen before, and
/// whether the whole batch was new although a cycle had succeeded
/// before, which heuristically signals missed orders.
pub struct CycleOutcome {
    pub new_orders: Vec<Order>,
    pub warn_possibly_missed: bool,
}

impl Baseline {
    /// The baseline holds each order value at most once.
    pub open spec fn wf(self) -> bool {
        order_views(self.orders@).no_duplicates()
    }

    /// The set of order values considered already seen.
    pub open spec fn observed(self) -> Set<OrderView> {
        order_value_set(self.orders@)
    }
}

/// The full contract of one successful cycle on baseline `pre` with
/// batch `cur`: the new orders are exactly the batch values outside the
/// old baseline, each reported once; the warning fires exactly when the
/// batch is disjoint from the old baseline and some earlier cycle had
/// succeeded; and the baseline becomes exactly the batch.
pub open spec fn cycle_post(
    pre: Baseline,
    cur: Seq<Order>,
    post: Baseline,
    out: CycleOutcome,
) -> bool {
    &&& post.wf()
    &&& post.seen_success
    &&& post.observed() == order_value_set(cur)
    &&& order_views(out.new_orders@).no_duplicates()
    &&& forall|o: OrderView|
        #[trigger] order_views(out.new_orders@).contains(o) <==> (order_value_set(cur).contains(o)
            && !pre.observed().contains(o))
    &&& out.warn_possibly_missed == (pre.seen_success && order_value_set(cur).disjoint(
        pre.observed(),
    ))
}

/// Seeds the baseline from the most recent durable orders, deduplicated,
/// with no cycle counted as succeeded yet.  Without this bootstrap every
/// order already persisted would be reported as new again after a
/// restart.
pub fn bootstrap(loaded: Vec<Order>) -> (b: Baseline)
    ensures
        b.wf(),
        !b.seen_success,
        b.observed() == order_value_set(loaded@),
{
    let orders = dedup_orders(&loaded);
    proof {
        assert(order_views(orders@).to_set() =~= order_views(loaded@).to_set());
    }
    Baseline { orders, seen_success: false }
}

impl Baseline {
    /// Runs the change detection of one successful cycle: deduplicates
    /// the batch, computes the batch values absent from the baseline,
    /// decides the missed-orders warning, and replaces the baseline with
    /// the batch.
    pub fn process_cycle(&mut self, current: Vec<Order>) -> (out: CycleOutcome)
        requires
            old(self).wf(),
        ensures
            cycle_post(*old(self), current@, *final(self), out),
    {
        let ghost pre = *self;
        let deduped = dedup_orders(&current);
        proof {
            assert(order_views(deduped@).to_set() =~= order_views(current@).to_set());
        }
        let ghost dv = order_views(deduped@);
        let ghost bseq = order_views(self.orders@);
        let mut new_orders: Vec<Order> = Vec::new();
        let mut i: usize = 0;
        while i < deduped.len()
            invariant
                i <= deduped@.len(),
                *self == pre,
                pre.wf(),
                dv == order_views(deduped@),
                dv.no_duplicates(),
                bseq == order_views(pre.orders@),
                order_views(new_orders@).no_duplicates(),
                forall|k: int|
                    0 <= k < i ==> (order_views(new_orders@).contains(#[trigger] dv[k])
                        <==> !bseq.contains(dv[k])),
                forall|o: OrderView| #[trigger]
                    order_views(new_orders@).contains(o) ==> exists|k: int|
                        0 <= k < i && dv[k] == o,
                new_orders@.len() <= i,
                (new_orders@.len() == i) <==> (forall|k: int|
                    0 <= k < i ==> !bseq.contains(#[trigger] dv[k])),
            decreases deduped@.len() - i,
        {
            let ghost prev = order_views(new_orders@);
            if !vec_contains_order(&self.orders, &deduped[i]) {
                new_orders.push(deduped[i].clone());
                proof {
                    assert(order_views(new_orders@) =~= prev.push(dv[i as int]));
                    assert(!prev.contains(dv[i as int])) by {
                        if prev.contains(dv[i as int]) {
                            let k = choose|k: int| 0 <= k < i && dv[k] == dv[i as int];
                            assert(dv[k] == dv[i as int]);
                        }
                    }
                    assert forall|o: OrderView| #[trigger]
                        order_views(new_orders@).contains(o) implies exists|k: int|
                        0 <= k < i + 1 && dv[k] == o by {
                        if prev.contains(o) {
                            let k = choose|k: int| 0 <= k < i && dv[k] == o;
                            assert(0 <= k < i + 1 && dv[k] == o);
                        } else {
                            assert(order_views(new_orders@)[prev.len() as int] == o);
                            assert(dv[i as int] == o);
                        }
                    }
                    assert forall|k: int|
                        0 <= k < i + 1 implies (order_views(new_orders@).contains(#[trigger] dv[k])
                        <==> !bseq.contains(dv[k])) by {
                        assert(order_views(new_orders@)[prev.len() as int] == dv[i as int]);
                        if k < i {
                            if prev.contains(dv[k]) {
                                let j = choose|j: int|
                                    0 <= j < prev.len() && prev[j] == dv[k];
                                assert(order_views(new_orders@)[j] == dv[k]);
                            }
                            if order_views(new_orders@).contains(dv[k]) {
                                let j = choose|j: int|
                                    0 <= j < order_views(new_orders@).len() && order_views(
                                        new_orders@,
                                    )[j] == dv[k];
                                if j < prev.len() {
                                    assert(prev[j] == dv[k]);
                                } else {
                                    assert(dv[k] == dv[i as int]);
                                }
                            }
                        }
                    }
                }
            } else {
                proof {
                    assert(bseq.contains(dv[i as int])) by {
                        assert(order_views(pre.orders@).contains(deduped@[i as int]@));
                    }
                    assert(!order_views(new_orders@).contains(dv[i as int])) by {
                        if order_views(new_orders@).contains(dv[i as int]) {
                            let k = choose|k: int| 0 <= k < i && dv[k] == dv[i as int];
                            assert(dv[k] == dv[i as int]);
                        }
                    }
                    assert(new_orders@.len() < i + 1);
                }
            }
            i += 1;
        }
        let warn = self.seen_success && new_orders.len() == deduped.len();
        proof {
            assert(new_orders@.len() == deduped@.len() <==> (forall|k: int|
                0 <= k < dv.len() ==> !bseq.contains(#[trigger] dv[k]))) by {
                assert(dv.len() == deduped@.len());
            }
            assert((forall|k: int| 0 <= k < dv.len() ==> !bseq.contains(#[trigger] dv[k]))
                <==> order_value_set(current@).disjoint(pre.observed())) by {
                if forall|k: int| 0 <= k < dv.len() ==> !bseq.contains(#[trigger] dv[k]) {
                    assert forall|o: OrderView|
                        order_value_set(current@).contains(o) implies !pre.observed().contains(
                        o,
                    ) by {
                        assert(dv.contains(o));
                        let k = choose|k: int| 0 <= k < dv.len() && dv[k] == o;
                        assert(!bseq.contains(dv[k]));
                    }
                } else {
                    let k = choose|k: int| 0 <= k < dv.len() && bseq.contains(dv[k]);
                    assert(order_value_set(current@).contains(dv[k]));
                    assert(pre.observed().contains(dv[k]));
                }
            }
        }
        self.orders = deduped;
        self.seen_success = true;
        let out = CycleOutcome { new_orders, warn_possibly_missed: warn };
        proof {
            assert(self.observed() == order_value_set(current@));
            assert forall|o: OrderView| #[trigger]
                order_views(out.new_orders@).contains(o) <==> (order_value_set(
                current@,
            ).contains(o) && !pre.observed().contains(o)) by {
                if order_views(out.new_orders@).contains(o) {
                    let k = choose|k: int| 0 <= k < dv.len() && dv[k] == o;
                    assert(dv.contains(o));
                }
                if order_value_set(current@).contains(o) && !pre.observed().contains(o) {
                    assert(dv.contains(o));
                    let k = choose|k: int| 0 <= k < dv.len() && dv[k] == o;
                    assert(order_views(out.new_orders@).contains(dv[k]));
                }
            }
        }
        out
    }

    /// Applies the outcome of one fetch to the loop state: a successful
    /// fetch runs the cycle; a failed one leaves the baseline untouched
    /// so the next cycle retries against the same state.
    pub fn apply_fetch(&mut self, outcome: FetchOutcome) -> (out: Option<CycleOutcome>)
        requires
            old(self).wf(),
        ensures
            final(self).wf(),
            match outcome {
                FetchOutcome::Orders(cur) => out matches Some(c) && cycle_post(
                    *old(self),
                    cur@,
                    *final(self),
                    c,
                ),
                FetchOutcome::Failed(_) => *final(self) == *old(self) && out is None,
            },
    {
        match outcome {
            FetchOutcome::Orders(cur) => Some(self.process_cycle(cur)),
            FetchOutcome::Failed(_) => None,
        }
    }
}

/// Law: the new orders of a cycle are exactly the set difference of the
/// batch and the old baseline.
pub proof fn lemma_new_orders_are_set_difference(
    pre: Baseline,
    cur: Seq<Order>,
    post: Baseline,
    out: CycleOutcome,
)
    requires
        cycle_post(pre, cur, post, out),
    ensures
        order_value_set(out.new_orders@) == order_value_set(cur).difference(pre.observed()),
{
    assert(order_value_set(out.new_orders@) =~= order_value_set(cur).difference(pre.observed()));
}

/// Law: when the missed-orders warning fires, the batch was disjoint
/// from the old baseline, so every order of the batch is reported as
/// new.
pub proof fn lemma_warning_means_all_new(
    pre: Baseline,
    cur: Seq<Order>,
    post: Baseline,
    out: CycleOutcome,
)
    requires
        cycle_post(pre, cur, post, out),
        out.warn_possibly_missed,
    ensures
        order_value_set(out.new_orders@) == order_value_set(cur),
{
    lemma_new_orders_are_set_difference(pre, cur, post, out);
    assert(order_value_set(cur).difference(pre.observed()) =~= order_value_set(cur));
}

/// Law: a cycle whose whole batch already lies in the baseline reports
/// no new orders; in particular, right after a bootstrap that loaded the
/// persisted history, an unchanged upstream batch yields nothing new.
pub proof fn lemma_known_batch_yields_no_new(
    pre: Baseline,
    cur: Seq<Order>,
    post: Baseline,
    out: CycleOutcome,
)
    requires
        cycle_post(pre, cur, post, out),
        order_value_set(cur).subset_of(pre.observed()),
    ensures
        out.new_orders@.len() == 0,
{
    if out.new_orders@.len() > 0 {
        let o = order_views(out.new_orders@)[0];
        assert(order_views(out.new_orders@).contains(o));
        assert(order_value_set(cur).contains(o));
    }
}

} // verus!
