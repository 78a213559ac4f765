//! The shared cell, the handle, and the weight-accounting protocol.
//!
//! One `SharedCell` stands for the heap block that every handle points at: it
//! holds the shared weight counter and the owned value. A `Warc` is one
//! owner's handle, carrying a private weight and a ghost identity under which
//! the cell's ledger records it. At every quiescent point the counter equals
//! the sum of all live handles' local weights, so each handle knows exactly
//! how much weight it may return on release without any coordination.

use crate::weights::lemma_halve_weight;
use crate::weights::lemma_initial_weight_pow2;
use crate::weights::lemma_weight_sum_insert;
use crate::weights::lemma_weight_sum_insert_above;
use crate::weights::lemma_weight_sum_member_bound;
use crate::weights::lemma_weight_sum_no_keys;
use crate::weights::lemma_weight_sum_remove;
use crate::weights::lemma_weight_sum_zero_iff_empty;
use crate::weights::is_pow2;
use crate::weights::valid_weight;
use crate::weights::weight_sum;
use crate::weights::INITIAL_WEIGHT;
use vstd::pervasive::unreached;
use vstd::prelude::*;

verus! {

/// The one shared heap block: the weight counter and the owned value.
///
/// `value` is `Some` from creation until the final release tears it down;
/// taking it out models freeing the block. The ghost `owners` ledger maps the
/// identity of every live handle to its local weight; it exists only for
/// specification and costs nothing at run time.
pub struct SharedCell<T> {
    weight: usize,
    value: Option<T>,
    owners: Ghost<Map<nat, nat>>,
    id_ceiling: Ghost<nat>,
    rmw_ops: Ghost<nat>,
}

/// One owner's handle on a shared cell: a private weight, touched only by its
/// owner, and the ghost identity under which the cell's ledger records it.
pub struct Warc {
    local: usize,
    id: Ghost<nat>,
}

impl<T> SharedCell<T> {
    /// The shared counter: total weight outstanding over all live handles.
    pub closed spec fn total(&self) -> nat {
        self.weight as nat
    }

    /// The ghost ledger: local weight of every live handle, by handle id.
    pub closed spec fn owners(&self) -> Map<nat, nat> {
        self.owners@
    }

    /// Every id the ledger has ever handed out lies below this bound.
    pub closed spec fn id_ceiling(&self) -> nat {
        self.id_ceiling@
    }

    /// The owned value; `None` once the final release has torn it down.
    pub closed spec fn stored(&self) -> Option<T> {
        self.value
    }

    /// How many atomic read-modify-write operations on the shared counter the
    /// protocol has performed so far (withdrawals and releases).
    pub closed spec fn rmw_ops(&self) -> nat {
        self.rmw_ops@
    }

    /// `h` is a live handle of this cell: the ledger records its id with
    /// exactly its local weight.
    pub open spec fn owns(&self, h: Warc) -> bool {
        &&& self.owners().contains_key(h.id())
        &&& self.owners()[h.id()] == h.local_weight()
    }

    /// No handle is live any more.
    pub open spec fn no_owner(&self) -> bool {
        forall|k: nat| !self.owners().contains_key(k)
    }

    /// The governing invariant. The counter equals the sum of all live
    /// handles' local weights; every recorded weight is an exact power of two
    /// in `[1, INITIAL_WEIGHT]`; recorded ids stay below the ceiling; and the
    /// value is present exactly as long as some handle is live.
    pub open spec fn wf(&self) -> bool {
        &&& self.total() == weight_sum(self.owners(), self.id_ceiling())
        &&& forall|k: nat| #[trigger] self.owners().contains_key(k) ==> k < self.id_ceiling()
        &&& forall|k: nat|
            self.owners().contains_key(k) ==> valid_weight(#[trigger] self.owners()[k])
        &&& (self.stored() is None <==> self.no_owner())
    }

    /// Reads the shared counter directly off the cell.
    pub fn weight(&self) -> (r: usize)
        ensures
            r == self.total(),
    {
        self.weight
    }
}

impl Warc {
    /// This handle's private weight.
    pub closed spec fn local_weight(&self) -> nat {
        self.local as nat
    }

    /// The ghost identity under which the cell's ledger records this handle.
    pub closed spec fn id(&self) -> nat {
        self.id@
    }

    /// `create`: allocate a shared cell holding `value` with one full block of
    /// weight on the counter, and return the first handle owning all of it.
    pub fn new<T>(value: T) -> (r: (SharedCell<T>, Warc))
        ensures
            r.0.wf(),
            r.0.owns(r.1),
            r.0.total() == INITIAL_WEIGHT,
            r.1.local_weight() == INITIAL_WEIGHT,
            r.0.stored() == Some(value),
            r.0.rmw_ops() == 0,
            r.0.owners() == Map::<nat, nat>::empty().insert(r.1.id(), INITIAL_WEIGHT as nat),
    {
        let cell = SharedCell {
            weight: INITIAL_WEIGHT,
            value: Some(value),
            owners: Ghost(Map::<nat, nat>::empty().insert(0, INITIAL_WEIGHT as nat)),
            id_ceiling: Ghost(1),
            rmw_ops: Ghost(0),
        };
        let h = Warc { local: INITIAL_WEIGHT, id: Ghost(0) };
        proof {
            lemma_initial_weight_pow2();
            lemma_weight_sum_no_keys(Map::<nat, nat>::empty(), 1);
            lemma_weight_sum_insert(Map::<nat, nat>::empty(), 1, 0, INITIAL_WEIGHT as nat);
            assert(cell.owners().contains_key(0));
        }
        (cell, h)
    }

    /// Duplicate this handle: produce a second handle on the same cell while
    /// preserving the governing invariant, with neither weight falling to
    /// zero.
    ///
    /// A handle with more than one unit halves its weight losslessly and
    /// gives one half to the new handle, touching no shared state. A handle
    /// down to one unit first withdraws a fresh block: one successful
    /// compare-and-swap raises the counter by `INITIAL_WEIGHT - 1` and
    /// refills the handle to a full block, which is then halved as usual.
    /// The counter overflowing a machine word on withdrawal is a fatal scale
    /// violation, ruled out here by precondition.
    pub fn duplicate<T>(&mut self, cell: &mut SharedCell<T>) -> (r: Warc)
        requires
            old(cell).wf(),
            old(cell).owns(*old(self)),
            old(self).local_weight() == 1 ==> old(cell).total() + INITIAL_WEIGHT - 1
                <= usize::MAX,
        ensures
            final(cell).wf(),
            final(cell).owns(*final(self)),
            final(cell).owns(r),
            final(self).id() == old(self).id(),
            r.id() == old(cell).id_ceiling(),
            r.id() != final(self).id(),
            r.local_weight() == final(self).local_weight(),
            final(cell).stored() == old(cell).stored(),
            final(cell).id_ceiling() == old(cell).id_ceiling() + 1,
            final(cell).owners() == old(cell).owners().insert(
                old(self).id(),
                final(self).local_weight(),
            ).insert(r.id(), r.local_weight()),
            old(self).local_weight() > 1 ==> final(self).local_weight() == old(
                self,
            ).local_weight() / 2,
            old(self).local_weight() > 1 ==> final(cell).total() == old(cell).total(),
            old(self).local_weight() > 1 ==> final(cell).rmw_ops() == old(cell).rmw_ops(),
            old(self).local_weight() == 1 ==> final(self).local_weight() == INITIAL_WEIGHT / 2,
            old(self).local_weight() == 1 ==> final(cell).total() == old(cell).total()
                + INITIAL_WEIGHT - 1,
            old(self).local_weight() == 1 ==> final(cell).rmw_ops() == old(cell).rmw_ops() + 1,
    {
        if self.local == 1 {
            // Withdrawal: in this sequential model the sole compare-and-swap
            // of the protocol succeeds at once, raising the counter by one
            // block less the unit this handle still holds.
            let current = cell.weight;
            let candidate = current + (INITIAL_WEIGHT - 1);
            cell.weight = candidate;
            cell.rmw_ops = Ghost(cell.rmw_ops@ + 1);
            self.local = 1 + (candidate - current);
            proof {
                lemma_initial_weight_pow2();
            }
        }
        proof {
            lemma_halve_weight(self.local as nat);
        }
        let half = self.local / 2;
        self.local = half;
        let ghost fresh = cell.id_ceiling@;
        let r = Warc { local: half, id: Ghost(fresh) };
        cell.owners = Ghost(
            cell.owners@.insert(self.id@, half as nat).insert(fresh, half as nat),
        );
        cell.id_ceiling = Ghost(cell.id_ceiling@ + 1);
        proof {
            let m0 = old(cell).owners();
            let c = old(cell).id_ceiling();
            let m1 = m0.insert(self.id@, half as nat);
            let m2 = m1.insert(fresh, half as nat);
            lemma_weight_sum_insert(m0, c, self.id@, half as nat);
            lemma_weight_sum_insert_above(m1, c, fresh, half as nat);
            assert(weight_sum(m2, c + 1) == weight_sum(m2, c) + half);
            assert(cell.total() == weight_sum(cell.owners(), cell.id_ceiling()));
            assert forall|k: nat|
                cell.owners().contains_key(k) implies valid_weight(
                #[trigger] cell.owners()[k],
            ) by {
                if k != fresh && k != self.id@ {
                    assert(cell.owners()[k] == m0[k]);
                }
            }
            assert(!cell.no_owner());
        }
        r
    }

    /// Release this handle: return its weight to the shared counter, and if
    /// that return empties the counter, tear the value down and hand it back.
    ///
    /// The one atomic subtraction's prior value is compared against the
    /// amount just subtracted — equality means the new counter value is zero,
    /// so this was the final release. Exactly one release over the cell's
    /// lifetime observes that zero-crossing, and it alone gets `Some`.
    pub fn release<T>(self, cell: &mut SharedCell<T>) -> (r: Option<T>)
        requires
            old(cell).wf(),
            old(cell).owns(self),
        ensures
            final(cell).wf(),
            final(cell).owners() == old(cell).owners().remove(self.id()),
            final(cell).total() + self.local_weight() == old(cell).total(),
            final(cell).rmw_ops() == old(cell).rmw_ops() + 1,
            final(cell).id_ceiling() == old(cell).id_ceiling(),
            (r is Some) <==> final(cell).total() == 0,
            (r is Some) <==> (forall|k: nat|
                old(cell).owners().contains_key(k) ==> k == self.id()),
            r is Some ==> r == old(cell).stored() && final(cell).stored() is None,
            r is None ==> final(cell).stored() == old(cell).stored(),
    {
        proof {
            lemma_weight_sum_member_bound(cell.owners@, cell.id_ceiling@, self.id@);
        }
        let prev = cell.weight;
        cell.weight = prev - self.local;
        cell.rmw_ops = Ghost(cell.rmw_ops@ + 1);
        cell.owners = Ghost(cell.owners@.remove(self.id@));
        proof {
            lemma_weight_sum_remove(old(cell).owners(), old(cell).id_ceiling(), self.id@);
            lemma_weight_sum_zero_iff_empty(cell.owners@, cell.id_ceiling@);
        }
        if prev == self.local {
            proof {
                assert(cell.no_owner());
                assert forall|k: nat|
                    old(cell).owners().contains_key(k) implies k == self.id@ by {
                    if k != self.id@ {
                        assert(cell.owners().contains_key(k));
                    }
                }
            }
            cell.value.take()
        } else {
            proof {
                assert(weight_sum(cell.owners@, cell.id_ceiling@) != 0);
                let w = choose|k: nat| cell.owners().contains_key(k);
                assert(old(cell).owners().contains_key(w) && w != self.id@);
            }
            None
        }
    }

    /// Read the shared value through this live handle. The borrow is good for
    /// as long as the cell is, and the value seen is structurally the one
    /// `new` stored, whatever duplication or release sibling handles have
    /// gone through.
    pub fn access<'a, T>(&self, cell: &'a SharedCell<T>) -> (r: &'a T)
        requires
            cell.wf(),
            cell.owns(*self),
        ensures
            Some(*r) == cell.stored(),
    {
        proof {
            assert(!cell.no_owner());
        }
        match &cell.value {
            Some(v) => v,
            None => unreached(),
        }
    }

    /// This handle's private weight.
    pub fn local(&self) -> (r: usize)
        ensures
            r == self.local_weight(),
    {
        self.local
    }

    /// The shared counter, read through this handle.
    pub fn global<T>(&self, cell: &SharedCell<T>) -> (r: usize)
        ensures
            r == cell.total(),
    {
        cell.weight
    }
}

/// At every quiescent point the shared counter equals the sum of the local
/// weights of all live handles: exactly what lets each handle return its own
/// weight on release without consulting anyone.
pub proof fn lemma_counter_is_weight_sum<T>(cell: &SharedCell<T>)
    requires
        cell.wf(),
    ensures
        cell.total() == weight_sum(cell.owners(), cell.id_ceiling()),
{
}

/// Every live handle's local weight is an exact power of two in
/// `[1, INITIAL_WEIGHT]`, so halving on duplication is lossless until the
/// weight is a single unit.
pub proof fn lemma_live_weight_shape<T>(cell: &SharedCell<T>, h: &Warc)
    requires
        cell.wf(),
        cell.owns(*h),
    ensures
        valid_weight(h.local_weight()),
        1 <= h.local_weight() <= INITIAL_WEIGHT,
        is_pow2(h.local_weight()),
{
}

/// While any handle is live, the final release has not yet run: the cell
/// still stores its value and the counter covers at least this handle's
/// weight.
pub proof fn lemma_live_cell<T>(cell: &SharedCell<T>, h: &Warc)
    requires
        cell.wf(),
        cell.owns(*h),
    ensures
        cell.stored() is Some,
        cell.total() >= h.local_weight() >= 1,
{
    lemma_weight_sum_member_bound(cell.owners(), cell.id_ceiling(), h.id());
}

} // verus!
