use vstd::prelude::*;

verus! {

/// The abstract state of a permit pool: its fixed capacity and the number of
/// permits that are currently handed out.
pub ghost struct PoolView {
    pub capacity: nat,
    pub in_use: nat,
}

/// A request made of the pool by the engine.
pub ghost enum PoolEvent {
    Acquire,
    Release,
}

/// Whether one more permit can be handed out.
pub open spec fn can_acquire(v: PoolView) -> bool {
    v.in_use < v.capacity
}

/// The pool after an acquire attempt: one more permit in use when a slot is
/// free, unchanged otherwise (the caller stays suspended).
pub open spec fn acquire_step(v: PoolView) -> PoolView {
    if can_acquire(v) {
        PoolView { in_use: v.in_use + 1, ..v }
    } else {
        v
    }
}

/// The pool after one permit is handed back.
pub open spec fn release_step(v: PoolView) -> PoolView {
    PoolView { in_use: (v.in_use - 1) as nat, ..v }
}

/// The pool after one event. A release with nothing in use cannot happen,
/// since only a permit can be released; it leaves the pool as it is.
pub open spec fn pool_step(v: PoolView, e: PoolEvent) -> PoolView {
    match e {
        PoolEvent::Acquire => acquire_step(v),
        PoolEvent::Release => if v.in_use > 0 { release_step(v) } else { v },
    }
}

/// The pool after a whole sequence of events, applied in order.
pub open spec fn pool_run(v: PoolView, events: Seq<PoolEvent>) -> PoolView
    decreases events.len(),
{
    if events.len() == 0 {
        v
    } else {
        pool_step(pool_run(v, events.drop_last()), events.last())
    }
}

/// One unit of the shared concurrency budget, marked with the id of the pool
/// that issued it. A permit cannot be cloned or built outside this module, so
/// each one goes back at most once, and only to its own pool.
pub struct Permit {
    pool: u64,
}

impl Permit {
    /// The id of the pool that issued this permit.
    pub closed spec fn pool_id(&self) -> u64 {
        self.pool
    }

    pub fn pool(&self) -> (r: u64)
        ensures
            r == self.pool_id(),
    {
        self.pool
    }
}

/// A counting pool with a capacity fixed at construction, shared by the pull
/// loops of every tenant.
pub struct PermitPool {
    id: u64,
    capacity: usize,
    in_use: usize,
}

impl View for PermitPool {
    type V = PoolView;

    closed spec fn view(&self) -> PoolView {
        PoolView { capacity: self.capacity as nat, in_use: self.in_use as nat }
    }
}

impl PermitPool {
    #[verifier::type_invariant]
    spec fn inv(&self) -> bool {
        self.in_use <= self.capacity
    }

    /// The id that marks the permits this pool issues.
    pub closed spec fn spec_id(&self) -> u64 {
        self.id
    }

    /// A pool of `capacity` slots with none in use, whose permits carry `id`.
    pub fn new(id: u64, capacity: usize) -> (r: PermitPool)
        ensures
            r@ == (PoolView { capacity: capacity as nat, in_use: 0 }),
            r.spec_id() == id,
    {
        PermitPool { id, capacity, in_use: 0 }
    }

    pub fn id(&self) -> (r: u64)
        ensures
            r == self.spec_id(),
    {
        self.id
    }

    pub fn capacity(&self) -> (r: usize)
        ensures
            r == self@.capacity,
    {
        self.capacity
    }

    pub fn in_use(&self) -> (r: usize)
        ensures
            r == self@.in_use,
            r <= self@.capacity,
    {
        proof {
            use_type_invariant(self);
        }
        self.in_use
    }

    /// The number of permits that could be handed out right now.
    pub fn available(&self) -> (r: usize)
        ensures
            r == self@.capacity - self@.in_use,
    {
        proof {
            use_type_invariant(self);
        }
        self.capacity - self.in_use
    }

    /// Hands out a permit if a slot is free. `None` means the pool is
    /// saturated: the caller must wait for a release and try again.
    pub fn try_acquire(&mut self) -> (r: Option<Permit>)
        ensures
            r.is_some() == can_acquire(old(self)@),
            r matches Some(p) ==> p.pool_id() == old(self).spec_id(),
            final(self).spec_id() == old(self).spec_id(),
            final(self)@ == acquire_step(old(self)@),
            final(self)@.in_use <= final(self)@.capacity,
    {
        proof {
            use_type_invariant(&*self);
        }
        if self.in_use < self.capacity {
            self.in_use = self.in_use + 1;
            Some(Permit { pool: self.id })
        } else {
            None
        }
    }

    /// Hands a permit back to the pool that issued it. The permit is consumed,
    /// so it cannot be handed back twice.
    pub fn release(&mut self, permit: Permit)
        requires
            old(self)@.in_use > 0,
            permit.pool_id() == old(self).spec_id(),
        ensures
            final(self)@ == release_step(old(self)@),
            final(self).spec_id() == old(self).spec_id(),
    {
        proof {
            use_type_invariant(&*self);
        }
        let Permit { pool: _ } = permit;
        self.in_use = self.in_use - 1;
    }
}

proof fn lemma_run_bounded(v: PoolView, events: Seq<PoolEvent>)
    requires
        v.in_use <= v.capacity,
    ensures
        pool_run(v, events).in_use <= v.capacity,
        pool_run(v, events).capacity == v.capacity,
    decreases events.len(),
{
    if events.len() > 0 {
        lemma_run_bounded(v, events.drop_last());
    }
}

/// Whatever sequence of acquires and releases the pull loops of all tenants
/// make, starting from a pool within its capacity, the number of permits in
/// use (and so of work items running) never exceeds the capacity, and the
/// capacity itself never changes.
pub proof fn lemma_capacity_never_exceeded(v: PoolView, events: Seq<PoolEvent>)
    requires
        v.in_use <= v.capacity,
    ensures
        forall|i: int|
            0 <= i <= events.len() ==> #[trigger] pool_run(v, events.take(i)).in_use <= v.capacity
                && pool_run(v, events.take(i)).capacity == v.capacity,
{
    assert forall|i: int| 0 <= i <= events.len() implies #[trigger] pool_run(
        v,
        events.take(i),
    ).in_use <= v.capacity && pool_run(v, events.take(i)).capacity == v.capacity by {
        lemma_run_bounded(v, events.take(i));
    }
}

/// Once the pool is saturated, a further acquire is refused until a permit
/// is released, and after one release the next acquire succeeds.
pub proof fn lemma_saturated_blocks_until_release(v: PoolView)
    requires
        v.in_use == v.capacity,
        v.capacity > 0,
    ensures
        !can_acquire(v),
        acquire_step(v) == v,
        can_acquire(release_step(v)),
        acquire_step(release_step(v)) == v,
{
}

} // verus!
