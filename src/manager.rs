use vstd::prelude::*;

use crate::message::{AckState, ScopedMessage};
use crate::pool::{PermitPool, Permit, release_step};

verus! {

/// Whether a registration made a new consumer or found one already active.
#[derive(Clone, Copy, Debug, PartialEq, Eq, Structural)]
pub enum Registration {
    /// No consumer was active for the subject: one must be created and its
    /// pull loop started.
    Created,
    /// A consumer is already active for the subject: it is reused.
    AlreadyActive,
}

/// A message body that could not be decoded into the worker's type.
#[derive(Debug)]
pub struct DecodeError {
    pub reason: String,
}

/// The registry after `subject` is registered: unchanged if it is already
/// there, otherwise with the subject appended.
pub open spec fn register_spec(v: Seq<Seq<char>>, subject: Seq<char>) -> Seq<Seq<char>> {
    if v.contains(subject) {
        v
    } else {
        v.push(subject)
    }
}

/// The registry of the durable work-queue consumers of one stream, one per
/// tenant subject, in the order they were registered.
pub struct ConsumerManager {
    stream: String,
    subjects: Vec<String>,
}

impl View for ConsumerManager {
    type V = Seq<Seq<char>>;

    closed spec fn view(&self) -> Seq<Seq<char>> {
        self.subjects@.map_values(|s: String| s@)
    }
}

impl ConsumerManager {
    /// Well-formed: no subject is registered twice.
    pub open spec fn wf(&self) -> bool {
        self@.no_duplicates()
    }

    /// The name of the stream that the consumers read.
    pub closed spec fn stream_name(&self) -> Seq<char> {
        self.stream@
    }

    /// A manager bound to `stream` with no tenant registered.
    pub fn new(stream: &str) -> (r: ConsumerManager)
        ensures
            r@ == Seq::<Seq<char>>::empty(),
            r.wf(),
            r.stream_name() == stream@,
    {
        let r = ConsumerManager { stream: stream.to_owned(), subjects: Vec::new() };
        assert(r@ =~= Seq::<Seq<char>>::empty());
        r
    }

    pub fn stream(&self) -> (r: &str)
        ensures
            r@ == self.stream_name(),
    {
        self.stream.as_str()
    }

    /// The number of active consumers.
    pub fn len(&self) -> (r: usize)
        ensures
            r == self@.len(),
    {
        self.subjects.len()
    }

    /// The registered subjects, in the order they were registered.
    pub fn subjects(&self) -> (r: Vec<String>)
        ensures
            r@.map_values(|s: String| s@) == self@,
    {
        let r = self.subjects.clone();
        assert(r@.map_values(|s: String| s@) =~= self@);
        r
    }

    /// The position of `subject` in the registry, if it is there.
    fn position(&self, subject: &str) -> (r: Option<usize>)
        ensures
            r.is_some() == self@.contains(subject@),
            r matches Some(i) ==> i < self@.len() && self@[i as int] == subject@,
    {
        let key = subject.to_owned();
        let mut i: usize = 0;
        while i < self.subjects.len()
            invariant
                i <= self.subjects@.len(),
                key@ == subject@,
                forall|j: int| 0 <= j < i ==> self.subjects@[j]@ != subject@,
            decreases self.subjects@.len() - i,
        {
            if self.subjects[i] == key {
                assert(self@[i as int] == subject@);
                return Some(i);
            }
            i = i + 1;
        }
        proof {
            if self@.contains(subject@) {
                let k = choose|k: int| 0 <= k < self@.len() && self@[k] == subject@;
                assert(self.subjects@[k]@ == subject@);
            }
        }
        None
    }

    /// Whether a consumer is active for `subject`.
    pub fn is_active(&self, subject: &str) -> (r: bool)
        ensures
            r == self@.contains(subject@),
    {
        self.position(subject).is_some()
    }

    /// Registers the tenant subject. A second registration of the same
    /// subject reuses the active consumer and changes nothing.
    pub fn add_for_lattice(&mut self, subject: &str) -> (r: Registration)
        requires
            old(self).wf(),
        ensures
            final(self).wf(),
            r == (if old(self)@.contains(subject@) {
                Registration::AlreadyActive
            } else {
                Registration::Created
            }),
            final(self)@ == register_spec(old(self)@, subject@),
            final(self)@.contains(subject@),
            final(self).stream_name() == old(self).stream_name(),
    {
        if self.position(subject).is_some() {
            Registration::AlreadyActive
        } else {
            let owned = subject.to_owned();
            self.subjects.push(owned);
            proof {
                assert(self@ =~= old(self)@.push(subject@));
                assert(self@[self@.len() - 1] == subject@);
                assert forall|a: int, b: int|
                    0 <= a < b < self@.len() implies self@[a] != self@[b] by {
                    if b == self@.len() - 1 {
                        assert(old(self)@[a] == self@[a]);
                    }
                }
            }
            Registration::Created
        }
    }

    /// Removes the tenant subject, which stops its pull loop. Returns whether
    /// it was registered.
    pub fn remove_for_lattice(&mut self, subject: &str) -> (r: bool)
        requires
            old(self).wf(),
        ensures
            final(self).wf(),
            r == old(self)@.contains(subject@),
            !final(self)@.contains(subject@),
            r ==> exists|i: int|
                0 <= i < old(self)@.len() && old(self)@[i] == subject@ && final(self)@
                    == old(self)@.remove(i),
            !r ==> final(self)@ == old(self)@,
            final(self).stream_name() == old(self).stream_name(),
    {
        match self.position(subject) {
            Some(i) => {
                let ghost before = self@;
                self.subjects.remove(i);
                proof {
                    assert(self@ =~= before.remove(i as int));
                    assert forall|a: int, b: int|
                        0 <= a < b < self@.len() implies self@[a] != self@[b] by {
                        let a2 = if a < i { a } else { a + 1 };
                        let b2 = if b < i { b } else { b + 1 };
                        assert(self@[a] == before[a2]);
                        assert(self@[b] == before[b2]);
                    }
                    if self@.contains(subject@) {
                        let k = choose|k: int| 0 <= k < self@.len() && self@[k] == subject@;
                        let k2 = if k < i { k } else { k + 1 };
                        assert(before[k2] == subject@);
                    }
                }
                true
            },
            None => false,
        }
    }

    /// Whether the pull loop of `subject` goes on to pull another message: only
    /// while its consumer is registered and no shutdown was signalled.
    pub fn keep_pulling(&self, subject: &str, shutdown: bool) -> (r: bool)
        ensures
            r == (!shutdown && self@.contains(subject@)),
    {
        !shutdown && self.is_active(subject)
    }
}

/// Registering the same subject twice has the effect of registering it once,
/// and leaves exactly one active consumer for it.
pub proof fn lemma_register_idempotent(v: Seq<Seq<char>>, subject: Seq<char>)
    requires
        v.no_duplicates(),
    ensures
        register_spec(register_spec(v, subject), subject) == register_spec(v, subject),
        register_spec(v, subject).no_duplicates(),
        register_spec(v, subject).contains(subject),
{
    let w = register_spec(v, subject);
    if !v.contains(subject) {
        assert(w.last() == subject);
        assert forall|a: int, b: int| 0 <= a < b < w.len() implies w[a] != w[b] by {
            if b == w.len() - 1 {
                assert(v[a] == w[a]);
            }
        }
    }
    assert(w.contains(subject)) by {
        if v.contains(subject) {
        } else {
            assert(w[w.len() - 1] == subject);
        }
    }
}

/// One step of a tenant's pull loop, once a message has been dequeued and a
/// permit acquired for it. A payload that decoded is wrapped with the permit,
/// ready for dispatch to the worker. One that did not is left un-acked for the
/// broker to redeliver, and its permit goes straight back to the pool.
pub fn dispatch_step<M>(
    decoded: Result<M, DecodeError>,
    permit: Permit,
    pool: &mut PermitPool,
) -> (r: Option<ScopedMessage<M>>)
    requires
        old(pool)@.in_use > 0,
        permit.pool_id() == old(pool).spec_id(),
    ensures
        final(pool).spec_id() == old(pool).spec_id(),
        match decoded {
            Ok(m) => r matches Some(s) && s.payload() == m && s.ack_state() == AckState::Pending
                && s.spec_permit_pool() == permit.pool_id() && final(pool)@ == old(pool)@,
            Err(_) => r is None && final(pool)@ == release_step(old(pool)@),
        },
{
    match decoded {
        Ok(m) => Some(ScopedMessage::new(m, permit)),
        Err(_) => {
            pool.release(permit);
            None
        },
    }
}

} // verus!
