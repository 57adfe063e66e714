use vstd::prelude::*;

use crate::pool::{Permit, PermitPool, release_step};

verus! {

/// Where a dequeued message stands in its acknowledgment protocol.
#[derive(Clone, Copy, Debug, PartialEq, Eq, Structural)]
pub enum AckState {
    Pending,
    Acked,
    Nacked,
    Terminated,
}

/// A finalization that the broker must be told of.
#[derive(Clone, Copy, Debug, PartialEq, Eq, Structural)]
pub enum BrokerAction {
    /// Processing succeeded: the message is removed from the stream.
    Ack,
    /// Processing failed: the message is redelivered soon.
    Nack,
    /// The message is discarded without success and never redelivered.
    Term,
}

/// A second finalization of one message. It carries the state that the
/// message had already reached; no broker action goes with it.
#[derive(Clone, Copy, Debug, PartialEq, Eq, Structural)]
pub struct AlreadyFinalizedError {
    pub state: AckState,
}

/// The state that a message reaches through a given finalization.
pub open spec fn finalized_state(a: BrokerAction) -> AckState {
    match a {
        BrokerAction::Ack => AckState::Acked,
        BrokerAction::Nack => AckState::Nacked,
        BrokerAction::Term => AckState::Terminated,
    }
}

/// The state after a finalization is asked for in state `s`.
pub open spec fn finalize_state(s: AckState, a: BrokerAction) -> AckState {
    if s == AckState::Pending {
        finalized_state(a)
    } else {
        s
    }
}

/// What a finalization asked for in state `s` returns: the broker action to
/// perform on the first one, an error that carries the state on every later one.
pub open spec fn finalize_result(s: AckState, a: BrokerAction) -> Result<
    BrokerAction,
    AlreadyFinalizedError,
> {
    if s == AckState::Pending {
        Ok(a)
    } else {
        Err(AlreadyFinalizedError { state: s })
    }
}

/// The state after a sequence of finalization attempts, in order.
pub open spec fn finalize_all(s: AckState, attempts: Seq<BrokerAction>) -> AckState
    decreases attempts.len(),
{
    if attempts.len() == 0 {
        s
    } else {
        finalize_state(finalize_all(s, attempts.drop_last()), attempts.last())
    }
}

/// How many broker actions a sequence of finalization attempts performs.
pub open spec fn broker_actions(s: AckState, attempts: Seq<BrokerAction>) -> nat
    decreases attempts.len(),
{
    if attempts.len() == 0 {
        0
    } else {
        let before = finalize_all(s, attempts.drop_last());
        broker_actions(s, attempts.drop_last()) + if finalize_result(
            before,
            attempts.last(),
        ) is Ok {
            1nat
        } else {
            0nat
        }
    }
}

/// One dequeued message that is not yet discarded: its decoded payload, where
/// it stands in the acknowledgment protocol, and the permit that its
/// processing holds.
pub struct ScopedMessage<M> {
    inner: M,
    state: AckState,
    permit: Permit,
}

impl<M> ScopedMessage<M> {
    /// The decoded payload.
    pub closed spec fn payload(&self) -> M {
        self.inner
    }

    /// Where the message stands in the acknowledgment protocol.
    pub closed spec fn ack_state(&self) -> AckState {
        self.state
    }

    /// The id of the pool that issued the message's permit.
    pub closed spec fn spec_permit_pool(&self) -> u64 {
        self.permit.pool_id()
    }

    pub fn permit_pool(&self) -> (r: u64)
        ensures
            r == self.spec_permit_pool(),
    {
        self.permit.pool()
    }

    /// Wraps a freshly dequeued payload and the permit acquired for it.
    pub fn new(inner: M, permit: Permit) -> (r: ScopedMessage<M>)
        ensures
            r.payload() == inner,
            r.ack_state() == AckState::Pending,
            r.spec_permit_pool() == permit.pool_id(),
    {
        ScopedMessage { inner, state: AckState::Pending, permit }
    }

    /// Read-only access to the decoded payload.
    pub fn as_ref(&self) -> (r: &M)
        ensures
            *r == self.payload(),
    {
        &self.inner
    }

    pub fn state(&self) -> (r: AckState)
        ensures
            r == self.ack_state(),
    {
        self.state
    }

    pub fn is_finalized(&self) -> (r: bool)
        ensures
            r == (self.ack_state() != AckState::Pending),
    {
        self.state != AckState::Pending
    }

    fn finalize(&mut self, action: BrokerAction) -> (r: Result<BrokerAction, AlreadyFinalizedError>)
        ensures
            r == finalize_result(old(self).ack_state(), action),
            final(self).ack_state() == finalize_state(old(self).ack_state(), action),
            final(self).payload() == old(self).payload(),
            final(self).spec_permit_pool() == old(self).spec_permit_pool(),
    {
        match self.state {
            AckState::Pending => {
                self.state = match action {
                    BrokerAction::Ack => AckState::Acked,
                    BrokerAction::Nack => AckState::Nacked,
                    BrokerAction::Term => AckState::Terminated,
                };
                Ok(action)
            },
            _ => Err(AlreadyFinalizedError { state: self.state }),
        }
    }

    /// Acknowledges successful processing. The first finalization returns the
    /// broker action to perform; any later one fails and asks for none.
    pub fn ack(&mut self) -> (r: Result<BrokerAction, AlreadyFinalizedError>)
        ensures
            r == finalize_result(old(self).ack_state(), BrokerAction::Ack),
            final(self).ack_state() == finalize_state(old(self).ack_state(), BrokerAction::Ack),
            final(self).payload() == old(self).payload(),
            final(self).spec_permit_pool() == old(self).spec_permit_pool(),
    {
        self.finalize(BrokerAction::Ack)
    }

    /// Rejects the message so that the broker redelivers it soon; the same
    /// single-finalization rule as `ack`.
    pub fn nack(&mut self) -> (r: Result<BrokerAction, AlreadyFinalizedError>)
        ensures
            r == finalize_result(old(self).ack_state(), BrokerAction::Nack),
            final(self).ack_state() == finalize_state(old(self).ack_state(), BrokerAction::Nack),
            final(self).payload() == old(self).payload(),
            final(self).spec_permit_pool() == old(self).spec_permit_pool(),
    {
        self.finalize(BrokerAction::Nack)
    }

    /// Discards the message without success and without redelivery; the same
    /// single-finalization rule as `ack`.
    pub fn term(&mut self) -> (r: Result<BrokerAction, AlreadyFinalizedError>)
        ensures
            r == finalize_result(old(self).ack_state(), BrokerAction::Term),
            final(self).ack_state() == finalize_state(old(self).ack_state(), BrokerAction::Term),
            final(self).payload() == old(self).payload(),
            final(self).spec_permit_pool() == old(self).spec_permit_pool(),
    {
        self.finalize(BrokerAction::Term)
    }

    /// Returns the message to pending after the broker did not take the
    /// finalization that was asked of it, so that it can be finalized again
    /// (or abandoned and redelivered).
    pub fn reopen(&mut self)
        ensures
            final(self).ack_state() == AckState::Pending,
            final(self).payload() == old(self).payload(),
            final(self).spec_permit_pool() == old(self).spec_permit_pool(),
    {
        self.state = AckState::Pending;
    }

    /// Discards the message and hands its permit back to the pool that issued
    /// it, exactly once, whatever state it reached. The returned state is `Pending` when the message was
    /// abandoned, which leaves it to the broker's redelivery timeout.
    pub fn finish(self, pool: &mut PermitPool) -> (r: AckState)
        requires
            old(pool)@.in_use > 0,
            self.spec_permit_pool() == old(pool).spec_id(),
        ensures
            r == self.ack_state(),
            final(pool)@ == release_step(old(pool)@),
            final(pool).spec_id() == old(pool).spec_id(),
    {
        let ScopedMessage { inner: _, state, permit } = self;
        pool.release(permit);
        state
    }
}

/// A message is finalized at most once: of any sequence of ack, nack and term
/// calls on a pending message, exactly the first performs a broker action,
/// and the state it sets is never changed by the later ones.
pub proof fn lemma_single_finalization(attempts: Seq<BrokerAction>)
    ensures
        broker_actions(AckState::Pending, attempts) == if attempts.len() == 0 {
            0nat
        } else {
            1nat
        },
        attempts.len() > 0 ==> finalize_all(AckState::Pending, attempts) == finalized_state(
            attempts[0],
        ),
    decreases attempts.len(),
{
    if attempts.len() > 0 {
        let rest = attempts.drop_last();
        lemma_single_finalization(rest);
        if rest.len() > 0 {
            assert(rest[0] == attempts[0]);
        }
    }
}

/// Finalizing again after any finalization fails, performs no broker action
/// and leaves the message as it was.
pub proof fn lemma_second_finalization_refused(first: BrokerAction, second: BrokerAction)
    ensures
        finalize_result(finalize_state(AckState::Pending, first), second) == Err::<
            BrokerAction,
            AlreadyFinalizedError,
        >(AlreadyFinalizedError { state: finalized_state(first) }),
        finalize_state(finalize_state(AckState::Pending, first), second) == finalized_state(first),
{
}

} // verus!
