//! The direct call: one request to the single target of an operation that is not
//! broadcast.

use crate::broadcast::{BroadcastState, CallError};
use vstd::prelude::*;

verus! {

/// The state of a direct call.
#[derive(Debug)]
pub enum DirectState<Q, R, E> {
    /// Nothing is dispatched yet. The call holds the request.
    Ready(Q),
    /// The request was handed to the transport, and the call is in flight.
    InFlight,
    /// The call has settled with this outcome.
    Settled(Result<R, E>),
}

impl<Q, R, E> DirectState<Q, R, E> {
    /// The number of transport calls that dispatching puts in flight: one, and
    /// none where the call was dispatched before.
    pub open spec fn dispatches(self) -> nat {
        if self is Ready {
            1
        } else {
            0
        }
    }

    /// What dispatching hands to the transport: the request, or the reason why
    /// the dispatch is refused.
    pub open spec fn dispatched(self) -> Result<Q, CallError> {
        match self {
            DirectState::Ready(request) => Ok(request),
            _ => Err(CallError::AlreadyDispatched),
        }
    }

    /// The state after dispatching. A refused dispatch changes nothing.
    pub open spec fn dispatch(self) -> Self {
        if self is Ready {
            DirectState::InFlight
        } else {
            self
        }
    }

    /// Why an outcome is refused, if it is.
    pub open spec fn refusal(self) -> Option<CallError> {
        match self {
            DirectState::Ready(_) => Some(CallError::NotDispatched),
            DirectState::InFlight => None,
            DirectState::Settled(_) => Some(CallError::AlreadySettled),
        }
    }

    /// The state after the call has settled with `outcome`. A refused outcome
    /// changes nothing.
    pub open spec fn settle(self, outcome: Result<R, E>) -> Self {
        if self is InFlight {
            DirectState::Settled(outcome)
        } else {
            self
        }
    }
}

/// A call to one target. Its request goes to the transport once, it settles
/// once, and its outcome is handed on as the transport gave it.
#[derive(Debug)]
pub struct DirectCall<Q, R, E> {
    state: DirectState<Q, R, E>,
}

impl<Q, R, E> View for DirectCall<Q, R, E> {
    type V = DirectState<Q, R, E>;

    closed spec fn view(&self) -> DirectState<Q, R, E> {
        self.state
    }
}

impl<Q, R, E> DirectCall<Q, R, E> {
    /// A call that carries `request` and is not dispatched yet.
    pub fn new(request: Q) -> (call: Self)
        ensures
            call@ == DirectState::<Q, R, E>::Ready(request),
    {
        DirectCall { state: DirectState::Ready(request) }
    }

    /// Dispatches the call: hands out the request for the caller to put exactly
    /// one transport call in flight. It is refused, and nothing changes, where
    /// the call was dispatched before.
    pub fn start(&mut self) -> (r: Result<Q, CallError>)
        ensures
            r == old(self)@.dispatched(),
            final(self)@ == old(self)@.dispatch(),
    {
        let mut state = DirectState::InFlight;
        std::mem::swap(&mut self.state, &mut state);
        match state {
            DirectState::Ready(request) => Ok(request),
            other => {
                self.state = other;
                Err(CallError::AlreadyDispatched)
            },
        }
    }

    /// Records the outcome of the call. It is refused, and nothing changes,
    /// before the call is dispatched and after it has settled.
    pub fn settle(&mut self, outcome: Result<R, E>) -> (r: Result<(), CallError>)
        ensures
            match old(self)@.refusal() {
                Some(e) => r == Err::<(), CallError>(e),
                None => r is Ok,
            },
            final(self)@ == old(self)@.settle(outcome),
    {
        match &self.state {
            DirectState::Ready(_) => Err(CallError::NotDispatched),
            DirectState::InFlight => {
                self.state = DirectState::Settled(outcome);
                Ok(())
            },
            DirectState::Settled(_) => Err(CallError::AlreadySettled),
        }
    }

    /// Whether the call has settled.
    pub fn is_settled(&self) -> (b: bool)
        ensures
            b == (self@ is Settled),
    {
        match &self.state {
            DirectState::Settled(_) => true,
            _ => false,
        }
    }

    /// Ends the call. Once it has settled it hands out the outcome, success or
    /// failure, as it was recorded. Before that it hands the call back unchanged.
    pub fn finish(self) -> (r: Result<Result<R, E>, Self>)
        ensures
            match self@ {
                DirectState::Settled(outcome) => r == Ok::<Result<R, E>, Self>(outcome),
                _ => r matches Err(call) && call@ == self@,
            },
    {
        match self.state {
            DirectState::Settled(outcome) => Ok(outcome),
            state => Err(DirectCall { state }),
        }
    }
}

/// A direct call issues exactly one transport call and hands its outcome on
/// unchanged: a new call dispatches its request once and, once dispatched,
/// nothing again; whatever the transport answers, success or failure, is what
/// the settled call holds.
pub proof fn lemma_direct_call_hands_outcome_on<Q, R, E>(request: Q, outcome: Result<R, E>)
    ensures
        DirectState::<Q, R, E>::Ready(request).dispatches() == 1,
        DirectState::<Q, R, E>::Ready(request).dispatched() == Ok::<Q, CallError>(request),
        DirectState::<Q, R, E>::Ready(request).dispatch().dispatches() == 0,
        DirectState::<Q, R, E>::Ready(request).dispatch().dispatched() is Err,
        DirectState::<Q, R, E>::Ready(request).dispatch().refusal() is None,
        DirectState::<Q, R, E>::Ready(request).dispatch().settle(outcome) == DirectState::<
            Q,
            R,
            E,
        >::Settled(outcome),
        DirectState::<Q, R, E>::Ready(request).dispatch().settle(outcome).dispatches() == 0,
{
}

/// A broadcast over a single endpoint behaves as a direct call does: it
/// dispatches one call, and its outcome list holds the one outcome that the
/// direct call hands on.
pub proof fn lemma_single_endpoint_is_direct<Q, R, E>(request: Q, outcome: Result<R, E>)
    ensures
        BroadcastState::<R, E>::fresh(1).dispatches() == seq![0usize],
        BroadcastState::<R, E>::fresh(1).dispatches().len() == DirectState::<Q, R, E>::Ready(
            request,
        ).dispatches(),
        BroadcastState::<R, E>::fresh(1).dispatch().settle(0, outcome).is_settled(),
        BroadcastState::<R, E>::fresh(1).dispatch().settle(0, outcome).outcomes() == seq![outcome],
        DirectState::<Q, R, E>::Ready(request).dispatch().settle(outcome) == DirectState::<
            Q,
            R,
            E,
        >::Settled(outcome),
{
}

} // verus!
