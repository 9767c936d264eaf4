//! The operations of the bundle interface: their wire names, and for each the
//! call that carries it, a broadcast to every endpoint or a direct call to one
//! target.

use crate::broadcast::{BroadcastState, BroadcastableCall, CallError};
use crate::direct::{lemma_direct_call_hands_outcome_on, DirectCall, DirectState};
use crate::endpoints::{BuilderView, Endpoints, EndpointsBuilder};
use vstd::prelude::*;

verus! {

/// An operation of the bundle interface.
#[derive(Debug, Clone, Copy, PartialEq, Eq, Structural)]
pub enum Operation {
    /// Submits a bundle to every endpoint of a collection.
    SendBundle,
    /// Submits one private transaction.
    SendPrivateTransaction,
    /// Simulates a bundle against a block.
    CallBundle,
    /// Cancels a bundle that was submitted before.
    CancelBundle,
}

impl Operation {
    /// The method name of the operation on the wire.
    pub open spec fn wire_name(self) -> Seq<char> {
        match self {
            Operation::SendBundle => "eth_sendBundle"@,
            Operation::SendPrivateTransaction => "eth_sendPrivateTransaction"@,
            Operation::CallBundle => "eth_callBundle"@,
            Operation::CancelBundle => "eth_cancelBundle"@,
        }
    }

    /// Whether the operation is broadcast to the endpoints of a collection. The
    /// others go to a single target.
    pub open spec fn is_broadcast(self) -> bool {
        self == Operation::SendBundle
    }

    /// The number of transport calls that one use of the operation issues, given
    /// the number of endpoints in the collection: one to each endpoint for a
    /// broadcast, and exactly one otherwise.
    pub open spec fn invocations(self, endpoints: nat) -> nat {
        if self.is_broadcast() {
            endpoints
        } else {
            1
        }
    }

    /// The method name of the operation on the wire.
    pub fn method(self) -> (name: &'static str)
        ensures
            name@ == self.wire_name(),
    {
        match self {
            Operation::SendBundle => "eth_sendBundle",
            Operation::SendPrivateTransaction => "eth_sendPrivateTransaction",
            Operation::CallBundle => "eth_callBundle",
            Operation::CancelBundle => "eth_cancelBundle",
        }
    }

    /// Whether the operation is broadcast to the endpoints of a collection.
    pub fn broadcasts(self) -> (b: bool)
        ensures
            b == self.is_broadcast(),
    {
        match self {
            Operation::SendBundle => true,
            _ => false,
        }
    }
}

/// Submits a bundle: the method to call, and a broadcast to every endpoint of
/// the collection, not yet dispatched.
pub fn send_eth_bundle<'a, C, Q, R, E>(endpoints: &'a Endpoints<C>, bundle: &'a Q) -> (plan: (
    &'static str,
    BroadcastableCall<'a, C, Q, R, E>,
))
    ensures
        plan.0@ == Operation::SendBundle.wire_name(),
        plan.1@ == BroadcastState::<R, E>::fresh(endpoints@.len()),
        plan.1.targets() == endpoints@,
        plan.1.payload() == *bundle,
        plan.1@.dispatches().len() == Operation::SendBundle.invocations(endpoints@.len()),
{
    (Operation::SendBundle.method(), BroadcastableCall::new(endpoints, bundle))
}

/// Submits one private transaction: the method to call, and a direct call that
/// carries the request, not yet dispatched.
pub fn send_eth_private_transaction<Q, R, E>(request: Q) -> (plan: (
    &'static str,
    DirectCall<Q, R, E>,
))
    ensures
        plan.0@ == Operation::SendPrivateTransaction.wire_name(),
        plan.1@ == DirectState::<Q, R, E>::Ready(request),
{
    (Operation::SendPrivateTransaction.method(), DirectCall::new(request))
}

/// Simulates a bundle: the method to call, and a direct call that carries the
/// bundle, not yet dispatched.
pub fn call_eth_bundle<Q, R, E>(bundle: Q) -> (plan: (&'static str, DirectCall<Q, R, E>))
    ensures
        plan.0@ == Operation::CallBundle.wire_name(),
        plan.1@ == DirectState::<Q, R, E>::Ready(bundle),
{
    (Operation::CallBundle.method(), DirectCall::new(bundle))
}

/// Cancels a bundle: the method to call, and a direct call that carries the
/// request, not yet dispatched.
pub fn cancel_eth_bundle<Q, R, E>(request: Q) -> (plan: (&'static str, DirectCall<Q, R, E>))
    ensures
        plan.0@ == Operation::CancelBundle.wire_name(),
        plan.1@ == DirectState::<Q, R, E>::Ready(request),
{
    (Operation::CancelBundle.method(), DirectCall::new(request))
}

/// A builder of endpoint collections whose endpoints are reached through copies
/// of the given transport.
pub fn endpoints_builder<C: Clone>(transport: C) -> (builder: EndpointsBuilder<C>)
    ensures
        builder@ == (BuilderView { default_transport: Some(transport), pending: Seq::empty() }),
{
    EndpointsBuilder::new(Some(transport))
}

/// An operation other than the submission of a bundle goes to a single target:
/// it issues exactly one transport call, whatever the collection of endpoints
/// holds, that call carries the request it was given, and the outcome of the
/// call, success or failure, is handed on as the transport gave it.
pub proof fn lemma_single_target_operation<Q, R, E>(
    operation: Operation,
    endpoints: nat,
    request: Q,
    outcome: Result<R, E>,
)
    requires
        !operation.is_broadcast(),
    ensures
        operation == Operation::SendPrivateTransaction || operation == Operation::CallBundle
            || operation == Operation::CancelBundle,
        operation.invocations(endpoints) == 1,
        DirectState::<Q, R, E>::Ready(request).dispatches() == operation.invocations(endpoints),
        DirectState::<Q, R, E>::Ready(request).dispatched() == Ok::<Q, CallError>(request),
        DirectState::<Q, R, E>::Ready(request).dispatch().dispatches() == 0,
        DirectState::<Q, R, E>::Ready(request).dispatch().settle(outcome) == DirectState::<
            Q,
            R,
            E,
        >::Settled(outcome),
{
    lemma_direct_call_hands_outcome_on::<Q, R, E>(request, outcome);
}

/// The submission of a bundle issues one transport call for each endpoint of
/// the collection, and none over an empty collection.
pub proof fn lemma_broadcast_operation<R, E>(endpoints: nat)
    ensures
        Operation::SendBundle.is_broadcast(),
        Operation::SendBundle.invocations(endpoints) == endpoints,
        BroadcastState::<R, E>::fresh(endpoints).dispatches().len()
            == Operation::SendBundle.invocations(endpoints),
{
}

} // verus!
