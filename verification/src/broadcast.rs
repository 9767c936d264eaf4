//! The broadcast call: one request, dispatched to every endpoint of a collection
//! at once, with the outcomes collected in the order of the endpoints.
//!
//! The call is a state machine. The caller performs the transport work and tells
//! the machine what happened: [`BroadcastableCall::start`] names the calls to put
//! in flight, [`BroadcastableCall::settle`] records the outcome of one of them, in
//! whatever order the calls complete, and [`BroadcastableCall::finish`] hands out
//! the outcomes once every call has settled.

use crate::endpoints::{Endpoint, EndpointView, Endpoints};
use vstd::prelude::*;

verus! {

/// A step that the state of a call does not allow.
#[derive(Debug, Clone, Copy, PartialEq, Eq, Structural)]
pub enum CallError {
    /// The call was dispatched before; nothing is dispatched twice.
    AlreadyDispatched,
    /// An outcome was reported before the call was dispatched.
    NotDispatched,
    /// An outcome was reported for a position beyond the last endpoint.
    UnknownEndpoint,
    /// An outcome was reported for a call that has settled already.
    AlreadySettled,
}

/// The number of slots that hold no outcome yet.
pub open spec fn empty_slots<T>(slots: Seq<Option<T>>) -> nat
    decreases slots.len(),
{
    if slots.len() == 0 {
        0
    } else {
        empty_slots(slots.drop_last()) + if slots.last() is None {
            1nat
        } else {
            0nat
        }
    }
}

/// The state of a broadcast call: whether its calls are in flight, and one slot
/// per endpoint, in the order of the endpoints, empty until that endpoint's call
/// has settled.
pub struct BroadcastState<R, E> {
    pub dispatched: bool,
    pub slots: Seq<Option<Result<R, E>>>,
}

impl<R, E> BroadcastState<R, E> {
    /// The state of a call over `n` endpoints before anything is dispatched.
    pub open spec fn fresh(n: nat) -> Self {
        BroadcastState { dispatched: false, slots: Seq::new(n, |i: int| None) }
    }

    /// The number of endpoints the call goes to.
    pub open spec fn len(self) -> nat {
        self.slots.len()
    }

    /// The number of calls that have not settled.
    pub open spec fn outstanding(self) -> nat {
        empty_slots(self.slots)
    }

    /// Whether every call has settled.
    pub open spec fn is_settled(self) -> bool {
        forall|i: int| 0 <= i < self.slots.len() ==> (#[trigger] self.slots[i]) is Some
    }

    /// The positions of the calls that dispatching puts in flight: every endpoint
    /// once, in order, and none where the call was dispatched before.
    pub open spec fn dispatches(self) -> Seq<usize> {
        if self.dispatched {
            Seq::empty()
        } else {
            Seq::new(self.slots.len(), |i: int| i as usize)
        }
    }

    /// The state after dispatching.
    pub open spec fn dispatch(self) -> Self {
        BroadcastState { dispatched: true, slots: self.slots }
    }

    /// Why an outcome for the call at `index` is refused, if it is.
    pub open spec fn refusal(self, index: int) -> Option<CallError> {
        if !self.dispatched {
            Some(CallError::NotDispatched)
        } else if !(0 <= index < self.slots.len()) {
            Some(CallError::UnknownEndpoint)
        } else if self.slots[index] is Some {
            Some(CallError::AlreadySettled)
        } else {
            None
        }
    }

    /// The state after the call at `index` has settled with `outcome`. A refused
    /// outcome changes nothing.
    pub open spec fn settle(self, index: int, outcome: Result<R, E>) -> Self {
        if self.refusal(index) is None {
            BroadcastState { dispatched: true, slots: self.slots.update(index, Some(outcome)) }
        } else {
            self
        }
    }

    /// The state after a sequence of calls has settled, one after the other.
    pub open spec fn settle_all(self, events: Seq<(int, Result<R, E>)>) -> Self
        decreases events.len(),
    {
        if events.len() == 0 {
            self
        } else {
            self.settle_all(events.drop_last()).settle(events.last().0, events.last().1)
        }
    }

    /// The outcomes in the order of the endpoints. It is meant for a settled call.
    pub open spec fn outcomes(self) -> Seq<Result<R, E>> {
        Seq::new(self.slots.len(), |i: int| self.slots[i]->Some_0)
    }
}

/// A sequence of slots that are all empty has as many empty slots as it is long.
proof fn lemma_empty_slots_of_fresh<T>(n: nat)
    ensures
        empty_slots(Seq::new(n, |i: int| None::<T>)) == n,
    decreases n,
{
    if n > 0 {
        lemma_empty_slots_of_fresh::<T>((n - 1) as nat);
        assert(Seq::new(n, |i: int| None::<T>).drop_last() =~= Seq::new(
            (n - 1) as nat,
            |i: int| None::<T>,
        ));
    }
}

/// Filling an empty slot leaves one empty slot fewer.
proof fn lemma_empty_slots_after_fill<T>(slots: Seq<Option<T>>, index: int, value: T)
    requires
        0 <= index < slots.len(),
        slots[index] is None,
    ensures
        empty_slots(slots) >= 1,
        empty_slots(slots.update(index, Some(value))) == empty_slots(slots) - 1,
    decreases slots.len(),
{
    let filled = slots.update(index, Some(value));
    if index == slots.len() - 1 {
        assert(filled.drop_last() =~= slots.drop_last());
    } else {
        lemma_empty_slots_after_fill(slots.drop_last(), index, value);
        assert(filled.drop_last() =~= slots.drop_last().update(index, Some(value)));
    }
}

/// No slot is empty exactly when every slot holds an outcome.
proof fn lemma_empty_slots_zero<T>(slots: Seq<Option<T>>)
    ensures
        empty_slots(slots) == 0 <==> forall|i: int|
            0 <= i < slots.len() ==> (#[trigger] slots[i]) is Some,
        empty_slots(slots) <= slots.len(),
    decreases slots.len(),
{
    if slots.len() > 0 {
        lemma_empty_slots_zero(slots.drop_last());
        if empty_slots(slots) == 0 {
            assert forall|i: int| 0 <= i < slots.len() implies (#[trigger] slots[i]) is Some by {
                if i < slots.len() - 1 {
                    assert(slots.drop_last()[i] is Some);
                }
            }
        } else if slots.last() is Some {
            let i = choose|i: int|
                0 <= i < slots.drop_last().len() && !((#[trigger] slots.drop_last()[i]) is Some);
            assert(!(slots[i] is Some));
        }
    }
}

/// One call of a broadcast, as the caller is to put it in flight: the request,
/// bound to one endpoint, and the position under which its outcome is reported.
#[derive(Debug)]
pub struct Dispatch<'a, C, Q> {
    /// The position of the endpoint in the collection.
    pub index: usize,
    /// The endpoint that the call goes to.
    pub endpoint: &'a Endpoint<C>,
    /// The request, the same for every endpoint.
    pub request: &'a Q,
}

impl<'a, C, Q> Dispatch<'a, C, Q> {
    /// Whether this is the call that carries `request` to the endpoint at
    /// `position` of `endpoints`.
    pub open spec fn is_bound(
        self,
        position: int,
        endpoints: Seq<EndpointView<C>>,
        request: Q,
    ) -> bool {
        &&& self.index == position
        &&& self.endpoint@ == endpoints[position]
        &&& *self.request == request
    }
}

/// Whether `plan` holds one call for each of `endpoints`, in their order, and
/// each of them carries `request`.
pub open spec fn is_dispatch_plan<C, Q>(
    plan: Seq<Dispatch<'_, C, Q>>,
    endpoints: Seq<EndpointView<C>>,
    request: Q,
) -> bool {
    &&& plan.len() == endpoints.len()
    &&& forall|i: int| 0 <= i < plan.len() ==> (#[trigger] plan[i]).is_bound(i, endpoints, request)
}

/// The slot of one endpoint: the endpoint, and the outcome of the call to it
/// once that call has settled.
#[derive(Debug)]
struct Slot<'a, C, R, E> {
    endpoint: &'a Endpoint<C>,
    outcome: Option<Result<R, E>>,
}

/// A broadcast of one request to the endpoints of a collection.
///
/// `Q` is the request, `R` is what an endpoint answers and `E` is the transport's
/// error: an outcome is an answer or an error, and a failed call is an outcome
/// like any other. The call borrows the endpoints and the request, so neither
/// changes while the call lives, and it changes neither.
#[derive(Debug)]
pub struct BroadcastableCall<'a, C, Q, R, E> {
    request: &'a Q,
    dispatched: bool,
    slots: Vec<Slot<'a, C, R, E>>,
    outstanding: usize,
}

impl<'a, C, Q, R, E> View for BroadcastableCall<'a, C, Q, R, E> {
    type V = BroadcastState<R, E>;

    closed spec fn view(&self) -> BroadcastState<R, E> {
        BroadcastState {
            dispatched: self.dispatched,
            slots: self.slots@.map_values(|slot: Slot<'a, C, R, E>| slot.outcome),
        }
    }
}

impl<'a, C, Q, R, E> BroadcastableCall<'a, C, Q, R, E> {
    #[verifier::type_invariant]
    spec fn counted(self) -> bool {
        self.outstanding == empty_slots(self@.slots)
    }

    /// The endpoints that the call goes to, in their order.
    pub closed spec fn targets(self) -> Seq<EndpointView<C>> {
        self.slots@.map_values(|slot: Slot<'a, C, R, E>| slot.endpoint@)
    }

    /// The request that the call carries.
    pub closed spec fn payload(self) -> Q {
        *self.request
    }

    /// A call that carries `request` to every endpoint of the collection.
    /// Nothing is dispatched yet, and no outcome is known.
    pub fn new(endpoints: &'a Endpoints<C>, request: &'a Q) -> (call: Self)
        ensures
            call@ == BroadcastState::<R, E>::fresh(endpoints@.len()),
            call.targets() == endpoints@,
            call.payload() == *request,
    {
        let n: usize = endpoints.len();
        let mut slots: Vec<Slot<'a, C, R, E>> = Vec::new();
        let mut i: usize = 0;
        while i < n
            invariant
                i <= n,
                n == endpoints@.len(),
                slots@.len() == i,
                forall|k: int|
                    0 <= k < i ==> (#[trigger] slots@[k]).endpoint@ == endpoints@[k] && slots@[k].outcome
                        is None,
            decreases n - i,
        {
            let endpoint = endpoints.get(i).unwrap();
            slots.push(Slot { endpoint, outcome: None });
            i = i + 1;
        }
        proof {
            lemma_empty_slots_of_fresh::<Result<R, E>>(n as nat);
            assert(slots@.map_values(|slot: Slot<'a, C, R, E>| slot.outcome) =~= Seq::new(
                n as nat,
                |k: int| None,
            ));
        }
        BroadcastableCall { request, dispatched: false, slots, outstanding: n }
    }

    /// A call for a request that was to be prepared beforehand. Where the request
    /// could not be prepared, the broadcast fails as a whole with that failure,
    /// once, and there is no call to dispatch.
    pub fn prepare<F>(endpoints: &'a Endpoints<C>, request: Result<&'a Q, F>) -> (r: Result<
        Self,
        F,
    >)
        ensures
            match request {
                Ok(q) => r matches Ok(call) && call@ == BroadcastState::<R, E>::fresh(
                    endpoints@.len(),
                ) && call.targets() == endpoints@ && call.payload() == *q,
                Err(f) => r matches Err(failure) && failure == f,
            },
    {
        match request {
            Ok(q) => Ok(Self::new(endpoints, q)),
            Err(f) => Err(f),
        }
    }

    /// The number of endpoints the call goes to.
    pub fn len(&self) -> (n: usize)
        ensures
            n == self@.len(),
            n == self.targets().len(),
    {
        self.slots.len()
    }

    /// The request that the call carries.
    pub fn request(&self) -> (q: &'a Q)
        ensures
            *q == self.payload(),
    {
        self.request
    }

    /// Whether the calls have been dispatched.
    pub fn is_dispatched(&self) -> (b: bool)
        ensures
            b == self@.dispatched,
    {
        self.dispatched
    }

    /// The number of calls that have not settled.
    pub fn outstanding(&self) -> (n: usize)
        ensures
            n == self@.outstanding(),
    {
        proof {
            use_type_invariant(self);
        }
        self.outstanding
    }

    /// Whether every call has settled. A call over no endpoint is settled from
    /// the beginning.
    pub fn is_settled(&self) -> (b: bool)
        ensures
            b == self@.is_settled(),
    {
        proof {
            use_type_invariant(self);
            lemma_empty_slots_zero(self@.slots);
        }
        self.outstanding == 0
    }

    /// Dispatches the call: hands out one call for every endpoint, in the order
    /// of the endpoints and all of them together, for the caller to put in flight
    /// without waiting for any of them. Each carries the same request and is
    /// bound to the endpoint at its position. It is refused, and nothing changes,
    /// where the call was dispatched before.
    pub fn start(&mut self) -> (r: Result<Vec<Dispatch<'a, C, Q>>, CallError>)
        ensures
            final(self).targets() == old(self).targets(),
            final(self).payload() == old(self).payload(),
            match r {
                Ok(plan) => {
                    &&& !old(self)@.dispatched
                    &&& final(self)@ == old(self)@.dispatch()
                    &&& is_dispatch_plan(plan@, old(self).targets(), old(self).payload())
                    &&& plan@.len() == old(self)@.dispatches().len()
                },
                Err(e) => {
                    &&& old(self)@.dispatched
                    &&& e == CallError::AlreadyDispatched
                    &&& final(self)@ == old(self)@
                },
            },
    {
        proof {
            use_type_invariant(&*self);
        }
        if self.dispatched {
            return Err(CallError::AlreadyDispatched);
        }
        let request = self.request;
        let n: usize = self.slots.len();
        let mut plan: Vec<Dispatch<'a, C, Q>> = Vec::new();
        let mut i: usize = 0;
        while i < n
            invariant
                i <= n,
                n == self.slots@.len(),
                request == self.request,
                plan@.len() == i,
                forall|k: int|
                    0 <= k < i ==> (#[trigger] plan@[k]).is_bound(k, self.targets(), *request),
            decreases n - i,
        {
            let endpoint = self.slots[i].endpoint;
            plan.push(Dispatch { index: i, endpoint, request });
            i = i + 1;
        }
        self.dispatched = true;
        Ok(plan)
    }

    /// Records the outcome of the call to the endpoint at `index`. The outcome
    /// goes into the slot of that endpoint, whichever calls settled before it.
    /// It is refused, and nothing changes, before the call is dispatched, for a
    /// position beyond the last endpoint, and for a call that settled before.
    pub fn settle(&mut self, index: usize, outcome: Result<R, E>) -> (r: Result<(), CallError>)
        ensures
            match old(self)@.refusal(index as int) {
                Some(e) => r == Err::<(), CallError>(e),
                None => r is Ok,
            },
            final(self)@ == old(self)@.settle(index as int, outcome),
            final(self).targets() == old(self).targets(),
            final(self).payload() == old(self).payload(),
    {
        proof {
            use_type_invariant(&*self);
        }
        if !self.dispatched {
            return Err(CallError::NotDispatched);
        }
        if index >= self.slots.len() {
            return Err(CallError::UnknownEndpoint);
        }
        if self.slots[index].outcome.is_some() {
            return Err(CallError::AlreadySettled);
        }
        proof {
            lemma_empty_slots_after_fill(self@.slots, index as int, outcome);
        }
        // The slot and the count change together: the call is taken out of
        // its place, changed, and put back whole.
        let mut call = BroadcastableCall {
            request: self.request,
            dispatched: false,
            slots: Vec::new(),
            outstanding: 0,
        };
        std::mem::swap(self, &mut call);
        let BroadcastableCall { request, dispatched, mut slots, outstanding } = call;
        let endpoint = slots[index].endpoint;
        slots.set(index, Slot { endpoint, outcome: Some(outcome) });
        proof {
            assert(slots@.map_values(|slot: Slot<'a, C, R, E>| slot.outcome) =~= old(
                self,
            )@.slots.update(index as int, Some(outcome)));
            assert(slots@.map_values(|slot: Slot<'a, C, R, E>| slot.endpoint@) =~= old(
                self,
            ).targets());
        }
        *self = BroadcastableCall { request, dispatched, slots, outstanding: outstanding - 1 };
        Ok(())
    }

    /// The outcome recorded for the endpoint at `index`, if its call has settled.
    pub fn outcome(&self, index: usize) -> (o: Option<&Result<R, E>>)
        ensures
            match o {
                Some(outcome) => index < self@.len() && self@.slots[index as int] == Some(
                    *outcome,
                ),
                None => index >= self@.len() || self@.slots[index as int] is None,
            },
    {
        if index < self.slots.len() {
            self.slots[index].outcome.as_ref()
        } else {
            None
        }
    }

    /// Ends the call. Once every call has settled it hands out the outcomes, one
    /// per endpoint and in the order of the endpoints. Before that it hands the
    /// call back unchanged.
    pub fn finish(self) -> (r: Result<Vec<Result<R, E>>, Self>)
        ensures
            match r {
                Ok(outcomes) => {
                    &&& self@.is_settled()
                    &&& outcomes@ == self@.outcomes()
                    &&& outcomes@.len() == self.targets().len()
                },
                Err(call) => {
                    &&& !self@.is_settled()
                    &&& call@ == self@
                    &&& call.targets() == self.targets()
                    &&& call.payload() == self.payload()
                },
            },
    {
        proof {
            use_type_invariant(&self);
            lemma_empty_slots_zero(self@.slots);
        }
        if self.outstanding != 0 {
            return Err(self);
        }
        // The outcomes are moved out of the slots from the last to the first,
        // and then turned into the order of the endpoints.
        let ghost settled = self@.slots;
        let mut slots = self.slots;
        let mut reversed: Vec<Result<R, E>> = Vec::new();
        while slots.len() > 0
            invariant
                slots@.len() + reversed@.len() == settled.len(),
                forall|i: int| 0 <= i < slots@.len() ==> (#[trigger] slots@[i]).outcome == settled[i],
                forall|i: int| 0 <= i < settled.len() ==> (#[trigger] settled[i]) is Some,
                forall|k: int|
                    0 <= k < reversed@.len() ==> Some(#[trigger] reversed@[k]) == settled[settled.len()
                        - 1 - k],
            decreases slots@.len(),
        {
            let slot = slots.pop().unwrap();
            reversed.push(slot.outcome.unwrap());
        }
        let ghost turned = reversed@;
        let mut outcomes: Vec<Result<R, E>> = Vec::new();
        while reversed.len() > 0
            invariant
                reversed@ =~= turned.subrange(0, reversed@.len() as int),
                reversed@.len() + outcomes@.len() == turned.len(),
                forall|k: int|
                    0 <= k < outcomes@.len() ==> #[trigger] outcomes@[k] == turned[turned.len() - 1
                        - k],
            decreases reversed@.len(),
        {
            let outcome = reversed.pop().unwrap();
            outcomes.push(outcome);
        }
        Ok(outcomes)
    }
}

/// The completions of a broadcast in which the calls settle in the order that
/// `order` gives: the `k`-th to settle is the call to endpoint `order[k]`, and it
/// settles with that endpoint's result.
pub open spec fn completions<R, E>(results: Seq<Result<R, E>>, order: Seq<int>) -> Seq<
    (int, Result<R, E>),
> {
    Seq::new(order.len(), |k: int| (order[k], results[order[k]]))
}

/// Whether `order` is an order in which the calls to `n` endpoints can complete:
/// it names `n` positions, each of them an endpoint, and none of them twice.
pub open spec fn is_completion_order(order: Seq<int>, n: nat) -> bool {
    &&& order.len() == n
    &&& forall|k: int| 0 <= k < order.len() ==> 0 <= #[trigger] order[k] < n
    &&& forall|j: int, k: int| 0 <= j < k < order.len() ==> order[j] != order[k]
}

/// The state of a dispatched call after the first `k` completions.
proof fn lemma_after_completions<R, E>(results: Seq<Result<R, E>>, order: Seq<int>, k: int)
    requires
        is_completion_order(order, results.len()),
        0 <= k <= order.len(),
    ensures
        ({
            let state = BroadcastState::<R, E>::fresh(results.len()).dispatch().settle_all(
                completions(results, order).take(k),
            );
            &&& state.dispatched
            &&& state.slots.len() == results.len()
            &&& state.outstanding() == results.len() - k
            &&& forall|i: int|
                0 <= i < results.len() && (#[trigger] state.slots[i]) is Some ==> state.slots[i]
                    == Some(results[i])
            &&& forall|i: int|
                0 <= i < results.len() && (forall|j: int| 0 <= j < k ==> order[j] != i)
                    ==> (#[trigger] state.slots[i]) is None
        }),
    decreases k,
{
    let n = results.len();
    let begun = BroadcastState::<R, E>::fresh(n).dispatch();
    let events = completions(results, order);
    if k == 0 {
        lemma_empty_slots_of_fresh::<Result<R, E>>(n);
    } else {
        // The state before the `k`-th completion, by induction.
        lemma_after_completions(results, order, k - 1);
        let before = begun.settle_all(events.take(k - 1));
        assert(events.take(k).drop_last() =~= events.take(k - 1));
        // The call that completes now has not completed before, so its slot is
        // empty and the outcome is taken.
        let index = order[k - 1];
        assert(before.slots[index] is None);
        lemma_empty_slots_after_fill(before.slots, index, results[index]);
        let after = before.settle(index, results[index]);
        assert(begun.settle_all(events.take(k)) == after);
        assert forall|i: int|
            0 <= i < n && (forall|j: int| 0 <= j < k ==> order[j] != i) implies (
        #[trigger] after.slots[i]) is None by {
            assert(order[k - 1] != i);
            assert(before.slots[i] is None);
        }
    }
}

/// The outcomes of a broadcast follow the order of the endpoints, not the order
/// in which the calls complete: when every call has settled, once and in any
/// order, the call is settled and its outcome list is the list of the endpoints'
/// results, one for each endpoint and each at the position of its endpoint.
pub proof fn lemma_outcomes_follow_endpoints<R, E>(results: Seq<Result<R, E>>, order: Seq<int>)
    requires
        is_completion_order(order, results.len()),
    ensures
        ({
            let state = BroadcastState::<R, E>::fresh(results.len()).dispatch().settle_all(
                completions(results, order),
            );
            &&& state.is_settled()
            &&& state.outstanding() == 0
            &&& state.outcomes().len() == results.len()
            &&& state.outcomes() == results
        }),
{
    let events = completions(results, order);
    lemma_after_completions(results, order, order.len() as int);
    assert(events.take(order.len() as int) =~= events);
    let state = BroadcastState::<R, E>::fresh(results.len()).dispatch().settle_all(events);
    // No call is outstanding, so every slot is filled, and a filled slot holds
    // the result of its own endpoint.
    lemma_empty_slots_zero(state.slots);
    assert(state.outcomes() =~= results);
}

/// A broadcast leaves nothing behind in the collection or in another broadcast:
/// two broadcasts over the same endpoints, whose calls settle with different
/// results and in different orders, each end with their own results.
pub proof fn lemma_broadcasts_are_independent<R, E>(
    first: Seq<Result<R, E>>,
    first_order: Seq<int>,
    second: Seq<Result<R, E>>,
    second_order: Seq<int>,
)
    requires
        first.len() == second.len(),
        is_completion_order(first_order, first.len()),
        is_completion_order(second_order, second.len()),
    ensures
        BroadcastState::<R, E>::fresh(first.len()) == BroadcastState::<R, E>::fresh(second.len()),
        BroadcastState::<R, E>::fresh(first.len()).dispatch().settle_all(
            completions(first, first_order),
        ).outcomes() == first,
        BroadcastState::<R, E>::fresh(second.len()).dispatch().settle_all(
            completions(second, second_order),
        ).outcomes() == second,
{
    lemma_outcomes_follow_endpoints(first, first_order);
    lemma_outcomes_follow_endpoints(second, second_order);
}

/// A failure stays with its endpoint: where the call to one endpoint fails and
/// the calls to all the others succeed, the outcome list holds the failure at the
/// position of that endpoint and every other endpoint's answer at its own.
pub proof fn lemma_failure_is_isolated<R, E>(
    results: Seq<Result<R, E>>,
    order: Seq<int>,
    failed: int,
)
    requires
        is_completion_order(order, results.len()),
        0 <= failed < results.len(),
        results[failed] is Err,
        forall|i: int| 0 <= i < results.len() && i != failed ==> (#[trigger] results[i]) is Ok,
    ensures
        ({
            let outcomes = BroadcastState::<R, E>::fresh(results.len()).dispatch().settle_all(
                completions(results, order),
            ).outcomes();
            &&& outcomes.len() == results.len()
            &&& outcomes[failed] == results[failed]
            &&& forall|i: int|
                0 <= i < outcomes.len() ==> ((#[trigger] outcomes[i]) is Err <==> i == failed)
            &&& forall|i: int|
                0 <= i < outcomes.len() && i != failed ==> #[trigger] outcomes[i] == results[i]
        }),
{
    lemma_outcomes_follow_endpoints(results, order);
}

/// Whatever is reported to a call, in whatever order and however often, the
/// call keeps one slot for each endpoint, and an outcome that was recorded stays
/// as it was recorded: no later report replaces or removes it.
pub proof fn lemma_recorded_outcomes_stay<R, E>(
    state: BroadcastState<R, E>,
    events: Seq<(int, Result<R, E>)>,
)
    ensures
        state.settle_all(events).len() == state.len(),
        state.dispatched ==> state.settle_all(events).dispatched,
        forall|i: int|
            0 <= i < state.len() && (#[trigger] state.slots[i]) is Some ==> state.settle_all(
                events,
            ).slots[i] == state.slots[i],
    decreases events.len(),
{
    if events.len() > 0 {
        lemma_recorded_outcomes_stay(state, events.drop_last());
    }
}

/// A broadcast over no endpoint dispatches no call, is settled from the
/// beginning, and its outcome list is empty.
pub proof fn lemma_empty_broadcast<R, E>()
    ensures
        BroadcastState::<R, E>::fresh(0).dispatches() == Seq::<usize>::empty(),
        BroadcastState::<R, E>::fresh(0).is_settled(),
        BroadcastState::<R, E>::fresh(0).outstanding() == 0,
        BroadcastState::<R, E>::fresh(0).outcomes() == Seq::<Result<R, E>>::empty(),
{
}

} // verus!
