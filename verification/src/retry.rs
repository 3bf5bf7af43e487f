//! What to do after each call to the exchange: deliver the answer, wait and
//! call again, hand a rejection to the caller, or give up.

use vstd::prelude::*;
use crate::api::{InternalRequestError, UpbitResponseError};
use crate::error::UPBitError;

verus! {

/// What one call came to.
#[derive(Clone, Copy, Debug, PartialEq, Eq, Structural)]
pub enum CallEvent {
    /// The exchange answered as expected.
    Answered,
    /// The exchange refused the call for the rate of calls.
    RateLimited,
    /// The answer could not be read.
    Malformed,
    /// The exchange rejected an order.
    TradeRejected,
    /// Anything else.
    Unexpected,
}

/// What the caller does next.
#[derive(Clone, Copy, Debug, PartialEq, Eq, Structural)]
pub enum NextAction {
    /// Hand the answer on.
    Deliver,
    /// Wait this many milliseconds and call again.
    RetryAfter(u64),
    /// Hand the rejection on to whoever asked for the order.
    Surface,
    /// Stop: the failure is fatal.
    Abort,
}

/// How a call is repeated.
#[derive(Clone, Copy, Debug, PartialEq, Eq, Structural)]
pub struct RetryPolicy {
    /// The wait before each repetition, in milliseconds.
    pub delay_ms: u64,
    /// How many repetitions are allowed, if their number is bounded.
    pub max_retries: Option<u32>,
}

/// How often a call has been repeated.
#[derive(Clone, Copy, Debug, PartialEq, Eq, Structural)]
pub struct RetryState {
    pub retries: u32,
}

/// Whether a call that ended in `event` is worth repeating.
pub open spec fn retryable(event: CallEvent) -> bool {
    event == CallEvent::RateLimited || event == CallEvent::Malformed
}

/// Whether the policy allows no further repetition in `state`.
pub open spec fn exhausted(policy: RetryPolicy, state: RetryState) -> bool {
    policy.max_retries matches Some(limit) && state.retries >= limit
}

/// The action after a call that ended in `event`.
pub open spec fn action_after(policy: RetryPolicy, state: RetryState, event: CallEvent) -> NextAction {
    match event {
        CallEvent::Answered => NextAction::Deliver,
        CallEvent::TradeRejected => NextAction::Surface,
        CallEvent::Unexpected => NextAction::Abort,
        CallEvent::RateLimited | CallEvent::Malformed => if exhausted(policy, state) {
            NextAction::Abort
        } else {
            NextAction::RetryAfter(policy.delay_ms)
        },
    }
}

/// The state after a call that ended in `event`: one repetition more where
/// the call is repeated.  The count stops at the largest number it can hold.
pub open spec fn state_after(policy: RetryPolicy, state: RetryState, event: CallEvent) -> RetryState {
    if retryable(event) && !exhausted(policy, state) && state.retries < u32::MAX {
        RetryState { retries: (state.retries + 1) as u32 }
    } else {
        state
    }
}

/// The state after the calls that ended in `events`, one after the other.
pub open spec fn state_after_all(policy: RetryPolicy, state: RetryState, events: Seq<CallEvent>) -> RetryState
    decreases events.len(),
{
    if events.len() == 0 {
        state
    } else {
        state_after(policy, state_after_all(policy, state, events.drop_last()), events.last())
    }
}

impl RetryPolicy {
    /// Repeat after `delay_ms` milliseconds, without end.
    pub fn unbounded(delay_ms: u64) -> (policy: RetryPolicy)
        ensures
            policy == (RetryPolicy { delay_ms, max_retries: None }),
    {
        RetryPolicy { delay_ms, max_retries: None }
    }

    /// Repeat after `delay_ms` milliseconds, at most `max_retries` times.
    pub fn bounded(delay_ms: u64, max_retries: u32) -> (policy: RetryPolicy)
        ensures
            policy == (RetryPolicy { delay_ms, max_retries: Some(max_retries) }),
    {
        RetryPolicy { delay_ms, max_retries: Some(max_retries) }
    }

    /// The policy for balance queries: every 200 milliseconds, 100 times.
    pub fn balances() -> (policy: RetryPolicy)
        ensures
            policy == (RetryPolicy { delay_ms: 200, max_retries: Some(100) }),
    {
        RetryPolicy::bounded(200, 100)
    }

    /// The policy for candle queries: every 100 milliseconds, without end.
    pub fn candles() -> (policy: RetryPolicy)
        ensures
            policy == (RetryPolicy { delay_ms: 100, max_retries: None }),
    {
        RetryPolicy::unbounded(100)
    }

    /// The action after a call that ended in `event`, and the state for the
    /// next call.
    pub fn step(&self, state: RetryState, event: CallEvent) -> (out: (RetryState, NextAction))
        ensures
            out.0 == state_after(*self, state, event),
            out.1 == action_after(*self, state, event),
    {
        match event {
            CallEvent::Answered => (state, NextAction::Deliver),
            CallEvent::TradeRejected => (state, NextAction::Surface),
            CallEvent::Unexpected => (state, NextAction::Abort),
            CallEvent::RateLimited | CallEvent::Malformed => {
                let spent: bool = match self.max_retries {
                    Some(limit) => state.retries >= limit,
                    None => false,
                };
                if spent {
                    (state, NextAction::Abort)
                } else if state.retries < u32::MAX {
                    (RetryState { retries: state.retries + 1 }, NextAction::RetryAfter(self.delay_ms))
                } else {
                    (state, NextAction::RetryAfter(self.delay_ms))
                }
            },
        }
    }
}

impl RetryState {
    /// The state before the first call.
    pub fn new() -> (state: RetryState)
        ensures
            state.retries == 0,
    {
        RetryState { retries: 0 }
    }
}

/// The event that an error stands for.
pub fn event_of(error: &UPBitError) -> (event: CallEvent)
    ensures
        event == match *error {
            UPBitError::TooManyRequestError => CallEvent::RateLimited,
            UPBitError::FailedToReceiveDataError(_) => CallEvent::Malformed,
            UPBitError::FailedToTradeError(_) => CallEvent::TradeRejected,
            UPBitError::OtherError(_) => CallEvent::Unexpected,
        },
{
    match error {
        UPBitError::TooManyRequestError => CallEvent::RateLimited,
        UPBitError::FailedToReceiveDataError(_) => CallEvent::Malformed,
        UPBitError::FailedToTradeError(_) => CallEvent::TradeRejected,
        UPBitError::OtherError(_) => CallEvent::Unexpected,
    }
}

/// The event that a failure to read an answer stands for.
pub fn event_of_response(error: UpbitResponseError) -> (event: CallEvent)
    ensures
        event == match error {
            UpbitResponseError::MismatchedResponseType => CallEvent::Malformed,
            UpbitResponseError::TooManyApiCall => CallEvent::RateLimited,
        },
{
    match error {
        UpbitResponseError::MismatchedResponseType => CallEvent::Malformed,
        UpbitResponseError::TooManyApiCall => CallEvent::RateLimited,
    }
}

/// The event that a failure on this side stands for: none of them is worth
/// a repetition.
pub fn event_of_request(error: InternalRequestError) -> (event: CallEvent)
    ensures
        event == CallEvent::Unexpected,
{
    match error {
        InternalRequestError::ErrorWhileSend => CallEvent::Unexpected,
        InternalRequestError::WrongMethod => CallEvent::Unexpected,
    }
}

/// Under a bounded policy the count of repetitions never passes the bound,
/// whatever the calls come to, and once it has reached the bound a call that
/// would be repeated is fatal.
pub proof fn lemma_bounded_policy_gives_up(
    policy: RetryPolicy,
    state: RetryState,
    events: Seq<CallEvent>,
    limit: u32,
)
    requires
        policy.max_retries == Some(limit),
        state.retries <= limit,
    ensures
        state_after_all(policy, state, events).retries <= limit,
        state_after_all(policy, state, events).retries <= state.retries + events.len(),
        forall|event: CallEvent|
            retryable(event) && state_after_all(policy, state, events).retries == limit
                ==> #[trigger] action_after(
                policy,
                state_after_all(policy, state, events),
                event,
            ) == NextAction::Abort,
    decreases events.len(),
{
    if events.len() > 0 {
        lemma_bounded_policy_gives_up(policy, state, events.drop_last(), limit);
    }
}

/// Calls that are all worth repeating count up one by one until the bound.
pub proof fn lemma_retries_count_up(
    policy: RetryPolicy,
    events: Seq<CallEvent>,
    limit: u32,
)
    requires
        policy.max_retries == Some(limit),
        forall|i: int| 0 <= i < events.len() ==> retryable(#[trigger] events[i]),
    ensures
        state_after_all(policy, RetryState { retries: 0 }, events).retries == if events.len()
            <= limit {
            events.len()
        } else {
            limit as nat
        },
    decreases events.len(),
{
    if events.len() > 0 {
        lemma_retries_count_up(policy, events.drop_last(), limit);
    }
}

} // verus!
