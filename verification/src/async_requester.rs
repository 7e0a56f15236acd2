//! The example requester: its state, its repeating timer and its local handler.
use vstd::prelude::*;
use crate::async_app::AsyncARequest;
use crate::kinode::{arm_timer, timer_timeout_secs, HiddenState, PendingCallback};
use crate::text::{chars_of, string_of};

verus! {

/// The persisted state of the requester.
pub struct ProcessState {
    pub counter: u64,
}

impl crate::app_common::State for ProcessState {
    fn new() -> (s: Self)
        ensures
            s.counter == 0,
    {
        ProcessState { counter: 0 }
    }
}

/// The delay, in milliseconds, of the timer that `repeated_timer` sets.
pub const TIMER_DELAY_MS: u64 = 3000;

/// Arms the repeating timer: registers `on_fire` (which counts the tick and arms
/// the timer again) under the correlation id of the timer request, with no timeout
/// handler, and gives the delay in milliseconds and the seconds the timer request
/// waits for its answer.
pub fn repeated_timer<FS, FT, A>(
    _state: &ProcessState,
    hidden: &mut HiddenState<PendingCallback<FS, FT>, A>,
    correlation_id: String,
    on_fire: FS,
) -> (r: (u64, u64))
    requires
        old(hidden).wf(),
    ensures
        final(hidden).wf(),
        final(hidden).accumulators.view() == old(hidden).accumulators.view(),
        final(hidden).pending_callbacks.view() == old(hidden).pending_callbacks.view().insert(
            correlation_id@,
            (PendingCallback { on_success: on_fire, on_timeout: None::<FT> }),
        ),
        r == (TIMER_DELAY_MS, timer_timeout_secs(TIMER_DELAY_MS)),
        r.1 == 4,
{
    let timeout_secs = arm_timer(hidden, correlation_id, on_fire, TIMER_DELAY_MS);
    (TIMER_DELAY_MS, timeout_secs)
}

/// What runs when the timer fires: the counter goes up by one (and the timer is
/// armed again with `repeated_timer`).
pub fn timer_fired(state: &mut ProcessState)
    requires
        old(state).counter < u64::MAX,
    ensures
        final(state).counter == old(state).counter + 1,
{
    state.counter = state.counter + 1;
}

/// The first request of the exchange with receiver A.
pub fn message_a() -> (r: AsyncARequest)
    ensures
        r matches AsyncARequest::StepA(s) && s@ == "Mashed Potatoes"@,
{
    AsyncARequest::StepA(string_of(&chars_of("Mashed Potatoes")))
}

/// Answers a local request by starting the exchange with receiver A: the first
/// request to send.
pub fn kino_local_handler(_state: &mut ProcessState, _request: String) -> (r: AsyncARequest)
    ensures
        final(_state).counter == old(_state).counter,
        r matches AsyncARequest::StepA(s) && s@ == "Mashed Potatoes"@,
{
    message_a()
}

/// The answer to the first step: counts it and asks for the second step with the
/// number received.
pub fn on_step_a(response: i32, state: &mut ProcessState) -> (r: AsyncARequest)
    requires
        old(state).counter < u64::MAX,
    ensures
        final(state).counter == old(state).counter + 1,
        r == AsyncARequest::StepB(response),
{
    state.counter = state.counter + 1;
    AsyncARequest::StepB(response)
}

/// The answer to the second step: counts it and asks for the third step with the
/// number received.
pub fn on_step_b(response: u64, state: &mut ProcessState) -> (r: AsyncARequest)
    requires
        old(state).counter < u64::MAX,
    ensures
        final(state).counter == old(state).counter + 1,
        r == AsyncARequest::StepC(response),
{
    state.counter = state.counter + 1;
    AsyncARequest::StepC(response)
}

/// The answer to the third step: counts it; the exchange ends.
pub fn on_step_c(_response: String, state: &mut ProcessState)
    requires
        old(state).counter < u64::MAX,
    ensures
        final(state).counter == old(state).counter + 1,
{
    state.counter = state.counter + 1;
}

} // verus!
