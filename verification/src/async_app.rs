//! The example asynchronous application: its messages, its state, and its handlers.
use vstd::prelude::*;
use crate::registry::Registry;
use crate::text::{chars_eq_str, chars_of, string_of, utf8_lossy};
use crate::kinode::{context_cid, opt_bytes};

verus! {

/// The requests of the example protocol.
pub enum AsyncRequest {
    StepA(String),
    StepB(String),
    StepC(String),
}

/// The responses of the example protocol.
pub enum AsyncResponse {
    StepA(String),
    StepB(String),
    StepC(String),
}

/// Application state types: a fresh state to start from.
pub trait State: Sized {
    /// A fresh state.
    fn new() -> Self;
}

/// The persisted user state of the example application.
pub struct MyState {
    pub counter: u64,
}

impl State for MyState {
    fn new() -> (s: Self)
        ensures
            s.counter == 0,
    {
        MyState { counter: 0 }
    }
}

/// The user state together with the callbacks waiting for responses, by correlation id.
pub struct AppState<U, C> {
    pub user_state: U,
    pub pending_callbacks: Registry<C>,
}

impl<U, C> AppState<U, C> {
    /// Wraps a user state, with no callback pending.
    pub fn new(user_state: U) -> (a: Self)
        ensures
            a.user_state == user_state,
            a.pending_callbacks.wf(),
            a.pending_callbacks.view() == Map::<Seq<char>, C>::empty(),
    {
        AppState { user_state, pending_callbacks: Registry::new() }
    }
}

/// Answers an API call with status 200 and an empty body.
pub fn my_api_handler<U, C>(_state: &mut AppState<U, C>, _payload: String) -> (r: (u16, Vec<u8>))
    ensures
        *final(_state) == *old(_state),
        r.0 == 200,
        r.1@ == Seq::<u8>::empty(),
{
    (200, Vec::new())
}

/// Answers a local request by starting the exchange: the first request to send.
pub fn kino_local_handler<U, C>(_state: &mut AppState<U, C>, _request: String) -> (r: AsyncRequest)
    ensures
        *final(_state) == *old(_state),
        r matches AsyncRequest::StepA(s) && s@ == "Mashed Potatoes"@,
{
    AsyncRequest::StepA(string_of(&chars_of("Mashed Potatoes")))
}

/// The requests of the exchange with receiver A: a text, then the number it
/// answered, then the number it answered to that.
pub enum AsyncARequest {
    StepA(String),
    StepB(i32),
    StepC(u64),
}

/// The answer to the first step: counts it and asks for the second step with the
/// number received.
pub fn custom_handler_a(response: i32, state: &mut MyState) -> (r: AsyncARequest)
    requires
        old(state).counter < u64::MAX,
    ensures
        final(state).counter == old(state).counter + 1,
        r == AsyncARequest::StepB(response),
{
    state.counter = state.counter + 1;
    AsyncARequest::StepB(response)
}

/// The answer to the second step: counts it and asks for the third step with the
/// number received.
pub fn custom_handler_b(response: u64, state: &mut MyState) -> (r: AsyncARequest)
    requires
        old(state).counter < u64::MAX,
    ensures
        final(state).counter == old(state).counter + 1,
        r == AsyncARequest::StepC(response),
{
    state.counter = state.counter + 1;
    AsyncARequest::StepC(response)
}

/// The answer to the third step: counts it; the exchange ends.
pub fn custom_handler_c(_response: String, state: &mut MyState)
    requires
        old(state).counter < u64::MAX,
    ensures
        final(state).counter == old(state).counter + 1,
{
    state.counter = state.counter + 1;
}

/// Handles a remote request; it only leaves a log line, and the state is untouched.
pub fn my_remote_request<U, C>(_state: &mut AppState<U, C>, _request: String)
    ensures
        *final(_state) == *old(_state),
{
}

/// Where a message goes in the example framework.
pub enum AppRoute<C> {
    /// To the callback registered under its correlation id (taken out of the table).
    Callback(C),
    /// To the API handler (a local message from the HTTP server).
    Http,
    /// To the local-request handler.
    Local,
    /// To the remote-request handler.
    Remote,
}

/// Decides where a message goes: to the callback registered under the correlation
/// id in its context (taken out of the table), else by origin.
pub fn route_message<U, C>(
    app: &mut AppState<U, C>,
    context: Option<&Vec<u8>>,
    is_local: bool,
    source_process: &str,
) -> (r: AppRoute<C>)
    requires
        old(app).pending_callbacks.wf(),
    ensures
        final(app).pending_callbacks.wf(),
        final(app).user_state == old(app).user_state,
        match context_cid(opt_bytes(context)) {
            Some(k) if old(app).pending_callbacks.view().dom().contains(k) => {
                &&& r == AppRoute::Callback(old(app).pending_callbacks.view()[k])
                &&& final(app).pending_callbacks.view() == old(app).pending_callbacks.view().remove(k)
            },
            _ => {
                &&& final(app).pending_callbacks.view() == old(app).pending_callbacks.view()
                &&& r == if is_local {
                    if source_process@ == "http-server:distro:sys"@ { AppRoute::<C>::Http } else { AppRoute::<C>::Local }
                } else {
                    AppRoute::<C>::Remote
                }
            },
        },
{
    match context {
        Some(bytes) => {
            let cid = utf8_lossy(bytes);
            match app.pending_callbacks.remove(&cid) {
                Some(cb) => {
                    return AppRoute::Callback(cb);
                },
                None => {},
            }
            assert(app.pending_callbacks.view() =~= old(app).pending_callbacks.view());
        },
        None => {},
    }
    if is_local {
        if chars_eq_str(&chars_of(source_process), "http-server:distro:sys") {
            AppRoute::Http
        } else {
            AppRoute::Local
        }
    } else {
        AppRoute::Remote
    }
}

} // verus!
