//! The example receiver: its HTTP and WebSocket handlers, and how it answers a
//! local request.
use vstd::prelude::*;
use crate::async_app::AppState;
use crate::receiver_a::byte_len_i32;
use crate::receiver_c::{other_side_string, other_side_text};

verus! {

/// Answers an HTTP request with status 200 and an empty body.
pub fn http_handler<U, C>(_state: &mut AppState<U, C>, _payload: String) -> (r: (u16, Vec<u8>))
    ensures
        *final(_state) == *old(_state),
        r.0 == 200,
        r.1@ == Seq::<u8>::empty(),
{
    (200, Vec::new())
}

/// Ignores a WebSocket message.
pub fn ws_handler<U, C>(_state: &mut AppState<U, C>, _channel_id: u32, _message: Vec<u8>)
    ensures
        *final(_state) == *old(_state),
{
}

/// The requests the receiver answers.
pub enum AsyncRequest {
    StepA(String),
    StepB(i32),
    StepC(u64),
}

/// The receiver's answers.
pub enum AsyncResponse {
    StepA(i32),
    StepB(u64),
    StepC(String),
}

/// The answer to a local request whose body decoded as a request: the byte length
/// of the text of `StepA`, twice the number of `StepB` taken as a `u64` (a negative
/// number wraps first), and the number of `StepC` in words.
pub fn kino_local_handler(request: AsyncRequest) -> (r: AsyncResponse)
    requires
        request matches AsyncRequest::StepB(v) ==> (v as u64) <= u64::MAX / 2,
    ensures
        match request {
            AsyncRequest::StepA(s) => r == AsyncResponse::StepA(byte_len_i32(s@)),
            AsyncRequest::StepB(v) => r == AsyncResponse::StepB(((v as u64) * 2) as u64),
            AsyncRequest::StepC(n) => r matches AsyncResponse::StepC(t) && t@ == other_side_text(n),
        },
{
    match request {
        AsyncRequest::StepA(s) => {
            let bytes: &[u8] = s.as_str().as_bytes();
            let n: usize = bytes.len();
            AsyncResponse::StepA(#[verifier::truncate] (n as i32))
        },
        AsyncRequest::StepB(v) => {
            let w: u64 = #[verifier::truncate] (v as u64);
            AsyncResponse::StepB(w * 2)
        },
        AsyncRequest::StepC(n) => AsyncResponse::StepC(other_side_string(n)),
    }
}

} // verus!
