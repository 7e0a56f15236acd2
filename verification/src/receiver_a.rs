//! Receiver A of the example application: how it answers a local request.
use vstd::prelude::*;
use crate::text::{chars_of, decimal, extend_chars, push_decimal, string_of};

verus! {

/// The requests receiver A answers.
pub enum AsyncRequest {
    StepA(String),
    StepB(u64),
    StepC(u64),
    Gather(String),
}

/// Receiver A's answers.
pub enum AsyncResponse {
    StepA(i32),
    StepB(u64),
    StepC(String),
    Gather(String),
}

/// The length of a text in UTF-8 bytes, as an `i32` (wrapping past `i32::MAX`).
pub open spec fn byte_len_i32(s: Seq<char>) -> i32 {
    vstd::utf8::encode_utf8(s).len() as i32
}

/// The answer to a local request: the byte length of the text of `StepA`, twice
/// the number of `StepB`, the number of `StepC` in words, and a greeting for
/// `Gather`.
pub fn kino_local_handler(request: AsyncRequest) -> (r: AsyncResponse)
    requires
        request matches AsyncRequest::StepB(n) ==> n <= u64::MAX / 2,
    ensures
        match request {
            AsyncRequest::StepA(s) => r == AsyncResponse::StepA(byte_len_i32(s@)),
            AsyncRequest::StepB(n) => r == AsyncResponse::StepB((n * 2) as u64),
            AsyncRequest::StepC(n) => r matches AsyncResponse::StepC(t) && t@ == "Number was: "@ + decimal(n as nat),
            AsyncRequest::Gather(_) => r matches AsyncResponse::Gather(t) && t@ == "Hello from receiver A"@,
        },
{
    match request {
        AsyncRequest::StepA(s) => {
            let bytes: &[u8] = s.as_str().as_bytes();
            let n: usize = bytes.len();
            AsyncResponse::StepA(#[verifier::truncate] (n as i32))
        },
        AsyncRequest::StepB(n) => AsyncResponse::StepB(n * 2),
        AsyncRequest::StepC(n) => {
            let mut out: Vec<char> = Vec::new();
            extend_chars(&mut out, "Number was: ");
            push_decimal(&mut out, n);
            AsyncResponse::StepC(string_of(&out))
        },
        AsyncRequest::Gather(_) => AsyncResponse::Gather(string_of(&chars_of("Hello from receiver A"))),
    }
}

} // verus!
