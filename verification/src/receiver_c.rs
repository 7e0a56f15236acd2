//! Receiver C of the example application: how it answers a local request.
use vstd::prelude::*;
use crate::receiver_a::byte_len_i32;
use crate::text::{chars_of, decimal, extend_chars, push_decimal, string_of};

verus! {

/// The requests receiver C answers.
pub enum AsyncCRequest {
    StepA(String),
    StepB(i32),
    StepC(u64),
    Gather(String),
}

/// Receiver C's answers.
pub enum AsyncCResponse {
    StepA(i32),
    StepB(u64),
    StepC(String),
    Gather(Result<String, String>),
}

/// The text answering `StepC(n)`.
pub open spec fn other_side_text(n: u64) -> Seq<char> {
    "Hello from the other side C: "@ + decimal(n as nat)
}

/// Writes the text answering `StepC(n)`.
pub fn other_side_string(n: u64) -> (r: String)
    ensures
        r@ == other_side_text(n),
{
    let mut out: Vec<char> = Vec::new();
    extend_chars(&mut out, "Hello from the other side C: ");
    push_decimal(&mut out, n);
    string_of(&out)
}

/// The answer to a local request: the byte length of the text of `StepA`, twice
/// the number of `StepB` taken as a `u64` (a negative number wraps first), the
/// number of `StepC` in words, and a greeting for `Gather`.
pub fn kino_local_handler(request: AsyncCRequest) -> (r: AsyncCResponse)
    requires
        request matches AsyncCRequest::StepB(v) ==> (v as u64) <= u64::MAX / 2,
    ensures
        match request {
            AsyncCRequest::StepA(s) => r == AsyncCResponse::StepA(byte_len_i32(s@)),
            AsyncCRequest::StepB(v) => r == AsyncCResponse::StepB(((v as u64) * 2) as u64),
            AsyncCRequest::StepC(n) => r matches AsyncCResponse::StepC(t) && t@ == other_side_text(n),
            AsyncCRequest::Gather(_) => r matches AsyncCResponse::Gather(Ok(t)) && t@ == "Hello from C"@,
        },
{
    match request {
        AsyncCRequest::StepA(s) => {
            let bytes: &[u8] = s.as_str().as_bytes();
            let n: usize = bytes.len();
            AsyncCResponse::StepA(#[verifier::truncate] (n as i32))
        },
        AsyncCRequest::StepB(v) => {
            let w: u64 = #[verifier::truncate] (v as u64);
            AsyncCResponse::StepB(w * 2)
        },
        AsyncCRequest::StepC(n) => AsyncCResponse::StepC(other_side_string(n)),
        AsyncCRequest::Gather(_) => AsyncCResponse::Gather(Ok(string_of(&chars_of("Hello from C")))),
    }
}

} // verus!
