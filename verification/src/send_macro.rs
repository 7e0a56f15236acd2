//! Expansion of the `send_async!` and `fan_out!` macros: the response enum and
//! variant a request expression names, and the code each invocation expands to,
//! written as Rust source text.
use vstd::prelude::*;
use crate::bindgen::join;
use crate::text::{chars_of, ends_with, ends_with_exec, push_chars, slice_chars, string_of};
use crate::wit_codegen::push_str;

verus! {

/// One segment of a path: its identifier and its generic arguments as written
/// (empty when it has none).
pub struct PathSegment {
    pub ident: String,
    pub arguments: String,
}

/// A path such as `crate::FooRequest::Bar`, as it stands in a call `path(args)`.
pub struct PathParts {
    pub leading_colon: bool,
    pub segments: Vec<PathSegment>,
}

/// Abstract form of the segments of a path.
pub open spec fn segments_view(s: Seq<PathSegment>) -> Seq<(Seq<char>, Seq<char>)> {
    s.map_values(|x: PathSegment| (x.ident@, x.arguments@))
}

/// The name of the response enum for a request enum: `FooRequest` gives
/// `FooResponse`, any other name gets `Response` appended.
pub open spec fn response_ident(name: Seq<char>) -> Seq<char> {
    if ends_with(name, "Request"@) {
        name.take(name.len() - 7) + "Response"@
    } else {
        name + "Response"@
    }
}

/// The texts of path segments.
pub open spec fn segments_text(s: Seq<(Seq<char>, Seq<char>)>) -> Seq<Seq<char>> {
    s.map_values(|x: (Seq<char>, Seq<char>)| x.0 + x.1)
}

/// The response path for the path of a request variant: the segments before the
/// enum, then the enum renamed by `response_ident` (the variant is dropped). A
/// path of fewer than two segments has none.
pub open spec fn response_path(leading_colon: bool, s: Seq<(Seq<char>, Seq<char>)>) -> Option<Seq<char>> {
    if s.len() < 2 {
        None
    } else {
        let e = s[s.len() - 2];
        Some((if leading_colon { "::"@ } else { Seq::empty() }) + join(
            segments_text(s.take(s.len() - 2)).push(response_ident(e.0) + e.1),
            "::"@,
        ))
    }
}

/// The variant named by the last segment of the request's path, if the request is
/// a call of a path.
pub fn extract_variant_name(path: Option<&PathParts>) -> (r: Option<String>)
    ensures
        match path {
            Some(p) => if p.segments@.len() > 0 {
                r matches Some(v) && v@ == p.segments@.last().ident@
            } else {
                r is None
            },
            None => r is None,
        },
{
    match path {
        Some(p) => {
            if p.segments.len() > 0 {
                Some(string_of(&chars_of(p.segments[p.segments.len() - 1].ident.as_str())))
            } else {
                None
            }
        },
        None => None,
    }
}

/// The response enum name for a request enum name.
pub fn response_ident_of(name: &str) -> (r: String)
    ensures
        r@ == response_ident(name@),
{
    let v = chars_of(name);
    let suffix = chars_of("Request");
    let mut out = String::new();
    proof {
        reveal_strlit("Request");
    }
    if ends_with_exec(&v, &suffix) {
        let base = slice_chars(&v, 0, v.len() - 7);
        push_chars(&mut out, &base);
    } else {
        push_chars(&mut out, &v);
    }
    push_str(&mut out, "Response");
    out
}

/// The text of the response path for a request expression, `UNKNOWN_RESPONSE` when
/// the request is not a call of a path of at least two segments.
pub open spec fn response_path_text(path: Option<(bool, Seq<(Seq<char>, Seq<char>)>)>) -> Seq<char> {
    match path {
        Some((c, s)) => match response_path(c, s) {
            Some(t) => t,
            None => "UNKNOWN_RESPONSE"@,
        },
        None => "UNKNOWN_RESPONSE"@,
    }
}

/// Abstract form of an optional path.
pub open spec fn path_view(path: Option<&PathParts>) -> Option<(bool, Seq<(Seq<char>, Seq<char>)>)> {
    match path {
        Some(p) => Some((p.leading_colon, segments_view(p.segments@))),
        None => None,
    }
}

/// Abstract form of an optional owned path.
pub open spec fn opt_path_view(path: Option<PathParts>) -> Option<(bool, Seq<(Seq<char>, Seq<char>)>)> {
    match path {
        Some(p) => Some((p.leading_colon, segments_view(p.segments@))),
        None => None,
    }
}

/// Builds the response path for a request expression by rewriting `XyzRequest`
/// into `XyzResponse` and dropping the variant.
pub fn build_response_path(path: Option<&PathParts>) -> (r: String)
    ensures
        r@ == response_path_text(path_view(path)),
{
    match path {
        Some(p) => {
            let n = p.segments.len();
            if n < 2 {
                return string_of(&chars_of("UNKNOWN_RESPONSE"));
            }
            let ghost sv = segments_view(p.segments@);
            let ghost items = segments_text(sv.take(n - 2)).push(
                response_ident(sv[n - 2].0) + sv[n - 2].1,
            );
            let mut out = String::new();
            if p.leading_colon {
                push_str(&mut out, "::");
            }
            let ghost start = out@;
            let mut i: usize = 0;
            while i < n - 2
                invariant
                    n == p.segments@.len(),
                    n >= 2,
                    i <= n - 2,
                    sv == segments_view(p.segments@),
                    items == segments_text(sv.take(n - 2)).push(response_ident(sv[n - 2].0) + sv[n - 2].1),
                    out@ == start + join(items.take(i as int), "::"@),
                decreases n - 2 - i,
            {
                if i > 0 {
                    push_str(&mut out, "::");
                }
                push_str(&mut out, p.segments[i].ident.as_str());
                push_str(&mut out, p.segments[i].arguments.as_str());
                proof {
                    let t = items.take(i + 1);
                    assert(t.drop_last() =~= items.take(i as int));
                    assert(t.last() == items[i as int]);
                    assert(items[i as int] == p.segments@[i as int].ident@ + p.segments@[i as int].arguments@);
                    if i == 0 {
                        assert(join(t, "::"@) == t[0]);
                    }
                    assert(out@ =~= start + join(t, "::"@));
                }
                i = i + 1;
            }
            if n > 2 {
                push_str(&mut out, "::");
            }
            let e = &p.segments[n - 2];
            let renamed = response_ident_of(e.ident.as_str());
            push_str(&mut out, renamed.as_str());
            push_str(&mut out, e.arguments.as_str());
            proof {
                let t = items.take(n - 1);
                assert(items.take(n - 2) =~= t.drop_last());
                assert(t =~= items);
                assert(items.last() == response_ident(sv[n - 2].0) + sv[n - 2].1);
                if n == 2 {
                    assert(join(items, "::"@) == items[0]);
                }
                assert(out@ =~= start + join(items, "::"@));
            }
            out
        },
        None => string_of(&chars_of("UNKNOWN_RESPONSE")),
    }
}

/// The `on_success` closure for a callback `(resp, st: Type) { block }`: it decodes the response as the response enum, takes the expected variant's payload, downcasts the user state and runs the block.
pub open spec fn success_callback_text(response_path: Seq<char>, variant: Seq<char>, resp_ident: Seq<char>, st_ident: Seq<char>, st_type: Seq<char>, block: Seq<char>) -> Seq<char> {
    "Box::new(move |resp_bytes: &[u8], any_state: &mut dyn std::any::Any| { let parsed = ::serde_json::from_slice::<"@
        + response_path
        + ">(resp_bytes).map_err(|e| anyhow::anyhow!(\"Failed to deserialize response: {}\", e))?; let "@
        + resp_ident
        + " = match parsed { "@
        + response_path
        + " :: "@
        + variant
        + "(inner) => inner, other => { return Err(anyhow::anyhow!(\"Got the wrong variant (expected {}) => got: {:?}\", stringify!("@
        + variant
        + "), other)); } }; let "@
        + st_ident
        + " = any_state.downcast_mut::<"@
        + st_type
        + ">().ok_or_else(|| anyhow::anyhow!(\"Downcast user state failed!\"))?; "@
        + block
        + " Ok(()) })"@
}

/// Writes `success_callback_text`.
fn write_success_callback_text(out: &mut String, response_path: &str, variant: &str, resp_ident: &str, st_ident: &str, st_type: &str, block: &str)
    ensures
        final(out)@ == old(out)@ + success_callback_text(response_path@, variant@, resp_ident@, st_ident@, st_type@, block@),
{
    let ghost start = out@;
    push_str(out, "Box::new(move |resp_bytes: &[u8], any_state: &mut dyn std::any::Any| { let parsed = ::serde_json::from_slice::<");
    push_str(out, response_path);
    push_str(out, ">(resp_bytes).map_err(|e| anyhow::anyhow!(\"Failed to deserialize response: {}\", e))?; let ");
    push_str(out, resp_ident);
    push_str(out, " = match parsed { ");
    push_str(out, response_path);
    push_str(out, " :: ");
    push_str(out, variant);
    push_str(out, "(inner) => inner, other => { return Err(anyhow::anyhow!(\"Got the wrong variant (expected {}) => got: {:?}\", stringify!(");
    push_str(out, variant);
    push_str(out, "), other)); } }; let ");
    push_str(out, st_ident);
    push_str(out, " = any_state.downcast_mut::<");
    push_str(out, st_type);
    push_str(out, ">().ok_or_else(|| anyhow::anyhow!(\"Downcast user state failed!\"))?; ");
    push_str(out, block);
    push_str(out, " Ok(()) })");
    assert(out@ =~= start + success_callback_text(response_path@, variant@, resp_ident@, st_ident@, st_type@, block@));
}

/// The `on_success` closure when no callback is given: it does nothing.
pub open spec fn noop_callback_text() -> Seq<char> {
    "Box::new(move |_resp_bytes: &[u8], _any_state: &mut dyn std::any::Any| { Ok(()) })"@
}

/// Writes `noop_callback_text`.
fn write_noop_callback_text(out: &mut String)
    ensures
        final(out)@ == old(out)@ + noop_callback_text(),
{
    let ghost start = out@;
    push_str(out, "Box::new(move |_resp_bytes: &[u8], _any_state: &mut dyn std::any::Any| { Ok(()) })");
    assert(out@ =~= start + noop_callback_text());
}

/// The `on_timeout` closure for an `on_timeout => { block }` clause.
pub open spec fn timeout_callback_text(block: Seq<char>) -> Seq<char> {
    "Some(Box::new(move |any_state: &mut dyn std::any::Any| { "@
        + block
        + " Ok(()) }))"@
}

/// Writes `timeout_callback_text`.
fn write_timeout_callback_text(out: &mut String, block: &str)
    ensures
        final(out)@ == old(out)@ + timeout_callback_text(block@),
{
    let ghost start = out@;
    push_str(out, "Some(Box::new(move |any_state: &mut dyn std::any::Any| { ");
    push_str(out, block);
    push_str(out, " Ok(()) }))");
    assert(out@ =~= start + timeout_callback_text(block@));
}

/// The statement a `send_async!` invocation expands to: serialize the request, register the callbacks under a fresh correlation id, and send the request expecting a response within the timeout.
pub open spec fn send_block_text(request: Seq<char>, on_success: Seq<char>, on_timeout: Seq<char>, destination: Seq<char>, timeout: Seq<char>) -> Seq<char> {
    "{ match ::serde_json::to_vec(&"@
        + request
        + ") { Ok(b) => { let correlation_id = ::uuid::Uuid::new_v4().to_string(); ::kinode_app_common::HIDDEN_STATE.with(|cell| { let mut hs = cell.borrow_mut(); hs.as_mut().map(|state| { state.pending_callbacks.insert(correlation_id.clone(), kinode_app_common::PendingCallback { on_success: "@
        + on_success
        + ", on_timeout: "@
        + on_timeout
        + ", }) }); }); let _ = ::kinode_process_lib::Request::to("@
        + destination
        + ").context(correlation_id.as_bytes()).body(b).expects_response("@
        + timeout
        + ").send(); }, Err(e) => { ::kinode_process_lib::kiprintln!(\"Error serializing request: {}\", e); } } () }"@
}

/// Writes `send_block_text`.
fn write_send_block_text(out: &mut String, request: &str, on_success: &str, on_timeout: &str, destination: &str, timeout: &str)
    ensures
        final(out)@ == old(out)@ + send_block_text(request@, on_success@, on_timeout@, destination@, timeout@),
{
    let ghost start = out@;
    push_str(out, "{ match ::serde_json::to_vec(&");
    push_str(out, request);
    push_str(out, ") { Ok(b) => { let correlation_id = ::uuid::Uuid::new_v4().to_string(); ::kinode_app_common::HIDDEN_STATE.with(|cell| { let mut hs = cell.borrow_mut(); hs.as_mut().map(|state| { state.pending_callbacks.insert(correlation_id.clone(), kinode_app_common::PendingCallback { on_success: ");
    push_str(out, on_success);
    push_str(out, ", on_timeout: ");
    push_str(out, on_timeout);
    push_str(out, ", }) }); }); let _ = ::kinode_process_lib::Request::to(");
    push_str(out, destination);
    push_str(out, ").context(correlation_id.as_bytes()).body(b).expects_response(");
    push_str(out, timeout);
    push_str(out, ").send(); }, Err(e) => { ::kinode_process_lib::kiprintln!(\"Error serializing request: {}\", e); } } () }");
    assert(out@ =~= start + send_block_text(request@, on_success@, on_timeout@, destination@, timeout@));
}

/// The start of a `fan_out!` expansion: the addresses and the requests are bound,
/// and it returns, printing why, when their counts differ, and when there are none.
pub open spec fn fan_out_guard_text(addresses: Seq<char>, requests: Seq<char>) -> Seq<char> {
    "{ use ::uuid::Uuid; use ::anyhow::{anyhow, Result}; use ::kinode_process_lib::{kiprintln, Request}; use ::kinode_app_common::{HIDDEN_STATE, PendingCallback, aggregator_mark_ok_if_exists, aggregator_mark_err_if_exists, ::kinode_app_common::FanOutAggregator<::serde_json::Value>}; let addresses_val = "@
        + addresses
        + "; let requests_val = "@
        + requests
        + "; if addresses_val.len() != requests_val.len() { ::kinode_process_lib::kiprintln!(\"fan_out!: addresses.len() != requests.len()\"); return; } let total = addresses_val.len(); if total == 0 { HIDDEN_STATE.with(|cell| { if let Some(ref mut hidden) = *cell.borrow_mut() { } }); return; } "@
}

/// Writes `fan_out_guard_text`.
fn write_fan_out_guard_text(out: &mut String, addresses: &str, requests: &str)
    ensures
        final(out)@ == old(out)@ + fan_out_guard_text(addresses@, requests@),
{
    let ghost start = out@;
    push_str(out, "{ use ::uuid::Uuid; use ::anyhow::{anyhow, Result}; use ::kinode_process_lib::{kiprintln, Request}; use ::kinode_app_common::{HIDDEN_STATE, PendingCallback, aggregator_mark_ok_if_exists, aggregator_mark_err_if_exists, ::kinode_app_common::FanOutAggregator<::serde_json::Value>}; let addresses_val = ");
    push_str(out, addresses);
    push_str(out, "; let requests_val = ");
    push_str(out, requests);
    push_str(out, "; if addresses_val.len() != requests_val.len() { ::kinode_process_lib::kiprintln!(\"fan_out!: addresses.len() != requests.len()\"); return; } let total = addresses_val.len(); if total == 0 { HIDDEN_STATE.with(|cell| { if let Some(ref mut hidden) = *cell.borrow_mut() { } }); return; } ");
    assert(out@ =~= start + fan_out_guard_text(addresses@, requests@));
}

/// The aggregation a `fan_out!` expansion registers, whose final callback binds the
/// results and the user state and runs the block.
pub open spec fn fan_out_aggregation_text(results_ident: Seq<char>, state_ident: Seq<char>, state_type: Seq<char>, block: Seq<char>) -> Seq<char> {
    "let aggregator_id = Uuid::new_v4().to_string(); HIDDEN_STATE.with(|cell| { if let Some(ref mut hidden) = *cell.borrow_mut() { let aggregator = ::kinode_app_common::FanOutAggregator<::serde_json::Value>::new(total, Box::new(move |final_vec, user_state_any| { let "@
        + results_ident
        + " = final_vec; let "@
        + state_ident
        + " = user_state_any.downcast_mut::<"@
        + state_type
        + ">().ok_or_else(|| anyhow!(\"downcast user state failed in aggregator finalize\"))?; "@
        + block
        + " Ok(()) })); "@
        + "hidden.accumulators.insert(aggregator_id.clone(), Box::new(aggregator));"@
        + " } }); "@
}

/// Writes `fan_out_aggregation_text`.
fn write_fan_out_aggregation_text(out: &mut String, results_ident: &str, state_ident: &str, state_type: &str, block: &str)
    ensures
        final(out)@ == old(out)@ + fan_out_aggregation_text(results_ident@, state_ident@, state_type@, block@),
{
    let ghost start = out@;
    push_str(out, "let aggregator_id = Uuid::new_v4().to_string(); HIDDEN_STATE.with(|cell| { if let Some(ref mut hidden) = *cell.borrow_mut() { let aggregator = ::kinode_app_common::FanOutAggregator<::serde_json::Value>::new(total, Box::new(move |final_vec, user_state_any| { let ");
    push_str(out, results_ident);
    push_str(out, " = final_vec; let ");
    push_str(out, state_ident);
    push_str(out, " = user_state_any.downcast_mut::<");
    push_str(out, state_type);
    push_str(out, ">().ok_or_else(|| anyhow!(\"downcast user state failed in aggregator finalize\"))?; ");
    push_str(out, block);
    push_str(out, " Ok(()) })); ");
    push_str(out, "hidden.accumulators.insert(aggregator_id.clone(), Box::new(aggregator));");
    push_str(out, " } }); ");
    assert(out@ =~= start + fan_out_aggregation_text(results_ident@, state_ident@, state_type@, block@));
}

/// The body of the loop over the address-request pairs: a pending callback per
/// request under `<aggregation id>:<index>`, then the request sent with the timeout.
pub open spec fn fan_out_send_text(timeout: Seq<char>) -> Seq<char> {
    " let correlation_id = format!(\"{}:{}\", aggregator_id, i); HIDDEN_STATE.with(|cell| { if let Some(ref mut hidden) = *cell.borrow_mut() { hidden.pending_callbacks.insert(correlation_id.clone(), PendingCallback { on_success: Box::new({ let aggregator_id_clone = aggregator_id.clone(); move |resp_bytes, user_state_any| { match ::serde_json::from_slice(resp_bytes) { Ok(parsed_val) => { aggregator_mark_ok_if_exists(&aggregator_id_clone, i, parsed_val, user_state_any);"@
        + " } Err(e) => { aggregator_mark_err_if_exists(&aggregator_id_clone, i, anyhow!(\"parse error: {}\", e), user_state_any); } } Ok(()) } }), on_timeout: Some(Box::new({ let aggregator_id_clone = aggregator_id.clone(); move |user_state_any| { aggregator_mark_err_if_exists(&aggregator_id_clone, i, anyhow!(\"timeout\"), user_state_any); Ok(()) } })), }); } }); match ::serde_json::to_vec(&req) { Ok(body_bytes) => { "@
        + "let _ = Request::to(addr).context(correlation_id.as_bytes()).body(body_bytes).expects_response("@
        + timeout
        + ").send();"@
        + " } Err(e) => { HIDDEN_STATE.with(|cell| { if let Some(ref mut hidden) = *cell.borrow_mut() { if let Some(acc_any) = hidden.accumulators.get_mut(&aggregator_id) { if let Some(agg) = acc_any.downcast_mut::<::kinode_app_common::FanOutAggregator<::serde_json::Value>>() { agg.set_err(i, anyhow!(\"serialize error: {}\", e)); if agg.is_done() { let aggregator_box = hidden.accumulators.remove(&aggregator_id).unwrap(); if let Ok(agg2) = aggregator_box.downcast::<::kinode_app_common::FanOutAggregator<::serde_json::Value>>() { let aggregator = *agg2; } } } } } }); } } } }"@
}

/// Writes `fan_out_send_text`.
fn write_fan_out_send_text(out: &mut String, timeout: &str)
    ensures
        final(out)@ == old(out)@ + fan_out_send_text(timeout@),
{
    let ghost start = out@;
    push_str(out, " let correlation_id = format!(\"{}:{}\", aggregator_id, i); HIDDEN_STATE.with(|cell| { if let Some(ref mut hidden) = *cell.borrow_mut() { hidden.pending_callbacks.insert(correlation_id.clone(), PendingCallback { on_success: Box::new({ let aggregator_id_clone = aggregator_id.clone(); move |resp_bytes, user_state_any| { match ::serde_json::from_slice(resp_bytes) { Ok(parsed_val) => { aggregator_mark_ok_if_exists(&aggregator_id_clone, i, parsed_val, user_state_any);");
    push_str(out, " } Err(e) => { aggregator_mark_err_if_exists(&aggregator_id_clone, i, anyhow!(\"parse error: {}\", e), user_state_any); } } Ok(()) } }), on_timeout: Some(Box::new({ let aggregator_id_clone = aggregator_id.clone(); move |user_state_any| { aggregator_mark_err_if_exists(&aggregator_id_clone, i, anyhow!(\"timeout\"), user_state_any); Ok(()) } })), }); } }); match ::serde_json::to_vec(&req) { Ok(body_bytes) => { ");
    push_str(out, "let _ = Request::to(addr).context(correlation_id.as_bytes()).body(body_bytes).expects_response(");
    push_str(out, timeout);
    push_str(out, ").send();");
    push_str(out, " } Err(e) => { HIDDEN_STATE.with(|cell| { if let Some(ref mut hidden) = *cell.borrow_mut() { if let Some(acc_any) = hidden.accumulators.get_mut(&aggregator_id) { if let Some(agg) = acc_any.downcast_mut::<::kinode_app_common::FanOutAggregator<::serde_json::Value>>() { agg.set_err(i, anyhow!(\"serialize error: {}\", e)); if agg.is_done() { let aggregator_box = hidden.accumulators.remove(&aggregator_id).unwrap(); if let Ok(agg2) = aggregator_box.downcast::<::kinode_app_common::FanOutAggregator<::serde_json::Value>>() { let aggregator = *agg2; } } } } } }); } } } }");
    assert(out@ =~= start + fan_out_send_text(timeout@));
}

/// The block a `fan_out!` invocation expands to: check that there are as many requests as addresses, register an aggregation and one pending callback per request under `<aggregation id>:<index>`, and send each request.
pub open spec fn fan_out_text(addresses: Seq<char>, requests: Seq<char>, results_ident: Seq<char>, state_ident: Seq<char>, state_type: Seq<char>, block: Seq<char>, timeout: Seq<char>) -> Seq<char> {
    fan_out_guard_text(addresses, requests)
        + fan_out_aggregation_text(results_ident, state_ident, state_type, block)
        + ("for (i, (addr, req)) in addresses_val.into_iter().zip(requests_val.into_iter()).enumerate() {"@ + fan_out_send_text(timeout))
}

/// Writes `fan_out_text`.
fn write_fan_out_text(out: &mut String, addresses: &str, requests: &str, results_ident: &str, state_ident: &str, state_type: &str, block: &str, timeout: &str)
    ensures
        final(out)@ == old(out)@ + fan_out_text(addresses@, requests@, results_ident@, state_ident@, state_type@, block@, timeout@),
{
    let ghost start = out@;
    write_fan_out_guard_text(out, addresses, requests);
    write_fan_out_aggregation_text(out, results_ident, state_ident, state_type, block);
    push_str(out, "for (i, (addr, req)) in addresses_val.into_iter().zip(requests_val.into_iter()).enumerate() {");
    write_fan_out_send_text(out, timeout);
    assert(out@ =~= start + fan_out_text(addresses@, requests@, results_ident@, state_ident@, state_type@, block@, timeout@));
}

/// The pieces of a callback `(resp, st: Type) { block }`, as source text.
pub struct Callback {
    pub resp_ident: String,
    pub st_ident: String,
    pub st_type: String,
    pub callback_block: String,
}

/// A `send_async!(destination, request, [callback], [timeout], [on_timeout => block])`
/// invocation, its expressions and blocks as source text; `request_path` is the path
/// called when the request is a call of a path.
pub struct SendAsyncInvocation {
    pub destination: String,
    pub request_expr: String,
    pub request_path: Option<PathParts>,
    pub callback: Option<Callback>,
    pub timeout: Option<String>,
    pub on_timeout_block: Option<String>,
}

/// The variant name used in the success arm: the last segment of the request's
/// path, else `UNKNOWN_VARIANT`.
pub open spec fn variant_text(path: Option<(bool, Seq<(Seq<char>, Seq<char>)>)>) -> Seq<char> {
    match path {
        Some((_, s)) if s.len() > 0 => s.last().0,
        _ => "UNKNOWN_VARIANT"@,
    }
}

/// The code a `send_async!` invocation expands to.
pub open spec fn send_async_expansion(inv: SendAsyncInvocation) -> Seq<char> {
    let path = opt_path_view(inv.request_path);
    let on_success = match inv.callback {
        Some(c) => success_callback_text(
            response_path_text(path),
            variant_text(path),
            c.resp_ident@,
            c.st_ident@,
            c.st_type@,
            c.callback_block@,
        ),
        None => noop_callback_text(),
    };
    let on_timeout = match inv.on_timeout_block {
        Some(b) => timeout_callback_text(b@),
        None => "None"@,
    };
    let timeout = match inv.timeout {
        Some(t) => t@,
        None => "30"@,
    };
    send_block_text(inv.request_expr@, on_success, on_timeout, inv.destination@, timeout)
}

impl SendAsyncInvocation {
    /// The code this invocation expands to: the request is serialized, its callbacks
    /// are registered under a fresh correlation id, and it is sent expecting a
    /// response within the timeout (30 seconds unless given).
    pub fn expand_macro(&self) -> (r: String)
        ensures
            r@ == send_async_expansion(*self),
    {
        let ghost path = opt_path_view(self.request_path);
        let path_ref: Option<&PathParts> = match &self.request_path {
            Some(p) => Some(p),
            None => None,
        };
        assert(path_view(path_ref) == path);
        let variant = match extract_variant_name(path_ref) {
            Some(v) => v,
            None => string_of(&chars_of("UNKNOWN_VARIANT")),
        };
        assert(variant@ == variant_text(path));
        let response_path = build_response_path(path_ref);
        let mut on_success = String::new();
        match &self.callback {
            Some(c) => write_success_callback_text(
                &mut on_success,
                response_path.as_str(),
                variant.as_str(),
                c.resp_ident.as_str(),
                c.st_ident.as_str(),
                c.st_type.as_str(),
                c.callback_block.as_str(),
            ),
            None => write_noop_callback_text(&mut on_success),
        }
        let mut on_timeout = String::new();
        match &self.on_timeout_block {
            Some(b) => write_timeout_callback_text(&mut on_timeout, b.as_str()),
            None => push_str(&mut on_timeout, "None"),
        }
        let timeout = match &self.timeout {
            Some(t) => string_of(&chars_of(t.as_str())),
            None => string_of(&chars_of("30")),
        };
        let mut out = String::new();
        write_send_block_text(
            &mut out,
            self.request_expr.as_str(),
            on_success.as_str(),
            on_timeout.as_str(),
            self.destination.as_str(),
            timeout.as_str(),
        );
        out
    }
}

/// The final callback of a fan-out, `(results, st: Type) { block }`, as source text.
pub struct FinalCallback {
    pub results_ident: String,
    pub state_ident: String,
    pub state_type: String,
    pub block: String,
}

/// A `fan_out!(addresses, requests, callback, [timeout])` invocation, as source text.
pub struct FanOutInvocation {
    pub addresses_expr: String,
    pub requests_expr: String,
    pub callback: FinalCallback,
    pub timeout: Option<String>,
}

/// The code a `fan_out!` invocation expands to.
pub open spec fn fan_out_expansion(inv: FanOutInvocation) -> Seq<char> {
    fan_out_text(
        inv.addresses_expr@,
        inv.requests_expr@,
        inv.callback.results_ident@,
        inv.callback.state_ident@,
        inv.callback.state_type@,
        inv.callback.block@,
        match inv.timeout {
            Some(t) => t@,
            None => "30"@,
        },
    )
}

/// A `fan_out!` expansion binds the addresses and the requests and returns before
/// sending anything only when their counts differ (printing why) or are zero; past
/// that guard it registers one aggregation, whose final callback binds the results
/// and the user state and runs the block, loops over the address-request pairs and
/// sends each request with the timeout given (30 seconds unless given).
pub proof fn lemma_fan_out_sends_when_counts_match(inv: FanOutInvocation)
    ensures
        ({
            let e = fan_out_expansion(inv);
            let t = match inv.timeout { Some(x) => x@, None => "30"@ };
            &&& crate::text::starts_with(e, "{ use ::uuid::Uuid; use ::anyhow::{anyhow, Result}; use ::kinode_process_lib::{kiprintln, Request}; use ::kinode_app_common::{HIDDEN_STATE, PendingCallback, aggregator_mark_ok_if_exists, aggregator_mark_err_if_exists, ::kinode_app_common::FanOutAggregator<::serde_json::Value>}; let addresses_val = "@ + inv.addresses_expr@ + "; let requests_val = "@ + inv.requests_expr@ + "; if addresses_val.len() != requests_val.len() { ::kinode_process_lib::kiprintln!(\"fan_out!: addresses.len() != requests.len()\"); return; } let total = addresses_val.len(); if total == 0 { HIDDEN_STATE.with(|cell| { if let Some(ref mut hidden) = *cell.borrow_mut() { } }); return; } "@)
            &&& crate::text::contains(e, "hidden.accumulators.insert(aggregator_id.clone(), Box::new(aggregator));"@)
            &&& crate::text::contains(e, inv.callback.results_ident@ + " = final_vec; let "@ + inv.callback.state_ident@ + " = user_state_any.downcast_mut::<"@ + inv.callback.state_type@ + ">().ok_or_else(|| anyhow!(\"downcast user state failed in aggregator finalize\"))?; "@ + inv.callback.block@ + " Ok(()) })); "@)
            &&& crate::text::contains(e, "for (i, (addr, req)) in addresses_val.into_iter().zip(requests_val.into_iter()).enumerate() {"@)
            &&& crate::text::contains(e, "let _ = Request::to(addr).context(correlation_id.as_bytes()).body(body_bytes).expects_response("@ + t + ").send();"@)
        }),
{
    let t = match inv.timeout { Some(x) => x@, None => "30"@ };
    let g = fan_out_guard_text(inv.addresses_expr@, inv.requests_expr@);
    let a = fan_out_aggregation_text(inv.callback.results_ident@, inv.callback.state_ident@, inv.callback.state_type@, inv.callback.block@);
    let r = fan_out_send_text(t);
    let l = "for (i, (addr, req)) in addresses_val.into_iter().zip(requests_val.into_iter()).enumerate() {"@;
    let e = fan_out_expansion(inv);
    assert(e == g + a + (l + r));
    crate::text::lemma_contains_between(g, a, l + r);
    let a1 = "let aggregator_id = Uuid::new_v4().to_string(); HIDDEN_STATE.with(|cell| { if let Some(ref mut hidden) = *cell.borrow_mut() { let aggregator = ::kinode_app_common::FanOutAggregator<::serde_json::Value>::new(total, Box::new(move |final_vec, user_state_any| { let "@ + inv.callback.results_ident@ + " = final_vec; let "@ + inv.callback.state_ident@ + " = user_state_any.downcast_mut::<"@ + inv.callback.state_type@ + ">().ok_or_else(|| anyhow!(\"downcast user state failed in aggregator finalize\"))?; "@ + inv.callback.block@ + " Ok(()) })); "@;
    crate::text::lemma_contains_between(a1, "hidden.accumulators.insert(aggregator_id.clone(), Box::new(aggregator));"@, " } }); "@);
    crate::text::lemma_contains_in_part(g, a, l + r, "hidden.accumulators.insert(aggregator_id.clone(), Box::new(aggregator));"@);
    let cb = inv.callback.results_ident@ + " = final_vec; let "@ + inv.callback.state_ident@ + " = user_state_any.downcast_mut::<"@ + inv.callback.state_type@ + ">().ok_or_else(|| anyhow!(\"downcast user state failed in aggregator finalize\"))?; "@ + inv.callback.block@ + " Ok(()) })); "@;
    assert(a =~= "let aggregator_id = Uuid::new_v4().to_string(); HIDDEN_STATE.with(|cell| { if let Some(ref mut hidden) = *cell.borrow_mut() { let aggregator = ::kinode_app_common::FanOutAggregator<::serde_json::Value>::new(total, Box::new(move |final_vec, user_state_any| { let "@ + cb + ("hidden.accumulators.insert(aggregator_id.clone(), Box::new(aggregator));"@ + " } }); "@));
    crate::text::lemma_contains_between("let aggregator_id = Uuid::new_v4().to_string(); HIDDEN_STATE.with(|cell| { if let Some(ref mut hidden) = *cell.borrow_mut() { let aggregator = ::kinode_app_common::FanOutAggregator<::serde_json::Value>::new(total, Box::new(move |final_vec, user_state_any| { let "@, cb, "hidden.accumulators.insert(aggregator_id.clone(), Box::new(aggregator));"@ + " } }); "@);
    crate::text::lemma_contains_in_part(g, a, l + r, cb);
    crate::text::lemma_contains_between(Seq::empty(), l, r);
    assert(Seq::<char>::empty() + l + r =~= l + r);
    crate::text::lemma_contains_in_part(g + a, l + r, Seq::empty(), l);
    let x = " let correlation_id = format!(\"{}:{}\", aggregator_id, i); HIDDEN_STATE.with(|cell| { if let Some(ref mut hidden) = *cell.borrow_mut() { hidden.pending_callbacks.insert(correlation_id.clone(), PendingCallback { on_success: Box::new({ let aggregator_id_clone = aggregator_id.clone(); move |resp_bytes, user_state_any| { match ::serde_json::from_slice(resp_bytes) { Ok(parsed_val) => { aggregator_mark_ok_if_exists(&aggregator_id_clone, i, parsed_val, user_state_any);"@ + " } Err(e) => { aggregator_mark_err_if_exists(&aggregator_id_clone, i, anyhow!(\"parse error: {}\", e), user_state_any); } } Ok(()) } }), on_timeout: Some(Box::new({ let aggregator_id_clone = aggregator_id.clone(); move |user_state_any| { aggregator_mark_err_if_exists(&aggregator_id_clone, i, anyhow!(\"timeout\"), user_state_any); Ok(()) } })), }); } }); match ::serde_json::to_vec(&req) { Ok(body_bytes) => { "@;
    let needle = "let _ = Request::to(addr).context(correlation_id.as_bytes()).body(body_bytes).expects_response("@ + t + ").send();"@;
    assert(r =~= x + needle + (" } Err(e) => { HIDDEN_STATE.with(|cell| { if let Some(ref mut hidden) = *cell.borrow_mut() { if let Some(acc_any) = hidden.accumulators.get_mut(&aggregator_id) { if let Some(agg) = acc_any.downcast_mut::<::kinode_app_common::FanOutAggregator<::serde_json::Value>>() { agg.set_err(i, anyhow!(\"serialize error: {}\", e)); if agg.is_done() { let aggregator_box = hidden.accumulators.remove(&aggregator_id).unwrap(); if let Ok(agg2) = aggregator_box.downcast::<::kinode_app_common::FanOutAggregator<::serde_json::Value>>() { let aggregator = *agg2; } } } } } }); } } } }"@));
    crate::text::lemma_contains_between(x, needle, " } Err(e) => { HIDDEN_STATE.with(|cell| { if let Some(ref mut hidden) = *cell.borrow_mut() { if let Some(acc_any) = hidden.accumulators.get_mut(&aggregator_id) { if let Some(agg) = acc_any.downcast_mut::<::kinode_app_common::FanOutAggregator<::serde_json::Value>>() { agg.set_err(i, anyhow!(\"serialize error: {}\", e)); if agg.is_done() { let aggregator_box = hidden.accumulators.remove(&aggregator_id).unwrap(); if let Ok(agg2) = aggregator_box.downcast::<::kinode_app_common::FanOutAggregator<::serde_json::Value>>() { let aggregator = *agg2; } } } } } }); } } } }"@);
    crate::text::lemma_contains_in_part(l, r, Seq::empty(), needle);
    assert(l + r + Seq::<char>::empty() =~= l + r);
    crate::text::lemma_contains_in_part(g + a, l + r, Seq::empty(), needle);
    assert(g + a + (l + r) + Seq::<char>::empty() =~= e);
}

/// The code a `fan_out!` invocation expands to: one aggregation collecting one
/// result per address, each request sent under `<aggregation id>:<index>` with the
/// timeout (30 seconds unless given).
pub fn expand_fan_out(invoc: &FanOutInvocation) -> (r: String)
    ensures
        r@ == fan_out_expansion(*invoc),
{
    let timeout = match &invoc.timeout {
        Some(t) => string_of(&chars_of(t.as_str())),
        None => string_of(&chars_of("30")),
    };
    let mut out = String::new();
    write_fan_out_text(
        &mut out,
        invoc.addresses_expr.as_str(),
        invoc.requests_expr.as_str(),
        invoc.callback.results_ident.as_str(),
        invoc.callback.state_ident.as_str(),
        invoc.callback.state_type.as_str(),
        invoc.callback.block.as_str(),
        timeout.as_str(),
    );
    out
}

} // verus!
