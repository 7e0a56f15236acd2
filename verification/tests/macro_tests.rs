use cronchware::send_macro::{
    build_response_path, expand_fan_out, extract_variant_name, response_ident_of, Callback,
    FanOutInvocation, FinalCallback, PathParts, PathSegment, SendAsyncInvocation,
};

fn path(leading_colon: bool, segs: &[(&str, &str)]) -> PathParts {
    PathParts {
        leading_colon,
        segments: segs
            .iter()
            .map(|(i, a)| PathSegment { ident: i.to_string(), arguments: a.to_string() })
            .collect(),
    }
}

#[test]
fn response_names() {
    assert_eq!(response_ident_of("FooRequest"), "FooResponse");
    assert_eq!(response_ident_of("Request"), "Response");
    assert_eq!(response_ident_of("Thing"), "ThingResponse");
}

#[test]
fn response_paths() {
    let p = path(false, &[("my_mod", ""), ("FooRequest", ""), ("Bar", "")]);
    assert_eq!(build_response_path(Some(&p)), "my_mod::FooResponse");
    assert_eq!(extract_variant_name(Some(&p)), Some("Bar".to_string()));
    let q = path(true, &[("a", ""), ("b", "<T>"), ("XRequest", "<u8>"), ("V", "")]);
    assert_eq!(build_response_path(Some(&q)), "::a::b<T>::XResponse<u8>");
    let short = path(false, &[("Bar", "")]);
    assert_eq!(build_response_path(Some(&short)), "UNKNOWN_RESPONSE");
    assert_eq!(build_response_path(None), "UNKNOWN_RESPONSE");
    assert_eq!(extract_variant_name(None), None);
    assert_eq!(extract_variant_name(Some(&path(false, &[]))), None);
}

#[test]
fn send_async_without_callback() {
    let inv = SendAsyncInvocation {
        destination: "addr()".to_string(),
        request_expr: "FooRequest::Bar(1)".to_string(),
        request_path: Some(path(false, &[("FooRequest", ""), ("Bar", "")])),
        callback: None,
        timeout: None,
        on_timeout_block: None,
    };
    let expected = "{ match ::serde_json::to_vec(&FooRequest::Bar(1)) { Ok(b) => { let correlation_id = ::uuid::Uuid::new_v4().to_string(); ::kinode_app_common::HIDDEN_STATE.with(|cell| { let mut hs = cell.borrow_mut(); hs.as_mut().map(|state| { state.pending_callbacks.insert(correlation_id.clone(), kinode_app_common::PendingCallback { on_success: Box::new(move |_resp_bytes: &[u8], _any_state: &mut dyn std::any::Any| { Ok(()) }), on_timeout: None, }) }); }); let _ = ::kinode_process_lib::Request::to(addr()).context(correlation_id.as_bytes()).body(b).expects_response(30).send(); }, Err(e) => { ::kinode_process_lib::kiprintln!(\"Error serializing request: {}\", e); } } () }";
    assert_eq!(inv.expand_macro(), expected);
}

#[test]
fn send_async_with_callback_timeout_and_handler() {
    let inv = SendAsyncInvocation {
        destination: "dest".to_string(),
        request_expr: "api::PingRequest::Ping(x)".to_string(),
        request_path: Some(path(false, &[("api", ""), ("PingRequest", ""), ("Ping", "")])),
        callback: Some(Callback {
            resp_ident: "resp".to_string(),
            st_ident: "st".to_string(),
            st_type: "MyState".to_string(),
            callback_block: "{ st.n += resp; }".to_string(),
        }),
        timeout: Some("5".to_string()),
        on_timeout_block: Some("{ log(); }".to_string()),
    };
    let code = inv.expand_macro();
    assert!(code.contains("::serde_json::from_slice::<api::PingResponse>(resp_bytes)"));
    assert!(code.contains("let resp = match parsed { api::PingResponse :: Ping(inner) => inner, other =>"));
    assert!(code.contains("stringify!(Ping)"));
    assert!(code.contains("let st = any_state.downcast_mut::<MyState>()"));
    assert!(code.contains("{ st.n += resp; } Ok(()) })"));
    assert!(code.contains("on_timeout: Some(Box::new(move |any_state: &mut dyn std::any::Any| { { log(); } Ok(()) })),"));
    assert!(code.contains(".expects_response(5).send();"));
}

#[test]
fn send_async_with_unknown_request_shape() {
    let inv = SendAsyncInvocation {
        destination: "d".to_string(),
        request_expr: "req".to_string(),
        request_path: None,
        callback: Some(Callback {
            resp_ident: "r".to_string(),
            st_ident: "s".to_string(),
            st_type: "S".to_string(),
            callback_block: "{}".to_string(),
        }),
        timeout: None,
        on_timeout_block: None,
    };
    let code = inv.expand_macro();
    assert!(code.contains("UNKNOWN_RESPONSE :: UNKNOWN_VARIANT(inner) => inner"));
}

#[test]
fn fan_out_expansion() {
    let inv = FanOutInvocation {
        addresses_expr: "addrs".to_string(),
        requests_expr: "reqs".to_string(),
        callback: FinalCallback {
            results_ident: "all".to_string(),
            state_ident: "st".to_string(),
            state_type: "State".to_string(),
            block: "{ done(all); }".to_string(),
        },
        timeout: None,
    };
    let code = expand_fan_out(&inv);
    assert!(code.starts_with("{ use ::uuid::Uuid; use ::anyhow::{anyhow, Result};"));
    assert!(code.contains("let addresses_val = addrs; let requests_val = reqs;"));
    assert!(code.contains("let all = final_vec; let st = user_state_any.downcast_mut::<State>()"));
    assert!(code.contains("{ done(all); } Ok(()) }));"));
    assert!(code.contains("let correlation_id = format!(\"{}:{}\", aggregator_id, i);"));
    assert!(code.contains(".expects_response(30).send();"));
    assert!(code.ends_with("} } } }"));
    let timed = FanOutInvocation { timeout: Some("9".to_string()), ..inv };
    assert!(expand_fan_out(&timed).contains(".expects_response(9).send();"));
}
