use cronchware::hyperprocess::{
    analyze_methods, generate_enum_variant, generate_handler_dispatch, generate_handler_dispatch_arm,
    generate_request_response_enums, hyperprocess_impl, init_method_opt_to_call,
    init_method_opt_to_token, parse_args, validate_init_method, validate_websocket_method,
    ws_method_opt_to_call, ErrorSite, FunctionMetadata, HandlerType, MetaArg, MethodInfo,
};

fn arg(key: &str, literal: Option<&str>, value: &str) -> MetaArg {
    MetaArg {
        is_name_value: true,
        key: Some(key.to_string()),
        string_literal: literal.map(|s| s.to_string()),
        some_args: None,
        value: value.to_string(),
    }
}

fn full_args() -> Vec<MetaArg> {
    vec![
        arg("name", Some("\"Receiver A\""), "\"Receiver A\""),
        MetaArg {
            is_name_value: true,
            key: Some("ui".to_string()),
            string_literal: None,
            some_args: Some(vec!["HttpBindingConfig::default()".to_string()]),
            value: "Some(HttpBindingConfig::default())".to_string(),
        },
        arg("endpoints", None, "vec![]"),
        arg("save_config", None, "SaveOptions::EveryMessage"),
        arg("wit_world", Some("\"w-v0\""), "\"w-v0\""),
    ]
}

fn method(name: &str, attrs: &[&str], is_async: bool, inputs: Vec<Option<&str>>, ret: Option<&str>) -> MethodInfo {
    MethodInfo {
        name: name.to_string(),
        attributes: attrs.iter().map(|a| a.to_string()).collect(),
        is_async,
        inputs: inputs.into_iter().map(|i| i.map(|t| t.to_string())).collect(),
        return_type: ret.map(|r| r.to_string()),
    }
}

#[test]
fn arguments_are_read() {
    let a = parse_args(&full_args()).ok().unwrap();
    assert_eq!(a.name, "\"Receiver A\"");
    assert_eq!(a.ui, Some("HttpBindingConfig::default()".to_string()));
    assert_eq!(a.icon, None);
    assert_eq!(a.endpoints, "vec![]");
    assert_eq!(a.wit_world, "\"w-v0\"");
}

#[test]
fn argument_errors() {
    let mut missing = full_args();
    missing.remove(3);
    let e = parse_args(&missing).err().unwrap();
    assert_eq!(e.message, "Missing 'save_config'");
    assert_eq!(e.site, ErrorSite::FirstArg);
    let mut unknown = full_args();
    unknown.push(arg("colour", None, "1"));
    let e = parse_args(&unknown).err().unwrap();
    assert_eq!(e.message, "Unknown attribute");
    assert_eq!(e.site, ErrorSite::ArgName(5));
    let mut bad_name = full_args();
    bad_name[0] = arg("name", None, "42");
    let e = parse_args(&bad_name).err().unwrap();
    assert_eq!(e.message, "Expected string literal");
    assert_eq!(e.site, ErrorSite::ArgValue(0));
    let mut not_pair = full_args();
    not_pair[1].is_name_value = false;
    assert_eq!(parse_args(&not_pair).err().unwrap().message, "Expected name-value pair");
    let mut two = full_args();
    two[1].some_args = Some(vec!["a".to_string(), "b".to_string()]);
    assert_eq!(parse_args(&two).err().unwrap().message, "Some must have exactly one argument");
    assert_eq!(parse_args(&Vec::new()).err().unwrap().message, "Missing 'name'");
}

#[test]
fn method_checks() {
    let init = method("initialize", &["init"], false, vec![None], None);
    assert_eq!(validate_init_method(&init, 0).err().unwrap().message, "Init method must be declared as async");
    let init = method("initialize", &["init"], true, vec![None, Some("u8")], None);
    assert_eq!(
        validate_init_method(&init, 0).err().unwrap().message,
        "Init method must not take any parameters other than &mut self"
    );
    let ws = method("on_ws", &["ws"], false, vec![None, Some("u32"), Some("WsMessageType"), Some("Vec < u8 >")], None);
    let e = validate_websocket_method(&ws, 4).err().unwrap();
    assert_eq!(e.message, "Third parameter of WebSocket method must be blob: LazyLoadBlob");
    assert_eq!(e.site, ErrorSite::Input(4, 3));
    let ws = method("on_ws", &["ws"], false, vec![None, Some("u32"), Some("MessageType"), Some("LazyLoadBlob")], None);
    assert!(validate_websocket_method(&ws, 4).is_ok());
}

#[test]
fn methods_are_sorted() {
    let methods = vec![
        method("initialize", &["init"], true, vec![None], None),
        method("helper", &[], false, vec![None], None),
        method("call_me", &["local"], false, vec![None, Some("i32")], Some("String")),
        method("handle_http", &["http", "local"], true, vec![None, Some("& str"), Some("Value")], None),
    ];
    let a = analyze_methods(&methods).ok().unwrap();
    assert_eq!(a.init_method, Some("initialize".to_string()));
    assert_eq!(a.ws_method, None);
    assert_eq!(a.functions.len(), 2);
    assert_eq!(a.functions[0].variant_name, "CallMe");
    assert_eq!(a.functions[0].params, vec!["i32".to_string()]);
    assert_eq!(a.functions[1].variant_name, "HandleHttp");
    assert!(a.functions[1].is_http && a.functions[1].is_local && !a.functions[1].is_remote);
}

#[test]
fn method_errors() {
    let none = vec![method("helper", &[], false, vec![None], None)];
    assert_eq!(
        analyze_methods(&none).err().unwrap().message,
        "You must specify at least one handler with #[remote], #[local], or #[http] attribute. Without any handlers, this hyperprocess wouldn't respond to any requests."
    );
    let mixed = vec![method("initialize", &["init", "local"], true, vec![None], None)];
    assert_eq!(analyze_methods(&mixed).err().unwrap().message, "#[init] cannot be combined with other attributes");
    let twice = vec![
        method("a", &["init"], true, vec![None], None),
        method("b", &["init"], true, vec![None], None),
    ];
    let e = analyze_methods(&twice).err().unwrap();
    assert_eq!(e.message, "Multiple #[init] methods defined");
    assert_eq!(e.site, ErrorSite::Method(1));
    let no_self = vec![method("f", &["remote"], false, vec![Some("u8")], None)];
    assert_eq!(
        analyze_methods(&no_self).err().unwrap().message,
        "Request-response handlers must take &mut self as their first parameter"
    );
}

fn function(name: &str, variant: &str, params: &[&str], ret: Option<&str>, is_async: bool, local: bool, http: bool) -> FunctionMetadata {
    FunctionMetadata {
        name: name.to_string(),
        variant_name: variant.to_string(),
        params: params.iter().map(|p| p.to_string()).collect(),
        return_type: ret.map(|r| r.to_string()),
        is_async,
        is_local: local,
        is_remote: false,
        is_http: http,
    }
}

#[test]
fn enum_variants() {
    assert_eq!(generate_enum_variant("Foo", &Vec::new()), "Foo");
    assert_eq!(generate_enum_variant("Foo", &vec!["u32".to_string()]), "Foo(u32)");
    assert_eq!(generate_enum_variant("Foo", &vec!["u32".to_string(), "String".to_string()]), "Foo(u32, String)");
    let fs = vec![
        function("add", "Add", &["u8", "u8"], Some("u16"), false, true, false),
        function("ping", "Ping", &[], Some("()"), false, true, false),
    ];
    let (req, resp) = generate_request_response_enums(&fs);
    assert_eq!(req, "#[derive(Debug, serde::Serialize, serde::Deserialize)] enum Request { Add(u8, u8), Ping }");
    assert_eq!(resp, "#[derive(Debug, serde::Serialize, serde::Deserialize)] enum Response { Add(u16), Ping }");
    assert_eq!(generate_request_response_enums(&Vec::new()), (String::new(), String::new()));
}

#[test]
fn dispatch_arms() {
    let add = function("add", "Add", &["u8", "u8"], Some("u16"), false, true, false);
    assert_eq!(
        generate_handler_dispatch_arm(&add, "S", HandlerType::Local),
        "Request::Add(param0, param1) => { let result = unsafe { (*state).add(param0, param1) }; let response = Response::Add(result); let resp = hyperware_process_lib::Response::new().body(serde_json::to_vec(&response).unwrap()); resp.send().unwrap(); }"
    );
    let get = function("get", "Get", &["u8", "u8", "u8"], None, true, false, true);
    assert_eq!(
        generate_handler_dispatch_arm(&get, "S", HandlerType::Http),
        "Request::Get(param0, param1, param2) => { let param0_captured = param0; let param1_captured = param1; let param2_captured = param2;  let state_ptr: *mut S = state; hyperware_app_common::hyper! { let result = unsafe { (*state_ptr).get(param0_captured, param1_captured, param2_captured).await }; let response = Response::Get(result); let response_bytes = serde_json::to_vec(&response).unwrap(); hyperware_process_lib::http::server::send_response(hyperware_process_lib::http::StatusCode::OK, None, response_bytes); } }"
    );
    let fs = vec![add];
    assert_eq!(
        generate_handler_dispatch(&fs, "S", HandlerType::Http),
        "hyperware_process_lib::logging::warn!(\"No HTTP handlers defined but received an HTTP request\");"
    );
    let local = generate_handler_dispatch(&fs, "S", HandlerType::Local);
    assert!(local.starts_with("match request { Request::Add(param0, param1) => {"));
    assert!(local.ends_with(" _ => unreachable!(concat!(\"Non-\", \"local\", \" request variant received in \", \"local\", \" handler\")) }"));
}

#[test]
fn init_and_ws_calls() {
    assert_eq!(init_method_opt_to_token(&Some("init".to_string())), "Some(stringify!(init))");
    assert_eq!(init_method_opt_to_token(&None), "None::<&str>");
    assert_eq!(
        init_method_opt_to_call(&Some("setup".to_string()), "S"),
        "let state_ptr: *mut S = &mut state; hyperware_app_common::hyper! { unsafe { (*state_ptr).setup().await }; }"
    );
    assert_eq!(init_method_opt_to_call(&None, "S"), "");
    assert_eq!(ws_method_opt_to_call(&Some("on_ws".to_string())), "unsafe { (*state).on_ws(channel_id, message_type, blob) };");
    assert_eq!(ws_method_opt_to_call(&None), "");
}

#[test]
fn whole_expansion() {
    let methods = vec![
        method("initialize", &["init"], true, vec![None], None),
        method("call_me", &["local"], false, vec![None, Some("i32")], Some("String")),
    ];
    let code = hyperprocess_impl(&full_args(), "ReceiverAState", "impl ReceiverAState { }", &methods).ok().unwrap();
    assert!(code.starts_with("wit_bindgen::generate!({ path: \"target/wit\", world: \"w-v0\","));
    assert!(code.contains(" impl ReceiverAState { } "));
    assert!(code.contains("enum Request { CallMe(i32) }"));
    assert!(code.contains("enum Response { CallMe(String) }"));
    assert!(code.contains("fn handle_local_message(state: *mut ReceiverAState, message: hyperware_process_lib::Message)"));
    assert!(code.contains("let app_name = \"Receiver A\"; let app_icon = None; let app_widget = None; let ui_config = Some(HttpBindingConfig::default()); let endpoints = vec![];"));
    assert!(code.contains("if Some(stringify!(initialize)).is_some() { let state_ptr: *mut ReceiverAState = &mut state;"));
    assert!(code.ends_with("export!(Component);"));
    let e = hyperprocess_impl(&Vec::new(), "S", "", &methods).err().unwrap();
    assert_eq!(e.message, "Missing 'name'");
}

#[test]
fn handler_texts() {
    let local = cronchware::hyperprocess::generate_local_message_handler("S", "ARMS");
    assert!(local.starts_with("/// Handle local messages\nfn handle_local_message(state: *mut S, message: hyperware_process_lib::Message) {"));
    assert!(local.contains("unsafe { ARMS hyperware_app_common::maybe_save_state(&mut *state); }"));
    let remote = cronchware::hyperprocess::generate_remote_message_handler("S", "ARMS");
    assert!(remote.contains("Failed to deserialize remote request into Request enum: {}"));
    let http = cronchware::hyperprocess::generate_http_server_handler("S", "H", "W");
    assert!(http.contains("unsafe { H hyperware_app_common::maybe_save_state(&mut *state); }"));
    assert!(http.contains("return; }; W unsafe {"));
    let all = cronchware::hyperprocess::generate_message_handlers("S", "H", "L", "R", "W");
    assert_eq!(all, format!("{} {} {}", http, cronchware::hyperprocess::generate_local_message_handler("S", "L"), cronchware::hyperprocess::generate_remote_message_handler("S", "R")));
    assert_eq!(cronchware::hyperprocess::ws_method_opt_to_token(&Some("on_ws".to_string())), "Some(stringify!(on_ws))");
}
