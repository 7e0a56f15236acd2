use cronchware::bindgen::{
    example_value_for, extract_imports, generate_async_functions, generate_default_value,
    parse_signature_record_name, wit_type_to_rust,
};
use cronchware::case::{kebab_to_pascal, kebab_to_snake, snake_to_camel};
use cronchware::signatures::extract_signatures_from_interface;

#[test]
fn wit_types_map_to_rust() {
    assert_eq!(wit_type_to_rust("s32", "api"), "i32");
    assert_eq!(wit_type_to_rust("s64", "api"), "i64");
    assert_eq!(wit_type_to_rust("string", "api"), "String");
    assert_eq!(wit_type_to_rust("unit", "api"), "()");
    assert_eq!(wit_type_to_rust("address", "api"), "hyperware_process_lib::Address");
    assert_eq!(wit_type_to_rust("list<string>", "api"), "Vec<String>");
    assert_eq!(wit_type_to_rust("option<u64>", "api"), "Option<u64>");
    assert_eq!(wit_type_to_rust("result<string, string>", "api"), "String");
    assert_eq!(wit_type_to_rust("result<u8>", "api"), "()");
    assert_eq!(wit_type_to_rust("tuple<s32, bool>", "api"), "(i32, bool)");
    assert_eq!(
        wit_type_to_rust("my-type", "my-iface"),
        "crate::hyperware::process::my_iface::MyType"
    );
}

#[test]
fn case_conversions() {
    assert_eq!(kebab_to_pascal("foo-bar"), "FooBar");
    assert_eq!(kebab_to_pascal("ß-x"), "SSX");
    assert_eq!(kebab_to_snake("foo-bar-baz"), "foo_bar_baz");
    assert_eq!(snake_to_camel("handle_http"), "HandleHttp");
    assert_eq!(snake_to_camel("a__b"), "AB");
    assert_eq!(snake_to_camel("_x"), "X");
}

#[test]
fn signature_record_names() {
    assert_eq!(
        parse_signature_record_name("foo-signature-local"),
        Some(("foo".to_string(), "local".to_string()))
    );
    assert_eq!(parse_signature_record_name("foo"), None);
    assert_eq!(parse_signature_record_name("a-signature-b-signature-c"), None);
}

#[test]
fn imports_of_a_world() {
    let content = "world w {\n  import foo;\n    import bar ;\n  export baz;\n}\n";
    assert_eq!(extract_imports(content), vec!["foo".to_string(), "bar".to_string()]);
}

#[test]
fn default_values() {
    assert_eq!(generate_default_value("i32"), "0");
    assert_eq!(generate_default_value("f64"), "0.0");
    assert_eq!(generate_default_value("String"), "String::new()");
    assert_eq!(generate_default_value("bool"), "false");
    assert_eq!(generate_default_value("()"), "()");
    assert_eq!(generate_default_value("Vec<u8>"), "Vec::new()");
    assert_eq!(generate_default_value("Option<T>"), "None");
    assert_eq!(generate_default_value("(i32, String)"), "(0, String::new())");
    assert_eq!(generate_default_value("Foo"), "Default::default()");
}

#[test]
fn example_values() {
    assert_eq!(example_value_for("name", "String"), "\"example name\"");
    assert_eq!(example_value_for("n", "u64"), "42");
    assert_eq!(example_value_for("f", "f32"), "3.14");
    assert_eq!(example_value_for("b", "bool"), "true");
    assert_eq!(example_value_for("v", "Vec<u8>"), "vec![]");
    assert_eq!(example_value_for("o", "Option<u8>"), "None");
    assert_eq!(example_value_for("x", "Foo"), "Default::default()");
}

const API: &str = "interface api {\n    record increment-counter-signature-local {\n        target: address,\n        value: s32,\n        name-list: list<string>,\n        returning: result<string, string>\n    }\n    record fetch-signature-http {\n        target: string,\n        returning: u64\n    }\n}\n";

#[test]
fn signatures_from_records() {
    let sigs = extract_signatures_from_interface(API, "api");
    assert_eq!(sigs.len(), 2);
    assert_eq!(sigs[0].name, "increment_counter");
    assert_eq!(sigs[0].original_name, "increment-counter");
    assert_eq!(sigs[0].call_type, "local");
    assert!(!sigs[0].is_http);
    assert_eq!(
        sigs[0].params,
        vec![
            ("value".to_string(), "i32".to_string()),
            ("name_list".to_string(), "Vec<String>".to_string())
        ]
    );
    assert_eq!(sigs[0].return_type, "String");
    assert_eq!(sigs[1].name, "fetch");
    assert_eq!(sigs[1].call_type, "http");
    assert!(sigs[1].is_http);
    assert!(sigs[1].params.is_empty());
    assert_eq!(sigs[1].return_type, "u64");
}

#[test]
fn signatures_from_function_lines() {
    let content = "interface api {\n  // remote\n  do-it: func(target: address, count: u32) -> result<bool, string>;\n  ping: func() -> string;\n}\n";
    let sigs = extract_signatures_from_interface(content, "api");
    assert_eq!(sigs.len(), 2);
    assert_eq!(sigs[0].name, "do_it");
    assert_eq!(sigs[0].call_type, "remote");
    assert_eq!(sigs[0].params, vec![("count".to_string(), "u32".to_string())]);
    assert_eq!(sigs[0].return_type, "bool");
    assert_eq!(sigs[1].name, "ping");
    assert_eq!(sigs[1].call_type, "remote");
    assert_eq!(sigs[1].return_type, "String");
}

#[test]
fn async_functions_module() {
    let sigs = extract_signatures_from_interface(API, "api");
    let code = generate_async_functions(&sigs);
    let expected = format!(
        "{}{}{}{}",
        "/// This module contains generated async RPC functions based on WIT signature records.\n/// These functions can be used to communicate with other processes in the Hyperware system.\npub mod hyperware_async { ",
        "#[doc = \"Async RPC function for increment-counter-local\"] pub async fn increment_counter_local_rpc(target: hyperware_process_lib::Address, value: i32, name_list: Vec<String>) -> String { println!(\"Local function called: {}\", stringify!(\"increment_counter\")); String::new() }",
        "#[doc = \"Async RPC function for fetch-http\"] pub async fn fetch_http_rpc(target: String) -> u64 { println!(\"HTTP function called: {}\", stringify!(\"fetch\")); 0 }",
        " }"
    );
    assert_eq!(code, expected);
}

#[test]
fn async_functions_without_signatures() {
    let code = generate_async_functions(&Vec::new());
    assert!(code.contains("pub mod hyperware_async { #[allow(dead_code)] fn no_functions_found()"));
    assert!(code.starts_with("/// This module contains generated async RPC functions.\n"));
}

#[test]
fn listing_and_usage_lines() {
    let sigs = extract_signatures_from_interface(API, "api");
    assert_eq!(
        cronchware::bindgen::function_line(&sigs[0], "local"),
        "hyper_bindgen:     increment_counter_local_rpc(value: i32, name_list: Vec<String>) -> String"
    );
    assert_eq!(
        cronchware::bindgen::usage_lines(&sigs[0]),
        vec![
            "hyper_bindgen: async fn my_function() {".to_string(),
            "hyper_bindgen:     let result = increment_counter_local_rpc(Address::new(\"node\", \"process\", \"package\", \"publisher\"), 42, vec![]).await;".to_string(),
            "hyper_bindgen:     println!(\"Result: {:?}\", result);".to_string(),
            "hyper_bindgen: }".to_string(),
        ]
    );
    assert_eq!(
        cronchware::bindgen::usage_lines(&sigs[1])[1],
        "hyper_bindgen:     let result = fetch_http_rpc(\"http://example.com\").await;"
    );
}
