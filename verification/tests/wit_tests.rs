use cronchware::wit_codegen::{generate_code, world_import_names, TypeTracker};

const DERIVE: &str = "#[derive(Debug, Clone, PartialEq, Deserialize, Serialize, SerdeJsonInto)]\n";

fn header(path: &str) -> String {
    format!(
        "// Generated from Wit file: {}\n// DO NOT EDIT - GENERATED CODE\n\npub mod wit_custom {{\n    use std::rc::Rc;\n    use std::collections::HashMap;\n    use serde::{{Deserialize, Serialize}};\n    use process_macros::SerdeJsonInto;\n\n",
        path
    )
}

#[test]
fn standalone_interface_generates_types_in_order() {
    let content = "interface demo {\n  record point-item {\n    x-pos: s32,\n    tags: list<string>\n  }\n  variant shape { circle(u8), empty }\n  type maybe = option<bool>\n  type colour = enum { red, dark-blue }\n  record call-signature-local { target: address }\n}\n";
    let (code, tracker) = generate_code("demo.wit", Some(content), &Vec::new(), true);
    let mut expected = header("demo.wit");
    expected.push_str("    // Standalone interface: demo\n");
    expected.push_str(DERIVE);
    expected.push_str("pub struct PointItem {\n    pub x_pos: i32,\n    pub tags: Vec<String>,\n}\n\n");
    expected.push_str(DERIVE);
    expected.push_str("pub enum Shape {\n    Circle(u8),\n    Empty,\n}\n\n");
    expected.push_str("pub type Maybe = Option<bool>;\n\n");
    expected.push_str(DERIVE);
    expected.push_str("pub enum Colour {\n    Red,\n    DarkBlue,\n}\n\n");
    expected.push_str("}\n");
    assert_eq!(code, expected);
    let lines = tracker.summary_lines();
    assert_eq!(
        lines,
        vec![
            "\n=== WIT Parser: Generated Types ===".to_string(),
            "  1. point-item (struct)".to_string(),
            "  2. shape (variant enum)".to_string(),
            "  3. maybe (type alias)".to_string(),
            "  4. colour (enum)".to_string(),
            "=== End of Generated Types ===\n".to_string(),
        ]
    );
}

#[test]
fn world_imports_then_exports() {
    let content = "world w {\n  import foo;\n  export interface bar {\n    type x = u8\n  }\n}\n";
    let files = vec![("foo".to_string(), "interface foo {\n  record r { a: string }\n}\n".to_string())];
    let (code, tracker) = generate_code("w.wit", Some(content), &files, true);
    let mut expected = header("w.wit");
    expected.push_str("    // From interface: foo\n");
    expected.push_str(DERIVE);
    expected.push_str("pub struct R {\n    pub a: String,\n}\n\n");
    expected.push_str("    // Export interface: bar\n");
    expected.push_str("pub type X = u8;\n\n");
    expected.push_str("}\n");
    assert_eq!(code, expected);
    assert_eq!(tracker.summary_lines().len(), 4);
    assert_eq!(world_import_names(content), vec!["foo".to_string()]);
}

#[test]
fn missing_import_file_is_skipped() {
    let content = "world w {\n  import foo;\n}\n";
    let (code, _) = generate_code("w.wit", Some(content), &Vec::new(), false);
    assert_eq!(code, format!("{}}}\n", header("w.wit")));
}

#[test]
fn unreadable_file_gives_empty_module() {
    let (code, tracker) = generate_code("gone.wit", None, &Vec::new(), true);
    assert_eq!(code, format!("{}}}\n", header("gone.wit")));
    assert_eq!(
        tracker.summary_lines(),
        vec![
            "\n=== WIT Parser: Generated Types ===".to_string(),
            "  No types were generated - the Wit file might be empty or not properly parsed".to_string(),
            "=== End of Generated Types ===\n".to_string(),
        ]
    );
}

#[test]
fn address_is_never_generated_and_standard_aliases_are() {
    let content = "interface i {\n  use standard.{address, node-id};\n  record address { a: string }\n  type t = (u8, string)\n}\n";
    let (code, _) = generate_code("i.wit", Some(content), &Vec::new(), false);
    let mut expected = header("i.wit");
    expected.push_str("    // Standalone interface: i\n");
    expected.push_str("pub type node-id = node-id;\n\n");
    expected.push_str("pub type T = (u8, String);\n\n");
    expected.push_str("}\n");
    assert_eq!(code, expected);
}

#[test]
fn tracker_without_debug_records_nothing() {
    let mut t = TypeTracker::new(false);
    t.track("a", "struct");
    assert!(t.summary_lines().is_empty());
    let mut d = TypeTracker::new(true);
    d.track("a", "struct");
    assert_eq!(d.summary_lines()[1], "  1. a (struct)");
}
