use eodhd_mcp::format::{can_truncate, format_as_json, format_no_results, layout_of, truncate_str, Layout};
use eodhd_mcp::json::{Json, JsonMap, JsonNumber};
use eodhd_mcp::table::{format_flat_object, format_object_array};

fn cell(k: &str, v: Option<&str>) -> (String, Option<String>) {
    (k.to_string(), v.map(|s| s.to_string()))
}

#[test]
fn object_array_table_has_sorted_columns_and_dashes() {
    let rows = vec![
        vec![cell("name", Some("Apple")), cell("code", Some("AAPL"))],
        vec![cell("code", Some("MSFT")), cell("exchange", None)],
    ];
    assert_eq!(
        format_object_array("Search", &rows),
        "**Search** (2 rows)\n\n| code | exchange | name |\n| --- | --- | --- |\n| AAPL | — | Apple |\n| MSFT | — | — |\n"
    );
}

#[test]
fn single_row_and_empty_keys() {
    let rows = vec![vec![cell("a", Some("1"))]];
    assert_eq!(format_object_array("L", &rows), "**L** (1 row)\n\n| a |\n| --- |\n| 1 |\n");
    let empty: Vec<Vec<(String, Option<String>)>> = vec![vec![], vec![]];
    assert_eq!(format_object_array("L", &empty), "**L**\n\nEmpty results.");
}

#[test]
fn long_arrays_are_cut_at_150_rows() {
    let rows: Vec<Vec<(String, Option<String>)>> =
        (0..152).map(|i| vec![cell("i", Some(&i.to_string()))]).collect();
    let out = format_object_array("Big", &rows);
    assert!(out.starts_with("**Big** (152 rows, showing first 150)\n\n| i |\n| --- |\n| 0 |\n"));
    assert!(out.contains("| 149 |\n"));
    assert!(!out.contains("| 150 |"));
    assert!(out.ends_with("\n*... 2 more rows not shown.*\n"));
}

#[test]
fn cells_are_cut_to_forty_bytes() {
    let long = "x".repeat(45);
    let rows = vec![vec![cell("k", Some(&long))]];
    let out = format_object_array("T", &rows);
    assert!(out.contains(&format!("| {}... |", "x".repeat(37))));
}

#[test]
fn flat_object_table() {
    let fields = vec![cell("Code", Some("AAPL")), cell("Beta", None)];
    assert_eq!(
        format_flat_object("General", &fields),
        "**General**\n\n| Field | Value |\n| --- | --- |\n| Code | AAPL |\n| Beta | — |\n"
    );
    let long = "y".repeat(100);
    let out = format_flat_object("G", &vec![cell("k", Some(&long))]);
    assert!(out.ends_with(&format!("| k | {}... |\n", "y".repeat(77))));
}

#[test]
fn truncation_rules() {
    assert_eq!(truncate_str("short", 40), "short");
    assert_eq!(truncate_str("abcdefghij", 8), "abcde...");
    assert!(can_truncate("abcdefghij", 8));
    assert!(!can_truncate("ééééé", 6));
    assert!(can_truncate("ééééé", 5));
}

#[test]
fn layouts() {
    let mut m = JsonMap::new();
    m.insert("a".to_string(), Json::Number(JsonNumber::PosInt(1)));
    let flat = Json::Object(m);
    assert_eq!(layout_of(&flat), Layout::FlatObject);
    assert_eq!(layout_of(&Json::Array(vec![])), Layout::NoResults);
    assert_eq!(layout_of(&Json::Array(vec![flat])), Layout::ObjectTable);
    assert_eq!(layout_of(&Json::Array(vec![Json::Null])), Layout::JsonText);
    assert_eq!(layout_of(&Json::Str("x".to_string())), Layout::JsonText);
    let mut nested = JsonMap::new();
    nested.insert("a".to_string(), Json::Array(vec![]));
    assert_eq!(layout_of(&Json::Object(nested)), Layout::JsonText);
    let mut wide = JsonMap::new();
    for i in 0..21 {
        wide.insert(format!("k{}", i), Json::Null);
    }
    assert_eq!(layout_of(&Json::Object(wide)), Layout::JsonText);
}

#[test]
fn notices_and_json_blocks() {
    assert_eq!(format_no_results("News"), "**News**\n\nNo results found.");
    assert_eq!(format_as_json("X", "{\"a\": 1}"), "**X**\n\n```json\n{\"a\": 1}\n```\n");
    let big = "z".repeat(50_001);
    let out = format_as_json("Y", &big);
    assert!(out.ends_with(&format!("{}\n... (truncated, data too large)\n```\n", "z".repeat(10))));
    assert_eq!(out.len(), "**Y**\n\n```json\n".len() + 50_000 + "\n... (truncated, data too large)\n```\n".len());
}
