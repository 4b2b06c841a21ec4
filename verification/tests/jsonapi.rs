use eodhd_mcp::json::{Json, JsonMap, JsonNumber};
use eodhd_mcp::options::{
    flatten_jsonapi, frame_options_response, options_display, options_header, options_label, options_next_link,
    scrub_next_link, scrub_token,
};
use serde_json::Value;

fn from_value(v: &Value) -> Json {
    match v {
        Value::Null => Json::Null,
        Value::Bool(b) => Json::Bool(*b),
        Value::Number(n) => {
            if let Some(u) = n.as_u64() {
                Json::Number(JsonNumber::PosInt(u))
            } else if let Some(i) = n.as_i64() {
                Json::Number(JsonNumber::NegInt(i))
            } else {
                Json::Number(JsonNumber::Float(n.to_string()))
            }
        }
        Value::String(s) => Json::Str(s.clone()),
        Value::Array(xs) => Json::Array(xs.iter().map(from_value).collect()),
        Value::Object(m) => {
            let mut out = JsonMap::new();
            for (k, v) in m {
                out.insert(k.clone(), from_value(v));
            }
            Json::Object(out)
        }
    }
}

fn parse(text: &str) -> Json {
    let v: Value = serde_json::from_str(text).unwrap();
    from_value(&v)
}

fn text(j: Option<&Json>) -> Option<&str> {
    j.and_then(|x| x.as_str())
}

#[test]
fn flatten_jsonapi_hoists_attributes() {
    let item = parse(
        r#"{
            "id": "AAPL231117C00300000-2023-11-17",
            "type": "options-eod",
            "attributes": {
                "contract": "AAPL231117C00300000",
                "strike": 300,
                "bid": null
            }
        }"#,
    );
    let flat = flatten_jsonapi(item);
    assert_eq!(text(flat.get("contract")), Some("AAPL231117C00300000"));
    assert_eq!(flat.get("strike"), Some(&Json::Number(JsonNumber::PosInt(300))));
    assert!(flat.get("bid").unwrap().is_null());
    assert_eq!(text(flat.get("_id")), Some("AAPL231117C00300000-2023-11-17"));
}

#[test]
fn flatten_jsonapi_passthrough_for_flat_object() {
    let item = parse(r#"{"contract": "X", "strike": 100}"#);
    let flat = flatten_jsonapi(parse(r#"{"contract": "X", "strike": 100}"#));
    assert_eq!(flat, item);
}

#[test]
fn flatten_keeps_record_without_object_attributes() {
    let item = parse(r#"{"id": "a", "attributes": 5}"#);
    assert_eq!(flatten_jsonapi(parse(r#"{"id": "a", "attributes": 5}"#)), item);
    assert_eq!(flatten_jsonapi(Json::Null), Json::Null);
}

#[test]
fn flatten_without_id_adds_nothing() {
    let flat = flatten_jsonapi(parse(r#"{"attributes": {"strike": 1}}"#));
    assert!(flat.get("_id").is_none());
    assert_eq!(flat.get("strike"), Some(&Json::Number(JsonNumber::PosInt(1))));
}

const CANNED: &str = r#"{
  "meta": {"offset": 0, "limit": 1000, "total": 2},
  "data": [
    {
      "id": "AAPL231117C00300000-2023-11-17",
      "type": "options-eod",
      "attributes": {
        "contract": "AAPL231117C00300000",
        "underlying_symbol": "AAPL",
        "exp_date": "2023-11-17",
        "type": "call",
        "strike": 300,
        "bid": null,
        "ask": 0.01,
        "open_interest": 2300,
        "delta": 0,
        "tradetime": "2023-11-17"
      }
    }
  ],
  "links": {"next": "https://eodhd.com/api/mp/unicornbay/options/eod?page%5Boffset%5D=1000&api_token=ABC"}
}"#;

#[test]
fn parses_canned_eod_response() {
    let v = parse(CANNED);
    let next = options_next_link(&v).unwrap();
    let shown = options_display(v);
    let rows = match &shown {
        Json::Array(xs) => xs,
        _ => panic!("expected the records"),
    };
    let row = &rows[0];
    assert_eq!(text(row.get("contract")), Some("AAPL231117C00300000"));
    assert!(row.get("bid").unwrap().is_null());
    assert_eq!(row.get("strike"), Some(&Json::Number(JsonNumber::PosInt(300))));

    assert!(scrub_token(&next).contains("api_token=***"));
    assert!(!scrub_token(&next).contains("ABC"));
}

#[test]
fn header_reports_total_pages_and_cap() {
    let v = parse(CANNED);
    assert_eq!(options_header("eod", &v), "Options EOD — total 2");
    let w = parse(r#"{"meta": {"total": 7, "pages_fetched": 3, "pagination_cap_hit": true}}"#);
    assert_eq!(
        options_header("contracts", &w),
        "Options Contracts — total 7, pages fetched 3 (max_pages cap hit)"
    );
    assert_eq!(options_header("other", &Json::Null), "Options");
    assert_eq!(options_label("underlyings"), "Options Underlyings");
}

#[test]
fn display_falls_back_to_whole_answer() {
    let v = parse(r#"{"data": {"not": "an array"}}"#);
    let same = parse(r#"{"data": {"not": "an array"}}"#);
    assert_eq!(options_display(v), same);
}

#[test]
fn next_link_is_masked_in_place() {
    let v = parse(r#"{"links": {"next": "u?api_token=KEY&x=1"}, "data": []}"#);
    let scrubbed = scrub_next_link(v);
    assert_eq!(options_next_link(&scrubbed).as_deref(), Some("u?api_token=***&x=1"));
    assert!(scrubbed.get("data").is_some());
    let none = parse(r#"{"links": {"next": null}}"#);
    let same = parse(r#"{"links": {"next": null}}"#);
    assert_eq!(scrub_next_link(none), same);
}

#[test]
fn response_frame_has_notes_body_and_link() {
    let notes = vec!["first".to_string(), "second".to_string()];
    assert_eq!(
        frame_options_response(&notes, "BODY", Some("http://x")),
        "> **Note:** first\n\n> **Note:** second\n\nBODY\n\n**links.next:** `http://x`\n"
    );
    assert_eq!(frame_options_response(&vec![], "BODY", None), "BODY");
}
