use eodhd_mcp::json::{Json, JsonMap, JsonNumber};
use eodhd_mcp::normalization::{is_iso_date, is_periodic_map, slice_periodic, sorted_dates_desc};

fn obj(pairs: Vec<(&str, Json)>) -> Json {
    let mut m = JsonMap::new();
    for (k, v) in pairs {
        m.insert(k.to_string(), v);
    }
    Json::Object(m)
}

fn map_of(v: &Json) -> &JsonMap {
    v.as_object().expect("an object")
}

fn s(t: &str) -> Json {
    Json::Str(t.to_string())
}

fn num(n: u64) -> Json {
    Json::Number(JsonNumber::PosInt(n))
}

#[test]
fn iso_date_detection() {
    assert!(is_iso_date("2024-01-31"));
    assert!(is_iso_date("1999-12-31"));
    assert!(!is_iso_date("2024-1-31")); // missing zero pad
    assert!(!is_iso_date("2024/01/31")); // wrong separator
    assert!(!is_iso_date(""));
    assert!(!is_iso_date("not-a-date"));
    assert!(!is_iso_date("2024-01-31T00:00")); // too long
}

#[test]
fn periodic_map_recognised() {
    let m = obj(vec![("2024-01-31", obj(vec![("x", num(1))])), ("2024-04-30", obj(vec![("x", num(2))]))]);
    assert!(is_periodic_map(map_of(&m)));

    let m2 = obj(vec![("2024-01-31", obj(vec![("x", num(1))])), ("currency_symbol", s("USD"))]);
    assert!(!is_periodic_map(map_of(&m2)));
}

fn four_quarters() -> Json {
    obj(vec![
        ("2023-01-01", s("a")),
        ("2023-04-01", s("b")),
        ("2023-07-01", s("c")),
        ("2023-10-01", s("d")),
    ])
}

#[test]
fn last_n_keeps_newest() {
    let mut v = four_quarters();
    slice_periodic(&mut v, Some(2), None, None);
    let m = map_of(&v);
    assert_eq!(m.len(), 2);
    assert!(m.contains_key("2023-07-01"));
    assert!(m.contains_key("2023-10-01"));
}

#[test]
fn date_range_filters_inclusive() {
    let mut v = four_quarters();
    slice_periodic(&mut v, None, Some("2023-04-01"), Some("2023-07-01"));
    let m = map_of(&v);
    assert_eq!(m.len(), 2);
    assert!(m.contains_key("2023-04-01"));
    assert!(m.contains_key("2023-07-01"));
}

#[test]
fn slicing_recurses_into_nested_objects() {
    let mut v = obj(vec![(
        "Financials",
        obj(vec![(
            "Income_Statement",
            obj(vec![
                ("currency_symbol", s("USD")),
                (
                    "quarterly",
                    obj(vec![
                        ("2023-01-01", obj(vec![("rev", num(1))])),
                        ("2023-04-01", obj(vec![("rev", num(2))])),
                        ("2023-07-01", obj(vec![("rev", num(3))])),
                    ]),
                ),
            ]),
        )]),
    )]);
    slice_periodic(&mut v, Some(1), None, None);
    let stmt = v.get("Financials").unwrap().get("Income_Statement").unwrap();
    let m = map_of(stmt.get("quarterly").unwrap());
    assert_eq!(m.len(), 1);
    assert!(m.contains_key("2023-07-01"));
    // currency_symbol siblings untouched
    assert_eq!(stmt.get("currency_symbol").unwrap().as_str(), Some("USD"));
}

#[test]
fn empty_map_left_alone() {
    let mut v = obj(vec![]);
    slice_periodic(&mut v, Some(5), None, None);
    assert_eq!(v, obj(vec![]));
}

#[test]
fn no_op_when_no_params() {
    let mut v = obj(vec![("2023-01-01", num(1)), ("2023-04-01", num(2))]);
    slice_periodic(&mut v, None, None, None);
    assert_eq!(v.get("2023-01-01"), Some(&num(1)));
    assert_eq!(v.get("2023-04-01"), Some(&num(2)));
}

#[test]
fn slicing_combines_range_then_last_n() {
    let mut v = four_quarters();
    slice_periodic(&mut v, Some(1), Some("2023-01-01"), Some("2023-07-01"));
    let m = map_of(&v);
    assert_eq!(m.len(), 1);
    assert!(m.contains_key("2023-07-01"));
}

#[test]
fn slicing_twice_changes_nothing_more() {
    let mut once = four_quarters();
    slice_periodic(&mut once, Some(3), Some("2023-04-01"), None);
    let mut twice = four_quarters();
    slice_periodic(&mut twice, Some(3), Some("2023-04-01"), None);
    slice_periodic(&mut twice, Some(3), Some("2023-04-01"), None);
    assert_eq!(once, twice);
    assert_eq!(map_of(&once).len(), 3);
}

#[test]
fn slicing_inside_arrays_and_zero_last_n() {
    let mut v = Json::Array(vec![four_quarters(), s("x")]);
    slice_periodic(&mut v, Some(0), None, None);
    match &v {
        Json::Array(xs) => {
            assert_eq!(map_of(&xs[0]).len(), 0);
            assert_eq!(xs[1], s("x"));
        }
        _ => panic!("array expected"),
    }
}

#[test]
fn dates_sorted_newest_first() {
    let v = obj(vec![("2023-04-01", num(1)), ("2024-01-01", num(2)), ("2023-10-01", num(3))]);
    assert_eq!(sorted_dates_desc(map_of(&v)), vec!["2024-01-01", "2023-10-01", "2023-04-01"]);
}

#[test]
fn newest_entries_come_newest_first() {
    let mut m = JsonMap::new();
    m.insert("2024-03-31".into(), num(1));
    m.insert("2024-12-31".into(), num(4));
    m.insert("2024-06-30".into(), num(2));
    m.insert("2024-09-30".into(), num(3));
    let two = eodhd_mcp::normalization::newest_entries(&m, 2).unwrap();
    assert_eq!(two, vec![&num(4), &num(3)]);
    assert!(eodhd_mcp::normalization::newest_entries(&m, 5).is_none());
    assert_eq!(eodhd_mcp::normalization::newest_entries(&m, 0).unwrap().len(), 0);
}
