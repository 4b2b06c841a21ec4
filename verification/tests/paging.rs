use eodhd_mcp::json::{Json, JsonMap, JsonNumber};
use eodhd_mcp::paging::Pagination;

fn obj(pairs: Vec<(&str, Json)>) -> Json {
    let mut m = JsonMap::new();
    for (k, v) in pairs {
        m.insert(k.to_string(), v);
    }
    Json::Object(m)
}

fn n(x: u64) -> Json {
    Json::Number(JsonNumber::PosInt(x))
}

fn page(ids: &[u64], next: Option<&str>, total: Option<u64>) -> Json {
    let mut fields = vec![("data", Json::Array(ids.iter().map(|i| n(*i)).collect()))];
    if let Some(t) = total {
        fields.push(("meta", obj(vec![("total", n(t))])));
    }
    let link = match next {
        Some(u) => Json::Str(u.to_string()),
        None => Json::Null,
    };
    fields.push(("links", obj(vec![("next", link)])));
    obj(fields)
}

#[test]
fn pages_are_followed_until_no_next_link() {
    let mut p = Pagination::start(page(&[1, 2], Some("u2"), Some(5)), Some(5));
    assert_eq!(p.next_page(), Some("u2"));
    p.absorb(page(&[3, 4], Some("u3"), None));
    assert_eq!(p.next_page(), Some("u3"));
    p.absorb(page(&[5], None, None));
    assert_eq!(p.next_page(), None);
    let merged = p.finish();
    assert_eq!(merged.get("data"), Some(&Json::Array(vec![n(1), n(2), n(3), n(4), n(5)])));
    let meta = merged.get("meta").unwrap();
    assert_eq!(meta.get("total"), Some(&n(5)));
    assert_eq!(meta.get("pages_fetched"), Some(&n(3)));
    assert!(meta.get("pagination_cap_hit").is_none());
    assert!(merged.get("links").unwrap().get("next").unwrap().is_null());
}

#[test]
fn page_limit_stops_the_run_and_marks_the_cap() {
    let mut p = Pagination::start(page(&[1], Some("u2?api_token=SECRET"), None), Some(2));
    assert_eq!(p.max_pages, 2);
    p.absorb(page(&[2], Some("u3?api_token=SECRET"), None));
    assert_eq!(p.next_page(), None);
    let merged = p.finish();
    let meta = merged.get("meta").unwrap();
    assert_eq!(meta.get("pages_fetched"), Some(&n(2)));
    assert_eq!(meta.get("pagination_cap_hit"), Some(&Json::Bool(true)));
    let next = merged.get("links").unwrap().get("next").unwrap();
    assert_eq!(next.as_str(), Some("u3?api_token=***"));
}

#[test]
fn limit_defaults_to_five_and_is_at_least_one() {
    assert_eq!(Pagination::start(Json::Null, None).max_pages, 5);
    let p = Pagination::start(page(&[], Some("u"), None), Some(0));
    assert_eq!(p.max_pages, 1);
    assert_eq!(p.next_page(), None);
    let merged = p.finish();
    assert_eq!(merged.get("data"), Some(&Json::Array(vec![])));
}

#[test]
fn missing_meta_starts_empty() {
    let p = Pagination::start(page(&[1], None, None), None);
    let merged = p.finish();
    let meta = merged.get("meta").unwrap();
    assert_eq!(meta.get("pages_fetched"), Some(&n(1)));
    assert_eq!(meta.as_object().unwrap().len(), 1);
}
