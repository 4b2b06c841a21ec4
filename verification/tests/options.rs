use eodhd_mcp::options::{build_options_query, check_options_request, has_any_filter, scrub_token};
use eodhd_mcp::types::OptionsParams;
use std::collections::HashMap;

fn empty_params(mode: &str) -> OptionsParams {
    OptionsParams {
        mode: mode.into(),
        underlying_symbol: None,
        contract: None,
        option_type: None,
        strike_from: None,
        strike_to: None,
        exp_date_from: None,
        exp_date_to: None,
        exp_date_eq: None,
        tradetime_from: None,
        tradetime_to: None,
        expiration_type: None,
        sort: None,
        page_offset: None,
        page_limit: None,
        fields: None,
        compact: None,
        auto_paginate: None,
        max_pages: None,
    }
}

#[test]
fn underlyings_mode_emits_no_query() {
    let mut p = empty_params("underlyings");
    p.underlying_symbol = Some("AAPL".into());
    assert!(build_options_query(&p).is_empty());
}

#[test]
fn all_eod_filters_serialize_to_jsonapi_brackets() {
    let mut p = empty_params("eod");
    p.underlying_symbol = Some("AAPL".into());
    p.contract = Some("AAPL250321C00150000".into());
    p.option_type = Some("call".into());
    // Strikes reach the library as the text sent in the query.
    p.strike_from = Some("150".into());
    p.strike_to = Some("200.5".into());
    p.exp_date_from = Some("2024-01-21".into());
    p.exp_date_to = Some("2024-01-28".into());
    p.exp_date_eq = Some("2024-01-26".into());
    p.tradetime_from = Some("2024-01-01".into());
    p.tradetime_to = Some("2024-01-02".into());
    p.expiration_type = Some("monthly".into());
    p.sort = Some("-tradetime".into());
    p.page_offset = Some(0);
    p.page_limit = Some(50);
    p.fields = Some("contract,bid,ask,delta".into());
    p.compact = Some(true);

    let q = build_options_query(&p);
    let pairs: HashMap<&str, &str> = q.iter().map(|(k, v)| (k.as_str(), v.as_str())).collect();

    assert_eq!(pairs["filter[underlying_symbol]"], "AAPL");
    assert_eq!(pairs["filter[contract]"], "AAPL250321C00150000");
    assert_eq!(pairs["filter[type]"], "call");
    assert_eq!(pairs["filter[strike_from]"], "150");
    assert_eq!(pairs["filter[strike_to]"], "200.5");
    assert_eq!(pairs["filter[exp_date_from]"], "2024-01-21");
    assert_eq!(pairs["filter[exp_date_to]"], "2024-01-28");
    assert_eq!(pairs["filter[exp_date_eq]"], "2024-01-26");
    assert_eq!(pairs["filter[tradetime_from]"], "2024-01-01");
    assert_eq!(pairs["filter[tradetime_to]"], "2024-01-02");
    assert_eq!(pairs["filter[expiration_type]"], "monthly");
    assert_eq!(pairs["sort"], "-tradetime");
    assert_eq!(pairs["page[offset]"], "0");
    assert_eq!(pairs["page[limit]"], "50");
    assert_eq!(pairs["fields[options-eod]"], "contract,bid,ask,delta");
    assert_eq!(pairs["compact"], "1");
}

#[test]
fn page_limit_is_clamped_to_1000() {
    let mut p = empty_params("eod");
    p.page_limit = Some(5000);
    let q = build_options_query(&p);
    let lim = q.iter().find(|(k, _)| k == "page[limit]").map(|(_, v)| v.as_str()).unwrap();
    assert_eq!(lim, "1000");
}

#[test]
fn fields_key_is_mode_specific() {
    let mut p = empty_params("contracts");
    p.fields = Some("strike,exp_date".into());
    let q = build_options_query(&p);
    assert!(q.iter().any(|(k, v)| k == "fields[options-contracts]" && v == "strike,exp_date"));
    assert!(!q.iter().any(|(k, _)| k == "fields[options-eod]"));
}

#[test]
fn fields_dropped_for_underlyings_mode() {
    let mut p = empty_params("underlyings");
    p.fields = Some("anything".into());
    assert!(build_options_query(&p).is_empty());
}

#[test]
fn query_order_is_fixed() {
    let mut p = empty_params("eod");
    p.compact = Some(false);
    p.sort = Some("strike".into());
    p.underlying_symbol = Some("MSFT".into());
    let q = build_options_query(&p);
    assert_eq!(
        q,
        vec![
            ("filter[underlying_symbol]".to_string(), "MSFT".to_string()),
            ("sort".to_string(), "strike".to_string()),
        ]
    );
}

#[test]
fn scrub_token_redacts_single_occurrence() {
    let url = "https://eodhd.com/api/x?foo=bar&api_token=SECRET123&page=2";
    assert_eq!(scrub_token(url), "https://eodhd.com/api/x?foo=bar&api_token=***&page=2");
}

#[test]
fn scrub_token_redacts_at_end_of_string() {
    let url = "https://eodhd.com/api/x?api_token=SECRET";
    assert_eq!(scrub_token(url), "https://eodhd.com/api/x?api_token=***");
}

#[test]
fn scrub_token_redacts_multiple_occurrences() {
    let s = "first api_token=A&middle&api_token=B end";
    assert_eq!(scrub_token(s), "first api_token=***&middle&api_token=*** end");
}

#[test]
fn scrub_token_no_op_when_missing() {
    let s = "no token here";
    assert_eq!(scrub_token(s), "no token here");
}

#[test]
fn scrub_token_edge_cases() {
    assert_eq!(scrub_token(""), "");
    assert_eq!(scrub_token("api_token="), "api_token=***");
    assert_eq!(scrub_token("api_token=a-b.c_d~e%20f/rest"), "api_token=***/rest");
    assert_eq!(scrub_token("api_token=é"), "api_token=***é");
    // The mask is not a token value, so scrubbing again adds a second mask.
    assert_eq!(scrub_token("api_token=***"), "api_token=******");
}

#[test]
fn options_request_checks() {
    assert_eq!(
        check_options_request(&empty_params("bogus")).unwrap_err(),
        "Invalid mode 'bogus'. Use: eod, contracts, underlyings"
    );
    let mut p = empty_params("underlyings");
    p.contract = Some("X".into());
    assert!(has_any_filter(&p));
    assert!(check_options_request(&p).unwrap_err().starts_with("'underlyings' mode does not accept filters."));
    assert_eq!(check_options_request(&empty_params("underlyings")).unwrap(), Vec::<String>::new());
    let mut p = empty_params("eod");
    p.page_limit = Some(1500);
    let notes = check_options_request(&p).unwrap();
    assert_eq!(notes.len(), 2);
    assert!(notes[0].starts_with("no underlying_symbol or contract filter set"));
    assert_eq!(notes[1], "page_limit 1500 exceeds the server max of 1000 — clamped to 1000.");
    let mut p = empty_params("contracts");
    p.underlying_symbol = Some("AAPL".into());
    assert!(check_options_request(&p).unwrap().is_empty());
}
