use eodhd_mcp::format::{render_envelope, Metadata};

#[test]
fn envelope_contains_all_three_sections() {
    let md = Metadata::new("2026-04-22")
        .with_freshness("last_quarter=2024-12-31 (filing_age=112d)")
        .with_source("EODHD_fundamentals")
        .with_source("derived")
        .with_warning("Q4'23 totalRevenue is null in source")
        .with_cache_hit(true);
    let out = render_envelope("Apple grew revenue 6%.", "**TABLE HERE**", &md);

    assert!(out.contains("<summary>"));
    assert!(out.contains("Apple grew revenue 6%."));
    assert!(out.contains("</summary>"));
    assert!(out.contains("<data>"));
    assert!(out.contains("**TABLE HERE**"));
    assert!(out.contains("</data>"));
    assert!(out.contains("<metadata>"));
    assert!(out.contains("- as_of: 2026-04-22"));
    assert!(out.contains("- data_freshness:"));
    assert!(out.contains("Q4'23 totalRevenue is null"));
    assert!(out.contains("- sources: [EODHD_fundamentals, derived]"));
    assert!(out.contains("- cache_hit: true"));
    assert!(out.contains("</metadata>"));
}

#[test]
fn envelope_warnings_block_says_none_when_empty() {
    let md = Metadata::new("2026-04-22");
    let out = render_envelope("ok", "data", &md);
    assert!(out.contains("- warnings: none"));
}

#[test]
fn envelope_exact_text() {
    let md = Metadata::new("2025-01-02").with_warning("w1").with_warning("w2").with_cache_hit(false);
    let out = render_envelope("  sum \n", "body  \n\n", &md);
    assert_eq!(
        out,
        "<summary>\nsum\n</summary>\n\n<data>\nbody\n</data>\n\n<metadata>\n- as_of: 2025-01-02\n- warnings:\n  - w1\n  - w2\n- cache_hit: false\n</metadata>\n"
    );
}

#[test]
fn fundamentals_metadata_block() {
    let md = eodhd_mcp::format::fundamentals_metadata(
        "2025-03-01",
        Some(true),
        Some("last_filing=2025-02-01"),
        &vec!["w".to_string()],
    );
    let out = render_envelope("s", "d", &md);
    assert!(out.ends_with(
        "<metadata>\n- as_of: 2025-03-01\n- data_freshness: last_filing=2025-02-01\n- warnings:\n  - w\n- sources: [EODHD_fundamentals, derived]\n- cache_hit: true\n</metadata>\n"
    ));
    let plain = eodhd_mcp::format::fundamentals_metadata("2025-03-01", None, None, &vec![]);
    assert!(plain.cache_hit.is_none());
    assert!(plain.data_freshness.is_none());
}
