use eodhd_mcp::compare::{
    all_fetches_failed, compare_data, fetch_failed_warning, rank_cells, render_metric_table, render_summary, Options,
};
use eodhd_mcp::json::{Json, JsonMap};

#[test]
fn metric_table_layout() {
    let symbols = vec!["AAPL.US".to_string(), "MSFT.US".to_string()];
    let rows = vec![("P/E".to_string(), vec!["30.00".to_string(), "—".to_string()])];
    assert_eq!(
        render_metric_table(&symbols, &rows),
        "| Metric | AAPL.US | MSFT.US |\n| --- | ---: | ---: |\n| P/E | 30.00 | — |\n"
    );
}

#[test]
fn ranks_shown_as_numbers_or_dash() {
    assert_eq!(rank_cells(&vec![Some(2), None, Some(1)]), vec!["2", "—", "1"]);
}

#[test]
fn comparison_prose() {
    let mut general = JsonMap::new();
    general.insert("Name".into(), Json::Str("Apple Inc".into()));
    let mut f = JsonMap::new();
    f.insert("General".into(), Json::Object(general));
    let payloads = vec![("AAPL.US".to_string(), Json::Object(f)), ("MSFT.US".to_string(), Json::Null)];
    let opts = Options::parse("AAPL.US,MSFT.US", "pe").unwrap();
    assert_eq!(
        render_summary(&opts, &payloads),
        "Comparison across Apple Inc (AAPL.US), MSFT.US (MSFT.US) on 1 metric. Lower-is-better metrics (debt, valuation multiples) and higher-is-better metrics (margins, growth) are ranked separately in the ranking table."
    );
    assert_eq!(compare_data("V", "R"), "### Values\n\nV\n\n### Ranking (1 = best)\n\nR");
    assert_eq!(fetch_failed_warning("X.US", "timeout"), "X.US: fetch failed — timeout");
    assert_eq!(all_fetches_failed(), "All fetches failed; nothing to compare.");
}
