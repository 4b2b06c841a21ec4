use eodhd_mcp::financials::{
    line_items, no_data_table, no_data_warning, render_dataframe, statement_block, statements_of, wants_ttm,
};
use eodhd_mcp::json::{Json, JsonMap, JsonNumber};

fn obj(pairs: Vec<(&str, Json)>) -> Json {
    let mut m = JsonMap::new();
    for (k, v) in pairs {
        m.insert(k.to_string(), v);
    }
    Json::Object(m)
}

fn n(x: u64) -> Json {
    Json::Number(JsonNumber::PosInt(x))
}

#[test]
fn line_items_keep_first_occurrence_order_and_skip_period_fields() {
    let mut block = JsonMap::new();
    block.insert(
        "2024-12-31".into(),
        obj(vec![("date", Json::Str("2024-12-31".into())), ("totalRevenue", n(1)), ("netIncome", n(2))]),
    );
    block.insert(
        "2024-09-30".into(),
        obj(vec![("filing_date", Json::Null), ("grossProfit", n(3)), ("totalRevenue", n(4)), ("currency_symbol", Json::Null)]),
    );
    block.insert("2024-06-30".into(), Json::Null);
    let rows = line_items(&block, &vec!["2024-12-31", "2024-09-30", "2024-06-30"]);
    assert_eq!(rows, vec!["totalRevenue", "netIncome", "grossProfit"]);
}

#[test]
fn dataframe_layout_with_ttm_and_derived_rows() {
    let dates = vec!["2024-12-31", "2024-09-30"];
    let rows = vec![("totalRevenue".to_string(), vec!["1.00B".to_string(), "—".to_string()], "3.00B".to_string())];
    let derived = vec!["| _gross_margin_% | 40.00% | — | — |".to_string()];
    assert_eq!(
        render_dataframe(&dates, true, &rows, &derived),
        "| Line item | 2024-12-31 | 2024-09-30 | TTM_4Q |\n| --- | ---: | ---: | ---: |\n| Total revenue | 1.00B | — | 3.00B |\n| | | | | |\n| _gross_margin_% | 40.00% | — | — |\n"
    );
    assert_eq!(
        render_dataframe(&dates, false, &rows, &vec![]),
        "| Line item | 2024-12-31 | 2024-09-30 |\n| --- | ---: | ---: |\n| Total revenue | 1.00B | — |\n"
    );
}

#[test]
fn ttm_needs_quarterly_and_four_periods() {
    assert!(wants_ttm("quarterly", 4));
    assert!(!wants_ttm("quarterly", 3));
    assert!(!wants_ttm("yearly", 8));
}

#[test]
fn sections_and_no_data() {
    assert_eq!(
        no_data_warning("Income_Statement", "quarterly"),
        "No data for Income_Statement::quarterly. Likely an ETF, fund, or index — or the source omits this period."
    );
    assert_eq!(no_data_table(), "*(no data available)*");
    assert_eq!(
        statement_block("Income Statement", "quarterly", 8, "T"),
        "### Income Statement (quarterly, last 8)\n\nT"
    );
    assert_eq!(statements_of("all"), vec!["income", "balance", "cashflow"]);
    assert_eq!(statements_of("balance"), vec!["balance"]);
}

#[test]
fn filing_hint_text() {
    assert_eq!(eodhd_mcp::financials::filing_hint("2025-02-01"), "last_filing=2025-02-01");
}
