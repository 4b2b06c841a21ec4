use eodhd_mcp::financials::{humanize_field, statement_path, Options};

#[test]
fn options_validates_statement_and_period() {
    assert!(Options::new("income", None, None).is_ok());
    assert!(Options::new("income", Some("yearly"), None).is_ok());
    assert!(Options::new("xyz", None, None).is_err());
    assert!(Options::new("income", Some("daily"), None).is_err());
    assert!(Options::new("income", None, Some(0)).is_err());
    assert!(Options::new("income", None, Some(99)).is_err());
}

#[test]
fn humanize_field_splits_camel_case() {
    assert_eq!(humanize_field("totalRevenue"), "Total revenue");
    assert_eq!(humanize_field("netIncome"), "Net income");
    assert_eq!(
        humanize_field("totalCashFromOperatingActivities"),
        "Total cash from operating activities"
    );
}

#[test]
fn options_defaults_and_messages() {
    let o = Options::new("ALL", None, None).unwrap();
    assert_eq!(o.statement, "all");
    assert_eq!(o.period, "quarterly");
    assert_eq!(o.last_n, 8);
    let o = Options::new("Balance", Some("YEARLY"), Some(40)).unwrap();
    assert_eq!(o.period, "yearly");
    assert_eq!(o.last_n, 40);
    assert_eq!(
        Options::new("xyz", None, None).unwrap_err(),
        "Invalid statement 'xyz'. Use: income, balance, cashflow, all."
    );
    assert_eq!(
        Options::new("income", Some("daily"), None).unwrap_err(),
        "Invalid period 'daily'. Use: quarterly, yearly."
    );
    assert_eq!(
        Options::new("income", None, Some(41)).unwrap_err(),
        "last_n out of range: 41 (use 1-40)."
    );
}

#[test]
fn statement_paths() {
    assert_eq!(statement_path("income"), Some(("Income Statement", "Income_Statement")));
    assert_eq!(statement_path("balance"), Some(("Balance Sheet", "Balance_Sheet")));
    assert_eq!(statement_path("cashflow"), Some(("Cash Flow", "Cash_Flow")));
    assert_eq!(statement_path("all"), None);
}

#[test]
fn humanize_edge_cases() {
    assert_eq!(humanize_field(""), "");
    assert_eq!(humanize_field("x"), "X");
    assert_eq!(humanize_field("EBITDA"), "E b i t d a");
}
