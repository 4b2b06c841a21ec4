use eodhd_mcp::json::{Json, JsonMap, JsonNumber};
use eodhd_mcp::snapshot::{freshness_hint, company_info, data_freshness, most_recent_filing, snapshot_warnings};

fn obj(pairs: Vec<(&str, Json)>) -> Json {
    let mut m = JsonMap::new();
    for (k, v) in pairs {
        m.insert(k.to_string(), v);
    }
    Json::Object(m)
}

fn s(t: &str) -> Json {
    Json::Str(t.to_string())
}

fn sample() -> Json {
    obj(vec![
        (
            "General",
            obj(vec![
                ("Name", s("Apple Inc")),
                ("Sector", s("Technology")),
                ("CountryName", s("USA")),
                ("FiscalYearEnd", s("September")),
                ("FullTimeEmployees", Json::Number(JsonNumber::PosInt(164000))),
                ("CurrencyCode", s("USD")),
            ]),
        ),
        ("Highlights", obj(vec![])),
        (
            "Financials",
            obj(vec![
                (
                    "Income_Statement",
                    obj(vec![(
                        "quarterly",
                        obj(vec![
                            ("2024-09-30", obj(vec![("filing_date", s("2024-11-01"))])),
                            ("2024-12-31", obj(vec![("filing_date", s("2025-02-01"))])),
                        ]),
                    )]),
                ),
                (
                    "Balance_Sheet",
                    obj(vec![("quarterly", obj(vec![("2024-12-31", obj(vec![("filing_date", Json::Null)]))]))]),
                ),
                ("Cash_Flow", obj(vec![("quarterly", obj(vec![]))])),
            ]),
        ),
    ])
}

#[test]
fn company_info_read_from_general() {
    let c = company_info(&sample());
    assert_eq!(c.name.as_deref(), Some("Apple Inc"));
    assert_eq!(c.sector.as_deref(), Some("Technology"));
    assert_eq!(c.industry, None);
    assert_eq!(c.country.as_deref(), Some("USA"));
    assert_eq!(c.fiscal_year_end.as_deref(), Some("September"));
    assert_eq!(c.employees, Some(164000));
    assert_eq!(c.currency.as_deref(), Some("USD"));
}

#[test]
fn freshness_picks_latest_quarter_and_filing() {
    let f = data_freshness(&sample());
    assert_eq!(f.last_reported_quarter.as_deref(), Some("2024-12-31"));
    assert_eq!(f.last_filing_date.as_deref(), Some("2025-02-01"));
}

#[test]
fn filing_falls_back_to_period_date() {
    let v = obj(vec![(
        "Financials",
        obj(vec![("Cash_Flow", obj(vec![("quarterly", obj(vec![("2023-06-30", obj(vec![]))]))]))]),
    )]);
    assert_eq!(most_recent_filing(&v).as_deref(), Some("2023-06-30"));
    assert_eq!(most_recent_filing(&obj(vec![])), None);
}

#[test]
fn snapshot_warning_rules() {
    assert!(snapshot_warnings(&sample(), true).is_empty());
    let w = snapshot_warnings(&sample(), false);
    assert_eq!(w.len(), 1);
    assert!(w[0].contains("TTM revenue not derivable"));
    let w = snapshot_warnings(&obj(vec![]), false);
    assert_eq!(w.len(), 2);
    assert!(w[0].starts_with("No quarterly income statement found"));
    assert_eq!(w[1], "Highlights block missing from fundamentals payload.");
}

#[test]
fn freshness_hint_needs_a_quarter() {
    assert_eq!(
        freshness_hint(Some("2024-12-31"), Some("2025-02-01")).as_deref(),
        Some("last_quarter=2024-12-31, last_filing=2025-02-01")
    );
    assert_eq!(freshness_hint(Some("2024-12-31"), None).as_deref(), Some("last_quarter=2024-12-31"));
    assert_eq!(freshness_hint(None, Some("2025-02-01")), None);
}
