use eodhd_mcp::compare::{lookup_spec, Direction, Format, Options};

#[test]
fn parse_rejects_too_many_symbols() {
    let r = Options::parse("A,B,C,D,E,F", "pe");
    assert!(r.is_err());
    assert!(r.unwrap_err().contains("max"));
}

#[test]
fn parse_rejects_unknown_metric() {
    let r = Options::parse("AAPL.US", "foo,pe");
    assert!(r.is_err());
    assert!(r.unwrap_err().contains("unknown metric"));
}

#[test]
fn parse_strips_whitespace_and_lowercases_metrics() {
    let opts = Options::parse(" AAPL.US , MSFT.US ", " PE , GROSS_MARGIN ").unwrap();
    assert_eq!(opts.symbols, vec!["AAPL.US", "MSFT.US"]);
    assert_eq!(opts.metrics, vec!["pe", "gross_margin"]);
}

#[test]
fn parse_error_messages_are_exact() {
    assert_eq!(Options::parse(" , ", "pe").unwrap_err(), "symbols list is empty.");
    assert_eq!(Options::parse("A,B,C,D,E,F", "pe").unwrap_err(), "too many symbols (6); max 5.");
    assert_eq!(Options::parse("A", ",,").unwrap_err(), "metrics list is empty.");
    let e = Options::parse("A", "foo,pe,bar").unwrap_err();
    assert!(e.starts_with("unknown metric(s): foo, bar. Available: gross_margin, operating_margin"));
    assert!(e.ends_with("revenue_yoy, net_income_yoy"));
}

#[test]
fn registry_lookup() {
    let pe = lookup_spec("pe").unwrap();
    assert_eq!(pe.label, "P/E");
    assert_eq!(pe.direction, Direction::Lower);
    assert_eq!(pe.format, Format::Ratio);
    let gm = lookup_spec("gross_margin").unwrap();
    assert_eq!(gm.direction, Direction::Higher);
    assert_eq!(gm.format, Format::Percent);
    assert!(lookup_spec("PE").is_none());
    assert!(lookup_spec("nonsense").is_none());
}
