use eodhd_mcp::calls::{
    account_call, bulk_call, calendar_call, dividends_splits_call, exchange_call, fundamentals_call, insider_call,
    macro_call, market_cap_call, news_answer, news_call, price_call, screener_call, search_call, sentiment_call,
    technicals_call, treasury_call,
};
use eodhd_mcp::requests::{query_with_key, ApiRequest};
use eodhd_mcp::types::{
    BulkDataParams, CalendarParams, DividendsSplitsParams, ExchangeInfoParams, FundamentalsParams,
    InsiderTradingParams, MacroEconomicParams, MarketCapParams, NewsParams, PriceParams, ScreenerParams,
    SearchParams, TechnicalsParams, TreasuryParams,
};

fn pairs(r: &ApiRequest) -> Vec<(&str, &str)> {
    r.params.iter().map(|(k, v)| (k.as_str(), v.as_str())).collect()
}

fn price(mode: &str) -> PriceParams {
    PriceParams {
        symbol: "AAPL.US".into(),
        mode: mode.into(),
        from: Some("2024-01-01".into()),
        to: None,
        period: None,
        interval: Some("1h".into()),
        order: Some("d".into()),
        extra_symbols: Some("MSFT.US".into()),
    }
}

#[test]
fn price_modes_pick_endpoint_and_label() {
    let c = price_call(&price("eod")).unwrap();
    assert_eq!(c.request.path, "/eod/AAPL.US");
    assert_eq!(pairs(&c.request), vec![("from", "2024-01-01"), ("order", "d")]);
    assert_eq!(c.label, "AAPL.US price — eod (daily)");
    let c = price_call(&price("intraday")).unwrap();
    assert_eq!(c.request.path, "/intraday/AAPL.US");
    assert_eq!(pairs(&c.request), vec![("interval", "1h"), ("from", "2024-01-01")]);
    assert_eq!(c.label, "AAPL.US price — intraday (1h)");
    let c = price_call(&price("realtime")).unwrap();
    assert_eq!(c.request.path, "/real-time/AAPL.US");
    assert_eq!(pairs(&c.request), vec![("s", "MSFT.US")]);
    assert_eq!(c.label, "AAPL.US price — realtime (delayed)");
    assert_eq!(
        price_call(&price("weekly")).unwrap_err(),
        "Invalid mode 'weekly'. Use: eod, intraday, realtime"
    );
}

#[test]
fn search_defaults_limit() {
    let c = search_call(&SearchParams { query: "apple".into(), exchange: None, asset_type: Some("stock".into()), limit: None });
    assert_eq!(c.request.path, "/search/apple");
    assert_eq!(pairs(&c.request), vec![("limit", "15"), ("type", "stock")]);
    assert_eq!(c.label, "Search results for 'apple'");
}

#[test]
fn fundamentals_label_mentions_filter_periods_and_range() {
    let p = FundamentalsParams {
        symbol: "AAPL.US".into(),
        filter: None,
        last_n: Some(4),
        from: Some("2023-01-01".into()),
        to: None,
    };
    let c = fundamentals_call(&p);
    assert_eq!(c.request.path, "/fundamentals/AAPL.US");
    assert!(c.request.params.is_empty());
    assert_eq!(c.label, "AAPL.US fundamentals (full), last 4, range 2023-01-01..");
    let q = FundamentalsParams { symbol: "X".into(), filter: Some("General".into()), last_n: None, from: None, to: None };
    assert_eq!(fundamentals_call(&q).label, "X fundamentals (General)");
    assert_eq!(pairs(&fundamentals_call(&q).request), vec![("filter", "General")]);
}

#[test]
fn dividends_and_splits() {
    let mut p = DividendsSplitsParams { symbol: "KO.US".into(), data_type: "dividends".into(), from: None, to: Some("2024".into()) };
    let c = dividends_splits_call(&p).unwrap();
    assert_eq!(c.request.path, "/div/KO.US");
    assert_eq!(c.label, "KO.US dividends history");
    p.data_type = "splits".into();
    assert_eq!(dividends_splits_call(&p).unwrap().request.path, "/splits/KO.US");
    p.data_type = "other".into();
    assert_eq!(dividends_splits_call(&p).unwrap_err(), "Invalid data_type 'other'. Use: dividends, splits");
}

fn news(symbol: Option<&str>, topic: Option<&str>, sentiment: Option<bool>) -> NewsParams {
    NewsParams {
        symbol: symbol.map(|s| s.into()),
        topic: topic.map(|s| s.into()),
        from: None,
        to: None,
        limit: None,
        offset: Some(10),
        include_sentiment: sentiment,
    }
}

#[test]
fn news_needs_symbol_or_topic() {
    assert_eq!(news_call(&news(None, None, None)).unwrap_err(), "Either 'symbol' or 'topic' must be provided.");
    let c = news_call(&news(Some("AAPL.US"), None, None)).unwrap();
    assert_eq!(c.request.path, "/news");
    assert_eq!(pairs(&c.request), vec![("limit", "50"), ("offset", "10"), ("s", "AAPL.US")]);
    assert!(sentiment_call(&news(Some("AAPL.US"), None, None)).is_none());
    assert!(sentiment_call(&news(None, Some("ipo"), Some(true))).is_none());
    let s = sentiment_call(&news(Some("AAPL.US"), None, Some(true))).unwrap();
    assert_eq!(s.request.path, "/sentiments");
    assert_eq!(s.label, "Sentiment for AAPL.US");
    assert_eq!(news_answer("N", Some(Ok("S"))), "N\n\n---\n\nS");
    assert_eq!(news_answer("N", Some(Err("boom"))), "N\n\n*Sentiment data unavailable: boom*\n");
    assert_eq!(news_answer("N", None), "N");
}

#[test]
fn technicals_label_uppercases_function() {
    let p = TechnicalsParams { symbol: "AAPL.US".into(), function: "sma".into(), period: None, from: None, to: None, order: None };
    let c = technicals_call(&p);
    assert_eq!(c.label, "AAPL.US — SMA (period 50)");
    assert_eq!(pairs(&c.request), vec![("function", "sma")]);
    let q = TechnicalsParams { period: Some(20), ..p };
    assert_eq!(pairs(&technicals_call(&q).request), vec![("function", "sma"), ("period", "20")]);
}

#[test]
fn screener_insider_bulk_market_cap_account() {
    let c = screener_call(&ScreenerParams { filters: None, signals: Some("200d_new_hi".into()), sort: None, limit: Some(5), offset: None });
    assert_eq!(pairs(&c.request), vec![("limit", "5"), ("offset", "0"), ("signals", "200d_new_hi")]);
    assert_eq!(c.label, "Stock Screener Results");
    let c = insider_call(&InsiderTradingParams { symbol: None, from: None, to: None, limit: None });
    assert_eq!(pairs(&c.request), vec![("limit", "100")]);
    assert_eq!(c.label, "Recent Insider Transactions");
    let c = insider_call(&InsiderTradingParams { symbol: Some("TSLA.US".into()), from: None, to: None, limit: None });
    assert_eq!(c.label, "Insider Transactions — TSLA.US");
    let c = bulk_call(&BulkDataParams { exchange: "US".into(), data_type: None, date: None, symbols: None });
    assert_eq!(c.request.path, "/eod-bulk-last-day/US");
    assert_eq!(c.label, "Bulk eod data — US");
    let c = market_cap_call(&MarketCapParams { symbol: "AAPL.US".into(), from: None, to: None });
    assert_eq!(c.label, "AAPL.US Historical Market Cap");
    let c = account_call();
    assert_eq!(c.request.path, "/user");
    assert_eq!(c.label, "EODHD Account");
}

#[test]
fn macro_modes() {
    let mut p = MacroEconomicParams { mode: "indicators".into(), country: None, indicator: None, from: None, to: None, limit: None, offset: None };
    assert_eq!(macro_call(&p).unwrap_err(), "'country' is required for indicators mode (ISO Alpha-3, e.g. 'USA')");
    p.country = Some("USA".into());
    let c = macro_call(&p).unwrap();
    assert_eq!(c.request.path, "/macro-indicator/USA");
    assert_eq!(c.label, "Macro Indicator: USA — gdp_current_usd");
    p.mode = "events".into();
    let c = macro_call(&p).unwrap();
    assert_eq!(c.request.path, "/economic-events");
    assert_eq!(pairs(&c.request), vec![("limit", "50"), ("offset", "0"), ("country", "USA")]);
    assert_eq!(c.label, "Economic Events");
    p.mode = "x".into();
    assert_eq!(macro_call(&p).unwrap_err(), "Invalid mode 'x'. Use: indicators, events");
}

#[test]
fn calendar_types() {
    let mut p = CalendarParams { calendar_type: "earnings".into(), symbols: None, from: None, to: None };
    let c = calendar_call(&p).unwrap();
    assert_eq!(c.request.path, "/calendar/earnings");
    assert_eq!(c.label, "Earnings Calendar");
    p.calendar_type = "ipos".into();
    assert_eq!(calendar_call(&p).unwrap().label, "Ipos Calendar");
    p.calendar_type = "weather".into();
    assert_eq!(
        calendar_call(&p).unwrap_err(),
        "Invalid calendar_type 'weather'. Use: earnings, ipos, splits, dividends, trends"
    );
}

#[test]
fn exchange_modes() {
    let mut p = ExchangeInfoParams { mode: "list".into(), exchange: None, asset_type: None, include_delisted: Some(true) };
    let c = exchange_call(&p).unwrap();
    assert_eq!(c.request.path, "/exchanges-list/");
    assert_eq!(c.label, "Available Exchanges");
    p.mode = "symbols".into();
    assert_eq!(exchange_call(&p).unwrap_err(), "'exchange' is required for symbols mode");
    p.exchange = Some("LSE".into());
    let c = exchange_call(&p).unwrap();
    assert_eq!(c.request.path, "/exchange-symbol-list/LSE");
    assert_eq!(pairs(&c.request), vec![("delisted", "1")]);
    assert_eq!(c.label, "Symbols on LSE");
    p.mode = "details".into();
    let c = exchange_call(&p).unwrap();
    assert_eq!(c.request.path, "/exchange-details/LSE");
    assert_eq!(c.label, "Exchange Details — LSE");
    p.mode = "bogus".into();
    assert_eq!(exchange_call(&p).unwrap_err(), "Invalid mode 'bogus'. Use: list, symbols, details");
}

#[test]
fn treasury_series() {
    let c = treasury_call(&TreasuryParams { rate_type: "yield".into(), year: Some(2024) }).unwrap();
    assert_eq!(c.request.path, "/ust/yield-rates");
    assert_eq!(pairs(&c.request), vec![("filter[year]", "2024")]);
    assert_eq!(c.label, "US Treasury — yield (2024)");
    let c = treasury_call(&TreasuryParams { rate_type: "bill".into(), year: None }).unwrap();
    assert_eq!(c.label, "US Treasury — bill");
    assert_eq!(
        treasury_call(&TreasuryParams { rate_type: "junk".into(), year: None }).unwrap_err(),
        "Invalid treasury rate type: 'junk'. Use: bill, long_term, yield, real_yield"
    );
}

#[test]
fn key_and_format_go_first() {
    let c = account_call();
    let q = query_with_key("demo", &c.request);
    assert_eq!(q, vec![("api_token".to_string(), "demo".to_string()), ("fmt".to_string(), "json".to_string())]);
    let c = search_call(&SearchParams { query: "q".into(), exchange: None, asset_type: None, limit: Some(3) });
    let q = query_with_key("k", &c.request);
    assert_eq!(q[2], ("limit".to_string(), "3".to_string()));
}

#[test]
fn options_path_by_mode() {
    let r = eodhd_mcp::requests::options_request("eod", vec![("page[limit]".to_string(), "10".to_string())]);
    assert_eq!(r.path, "/mp/unicornbay/options/eod");
    assert_eq!(pairs(&r), vec![("page[limit]", "10")]);
}
