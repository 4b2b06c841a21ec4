//! What each data tool asks the API for, and the label its answer is shown
//! under: the choices a tool makes from its parameters before anything is
//! fetched, including the parameters it refuses.

use vstd::prelude::*;
use vstd::string::*;
use crate::options::pairs_view;
use crate::requests::{
    bulk_eod_params, bulk_eod_request, calendar_params, calendar_request, dividends_params, dividends_request,
    economic_events_params, economic_events_request, eod_params, eod_request, exchange_details_params,
    exchange_details_request, exchange_symbols_request, exchanges_list_request, fundamentals_params,
    fundamentals_request, insider_transactions_params, insider_transactions_request, intraday_params,
    intraday_request, macro_indicator_params, macro_indicator_request, market_cap_params, market_cap_request,
    news_params, news_request, opt_pair, realtime_params, realtime_request, screener_params, screener_request,
    search_params, search_request, sentiment_params, sentiment_request, splits_request, technicals_params,
    technicals_request, treasury_path, treasury_request, user_request, ApiRequest,
};
use crate::snapshot::{opt_str_view, opt_string_view};
use crate::text::{ascii_upper, decimal_string, decimal_text, str_eq, str_to_uppercase, to_ascii_upper, uppercase_of};
use crate::types::{
    BulkDataParams, CalendarParams, DividendsSplitsParams, ExchangeInfoParams, FundamentalsParams,
    InsiderTradingParams, MacroEconomicParams, MarketCapParams, NewsParams, PriceParams, ScreenerParams,
    SearchParams, TechnicalsParams, TreasuryParams,
};

verus! {

/// A data tool's call: the request it sends, and the label of its answer.
#[derive(Debug)]
pub struct Call {
    pub request: ApiRequest,
    pub label: String,
}

fn opt_str(o: &Option<String>) -> (r: Option<&str>)
    ensures
        opt_str_view(r) == opt_string_view(*o),
{
    match o {
        Some(s) => Some(s.as_str()),
        None => None,
    }
}

/// The text of an optional value, or a default.
pub open spec fn text_or(o: Option<Seq<char>>, default: Seq<char>) -> Seq<char> {
    match o {
        Some(t) => t,
        None => default,
    }
}

fn str_or<'a>(o: &'a Option<String>, default: &'a str) -> (r: &'a str)
    ensures
        r@ == text_or(opt_string_view(*o), default@),
{
    match o {
        Some(s) => s.as_str(),
        None => default,
    }
}

/// `search`: instruments matching the query.
pub fn search_call(p: &SearchParams) -> (c: Call)
    ensures
        c.request.path@ == "/search/"@ + p.query@,
        pairs_view(c.request.params@) == search_params(
            opt_string_view(p.exchange),
            opt_string_view(p.asset_type),
            p.limit,
        ),
        c.label@ == "Search results for '"@ + p.query@ + "'"@,
{
    let request = search_request(p.query.as_str(), opt_str(&p.exchange), opt_str(&p.asset_type), p.limit);
    let mut label = String::from_str("Search results for '");
    label.append(p.query.as_str());
    label.append("'");
    Call { request, label }
}

/// The detail shown after a price mode: the period (daily by default), the
/// interval (5m by default), or `delayed`.
pub open spec fn price_detail(p: PriceParams) -> Seq<char> {
    if p.mode@ == "eod"@ {
        text_or(opt_string_view(p.period), "daily"@)
    } else if p.mode@ == "intraday"@ {
        text_or(opt_string_view(p.interval), "5m"@)
    } else {
        "delayed"@
    }
}

/// `price`: end-of-day, intraday or real-time prices, by mode; any other
/// mode is refused.
pub fn price_call(p: &PriceParams) -> (r: Result<Call, String>)
    ensures
        match r {
            Ok(c) => {
                &&& c.label@ == p.symbol@ + " price — "@ + p.mode@ + " ("@ + price_detail(*p) + ")"@
                &&& p.mode@ == "eod"@ ==> c.request.path@ == "/eod/"@ + p.symbol@ && pairs_view(c.request.params@)
                    == eod_params(
                    opt_string_view(p.from),
                    opt_string_view(p.to),
                    opt_string_view(p.period),
                    opt_string_view(p.order),
                )
                &&& p.mode@ == "intraday"@ ==> c.request.path@ == "/intraday/"@ + p.symbol@ && pairs_view(
                    c.request.params@,
                ) == intraday_params(opt_string_view(p.interval), opt_string_view(p.from), opt_string_view(p.to))
                &&& p.mode@ == "realtime"@ ==> c.request.path@ == "/real-time/"@ + p.symbol@ && pairs_view(
                    c.request.params@,
                ) == realtime_params(opt_string_view(p.extra_symbols))
                &&& p.mode@ == "eod"@ || p.mode@ == "intraday"@ || p.mode@ == "realtime"@
            },
            Err(e) => {
                &&& !(p.mode@ == "eod"@ || p.mode@ == "intraday"@ || p.mode@ == "realtime"@)
                &&& e@ == "Invalid mode '"@ + p.mode@ + "'. Use: eod, intraday, realtime"@
            },
        },
{
    proof {
        reveal_strlit("eod");
        reveal_strlit("intraday");
        reveal_strlit("realtime");
        assert("eod"@.len() != "intraday"@.len() && "eod"@.len() != "realtime"@.len());
        assert("intraday"@[0] != "realtime"@[0]);
    }
    let mode = p.mode.as_str();
    let symbol = p.symbol.as_str();
    let (request, detail) = if str_eq(mode, "eod") {
        (
            eod_request(symbol, opt_str(&p.from), opt_str(&p.to), opt_str(&p.period), opt_str(&p.order)),
            str_or(&p.period, "daily"),
        )
    } else if str_eq(mode, "intraday") {
        (intraday_request(symbol, opt_str(&p.interval), opt_str(&p.from), opt_str(&p.to)), str_or(&p.interval, "5m"))
    } else if str_eq(mode, "realtime") {
        (realtime_request(symbol, opt_str(&p.extra_symbols)), "delayed")
    } else {
        let mut e = String::from_str("Invalid mode '");
        e.append(mode);
        e.append("'. Use: eod, intraday, realtime");
        return Err(e);
    };
    let mut label = String::from_str(symbol);
    label.append(" price — ");
    label.append(mode);
    label.append(" (");
    label.append(detail);
    label.append(")");
    assert(label@ =~= p.symbol@ + " price — "@ + p.mode@ + " ("@ + price_detail(*p) + ")"@);
    Ok(Call { request, label })
}

/// The label of a `fundamentals` answer: the section (or `full`), the
/// number of periods kept, and the date range when one is set.
pub open spec fn fundamentals_label_text(p: FundamentalsParams) -> Seq<char> {
    p.symbol@ + " fundamentals ("@ + text_or(opt_string_view(p.filter), "full"@) + ")"@ + (match p.last_n {
        Some(n) => ", last "@ + decimal_text(n as nat),
        None => Seq::empty(),
    }) + (if p.from is Some || p.to is Some {
        ", range "@ + text_or(opt_string_view(p.from), Seq::empty()) + ".."@ + text_or(
            opt_string_view(p.to),
            Seq::empty(),
        )
    } else {
        Seq::empty()
    })
}

/// `fundamentals`: the request for the payload (or one section of it),
/// and the label of the answer.
pub fn fundamentals_call(p: &FundamentalsParams) -> (c: Call)
    ensures
        c.request.path@ == "/fundamentals/"@ + p.symbol@,
        pairs_view(c.request.params@) == fundamentals_params(opt_string_view(p.filter)),
        c.label@ == fundamentals_label_text(*p),
{
    let request = fundamentals_request(p.symbol.as_str(), opt_str(&p.filter));
    let mut label = String::from_str(p.symbol.as_str());
    label.append(" fundamentals (");
    label.append(str_or(&p.filter, "full"));
    label.append(")");
    if let Some(n) = p.last_n {
        label.append(", last ");
        label.append(decimal_string(n as u64).as_str());
    }
    if p.from.is_some() || p.to.is_some() {
        label.append(", range ");
        label.append(str_or(&p.from, ""));
        label.append("..");
        label.append(str_or(&p.to, ""));
    }
    proof {
        reveal_strlit("");
    }
    assert(label@ =~= fundamentals_label_text(*p));
    Call { request, label }
}

/// `dividends_splits`: dividend or split history, by data type; any other
/// type is refused.
pub fn dividends_splits_call(p: &DividendsSplitsParams) -> (r: Result<Call, String>)
    ensures
        match r {
            Ok(c) => {
                &&& p.data_type@ == "dividends"@ || p.data_type@ == "splits"@
                &&& c.request.path@ == (if p.data_type@ == "dividends"@ {
                    "/div/"@
                } else {
                    "/splits/"@
                }) + p.symbol@
                &&& pairs_view(c.request.params@) == dividends_params(
                    opt_string_view(p.from),
                    opt_string_view(p.to),
                )
                &&& c.label@ == p.symbol@ + " "@ + p.data_type@ + " history"@
            },
            Err(e) => {
                &&& !(p.data_type@ == "dividends"@ || p.data_type@ == "splits"@)
                &&& e@ == "Invalid data_type '"@ + p.data_type@ + "'. Use: dividends, splits"@
            },
        },
{
    let t = p.data_type.as_str();
    let request = if str_eq(t, "dividends") {
        dividends_request(p.symbol.as_str(), opt_str(&p.from), opt_str(&p.to))
    } else if str_eq(t, "splits") {
        splits_request(p.symbol.as_str(), opt_str(&p.from), opt_str(&p.to))
    } else {
        let mut e = String::from_str("Invalid data_type '");
        e.append(t);
        e.append("'. Use: dividends, splits");
        return Err(e);
    };
    let mut label = String::from_str(p.symbol.as_str());
    label.append(" ");
    label.append(t);
    label.append(" history");
    Ok(Call { request, label })
}

/// `news`: articles by symbol or topic; one of the two must be given.
pub fn news_call(p: &NewsParams) -> (r: Result<Call, String>)
    ensures
        match r {
            Ok(c) => {
                &&& p.symbol is Some || p.topic is Some
                &&& c.request.path@ == "/news"@
                &&& pairs_view(c.request.params@) == news_params(
                    opt_string_view(p.symbol),
                    opt_string_view(p.topic),
                    opt_string_view(p.from),
                    opt_string_view(p.to),
                    p.limit,
                    p.offset,
                )
                &&& c.label@ == "Financial News"@
            },
            Err(e) => p.symbol is None && p.topic is None && e@ == "Either 'symbol' or 'topic' must be provided."@,
        },
{
    if p.symbol.is_none() && p.topic.is_none() {
        return Err(String::from_str("Either 'symbol' or 'topic' must be provided."));
    }
    let request = news_request(
        opt_str(&p.symbol),
        opt_str(&p.topic),
        opt_str(&p.from),
        opt_str(&p.to),
        p.limit,
        p.offset,
    );
    Ok(Call { request, label: String::from_str("Financial News") })
}

/// The sentiment call that goes with a news request: made when sentiment
/// is asked for and a symbol is given.
pub fn sentiment_call(p: &NewsParams) -> (r: Option<Call>)
    ensures
        r is Some <==> (p.include_sentiment == Some(true) && p.symbol is Some),
        r matches Some(c) ==> {
            &&& c.request.path@ == "/sentiments"@
            &&& pairs_view(c.request.params@) == sentiment_params(
                p.symbol->0@,
                opt_string_view(p.from),
                opt_string_view(p.to),
            )
            &&& c.label@ == "Sentiment for "@ + p.symbol->0@
        },
{
    let wanted = match p.include_sentiment {
        Some(b) => b,
        None => false,
    };
    if !wanted {
        return None;
    }
    match &p.symbol {
        Some(sym) => {
            let request = sentiment_request(sym.as_str(), opt_str(&p.from), opt_str(&p.to));
            let mut label = String::from_str("Sentiment for ");
            label.append(sym.as_str());
            Some(Call { request, label })
        },
        None => None,
    }
}

/// A news answer: the formatted articles, then the formatted sentiment
/// after a rule, or a note that it could not be had.
pub open spec fn news_answer_text(news: Seq<char>, sentiment: Option<Result<Seq<char>, Seq<char>>>) -> Seq<char> {
    news + match sentiment {
        Some(Ok(s)) => "\n\n---\n\n"@ + s,
        Some(Err(e)) => "\n\n*Sentiment data unavailable: "@ + e + "*\n"@,
        None => Seq::empty(),
    }
}

/// A news answer (see [`news_answer_text`]).
pub fn news_answer(news: &str, sentiment: Option<Result<&str, &str>>) -> (out: String)
    ensures
        out@ == news_answer_text(
            news@,
            match sentiment {
                Some(Ok(s)) => Some(Ok(s@)),
                Some(Err(e)) => Some(Err(e@)),
                None => None,
            },
        ),
{
    let mut out = String::from_str(news);
    match sentiment {
        Some(Ok(s)) => {
            out.append("\n\n---\n\n");
            out.append(s);
        },
        Some(Err(e)) => {
            out.append("\n\n*Sentiment data unavailable: ");
            out.append(e);
            out.append("*\n");
        },
        None => {},
    }
    out
}

/// `technicals`: an indicator of a symbol, labelled with the function in
/// upper case and the period (50 by default).
pub fn technicals_call(p: &TechnicalsParams) -> (c: Call)
    ensures
        c.request.path@ == "/technical/"@ + p.symbol@,
        pairs_view(c.request.params@) == technicals_params(
            p.function@,
            p.period,
            opt_string_view(p.from),
            opt_string_view(p.to),
            opt_string_view(p.order),
        ),
        c.label@ == p.symbol@ + " — "@ + uppercase_of(p.function@) + " (period "@ + decimal_text(
            match p.period {
                Some(n) => n as nat,
                None => 50,
            },
        ) + ")"@,
{
    let request = technicals_request(
        p.symbol.as_str(),
        p.function.as_str(),
        p.period,
        opt_str(&p.from),
        opt_str(&p.to),
        opt_str(&p.order),
    );
    let period: u32 = match p.period {
        Some(n) => n,
        None => 50,
    };
    let mut label = String::from_str(p.symbol.as_str());
    label.append(" — ");
    label.append(str_to_uppercase(p.function.as_str()).as_str());
    label.append(" (period ");
    label.append(decimal_string(period as u64).as_str());
    label.append(")");
    Call { request, label }
}

/// `screener`: a stock screen.
pub fn screener_call(p: &ScreenerParams) -> (c: Call)
    ensures
        c.request.path@ == "/screener"@,
        pairs_view(c.request.params@) == screener_params(
            opt_string_view(p.filters),
            opt_string_view(p.signals),
            opt_string_view(p.sort),
            p.limit,
            p.offset,
        ),
        c.label@ == "Stock Screener Results"@,
{
    let request = screener_request(opt_str(&p.filters), opt_str(&p.signals), opt_str(&p.sort), p.limit, p.offset);
    Call { request, label: String::from_str("Stock Screener Results") }
}

/// `macro_economic`: a country's indicator (the country is required) or
/// the events calendar, by mode; any other mode is refused.
pub fn macro_call(p: &MacroEconomicParams) -> (r: Result<Call, String>)
    ensures
        match r {
            Ok(c) => {
                &&& p.mode@ == "indicators"@ ==> {
                    &&& p.country is Some
                    &&& c.request.path@ == "/macro-indicator/"@ + p.country->0@
                    &&& pairs_view(c.request.params@) == macro_indicator_params(opt_string_view(p.indicator))
                    &&& c.label@ == "Macro Indicator: "@ + p.country->0@ + " — "@ + text_or(
                        opt_string_view(p.indicator),
                        "gdp_current_usd"@,
                    )
                }
                &&& p.mode@ == "events"@ ==> {
                    &&& c.request.path@ == "/economic-events"@
                    &&& pairs_view(c.request.params@) == economic_events_params(
                        opt_string_view(p.from),
                        opt_string_view(p.to),
                        opt_string_view(p.country),
                        p.limit,
                        p.offset,
                    )
                    &&& c.label@ == "Economic Events"@
                }
                &&& p.mode@ == "indicators"@ || p.mode@ == "events"@
            },
            Err(e) => if p.mode@ == "indicators"@ {
                p.country is None && e@ == "'country' is required for indicators mode (ISO Alpha-3, e.g. 'USA')"@
            } else {
                p.mode@ != "events"@ && e@ == "Invalid mode '"@ + p.mode@ + "'. Use: indicators, events"@
            },
        },
{
    proof {
        reveal_strlit("indicators");
        reveal_strlit("events");
        assert("indicators"@.len() != "events"@.len());
    }
    let mode = p.mode.as_str();
    if str_eq(mode, "indicators") {
        let country = match &p.country {
            Some(c) => c.as_str(),
            None => {
                return Err(String::from_str("'country' is required for indicators mode (ISO Alpha-3, e.g. 'USA')"));
            },
        };
        let request = macro_indicator_request(country, opt_str(&p.indicator));
        let mut label = String::from_str("Macro Indicator: ");
        label.append(country);
        label.append(" — ");
        label.append(str_or(&p.indicator, "gdp_current_usd"));
        Ok(Call { request, label })
    } else if str_eq(mode, "events") {
        let request = economic_events_request(
            opt_str(&p.from),
            opt_str(&p.to),
            opt_str(&p.country),
            p.limit,
            p.offset,
        );
        Ok(Call { request, label: String::from_str("Economic Events") })
    } else {
        let mut e = String::from_str("Invalid mode '");
        e.append(mode);
        e.append("'. Use: indicators, events");
        Err(e)
    }
}

/// `insider_trading`: insider transactions, of one symbol when given.
pub fn insider_call(p: &InsiderTradingParams) -> (c: Call)
    ensures
        c.request.path@ == "/insider-transactions"@,
        pairs_view(c.request.params@) == insider_transactions_params(
            opt_string_view(p.symbol),
            opt_string_view(p.from),
            opt_string_view(p.to),
            p.limit,
        ),
        c.label@ == match p.symbol {
            Some(s) => "Insider Transactions — "@ + s@,
            None => "Recent Insider Transactions"@,
        },
{
    let request = insider_transactions_request(opt_str(&p.symbol), opt_str(&p.from), opt_str(&p.to), p.limit);
    let label = match &p.symbol {
        Some(s) => {
            let mut l = String::from_str("Insider Transactions — ");
            l.append(s.as_str());
            l
        },
        None => String::from_str("Recent Insider Transactions"),
    };
    Call { request, label }
}

/// The calendar types the `calendar` tool accepts.
pub open spec fn valid_calendar_type(t: Seq<char>) -> bool {
    t == "earnings"@ || t == "ipos"@ || t == "splits"@ || t == "dividends"@ || t == "trends"@
}

/// `calendar`: one of the financial calendars, labelled with its name
/// capitalized; any other type is refused.
pub fn calendar_call(p: &CalendarParams) -> (r: Result<Call, String>)
    ensures
        match r {
            Ok(c) => {
                &&& valid_calendar_type(p.calendar_type@)
                &&& c.request.path@ == "/calendar/"@ + p.calendar_type@
                &&& pairs_view(c.request.params@) == calendar_params(
                    opt_string_view(p.symbols),
                    opt_string_view(p.from),
                    opt_string_view(p.to),
                )
                &&& c.label@ == seq![ascii_upper(p.calendar_type@[0])] + p.calendar_type@.drop_first()
                    + " Calendar"@
            },
            Err(e) => {
                &&& !valid_calendar_type(p.calendar_type@)
                &&& e@ == "Invalid calendar_type '"@ + p.calendar_type@
                    + "'. Use: earnings, ipos, splits, dividends, trends"@
            },
        },
{
    let t = p.calendar_type.as_str();
    if !(str_eq(t, "earnings") || str_eq(t, "ipos") || str_eq(t, "splits") || str_eq(t, "dividends") || str_eq(
        t,
        "trends",
    )) {
        let mut e = String::from_str("Invalid calendar_type '");
        e.append(t);
        e.append("'. Use: earnings, ipos, splits, dividends, trends");
        return Err(e);
    }
    proof {
        reveal_strlit("earnings");
        reveal_strlit("ipos");
        reveal_strlit("splits");
        reveal_strlit("dividends");
        reveal_strlit("trends");
    }
    let request = calendar_request(t, opt_str(&p.symbols), opt_str(&p.from), opt_str(&p.to));
    let n = t.unicode_len();
    let mut label = String::new();
    label.push(to_ascii_upper(t.get_char(0)));
    let mut i: usize = 1;
    while i < n
        invariant
            n == t@.len(),
            1 <= i <= n,
            label@ == seq![ascii_upper(t@[0])] + t@.subrange(1, i as int),
        decreases n - i,
    {
        label.push(t.get_char(i));
        proof {
            assert(t@.subrange(1, i + 1) =~= t@.subrange(1, i as int).push(t@[i as int]));
        }
        i = i + 1;
    }
    assert(t@.subrange(1, n as int) =~= t@.drop_first());
    label.append(" Calendar");
    Ok(Call { request, label })
}

/// `exchange_info`: the list of exchanges, the tickers of one, or its
/// details, by mode (an exchange is required for the last two); any other
/// mode is refused.
pub fn exchange_call(p: &ExchangeInfoParams) -> (r: Result<Call, String>)
    ensures
        match r {
            Ok(c) => {
                &&& p.mode@ == "list"@ ==> c.request.path@ == "/exchanges-list/"@ && c.request.params@.len() == 0
                    && c.label@ == "Available Exchanges"@
                &&& p.mode@ == "symbols"@ ==> {
                    &&& p.exchange is Some
                    &&& c.request.path@ == "/exchange-symbol-list/"@ + p.exchange->0@
                    &&& pairs_view(c.request.params@) == opt_pair("type"@, opt_string_view(p.asset_type)) + (
                    if p.include_delisted == Some(true) {
                        seq![("delisted"@, "1"@)]
                    } else {
                        Seq::empty()
                    })
                    &&& c.label@ == "Symbols on "@ + p.exchange->0@
                }
                &&& p.mode@ == "details"@ ==> {
                    &&& p.exchange is Some
                    &&& c.request.path@ == "/exchange-details/"@ + p.exchange->0@
                    &&& pairs_view(c.request.params@) == exchange_details_params(None, None)
                    &&& c.label@ == "Exchange Details — "@ + p.exchange->0@
                }
                &&& p.mode@ == "list"@ || p.mode@ == "symbols"@ || p.mode@ == "details"@
            },
            Err(e) => if p.mode@ == "symbols"@ {
                p.exchange is None && e@ == "'exchange' is required for symbols mode"@
            } else if p.mode@ == "details"@ {
                p.exchange is None && e@ == "'exchange' is required for details mode"@
            } else {
                p.mode@ != "list"@ && e@ == "Invalid mode '"@ + p.mode@ + "'. Use: list, symbols, details"@
            },
        },
{
    proof {
        reveal_strlit("list");
        reveal_strlit("symbols");
        reveal_strlit("details");
        assert("list"@.len() != "symbols"@.len() && "list"@.len() != "details"@.len());
        assert("symbols"@[0] != "details"@[0]);
    }
    let mode = p.mode.as_str();
    if str_eq(mode, "list") {
        Ok(Call { request: exchanges_list_request(), label: String::from_str("Available Exchanges") })
    } else if str_eq(mode, "symbols") {
        let ex = match &p.exchange {
            Some(e) => e.as_str(),
            None => {
                return Err(String::from_str("'exchange' is required for symbols mode"));
            },
        };
        let delisted = match p.include_delisted {
            Some(b) => b,
            None => false,
        };
        let request = exchange_symbols_request(ex, opt_str(&p.asset_type), delisted);
        let mut label = String::from_str("Symbols on ");
        label.append(ex);
        Ok(Call { request, label })
    } else if str_eq(mode, "details") {
        let ex = match &p.exchange {
            Some(e) => e.as_str(),
            None => {
                return Err(String::from_str("'exchange' is required for details mode"));
            },
        };
        let request = exchange_details_request(ex, None, None);
        let mut label = String::from_str("Exchange Details — ");
        label.append(ex);
        Ok(Call { request, label })
    } else {
        let mut e = String::from_str("Invalid mode '");
        e.append(mode);
        e.append("'. Use: list, symbols, details");
        Err(e)
    }
}

/// `bulk_data`: last-day data of a whole exchange.
pub fn bulk_call(p: &BulkDataParams) -> (c: Call)
    ensures
        c.request.path@ == "/eod-bulk-last-day/"@ + p.exchange@,
        pairs_view(c.request.params@) == bulk_eod_params(
            opt_string_view(p.data_type),
            opt_string_view(p.date),
            opt_string_view(p.symbols),
        ),
        c.label@ == "Bulk "@ + text_or(opt_string_view(p.data_type), "eod"@) + " data — "@ + p.exchange@,
{
    let request = bulk_eod_request(p.exchange.as_str(), opt_str(&p.data_type), opt_str(&p.date), opt_str(&p.symbols));
    let mut label = String::from_str("Bulk ");
    label.append(str_or(&p.data_type, "eod"));
    label.append(" data — ");
    label.append(p.exchange.as_str());
    Call { request, label }
}

/// `treasury`: one US Treasury rate series, for one year when given; an
/// unknown series is refused.
pub fn treasury_call(p: &TreasuryParams) -> (r: Result<Call, String>)
    ensures
        match r {
            Ok(c) => {
                &&& treasury_path(p.rate_type@) == Some(c.request.path@)
                &&& pairs_view(c.request.params@) == (match p.year {
                    Some(y) => seq![("filter[year]"@, decimal_text(y as nat))],
                    None => Seq::empty(),
                })
                &&& c.label@ == "US Treasury — "@ + p.rate_type@ + match p.year {
                    Some(y) => " ("@ + decimal_text(y as nat) + ")"@,
                    None => Seq::empty(),
                }
            },
            Err(e) => {
                &&& treasury_path(p.rate_type@) is None
                &&& e@ == "Invalid treasury rate type: '"@ + p.rate_type@
                    + "'. Use: bill, long_term, yield, real_yield"@
            },
        },
{
    let request = treasury_request(p.rate_type.as_str(), p.year)?;
    let mut label = String::from_str("US Treasury — ");
    label.append(p.rate_type.as_str());
    if let Some(y) = p.year {
        label.append(" (");
        label.append(decimal_string(y as u64).as_str());
        label.append(")");
    }
    Ok(Call { request, label })
}

/// `market_cap`: historical market capitalisation of a symbol.
pub fn market_cap_call(p: &MarketCapParams) -> (c: Call)
    ensures
        c.request.path@ == "/historical-market-cap/"@ + p.symbol@,
        pairs_view(c.request.params@) == market_cap_params(opt_string_view(p.from), opt_string_view(p.to)),
        c.label@ == p.symbol@ + " Historical Market Cap"@,
{
    let request = market_cap_request(p.symbol.as_str(), opt_str(&p.from), opt_str(&p.to));
    let mut label = String::from_str(p.symbol.as_str());
    label.append(" Historical Market Cap");
    Call { request, label }
}

/// `account`: the account of the API key.
pub fn account_call() -> (c: Call)
    ensures
        c.request.path@ == "/user"@,
        c.request.params@.len() == 0,
        c.label@ == "EODHD Account"@,
{
    Call { request: user_request(), label: String::from_str("EODHD Account") }
}

} // verus!
