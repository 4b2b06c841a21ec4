//! The requests behind each API call: the path below the API's base URL
//! and the query parameters, with the defaults each endpoint applies.
//! The API key and the JSON format flag are put in front when a request is
//! sent (see [`query_with_key`]).

use vstd::prelude::*;
use vstd::string::*;
use crate::options::pairs_view;
use crate::snapshot::opt_str_view;
use crate::text::{decimal_string, decimal_text, str_eq};

verus! {

/// A GET request: the path below the base URL and its query parameters.
#[derive(Debug)]
pub struct ApiRequest {
    pub path: String,
    pub params: Vec<(String, String)>,
}

/// One parameter `key=value` when the value is given, none otherwise.
pub open spec fn opt_pair(key: Seq<char>, v: Option<Seq<char>>) -> Seq<(Seq<char>, Seq<char>)> {
    match v {
        Some(v) => seq![(key, v)],
        None => Seq::empty(),
    }
}

/// The decimal text of an optional count, or of its default.
pub open spec fn count_or(v: Option<u32>, default: u32) -> Seq<char> {
    decimal_text(
        match v {
            Some(n) => n as nat,
            None => default as nat,
        },
    )
}

fn push_opt_str(q: &mut Vec<(String, String)>, key: &str, v: Option<&str>)
    ensures
        pairs_view(final(q)@) == pairs_view(old(q)@) + opt_pair(key@, opt_str_view(v)),
{
    if let Some(v) = v {
        q.push((String::from_str(key), String::from_str(v)));
    }
    assert(pairs_view(q@) =~= pairs_view(old(q)@) + opt_pair(key@, opt_str_view(v)));
}

fn push_text(q: &mut Vec<(String, String)>, key: &str, v: String)
    ensures
        pairs_view(final(q)@) == pairs_view(old(q)@) + seq![(key@, v@)],
{
    q.push((String::from_str(key), v));
    assert(pairs_view(q@) =~= pairs_view(old(q)@) + seq![(key@, v@)]);
}

fn count_text(v: Option<u32>, default: u32) -> (s: String)
    ensures
        s@ == count_or(v, default),
{
    match v {
        Some(n) => decimal_string(n as u64),
        None => decimal_string(default as u64),
    }
}

fn path_of(prefix: &str, item: &str) -> (p: String)
    ensures
        p@ == prefix@ + item@,
{
    let mut p = String::from_str(prefix);
    p.append(item);
    p
}

/// The query sent for a request: the API key and `fmt=json`, then the
/// request's own parameters.
pub open spec fn keyed_query(key: Seq<char>, params: Seq<(Seq<char>, Seq<char>)>) -> Seq<(Seq<char>, Seq<char>)> {
    seq![("api_token"@, key), ("fmt"@, "json"@)] + params
}

/// The query sent for a request (see [`keyed_query`]).
pub fn query_with_key(api_key: &str, req: &ApiRequest) -> (q: Vec<(String, String)>)
    ensures
        pairs_view(q@) == keyed_query(api_key@, pairs_view(req.params@)),
{
    let mut q: Vec<(String, String)> = Vec::new();
    q.push((String::from_str("api_token"), String::from_str(api_key)));
    q.push((String::from_str("fmt"), String::from_str("json")));
    let ghost head = q@;
    let mut i: usize = 0;
    while i < req.params.len()
        invariant
            i <= req.params@.len(),
            pairs_view(head) == seq![("api_token"@, api_key@), ("fmt"@, "json"@)],
            q@ == head + req.params@.take(i as int),
        decreases req.params@.len() - i,
    {
        let (k, v) = (req.params[i].0.clone(), req.params[i].1.clone());
        q.push((k, v));
        proof {
            assert(q@ =~= head + req.params@.take(i + 1));
        }
        i = i + 1;
    }
    assert(req.params@.take(req.params@.len() as int) =~= req.params@);
    assert(pairs_view(q@) =~= keyed_query(api_key@, pairs_view(req.params@)));
    q
}

/// The query parameters of the `search` call.
pub open spec fn search_params(
    exchange: Option<Seq<char>>,
    asset_type: Option<Seq<char>>,
    limit: Option<u32>,
) -> Seq<(Seq<char>, Seq<char>)> {
    seq![("limit"@, count_or(limit, 15))] + opt_pair("exchange"@, exchange)
        + opt_pair("type"@, asset_type)
}

/// Instruments matching a name, ticker or ISIN; 15 results unless a limit is given.
pub fn search_request(
    query: &str,
    exchange: Option<&str>,
    asset_type: Option<&str>,
    limit: Option<u32>,
) -> (r: ApiRequest)
    ensures
        r.path@ == "/search/"@ + query@,
        pairs_view(r.params@) == search_params(opt_str_view(exchange), opt_str_view(asset_type), limit),
{
    let mut params: Vec<(String, String)> = Vec::new();
    push_text(&mut params, "limit", count_text(limit, 15));
    push_opt_str(&mut params, "exchange", exchange);
    push_opt_str(&mut params, "type", asset_type);
    assert(pairs_view(params@) =~= search_params(opt_str_view(exchange), opt_str_view(asset_type), limit));
    ApiRequest { path: path_of("/search/", query), params }
}

/// The query parameters of the `eod` call.
pub open spec fn eod_params(
    from: Option<Seq<char>>,
    to: Option<Seq<char>>,
    period: Option<Seq<char>>,
    order: Option<Seq<char>>,
) -> Seq<(Seq<char>, Seq<char>)> {
    opt_pair("from"@, from) + opt_pair("to"@, to) + opt_pair("period"@, period)
        + opt_pair("order"@, order)
}

/// End-of-day prices of a symbol.
pub fn eod_request(
    symbol: &str,
    from: Option<&str>,
    to: Option<&str>,
    period: Option<&str>,
    order: Option<&str>,
) -> (r: ApiRequest)
    ensures
        r.path@ == "/eod/"@ + symbol@,
        pairs_view(r.params@) == eod_params(opt_str_view(from), opt_str_view(to), opt_str_view(period), opt_str_view(order)),
        from matches Some(v) ==> pairs_view(r.params@).contains(("from"@, v@)),
        to matches Some(v) ==> pairs_view(r.params@).contains(("to"@, v@)),
        period matches Some(v) ==> pairs_view(r.params@).contains(("period"@, v@)),
        order matches Some(v) ==> pairs_view(r.params@).contains(("order"@, v@)),
{
    let mut params: Vec<(String, String)> = Vec::new();
    push_opt_str(&mut params, "from", from);
    push_opt_str(&mut params, "to", to);
    push_opt_str(&mut params, "period", period);
    push_opt_str(&mut params, "order", order);
    assert(pairs_view(params@) =~= eod_params(opt_str_view(from), opt_str_view(to), opt_str_view(period), opt_str_view(order)));
    proof {
        lemma_query_membership();
    }
    ApiRequest { path: path_of("/eod/", symbol), params }
}

/// The query parameters of the `intraday` call.
pub open spec fn intraday_params(
    interval: Option<Seq<char>>,
    from: Option<Seq<char>>,
    to: Option<Seq<char>>,
) -> Seq<(Seq<char>, Seq<char>)> {
    opt_pair("interval"@, interval) + opt_pair("from"@, from) + opt_pair("to"@, to)
}

/// Intraday bars of a symbol.
pub fn intraday_request(
    symbol: &str,
    interval: Option<&str>,
    from: Option<&str>,
    to: Option<&str>,
) -> (r: ApiRequest)
    ensures
        r.path@ == "/intraday/"@ + symbol@,
        pairs_view(r.params@) == intraday_params(opt_str_view(interval), opt_str_view(from), opt_str_view(to)),
        interval matches Some(v) ==> pairs_view(r.params@).contains(("interval"@, v@)),
        from matches Some(v) ==> pairs_view(r.params@).contains(("from"@, v@)),
        to matches Some(v) ==> pairs_view(r.params@).contains(("to"@, v@)),
{
    let mut params: Vec<(String, String)> = Vec::new();
    push_opt_str(&mut params, "interval", interval);
    push_opt_str(&mut params, "from", from);
    push_opt_str(&mut params, "to", to);
    assert(pairs_view(params@) =~= intraday_params(opt_str_view(interval), opt_str_view(from), opt_str_view(to)));
    proof {
        lemma_query_membership();
    }
    ApiRequest { path: path_of("/intraday/", symbol), params }
}

/// The query parameters of the `realtime` call.
pub open spec fn realtime_params(extra: Option<Seq<char>>) -> Seq<(Seq<char>, Seq<char>)> {
    opt_pair("s"@, extra)
}

/// Delayed live quotes of a symbol, and of extra symbols when given.
pub fn realtime_request(symbol: &str, extra: Option<&str>) -> (r: ApiRequest)
    ensures
        r.path@ == "/real-time/"@ + symbol@,
        pairs_view(r.params@) == realtime_params(opt_str_view(extra)),
{
    let mut params: Vec<(String, String)> = Vec::new();
    push_opt_str(&mut params, "s", extra);
    assert(pairs_view(params@) =~= realtime_params(opt_str_view(extra)));
    ApiRequest { path: path_of("/real-time/", symbol), params }
}

/// The query parameters of the `fundamentals` call.
pub open spec fn fundamentals_params(filter: Option<Seq<char>>) -> Seq<(Seq<char>, Seq<char>)> {
    opt_pair("filter"@, filter)
}

/// Fundamentals of a symbol, or one section of them.
pub fn fundamentals_request(symbol: &str, filter: Option<&str>) -> (r: ApiRequest)
    ensures
        r.path@ == "/fundamentals/"@ + symbol@,
        pairs_view(r.params@) == fundamentals_params(opt_str_view(filter)),
{
    let mut params: Vec<(String, String)> = Vec::new();
    push_opt_str(&mut params, "filter", filter);
    assert(pairs_view(params@) =~= fundamentals_params(opt_str_view(filter)));
    ApiRequest { path: path_of("/fundamentals/", symbol), params }
}

/// The query parameters of the `dividends` call.
pub open spec fn dividends_params(
    from: Option<Seq<char>>,
    to: Option<Seq<char>>,
) -> Seq<(Seq<char>, Seq<char>)> {
    opt_pair("from"@, from) + opt_pair("to"@, to)
}

/// Dividend history of a symbol.
pub fn dividends_request(symbol: &str, from: Option<&str>, to: Option<&str>) -> (r: ApiRequest)
    ensures
        r.path@ == "/div/"@ + symbol@,
        pairs_view(r.params@) == dividends_params(opt_str_view(from), opt_str_view(to)),
        from matches Some(v) ==> pairs_view(r.params@).contains(("from"@, v@)),
        to matches Some(v) ==> pairs_view(r.params@).contains(("to"@, v@)),
{
    let mut params: Vec<(String, String)> = Vec::new();
    push_opt_str(&mut params, "from", from);
    push_opt_str(&mut params, "to", to);
    assert(pairs_view(params@) =~= dividends_params(opt_str_view(from), opt_str_view(to)));
    proof {
        lemma_query_membership();
    }
    ApiRequest { path: path_of("/div/", symbol), params }
}

/// The query parameters of the `splits` call.
pub open spec fn splits_params(
    from: Option<Seq<char>>,
    to: Option<Seq<char>>,
) -> Seq<(Seq<char>, Seq<char>)> {
    opt_pair("from"@, from) + opt_pair("to"@, to)
}

/// Split history of a symbol.
pub fn splits_request(symbol: &str, from: Option<&str>, to: Option<&str>) -> (r: ApiRequest)
    ensures
        r.path@ == "/splits/"@ + symbol@,
        pairs_view(r.params@) == splits_params(opt_str_view(from), opt_str_view(to)),
        from matches Some(v) ==> pairs_view(r.params@).contains(("from"@, v@)),
        to matches Some(v) ==> pairs_view(r.params@).contains(("to"@, v@)),
{
    let mut params: Vec<(String, String)> = Vec::new();
    push_opt_str(&mut params, "from", from);
    push_opt_str(&mut params, "to", to);
    assert(pairs_view(params@) =~= splits_params(opt_str_view(from), opt_str_view(to)));
    proof {
        lemma_query_membership();
    }
    ApiRequest { path: path_of("/splits/", symbol), params }
}

/// The query parameters of the `news` call.
pub open spec fn news_params(
    symbol: Option<Seq<char>>,
    topic: Option<Seq<char>>,
    from: Option<Seq<char>>,
    to: Option<Seq<char>>,
    limit: Option<u32>,
    offset: Option<u32>,
) -> Seq<(Seq<char>, Seq<char>)> {
    seq![("limit"@, count_or(limit, 50))] + seq![("offset"@, count_or(offset, 0))]
        + opt_pair("s"@, symbol) + opt_pair("t"@, topic) + opt_pair("from"@, from)
        + opt_pair("to"@, to)
}

/// News by symbol or topic; 50 articles from offset 0 unless given.
pub fn news_request(
    symbol: Option<&str>,
    topic: Option<&str>,
    from: Option<&str>,
    to: Option<&str>,
    limit: Option<u32>,
    offset: Option<u32>,
) -> (r: ApiRequest)
    ensures
        r.path@ == "/news"@,
        pairs_view(r.params@) == news_params(opt_str_view(symbol), opt_str_view(topic), opt_str_view(from), opt_str_view(to), limit, offset),
        from matches Some(v) ==> pairs_view(r.params@).contains(("from"@, v@)),
        to matches Some(v) ==> pairs_view(r.params@).contains(("to"@, v@)),
{
    let mut params: Vec<(String, String)> = Vec::new();
    push_text(&mut params, "limit", count_text(limit, 50));
    push_text(&mut params, "offset", count_text(offset, 0));
    push_opt_str(&mut params, "s", symbol);
    push_opt_str(&mut params, "t", topic);
    push_opt_str(&mut params, "from", from);
    push_opt_str(&mut params, "to", to);
    assert(pairs_view(params@) =~= news_params(opt_str_view(symbol), opt_str_view(topic), opt_str_view(from), opt_str_view(to), limit, offset));
    proof {
        lemma_query_membership();
    }
    ApiRequest { path: String::from_str("/news"), params }
}

/// The query parameters of the `sentiment` call.
pub open spec fn sentiment_params(
    symbols: Seq<char>,
    from: Option<Seq<char>>,
    to: Option<Seq<char>>,
) -> Seq<(Seq<char>, Seq<char>)> {
    seq![("s"@, symbols)] + opt_pair("from"@, from) + opt_pair("to"@, to)
}

/// Sentiment scores of symbols.
pub fn sentiment_request(symbols: &str, from: Option<&str>, to: Option<&str>) -> (r: ApiRequest)
    ensures
        r.path@ == "/sentiments"@,
        pairs_view(r.params@) == sentiment_params(symbols@, opt_str_view(from), opt_str_view(to)),
        from matches Some(v) ==> pairs_view(r.params@).contains(("from"@, v@)),
        to matches Some(v) ==> pairs_view(r.params@).contains(("to"@, v@)),
{
    let mut params: Vec<(String, String)> = Vec::new();
    push_text(&mut params, "s", String::from_str(symbols));
    push_opt_str(&mut params, "from", from);
    push_opt_str(&mut params, "to", to);
    assert(pairs_view(params@) =~= sentiment_params(symbols@, opt_str_view(from), opt_str_view(to)));
    proof {
        lemma_query_membership();
    }
    ApiRequest { path: String::from_str("/sentiments"), params }
}

/// The query parameters of the `technicals` call.
pub open spec fn technicals_params(
    function: Seq<char>,
    period: Option<u32>,
    from: Option<Seq<char>>,
    to: Option<Seq<char>>,
    order: Option<Seq<char>>,
) -> Seq<(Seq<char>, Seq<char>)> {
    seq![("function"@, function)]
        + opt_pair("period"@, match period {
        Some(n) => Some(decimal_text(n as nat)),
        None => None,
    })
        + opt_pair("from"@, from) + opt_pair("to"@, to) + opt_pair("order"@, order)
}

/// A technical indicator of a symbol.
pub fn technicals_request(
    symbol: &str,
    function: &str,
    period: Option<u32>,
    from: Option<&str>,
    to: Option<&str>,
    order: Option<&str>,
) -> (r: ApiRequest)
    ensures
        r.path@ == "/technical/"@ + symbol@,
        pairs_view(r.params@) == technicals_params(function@, period, opt_str_view(from), opt_str_view(to), opt_str_view(order)),
        from matches Some(v) ==> pairs_view(r.params@).contains(("from"@, v@)),
        to matches Some(v) ==> pairs_view(r.params@).contains(("to"@, v@)),
        order matches Some(v) ==> pairs_view(r.params@).contains(("order"@, v@)),
{
    let mut params: Vec<(String, String)> = Vec::new();
    push_text(&mut params, "function", String::from_str(function));
    if let Some(n) = period {
        push_text(&mut params, "period", decimal_string(n as u64));
    }
    push_opt_str(&mut params, "from", from);
    push_opt_str(&mut params, "to", to);
    push_opt_str(&mut params, "order", order);
    assert(pairs_view(params@) =~= technicals_params(function@, period, opt_str_view(from), opt_str_view(to), opt_str_view(order)));
    proof {
        lemma_query_membership();
    }
    ApiRequest { path: path_of("/technical/", symbol), params }
}

/// The query parameters of the `screener` call.
pub open spec fn screener_params(
    filters: Option<Seq<char>>,
    signals: Option<Seq<char>>,
    sort: Option<Seq<char>>,
    limit: Option<u32>,
    offset: Option<u32>,
) -> Seq<(Seq<char>, Seq<char>)> {
    seq![("limit"@, count_or(limit, 50))] + seq![("offset"@, count_or(offset, 0))]
        + opt_pair("filters"@, filters) + opt_pair("signals"@, signals) + opt_pair("sort"@, sort)
}

/// A stock screen; 50 results from offset 0 unless given.
pub fn screener_request(
    filters: Option<&str>,
    signals: Option<&str>,
    sort: Option<&str>,
    limit: Option<u32>,
    offset: Option<u32>,
) -> (r: ApiRequest)
    ensures
        r.path@ == "/screener"@,
        pairs_view(r.params@) == screener_params(opt_str_view(filters), opt_str_view(signals), opt_str_view(sort), limit, offset),
{
    let mut params: Vec<(String, String)> = Vec::new();
    push_text(&mut params, "limit", count_text(limit, 50));
    push_text(&mut params, "offset", count_text(offset, 0));
    push_opt_str(&mut params, "filters", filters);
    push_opt_str(&mut params, "signals", signals);
    push_opt_str(&mut params, "sort", sort);
    assert(pairs_view(params@) =~= screener_params(opt_str_view(filters), opt_str_view(signals), opt_str_view(sort), limit, offset));
    ApiRequest { path: String::from_str("/screener"), params }
}

/// The query parameters of the `macro_indicator` call.
pub open spec fn macro_indicator_params(indicator: Option<Seq<char>>) -> Seq<(Seq<char>, Seq<char>)> {
    opt_pair("indicator"@, indicator)
}

/// A macroeconomic indicator of a country.
pub fn macro_indicator_request(country: &str, indicator: Option<&str>) -> (r: ApiRequest)
    ensures
        r.path@ == "/macro-indicator/"@ + country@,
        pairs_view(r.params@) == macro_indicator_params(opt_str_view(indicator)),
{
    let mut params: Vec<(String, String)> = Vec::new();
    push_opt_str(&mut params, "indicator", indicator);
    assert(pairs_view(params@) =~= macro_indicator_params(opt_str_view(indicator)));
    ApiRequest { path: path_of("/macro-indicator/", country), params }
}

/// The query parameters of the `economic_events` call.
pub open spec fn economic_events_params(
    from: Option<Seq<char>>,
    to: Option<Seq<char>>,
    country: Option<Seq<char>>,
    limit: Option<u32>,
    offset: Option<u32>,
) -> Seq<(Seq<char>, Seq<char>)> {
    seq![("limit"@, count_or(limit, 50))] + seq![("offset"@, count_or(offset, 0))]
        + opt_pair("from"@, from) + opt_pair("to"@, to) + opt_pair("country"@, country)
}

/// The economic events calendar; 50 events from offset 0 unless given.
pub fn economic_events_request(
    from: Option<&str>,
    to: Option<&str>,
    country: Option<&str>,
    limit: Option<u32>,
    offset: Option<u32>,
) -> (r: ApiRequest)
    ensures
        r.path@ == "/economic-events"@,
        pairs_view(r.params@) == economic_events_params(opt_str_view(from), opt_str_view(to), opt_str_view(country), limit, offset),
        from matches Some(v) ==> pairs_view(r.params@).contains(("from"@, v@)),
        to matches Some(v) ==> pairs_view(r.params@).contains(("to"@, v@)),
        country matches Some(v) ==> pairs_view(r.params@).contains(("country"@, v@)),
{
    let mut params: Vec<(String, String)> = Vec::new();
    push_text(&mut params, "limit", count_text(limit, 50));
    push_text(&mut params, "offset", count_text(offset, 0));
    push_opt_str(&mut params, "from", from);
    push_opt_str(&mut params, "to", to);
    push_opt_str(&mut params, "country", country);
    assert(pairs_view(params@) =~= economic_events_params(opt_str_view(from), opt_str_view(to), opt_str_view(country), limit, offset));
    proof {
        lemma_query_membership();
    }
    ApiRequest { path: String::from_str("/economic-events"), params }
}

/// The query parameters of the `insider_transactions` call.
pub open spec fn insider_transactions_params(
    symbol: Option<Seq<char>>,
    from: Option<Seq<char>>,
    to: Option<Seq<char>>,
    limit: Option<u32>,
) -> Seq<(Seq<char>, Seq<char>)> {
    seq![("limit"@, count_or(limit, 100))] + opt_pair("code"@, symbol) + opt_pair("from"@, from)
        + opt_pair("to"@, to)
}

/// Insider transactions; 100 unless a limit is given.
pub fn insider_transactions_request(
    symbol: Option<&str>,
    from: Option<&str>,
    to: Option<&str>,
    limit: Option<u32>,
) -> (r: ApiRequest)
    ensures
        r.path@ == "/insider-transactions"@,
        pairs_view(r.params@) == insider_transactions_params(opt_str_view(symbol), opt_str_view(from), opt_str_view(to), limit),
        from matches Some(v) ==> pairs_view(r.params@).contains(("from"@, v@)),
        to matches Some(v) ==> pairs_view(r.params@).contains(("to"@, v@)),
{
    let mut params: Vec<(String, String)> = Vec::new();
    push_text(&mut params, "limit", count_text(limit, 100));
    push_opt_str(&mut params, "code", symbol);
    push_opt_str(&mut params, "from", from);
    push_opt_str(&mut params, "to", to);
    assert(pairs_view(params@) =~= insider_transactions_params(opt_str_view(symbol), opt_str_view(from), opt_str_view(to), limit));
    proof {
        lemma_query_membership();
    }
    ApiRequest { path: String::from_str("/insider-transactions"), params }
}

/// The query parameters of the `calendar` call.
pub open spec fn calendar_params(
    symbols: Option<Seq<char>>,
    from: Option<Seq<char>>,
    to: Option<Seq<char>>,
) -> Seq<(Seq<char>, Seq<char>)> {
    opt_pair("symbols"@, symbols) + opt_pair("from"@, from) + opt_pair("to"@, to)
}

/// A financial calendar (earnings, IPOs, splits, dividends, trends).
pub fn calendar_request(
    calendar_type: &str,
    symbols: Option<&str>,
    from: Option<&str>,
    to: Option<&str>,
) -> (r: ApiRequest)
    ensures
        r.path@ == "/calendar/"@ + calendar_type@,
        pairs_view(r.params@) == calendar_params(opt_str_view(symbols), opt_str_view(from), opt_str_view(to)),
        symbols matches Some(v) ==> pairs_view(r.params@).contains(("symbols"@, v@)),
        from matches Some(v) ==> pairs_view(r.params@).contains(("from"@, v@)),
        to matches Some(v) ==> pairs_view(r.params@).contains(("to"@, v@)),
{
    let mut params: Vec<(String, String)> = Vec::new();
    push_opt_str(&mut params, "symbols", symbols);
    push_opt_str(&mut params, "from", from);
    push_opt_str(&mut params, "to", to);
    assert(pairs_view(params@) =~= calendar_params(opt_str_view(symbols), opt_str_view(from), opt_str_view(to)));
    proof {
        lemma_query_membership();
    }
    ApiRequest { path: path_of("/calendar/", calendar_type), params }
}

/// The query parameters of the `exchange_details` call.
pub open spec fn exchange_details_params(
    from: Option<Seq<char>>,
    to: Option<Seq<char>>,
) -> Seq<(Seq<char>, Seq<char>)> {
    opt_pair("from"@, from) + opt_pair("to"@, to)
}

/// Trading hours and holidays of an exchange.
pub fn exchange_details_request(
    exchange: &str,
    from: Option<&str>,
    to: Option<&str>,
) -> (r: ApiRequest)
    ensures
        r.path@ == "/exchange-details/"@ + exchange@,
        pairs_view(r.params@) == exchange_details_params(opt_str_view(from), opt_str_view(to)),
        from matches Some(v) ==> pairs_view(r.params@).contains(("from"@, v@)),
        to matches Some(v) ==> pairs_view(r.params@).contains(("to"@, v@)),
{
    let mut params: Vec<(String, String)> = Vec::new();
    push_opt_str(&mut params, "from", from);
    push_opt_str(&mut params, "to", to);
    assert(pairs_view(params@) =~= exchange_details_params(opt_str_view(from), opt_str_view(to)));
    proof {
        lemma_query_membership();
    }
    ApiRequest { path: path_of("/exchange-details/", exchange), params }
}

/// The query parameters of the `bulk_eod` call.
pub open spec fn bulk_eod_params(
    data_type: Option<Seq<char>>,
    date: Option<Seq<char>>,
    symbols: Option<Seq<char>>,
) -> Seq<(Seq<char>, Seq<char>)> {
    opt_pair("type"@, data_type) + opt_pair("date"@, date) + opt_pair("symbols"@, symbols)
}

/// Last-day data of a whole exchange.
pub fn bulk_eod_request(
    exchange: &str,
    data_type: Option<&str>,
    date: Option<&str>,
    symbols: Option<&str>,
) -> (r: ApiRequest)
    ensures
        r.path@ == "/eod-bulk-last-day/"@ + exchange@,
        pairs_view(r.params@) == bulk_eod_params(opt_str_view(data_type), opt_str_view(date), opt_str_view(symbols)),
{
    let mut params: Vec<(String, String)> = Vec::new();
    push_opt_str(&mut params, "type", data_type);
    push_opt_str(&mut params, "date", date);
    push_opt_str(&mut params, "symbols", symbols);
    assert(pairs_view(params@) =~= bulk_eod_params(opt_str_view(data_type), opt_str_view(date), opt_str_view(symbols)));
    ApiRequest { path: path_of("/eod-bulk-last-day/", exchange), params }
}

/// The query parameters of the `market_cap` call.
pub open spec fn market_cap_params(
    from: Option<Seq<char>>,
    to: Option<Seq<char>>,
) -> Seq<(Seq<char>, Seq<char>)> {
    opt_pair("from"@, from) + opt_pair("to"@, to)
}

/// Historical market capitalisation of a symbol.
pub fn market_cap_request(symbol: &str, from: Option<&str>, to: Option<&str>) -> (r: ApiRequest)
    ensures
        r.path@ == "/historical-market-cap/"@ + symbol@,
        pairs_view(r.params@) == market_cap_params(opt_str_view(from), opt_str_view(to)),
        from matches Some(v) ==> pairs_view(r.params@).contains(("from"@, v@)),
        to matches Some(v) ==> pairs_view(r.params@).contains(("to"@, v@)),
{
    let mut params: Vec<(String, String)> = Vec::new();
    push_opt_str(&mut params, "from", from);
    push_opt_str(&mut params, "to", to);
    assert(pairs_view(params@) =~= market_cap_params(opt_str_view(from), opt_str_view(to)));
    proof {
        lemma_query_membership();
    }
    ApiRequest { path: path_of("/historical-market-cap/", symbol), params }
}

/// The list of exchanges.
pub fn exchanges_list_request() -> (r: ApiRequest)
    ensures
        r.path@ == "/exchanges-list/"@,
        r.params@.len() == 0,
{
    ApiRequest { path: String::from_str("/exchanges-list/"), params: Vec::new() }
}

/// The account of the API key.
pub fn user_request() -> (r: ApiRequest)
    ensures
        r.path@ == "/user"@,
        r.params@.len() == 0,
{
    ApiRequest { path: String::from_str("/user"), params: Vec::new() }
}

/// The tickers of an exchange, of one type when given, delisted ones
/// included when asked for.
pub fn exchange_symbols_request(exchange: &str, asset_type: Option<&str>, delisted: bool) -> (r: ApiRequest)
    ensures
        r.path@ == "/exchange-symbol-list/"@ + exchange@,
        pairs_view(r.params@) == opt_pair("type"@, opt_str_view(asset_type)) + (if delisted {
            seq![("delisted"@, "1"@)]
        } else {
            Seq::empty()
        }),
{
    let mut params: Vec<(String, String)> = Vec::new();
    push_opt_str(&mut params, "type", asset_type);
    if delisted {
        push_text(&mut params, "delisted", String::from_str("1"));
    }
    assert(pairs_view(params@) =~= opt_pair("type"@, opt_str_view(asset_type)) + (if delisted {
        seq![("delisted"@, "1"@)]
    } else {
        Seq::empty()
    }));
    ApiRequest { path: path_of("/exchange-symbol-list/", exchange), params }
}

/// The path of a US Treasury rate series.
pub open spec fn treasury_path(rate_type: Seq<char>) -> Option<Seq<char>> {
    if rate_type == "bill"@ {
        Some("/ust/bill-rates"@)
    } else if rate_type == "long_term"@ {
        Some("/ust/long-term-rates"@)
    } else if rate_type == "yield"@ {
        Some("/ust/yield-rates"@)
    } else if rate_type == "real_yield"@ {
        Some("/ust/real-yield-rates"@)
    } else {
        None
    }
}

/// US Treasury rates of one series (bill, long_term, yield, real_yield),
/// for one year when given; an unknown series is refused.
pub fn treasury_request(rate_type: &str, year: Option<u32>) -> (r: Result<ApiRequest, String>)
    ensures
        match r {
            Ok(req) => {
                &&& treasury_path(rate_type@) == Some(req.path@)
                &&& pairs_view(req.params@) == (match year {
                    Some(y) => seq![("filter[year]"@, decimal_text(y as nat))],
                    None => Seq::empty(),
                })
            },
            Err(e) => {
                &&& treasury_path(rate_type@) is None
                &&& e@ == "Invalid treasury rate type: '"@ + rate_type@
                    + "'. Use: bill, long_term, yield, real_yield"@
            },
        },
{
    let path = if str_eq(rate_type, "bill") {
        "/ust/bill-rates"
    } else if str_eq(rate_type, "long_term") {
        "/ust/long-term-rates"
    } else if str_eq(rate_type, "yield") {
        "/ust/yield-rates"
    } else if str_eq(rate_type, "real_yield") {
        "/ust/real-yield-rates"
    } else {
        let mut e = String::from_str("Invalid treasury rate type: '");
        e.append(rate_type);
        e.append("'. Use: bill, long_term, yield, real_yield");
        return Err(e);
    };
    let mut params: Vec<(String, String)> = Vec::new();
    if let Some(y) = year {
        push_text(&mut params, "filter[year]", decimal_string(y as u64));
    }
    assert(pairs_view(params@) =~= (match year {
        Some(y) => seq![("filter[year]"@, decimal_text(y as nat))],
        None => Seq::empty(),
    }));
    Ok(ApiRequest { path: String::from_str(path), params })
}

/// A query of the options dataset in one mode (`eod`, `contracts` or
/// `underlyings`) with its query parameters.
pub fn options_request(mode: &str, query: Vec<(String, String)>) -> (r: ApiRequest)
    ensures
        r.path@ == "/mp/unicornbay/options/"@ + mode@,
        r.params@ == query@,
{
    ApiRequest { path: path_of("/mp/unicornbay/options/", mode), params: query }
}

/// What an optional parameter puts in a query: the pair `(key, v)` when
/// the value `v` is given, and nothing else.
proof fn lemma_opt_pair(key: Seq<char>, x: Option<Seq<char>>)
    ensures
        opt_pair(key, x).len() == (if x is Some {
            1int
        } else {
            0int
        }),
        forall|kv: (Seq<char>, Seq<char>)|
            #[trigger] opt_pair(key, x).contains(kv) <==> (x is Some && kv == (key, x->0)),
{
    if let Some(v) = x {
        assert(opt_pair(key, x)[0] == (key, v));
    }
}

/// A pair is in a concatenation of queries when it is in one of them.
proof fn lemma_contains_add(a: Seq<(Seq<char>, Seq<char>)>, b: Seq<(Seq<char>, Seq<char>)>)
    ensures
        forall|kv: (Seq<char>, Seq<char>)| #[trigger] (a + b).contains(kv) <==> a.contains(kv) || b.contains(kv),
{
    assert forall|kv: (Seq<char>, Seq<char>)| #[trigger] (a + b).contains(kv) <==> a.contains(kv) || b.contains(kv) by {
        if (a + b).contains(kv) {
            let i = choose|i: int| 0 <= i < (a + b).len() && (a + b)[i] == kv;
            if i < a.len() {
                assert(a[i] == kv);
            } else {
                assert(b[i - a.len()] == kv);
            }
        }
        if a.contains(kv) {
            let i = choose|i: int| 0 <= i < a.len() && a[i] == kv;
            assert((a + b)[i] == kv);
        }
        if b.contains(kv) {
            let i = choose|i: int| 0 <= i < b.len() && b[i] == kv;
            assert((a + b)[i + a.len()] == kv);
        }
    }
}

/// A pair is in a query built from optional parameters exactly when it is
/// one of the parameters given.
proof fn lemma_query_membership()
    ensures
        forall|a: Seq<(Seq<char>, Seq<char>)>, b: Seq<(Seq<char>, Seq<char>)>, kv: (Seq<char>, Seq<char>)|
            #[trigger] (a + b).contains(kv) <==> a.contains(kv) || b.contains(kv),
        forall|key: Seq<char>, x: Option<Seq<char>>, kv: (Seq<char>, Seq<char>)|
            #[trigger] opt_pair(key, x).contains(kv) <==> (x is Some && kv == (key, x->0)),
{
    assert forall|a: Seq<(Seq<char>, Seq<char>)>, b: Seq<(Seq<char>, Seq<char>)>, kv: (Seq<char>, Seq<char>)|
        #[trigger] (a + b).contains(kv) <==> a.contains(kv) || b.contains(kv) by {
        lemma_contains_add(a, b);
    }
    assert forall|key: Seq<char>, x: Option<Seq<char>>, kv: (Seq<char>, Seq<char>)|
        #[trigger] opt_pair(key, x).contains(kv) <==> (x is Some && kv == (key, x->0)) by {
        lemma_opt_pair(key, x);
    }
}

/// How many of the optional values are given.
pub open spec fn given(x: Option<Seq<char>>) -> int {
    if x is Some {
        1
    } else {
        0
    }
}

/// An end-of-day price request asks for exactly what the caller gave: the
/// start date under `from`, the end date under `to`, the period under
/// `period` and the order under `order`, each with the value given and
/// each only when given; no other parameter is sent.
pub proof fn law_eod_params_carry_given_values(
    from: Option<Seq<char>>,
    to: Option<Seq<char>>,
    period: Option<Seq<char>>,
    order: Option<Seq<char>>,
)
    ensures
        from matches Some(f) ==> eod_params(from, to, period, order).contains(("from"@, f)),
        to matches Some(t) ==> eod_params(from, to, period, order).contains(("to"@, t)),
        period matches Some(p) ==> eod_params(from, to, period, order).contains(("period"@, p)),
        order matches Some(o) ==> eod_params(from, to, period, order).contains(("order"@, o)),
        forall|k: Seq<char>, v: Seq<char>|
            #[trigger] eod_params(from, to, period, order).contains((k, v)) ==> {
                ||| k == "from"@ && from == Some(v)
                ||| k == "to"@ && to == Some(v)
                ||| k == "period"@ && period == Some(v)
                ||| k == "order"@ && order == Some(v)
            },
        eod_params(from, to, period, order).len() == given(from) + given(to) + given(period) + given(order),
{
    let a = opt_pair("from"@, from);
    let b = opt_pair("to"@, to);
    let c = opt_pair("period"@, period);
    let d = opt_pair("order"@, order);
    lemma_opt_pair("from"@, from);
    lemma_opt_pair("to"@, to);
    lemma_opt_pair("period"@, period);
    lemma_opt_pair("order"@, order);
    lemma_contains_add(a, b);
    lemma_contains_add(a + b, c);
    lemma_contains_add(a + b + c, d);
    assert forall|k: Seq<char>, v: Seq<char>|
        #[trigger] eod_params(from, to, period, order).contains((k, v)) implies {
            ||| k == "from"@ && from == Some(v)
            ||| k == "to"@ && to == Some(v)
            ||| k == "period"@ && period == Some(v)
            ||| k == "order"@ && order == Some(v)
        } by {
        assert(a.contains((k, v)) || b.contains((k, v)) || c.contains((k, v)) || d.contains((k, v)));
    }
}

} // verus!
