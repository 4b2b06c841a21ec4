//! The parts of a company snapshot that are read straight from a
//! fundamentals payload: company information, data freshness and the
//! warnings about missing blocks.

use vstd::prelude::*;
use vstd::string::*;
use crate::json::{json_field, json_i64, json_text, lookup, Json, JsonMap};
use crate::text::{seq_lt, str_lt};

verus! {

/// Company information from the `General` block.
#[derive(Debug)]
pub struct CompanyInfo {
    pub name: Option<String>,
    pub sector: Option<String>,
    pub industry: Option<String>,
    pub country: Option<String>,
    pub fiscal_year_end: Option<String>,
    pub employees: Option<i64>,
    pub exchange: Option<String>,
    pub currency: Option<String>,
}

/// How recent the reported data is.
#[derive(Debug)]
pub struct DataFreshness {
    pub last_reported_quarter: Option<String>,
    pub last_filing_date: Option<String>,
}

/// The field `k` of the field `block` of `f`.
pub open spec fn block_field(f: Json, block: Seq<char>, k: Seq<char>) -> Option<Json> {
    match json_field(f, block) {
        Some(b) => json_field(b, k),
        None => None,
    }
}

/// The text of the field `k` of the `General` block.
pub open spec fn general_text(f: Json, k: Seq<char>) -> Option<Seq<char>> {
    match block_field(f, "General"@, k) {
        Some(v) => json_text(v),
        None => None,
    }
}

/// The view of an optional string.
pub open spec fn opt_string_view(o: Option<String>) -> Option<Seq<char>> {
    match o {
        Some(s) => Some(s@),
        None => None,
    }
}

fn general_string(f: &Json, k: &str) -> (r: Option<String>)
    ensures
        opt_string_view(r) == general_text(*f, k@),
{
    match f.get("General") {
        Some(g) => match g.get(k) {
            Some(v) => match v.as_str() {
                Some(s) => Some(String::from_str(s)),
                None => None,
            },
            None => None,
        },
        None => None,
    }
}

/// Company information read from the `General` block: name, sector,
/// industry, country, fiscal year end, employee count (an integer that
/// fits in `i64`), exchange and currency.
pub fn company_info(fundamentals: &Json) -> (c: CompanyInfo)
    ensures
        opt_string_view(c.name) == general_text(*fundamentals, "Name"@),
        opt_string_view(c.sector) == general_text(*fundamentals, "Sector"@),
        opt_string_view(c.industry) == general_text(*fundamentals, "Industry"@),
        opt_string_view(c.country) == general_text(*fundamentals, "CountryName"@),
        opt_string_view(c.fiscal_year_end) == general_text(*fundamentals, "FiscalYearEnd"@),
        c.employees == (match block_field(*fundamentals, "General"@, "FullTimeEmployees"@) {
            Some(v) => json_i64(v),
            None => None,
        }),
        opt_string_view(c.exchange) == general_text(*fundamentals, "Exchange"@),
        opt_string_view(c.currency) == general_text(*fundamentals, "CurrencyCode"@),
{
    let employees = match fundamentals.get("General") {
        Some(g) => match g.get("FullTimeEmployees") {
            Some(v) => v.as_i64(),
            None => None,
        },
        None => None,
    };
    CompanyInfo {
        name: general_string(fundamentals, "Name"),
        sector: general_string(fundamentals, "Sector"),
        industry: general_string(fundamentals, "Industry"),
        country: general_string(fundamentals, "CountryName"),
        fiscal_year_end: general_string(fundamentals, "FiscalYearEnd"),
        employees,
        exchange: general_string(fundamentals, "Exchange"),
        currency: general_string(fundamentals, "CurrencyCode"),
    }
}

/// The quarterly table of a statement: `Financials/{stmt}/quarterly`,
/// when it is an object.
pub open spec fn quarterly_table(f: Json, stmt: Seq<char>) -> Option<JsonMap> {
    match block_field(f, "Financials"@, stmt) {
        Some(s) => match json_field(s, "quarterly"@) {
            Some(Json::Object(m)) => Some(m),
            _ => None,
        },
        None => None,
    }
}

/// The quarterly table of a statement.
pub fn quarterly<'a>(f: &'a Json, stmt: &str) -> (r: Option<&'a JsonMap>)
    ensures
        r matches Some(m) ==> quarterly_table(*f, stmt@) == Some(*m),
        r is None ==> quarterly_table(*f, stmt@) is None,
{
    match f.get("Financials") {
        Some(fin) => match fin.get(stmt) {
            Some(s) => match s.get("quarterly") {
                Some(q) => q.as_object(),
                None => None,
            },
            None => None,
        },
        None => None,
    }
}

/// The greatest key of `ks` (lexicographically); empty for no keys.
pub open spec fn max_key(ks: Seq<Seq<char>>) -> Seq<char>
    decreases ks.len(),
{
    if ks.len() == 0 {
        Seq::empty()
    } else if ks.len() == 1 {
        ks[0]
    } else {
        let m = max_key(ks.drop_last());
        if seq_lt(m, ks.last()) {
            ks.last()
        } else {
            m
        }
    }
}

/// The newest date of a periodic table: its greatest key.
pub open spec fn newest_key(m: JsonMap) -> Option<Seq<char>> {
    if m.entries@.len() == 0 {
        None
    } else {
        Some(max_key(crate::json::keys_of(m.entries@)))
    }
}

/// The newest date of a periodic table.
pub fn newest_date(m: &JsonMap) -> (r: Option<&str>)
    ensures
        r matches Some(s) ==> newest_key(*m) == Some(s@),
        r is None ==> newest_key(*m) is None,
{
    if m.entries.len() == 0 {
        return None;
    }
    let ghost ks = crate::json::keys_of(m.entries@);
    let mut best: &str = m.entries[0].0.as_str();
    assert(ks.take(1) =~= seq![ks[0]]);
    let mut i: usize = 1;
    while i < m.entries.len()
        invariant
            ks == crate::json::keys_of(m.entries@),
            1 <= i <= m.entries@.len(),
            best@ == max_key(ks.take(i as int)),
        decreases m.entries@.len() - i,
    {
        proof {
            assert(ks.take(i + 1).drop_last() =~= ks.take(i as int));
        }
        if str_lt(best, m.entries[i].0.as_str()) {
            best = m.entries[i].0.as_str();
        }
        i = i + 1;
    }
    assert(ks.take(m.entries@.len() as int) =~= ks);
    Some(best)
}

/// The filing date a statement table offers: the `filing_date` text of
/// its newest period, or that period's date.
pub open spec fn filing_candidate(m: JsonMap) -> Option<Seq<char>> {
    match newest_key(m) {
        Some(d) => match lookup(m.entries@, d) {
            Some(e) => match json_field(e, "filing_date"@) {
                Some(v) => match json_text(v) {
                    Some(t) => Some(t),
                    None => Some(d),
                },
                None => Some(d),
            },
            None => Some(d),
        },
        None => None,
    }
}

/// Fold one statement's candidate into the latest date found so far.
pub open spec fn later_of(latest: Option<Seq<char>>, cand: Option<Seq<char>>) -> Option<Seq<char>> {
    match cand {
        Some(c) => match latest {
            Some(cur) => if !seq_lt(cur, c) {
                Some(cur)
            } else {
                Some(c)
            },
            None => Some(c),
        },
        None => latest,
    }
}

/// The candidate of one statement of `f`.
pub open spec fn statement_candidate(f: Json, stmt: Seq<char>) -> Option<Seq<char>> {
    match quarterly_table(f, stmt) {
        Some(m) => filing_candidate(m),
        None => None,
    }
}

/// The most recent filing date over the three statements.
pub open spec fn latest_filing(f: Json) -> Option<Seq<char>> {
    later_of(
        later_of(
            later_of(None, statement_candidate(f, "Income_Statement"@)),
            statement_candidate(f, "Balance_Sheet"@),
        ),
        statement_candidate(f, "Cash_Flow"@),
    )
}

fn candidate_of<'a>(f: &'a Json, stmt: &str) -> (r: Option<&'a str>)
    ensures
        r matches Some(s) ==> statement_candidate(*f, stmt@) == Some(s@),
        r is None ==> statement_candidate(*f, stmt@) is None,
{
    match quarterly(f, stmt) {
        Some(q) => match newest_date(q) {
            Some(d) => match q.get(d) {
                Some(e) => match e.get("filing_date") {
                    Some(v) => match v.as_str() {
                        Some(t) => Some(t),
                        None => Some(d),
                    },
                    None => Some(d),
                },
                None => Some(d),
            },
            None => None,
        },
        None => None,
    }
}

fn fold_later<'a>(latest: Option<&'a str>, cand: Option<&'a str>) -> (r: Option<&'a str>)
    ensures
        opt_str_view(r) == later_of(opt_str_view(latest), opt_str_view(cand)),
{
    match cand {
        Some(c) => match latest {
            Some(cur) => if !str_lt(cur, c) {
                Some(cur)
            } else {
                Some(c)
            },
            None => Some(c),
        },
        None => latest,
    }
}

/// The view of an optional string slice.
pub open spec fn opt_str_view(o: Option<&str>) -> Option<Seq<char>> {
    match o {
        Some(s) => Some(s@),
        None => None,
    }
}

/// The most recent `filing_date` (or period date) found under
/// `Financials::*::quarterly`, considering the newest period of each
/// statement; `None` when no statement has quarterly data.
pub fn most_recent_filing(fundamentals: &Json) -> (r: Option<String>)
    ensures
        opt_string_view(r) == latest_filing(*fundamentals),
{
    let a = fold_later(None, candidate_of(fundamentals, "Income_Statement"));
    let b = fold_later(a, candidate_of(fundamentals, "Balance_Sheet"));
    let c = fold_later(b, candidate_of(fundamentals, "Cash_Flow"));
    match c {
        Some(s) => Some(String::from_str(s)),
        None => None,
    }
}

/// Data freshness of a payload: the newest quarter of the income
/// statement and the most recent filing date.
pub fn data_freshness(fundamentals: &Json) -> (d: DataFreshness)
    ensures
        opt_string_view(d.last_reported_quarter) == (match quarterly_table(*fundamentals, "Income_Statement"@) {
            Some(m) => newest_key(m),
            None => None,
        }),
        opt_string_view(d.last_filing_date) == latest_filing(*fundamentals),
{
    let last_q = match quarterly(fundamentals, "Income_Statement") {
        Some(q) => match newest_date(q) {
            Some(d) => Some(String::from_str(d)),
            None => None,
        },
        None => None,
    };
    DataFreshness { last_reported_quarter: last_q, last_filing_date: most_recent_filing(fundamentals) }
}

/// The warnings a snapshot carries: no quarterly income statement (an
/// ETF, fund or index), no `Highlights` block, and a TTM revenue that
/// could not be derived although quarters exist.
pub open spec fn snapshot_warning_texts(f: Json, revenue_ttm_known: bool) -> Seq<Seq<char>> {
    let inc = quarterly_table(f, "Income_Statement"@);
    (if inc is None {
        seq!["No quarterly income statement found — likely an ETF, fund, or index."@]
    } else {
        Seq::empty()
    }) + (if json_field(f, "Highlights"@) is None {
        seq!["Highlights block missing from fundamentals payload."@]
    } else {
        Seq::empty()
    }) + (if !revenue_ttm_known && inc is Some {
        seq!["TTM revenue not derivable — fewer than 4 quarters available, or a quarter is null."@]
    } else {
        Seq::empty()
    })
}

/// The warnings of a snapshot, in order (see [`snapshot_warning_texts`]).
pub fn snapshot_warnings(fundamentals: &Json, revenue_ttm_known: bool) -> (w: Vec<String>)
    ensures
        crate::text::string_views(w@) == snapshot_warning_texts(*fundamentals, revenue_ttm_known),
{
    let mut w: Vec<String> = Vec::new();
    let inc = quarterly(fundamentals, "Income_Statement");
    if inc.is_none() {
        w.push(String::from_str("No quarterly income statement found — likely an ETF, fund, or index."));
    }
    if fundamentals.get("Highlights").is_none() {
        w.push(String::from_str("Highlights block missing from fundamentals payload."));
    }
    if !revenue_ttm_known && inc.is_some() {
        w.push(
            String::from_str(
                "TTM revenue not derivable — fewer than 4 quarters available, or a quarter is null.",
            ),
        );
    }
    assert(crate::text::string_views(w@) =~= snapshot_warning_texts(*fundamentals, revenue_ttm_known));
    w
}

/// The freshness hint of an answer: the last quarter, and the last
/// filing when it is known; nothing without a last quarter.
pub open spec fn freshness_text(last_quarter: Option<Seq<char>>, last_filing: Option<Seq<char>>) -> Option<Seq<char>> {
    match last_quarter {
        Some(q) => Some(
            "last_quarter="@ + q + match last_filing {
                Some(f) => ", last_filing="@ + f,
                None => Seq::empty(),
            },
        ),
        None => None,
    }
}

/// The freshness hint of an answer (see [`freshness_text`]).
pub fn freshness_hint(last_quarter: Option<&str>, last_filing: Option<&str>) -> (r: Option<String>)
    ensures
        opt_string_view(r) == freshness_text(opt_str_view(last_quarter), opt_str_view(last_filing)),
{
    match last_quarter {
        Some(q) => {
            let mut s = String::from_str("last_quarter=");
            s.append(q);
            if let Some(f) = last_filing {
                s.append(", last_filing=");
                s.append(f);
            }
            assert(s@ =~= freshness_text(opt_str_view(last_quarter), opt_str_view(last_filing))->0);
            Some(s)
        },
        None => None,
    }
}

} // verus!
