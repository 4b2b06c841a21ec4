//! Options of the `compare` tool: the metric registry, and the parsing of
//! the comma-separated symbol and metric lists.

use vstd::prelude::*;
use vstd::string::*;
use crate::financials::{company_name, general_name};
use crate::json::Json;
use crate::text::{
    decimal_string, decimal_text, join_seqs, join_strings, lowercase_of, split_char, split_on,
    str_eq, str_to_lowercase, str_trim, string_views, trim_text,
};

verus! {

/// At most this many symbols can be compared at once.
pub const MAX_SYMBOLS: usize = 5;

/// Which way a metric ranks.
#[derive(Debug, Clone, Copy, PartialEq, Eq, Structural)]
pub enum Direction {
    /// Higher value ranks better (margins, growth, ROE, ...).
    Higher,
    /// Lower value ranks better (debt ratios, valuation multiples, DSO).
    Lower,
}

/// How a metric's value is shown.
#[derive(Debug, Clone, Copy, PartialEq, Eq, Structural)]
pub enum Format {
    /// 0.247 shown as "24.70%".
    Percent,
    /// 1.234 shown as "1.23".
    Ratio,
}

/// A metric the tool understands.
#[derive(Debug, Clone, Copy)]
pub struct MetricSpec {
    pub key: &'static str,
    pub label: &'static str,
    pub direction: Direction,
    pub format: Format,
}

/// The registry entry of a metric, as texts.
pub struct MetricSpecView {
    pub key: Seq<char>,
    pub label: Seq<char>,
    pub direction: Direction,
    pub format: Format,
}

impl MetricSpec {
    pub open spec fn spec_view(self) -> MetricSpecView {
        MetricSpecView { key: self.key@, label: self.label@, direction: self.direction, format: self.format }
    }
}

/// All metrics the tool understands, in registry order.
pub open spec fn registry() -> Seq<MetricSpecView> {
    seq![
        MetricSpecView { key: "gross_margin"@, label: "Gross margin"@, direction: Direction::Higher, format: Format::Percent },
        MetricSpecView { key: "operating_margin"@, label: "Operating margin"@, direction: Direction::Higher, format: Format::Percent },
        MetricSpecView { key: "ebitda_margin"@, label: "EBITDA margin"@, direction: Direction::Higher, format: Format::Percent },
        MetricSpecView { key: "net_margin"@, label: "Net margin"@, direction: Direction::Higher, format: Format::Percent },
        MetricSpecView { key: "roe"@, label: "ROE"@, direction: Direction::Higher, format: Format::Percent },
        MetricSpecView { key: "roa"@, label: "ROA"@, direction: Direction::Higher, format: Format::Percent },
        MetricSpecView { key: "roic"@, label: "ROIC"@, direction: Direction::Higher, format: Format::Percent },
        MetricSpecView { key: "current_ratio"@, label: "Current ratio"@, direction: Direction::Higher, format: Format::Ratio },
        MetricSpecView { key: "quick_ratio"@, label: "Quick ratio"@, direction: Direction::Higher, format: Format::Ratio },
        MetricSpecView { key: "cash_ratio"@, label: "Cash ratio"@, direction: Direction::Higher, format: Format::Ratio },
        MetricSpecView { key: "debt_to_equity"@, label: "Debt / equity"@, direction: Direction::Lower, format: Format::Ratio },
        MetricSpecView { key: "net_debt_to_ebitda"@, label: "Net debt / EBITDA"@, direction: Direction::Lower, format: Format::Ratio },
        MetricSpecView { key: "interest_coverage"@, label: "Interest coverage"@, direction: Direction::Higher, format: Format::Ratio },
        MetricSpecView { key: "asset_turnover"@, label: "Asset turnover"@, direction: Direction::Higher, format: Format::Ratio },
        MetricSpecView { key: "inventory_turnover"@, label: "Inventory turnover"@, direction: Direction::Higher, format: Format::Ratio },
        MetricSpecView { key: "dso"@, label: "DSO (days)"@, direction: Direction::Lower, format: Format::Ratio },
        MetricSpecView { key: "pe"@, label: "P/E"@, direction: Direction::Lower, format: Format::Ratio },
        MetricSpecView { key: "forward_pe"@, label: "Forward P/E"@, direction: Direction::Lower, format: Format::Ratio },
        MetricSpecView { key: "ps"@, label: "P/S"@, direction: Direction::Lower, format: Format::Ratio },
        MetricSpecView { key: "pb"@, label: "P/B"@, direction: Direction::Lower, format: Format::Ratio },
        MetricSpecView { key: "ev_revenue"@, label: "EV / revenue"@, direction: Direction::Lower, format: Format::Ratio },
        MetricSpecView { key: "ev_ebitda"@, label: "EV / EBITDA"@, direction: Direction::Lower, format: Format::Ratio },
        MetricSpecView { key: "fcf_yield"@, label: "FCF yield"@, direction: Direction::Higher, format: Format::Percent },
        MetricSpecView { key: "peg"@, label: "PEG"@, direction: Direction::Lower, format: Format::Ratio },
        MetricSpecView { key: "revenue_yoy"@, label: "Revenue YoY"@, direction: Direction::Higher, format: Format::Percent },
        MetricSpecView { key: "net_income_yoy"@, label: "Net income YoY"@, direction: Direction::Higher, format: Format::Percent },
    ]
}

/// The keys of the registry, in order.
pub open spec fn registry_keys() -> Seq<Seq<char>> {
    registry().map_values(|m: MetricSpecView| m.key)
}

/// `k` names a registered metric.
pub open spec fn is_known_metric(k: Seq<char>) -> bool {
    exists|i: int| 0 <= i < registry().len() && registry()[i].key == k
}

/// The debt and valuation metrics: for these, less is better.
pub open spec fn is_debt_or_valuation(k: Seq<char>) -> bool {
    ||| k == "debt_to_equity"@
    ||| k == "net_debt_to_ebitda"@
    ||| k == "dso"@
    ||| k == "pe"@
    ||| k == "forward_pe"@
    ||| k == "ps"@
    ||| k == "pb"@
    ||| k == "ev_revenue"@
    ||| k == "ev_ebitda"@
    ||| k == "peg"@
}

/// The margins, returns, yield and growth rates: the metrics shown as
/// percentages.
pub open spec fn is_rate_metric(k: Seq<char>) -> bool {
    ||| k == "gross_margin"@
    ||| k == "operating_margin"@
    ||| k == "ebitda_margin"@
    ||| k == "net_margin"@
    ||| k == "roe"@
    ||| k == "roa"@
    ||| k == "roic"@
    ||| k == "fcf_yield"@
    ||| k == "revenue_yoy"@
    ||| k == "net_income_yoy"@
}

/// A registered metric ranks lower-is-better exactly when it is a debt or
/// valuation metric, and is shown as a percentage exactly when it is a
/// margin, return, yield or growth rate.
pub proof fn law_registry_direction_and_format()
    ensures
        forall|i: int| 0 <= i < registry().len() ==>
            ((#[trigger] registry()[i]).direction == Direction::Lower <==> is_debt_or_valuation(registry()[i].key)),
        forall|i: int| 0 <= i < registry().len() ==>
            ((#[trigger] registry()[i]).format == Format::Percent <==> is_rate_metric(registry()[i].key)),
{
    reveal_strlit("gross_margin");
    reveal_strlit("operating_margin");
    reveal_strlit("ebitda_margin");
    reveal_strlit("net_margin");
    reveal_strlit("roe");
    reveal_strlit("roa");
    reveal_strlit("roic");
    reveal_strlit("current_ratio");
    reveal_strlit("quick_ratio");
    reveal_strlit("cash_ratio");
    reveal_strlit("debt_to_equity");
    reveal_strlit("net_debt_to_ebitda");
    reveal_strlit("interest_coverage");
    reveal_strlit("asset_turnover");
    reveal_strlit("inventory_turnover");
    reveal_strlit("dso");
    reveal_strlit("pe");
    reveal_strlit("forward_pe");
    reveal_strlit("ps");
    reveal_strlit("pb");
    reveal_strlit("ev_revenue");
    reveal_strlit("ev_ebitda");
    reveal_strlit("fcf_yield");
    reveal_strlit("peg");
    reveal_strlit("revenue_yoy");
    reveal_strlit("net_income_yoy");
    assert("gross_margin"@.len() == 12);
    assert("operating_margin"@.len() == 16);
    assert("ebitda_margin"@.len() == 13);
    assert("net_margin"@.len() == 10);
    assert("roe"@.len() == 3);
    assert("roa"@.len() == 3);
    assert("roic"@.len() == 4);
    assert("current_ratio"@.len() == 13);
    assert("quick_ratio"@.len() == 11);
    assert("cash_ratio"@.len() == 10);
    assert("debt_to_equity"@.len() == 14);
    assert("net_debt_to_ebitda"@.len() == 18);
    assert("interest_coverage"@.len() == 17);
    assert("asset_turnover"@.len() == 14);
    assert("inventory_turnover"@.len() == 18);
    assert("dso"@.len() == 3);
    assert("pe"@.len() == 2);
    assert("forward_pe"@.len() == 10);
    assert("ps"@.len() == 2);
    assert("pb"@.len() == 2);
    assert("ev_revenue"@.len() == 10);
    assert("ev_ebitda"@.len() == 9);
    assert("fcf_yield"@.len() == 9);
    assert("peg"@.len() == 3);
    assert("revenue_yoy"@.len() == 11);
    assert("net_income_yoy"@.len() == 14);
    assert forall|i: int| 0 <= i < registry().len() implies
        ((#[trigger] registry()[i]).direction == Direction::Lower <==> is_debt_or_valuation(registry()[i].key))
        && (registry()[i].format == Format::Percent <==> is_rate_metric(registry()[i].key)) by {
        if i == 0 {
        } else if i == 1 {
        } else if i == 2 {
        } else if i == 3 {
            assert("net_margin"@[0] != "forward_pe"@[0]);
            assert("net_margin"@[0] != "ev_revenue"@[0]);
        } else if i == 4 {
            assert("roe"@[0] != "dso"@[0]);
            assert("roe"@[0] != "peg"@[0]);
            assert("roe"@[2] != "roa"@[2]);
        } else if i == 5 {
            assert("roa"@[0] != "dso"@[0]);
            assert("roa"@[0] != "peg"@[0]);
            assert("roa"@[2] != "roe"@[2]);
        } else if i == 6 {
        } else if i == 7 {
            assert("current_ratio"@[0] != "ebitda_margin"@[0]);
        } else if i == 8 {
            assert("quick_ratio"@[0] != "revenue_yoy"@[0]);
        } else if i == 9 {
            assert("cash_ratio"@[0] != "forward_pe"@[0]);
            assert("cash_ratio"@[0] != "ev_revenue"@[0]);
            assert("cash_ratio"@[0] != "net_margin"@[0]);
        } else if i == 10 {
            assert("debt_to_equity"@[0] != "net_income_yoy"@[0]);
        } else if i == 11 {
        } else if i == 12 {
        } else if i == 13 {
            assert("asset_turnover"@[0] != "debt_to_equity"@[0]);
            assert("asset_turnover"@[0] != "net_income_yoy"@[0]);
        } else if i == 14 {
            assert("inventory_turnover"@[0] != "net_debt_to_ebitda"@[0]);
        } else if i == 15 {
            assert("dso"@[0] != "peg"@[0]);
            assert("dso"@[0] != "roe"@[0]);
            assert("dso"@[0] != "roa"@[0]);
        } else if i == 16 {
            assert("pe"@[1] != "ps"@[1]);
            assert("pe"@[1] != "pb"@[1]);
        } else if i == 17 {
            assert("forward_pe"@[0] != "ev_revenue"@[0]);
            assert("forward_pe"@[0] != "net_margin"@[0]);
        } else if i == 18 {
            assert("ps"@[1] != "pe"@[1]);
            assert("ps"@[1] != "pb"@[1]);
        } else if i == 19 {
            assert("pb"@[1] != "pe"@[1]);
            assert("pb"@[1] != "ps"@[1]);
        } else if i == 20 {
            assert("ev_revenue"@[0] != "forward_pe"@[0]);
            assert("ev_revenue"@[0] != "net_margin"@[0]);
        } else if i == 21 {
            assert("ev_ebitda"@[0] != "fcf_yield"@[0]);
        } else if i == 22 {
            assert("fcf_yield"@[0] != "ev_ebitda"@[0]);
        } else if i == 23 {
            assert("peg"@[0] != "dso"@[0]);
            assert("peg"@[0] != "roe"@[0]);
            assert("peg"@[0] != "roa"@[0]);
        } else if i == 24 {
        } else {
            assert("net_income_yoy"@[0] != "debt_to_equity"@[0]);
        }
    }
}

/// The registry as executable data, in registry order.
pub fn metric_registry() -> (v: Vec<MetricSpec>)
    ensures
        v@.map_values(|m: MetricSpec| m.spec_view()) == registry(),
{
    let mut v: Vec<MetricSpec> = Vec::new();
    v.push(MetricSpec { key: "gross_margin", label: "Gross margin", direction: Direction::Higher, format: Format::Percent });
    v.push(MetricSpec { key: "operating_margin", label: "Operating margin", direction: Direction::Higher, format: Format::Percent });
    v.push(MetricSpec { key: "ebitda_margin", label: "EBITDA margin", direction: Direction::Higher, format: Format::Percent });
    v.push(MetricSpec { key: "net_margin", label: "Net margin", direction: Direction::Higher, format: Format::Percent });
    v.push(MetricSpec { key: "roe", label: "ROE", direction: Direction::Higher, format: Format::Percent });
    v.push(MetricSpec { key: "roa", label: "ROA", direction: Direction::Higher, format: Format::Percent });
    v.push(MetricSpec { key: "roic", label: "ROIC", direction: Direction::Higher, format: Format::Percent });
    v.push(MetricSpec { key: "current_ratio", label: "Current ratio", direction: Direction::Higher, format: Format::Ratio });
    v.push(MetricSpec { key: "quick_ratio", label: "Quick ratio", direction: Direction::Higher, format: Format::Ratio });
    v.push(MetricSpec { key: "cash_ratio", label: "Cash ratio", direction: Direction::Higher, format: Format::Ratio });
    v.push(MetricSpec { key: "debt_to_equity", label: "Debt / equity", direction: Direction::Lower, format: Format::Ratio });
    v.push(MetricSpec { key: "net_debt_to_ebitda", label: "Net debt / EBITDA", direction: Direction::Lower, format: Format::Ratio });
    v.push(MetricSpec { key: "interest_coverage", label: "Interest coverage", direction: Direction::Higher, format: Format::Ratio });
    v.push(MetricSpec { key: "asset_turnover", label: "Asset turnover", direction: Direction::Higher, format: Format::Ratio });
    v.push(MetricSpec { key: "inventory_turnover", label: "Inventory turnover", direction: Direction::Higher, format: Format::Ratio });
    v.push(MetricSpec { key: "dso", label: "DSO (days)", direction: Direction::Lower, format: Format::Ratio });
    v.push(MetricSpec { key: "pe", label: "P/E", direction: Direction::Lower, format: Format::Ratio });
    v.push(MetricSpec { key: "forward_pe", label: "Forward P/E", direction: Direction::Lower, format: Format::Ratio });
    v.push(MetricSpec { key: "ps", label: "P/S", direction: Direction::Lower, format: Format::Ratio });
    v.push(MetricSpec { key: "pb", label: "P/B", direction: Direction::Lower, format: Format::Ratio });
    v.push(MetricSpec { key: "ev_revenue", label: "EV / revenue", direction: Direction::Lower, format: Format::Ratio });
    v.push(MetricSpec { key: "ev_ebitda", label: "EV / EBITDA", direction: Direction::Lower, format: Format::Ratio });
    v.push(MetricSpec { key: "fcf_yield", label: "FCF yield", direction: Direction::Higher, format: Format::Percent });
    v.push(MetricSpec { key: "peg", label: "PEG", direction: Direction::Lower, format: Format::Ratio });
    v.push(MetricSpec { key: "revenue_yoy", label: "Revenue YoY", direction: Direction::Higher, format: Format::Percent });
    v.push(MetricSpec { key: "net_income_yoy", label: "Net income YoY", direction: Direction::Higher, format: Format::Percent });
    assert(v@.map_values(|m: MetricSpec| m.spec_view()) =~= registry());
    v
}

/// The registry entry for `key`, if there is one.
pub fn lookup_spec(key: &str) -> (r: Option<MetricSpec>)
    ensures
        r is Some <==> is_known_metric(key@),
        r matches Some(m) ==> exists|i: int|
            0 <= i < registry().len() && registry()[i] == m.spec_view() && m.key@ == key@,
        r matches Some(m) ==> (m.direction == Direction::Lower <==> is_debt_or_valuation(key@)),
        r matches Some(m) ==> (m.format == Format::Percent <==> is_rate_metric(key@)),
{
    let reg = metric_registry();
    let ghost rv = reg@.map_values(|m: MetricSpec| m.spec_view());
    let mut i: usize = 0;
    while i < reg.len()
        invariant
            rv == reg@.map_values(|m: MetricSpec| m.spec_view()),
            rv == registry(),
            i <= reg@.len(),
            forall|j: int| 0 <= j < i ==> registry()[j].key != key@,
        decreases reg@.len() - i,
    {
        if str_eq(reg[i].key, key) {
            assert(rv[i as int] == reg@[i as int].spec_view());
            proof {
                law_registry_direction_and_format();
                assert(registry()[i as int].key == key@);
            }
            return Some(reg[i]);
        }
        assert(rv[i as int] == reg@[i as int].spec_view());
        i = i + 1;
    }
    None
}

/// Validated options of the `compare` tool.
#[derive(Debug)]
pub struct Options {
    pub symbols: Vec<String>,
    pub metrics: Vec<String>,
}

/// Texts that are not empty.
pub open spec fn non_empty_items(ps: Seq<Seq<char>>) -> Seq<Seq<char>> {
    ps.filter(|p: Seq<char>| p.len() > 0)
}

/// The symbols named in a comma-separated list, trimmed, empties dropped.
pub open spec fn symbol_items(s: Seq<char>) -> Seq<Seq<char>> {
    non_empty_items(split_on(s, ',').map_values(|p: Seq<char>| trim_text(p)))
}

/// The metric keys named in a comma-separated list, trimmed, lowercased,
/// empties dropped.
pub open spec fn metric_items(s: Seq<char>) -> Seq<Seq<char>> {
    non_empty_items(split_on(s, ',').map_values(|p: Seq<char>| lowercase_of(trim_text(p))))
}

/// The listed metrics that the registry does not know.
pub open spec fn unknown_metrics(ms: Seq<Seq<char>>) -> Seq<Seq<char>> {
    ms.filter(|m: Seq<char>| !is_known_metric(m))
}

/// What parsing yields: the error message, or nothing when the lists are valid.
pub open spec fn parse_error(symbols: Seq<char>, metrics: Seq<char>) -> Option<Seq<char>> {
    let syms = symbol_items(symbols);
    let ms = metric_items(metrics);
    if syms.len() == 0 {
        Some("symbols list is empty."@)
    } else if syms.len() > MAX_SYMBOLS {
        Some("too many symbols ("@ + decimal_text(syms.len()) + "); max "@ + decimal_text(MAX_SYMBOLS as nat) + "."@)
    } else if ms.len() == 0 {
        Some("metrics list is empty."@)
    } else if unknown_metrics(ms).len() > 0 {
        Some("unknown metric(s): "@ + join_seqs(unknown_metrics(ms), ", "@) + ". Available: "@ + join_seqs(registry_keys(), ", "@))
    } else {
        None
    }
}

fn clean_items(pieces: &Vec<String>, lower: bool) -> (r: Vec<String>)
    ensures
        lower ==> string_views(r@) == non_empty_items(
            string_views(pieces@).map_values(|p: Seq<char>| lowercase_of(trim_text(p))),
        ),
        !lower ==> string_views(r@) == non_empty_items(
            string_views(pieces@).map_values(|p: Seq<char>| trim_text(p)),
        ),
{
    let ghost f = if lower {
        |p: Seq<char>| lowercase_of(trim_text(p))
    } else {
        |p: Seq<char>| trim_text(p)
    };
    let ghost ps = string_views(pieces@);
    let ghost keep = |p: Seq<char>| p.len() > 0;
    let mut out: Vec<String> = Vec::new();
    let mut i: usize = 0;
    assert(string_views(out@) =~= ps.take(0).map_values(f).filter(keep));
    while i < pieces.len()
        invariant
            ps == string_views(pieces@),
            f == (if lower {
                |p: Seq<char>| lowercase_of(trim_text(p))
            } else {
                |p: Seq<char>| trim_text(p)
            }),
            keep == (|p: Seq<char>| p.len() > 0),
            i <= pieces@.len(),
            string_views(out@) == ps.take(i as int).map_values(f).filter(keep),
        decreases pieces@.len() - i,
    {
        let t = str_trim(pieces[i].as_str());
        let item = if lower {
            str_to_lowercase(t)
        } else {
            String::from_str(t)
        };
        proof {
            assert(item@ == f(ps[i as int]));
            assert(ps.take(i + 1).map_values(f) =~= ps.take(i as int).map_values(f).push(f(ps[i as int])));
            ps.take(i as int).map_values(f).lemma_filter_push(f(ps[i as int]), keep);
        }
        let len = item.as_str().unicode_len();
        if len > 0 {
            out.push(item);
            assert(string_views(out@) =~= ps.take(i as int).map_values(f).filter(keep).push(item@));
        }
        i = i + 1;
    }
    assert(ps.take(pieces@.len() as int) =~= ps);
    out
}

fn unknown_of(ms: &Vec<String>) -> (r: Vec<String>)
    ensures
        string_views(r@) == unknown_metrics(string_views(ms@)),
{
    let ghost mv = string_views(ms@);
    let ghost p = |m: Seq<char>| !is_known_metric(m);
    let mut out: Vec<String> = Vec::new();
    let mut i: usize = 0;
    assert(string_views(out@) =~= mv.take(0).filter(p));
    while i < ms.len()
        invariant
            mv == string_views(ms@),
            p == (|m: Seq<char>| !is_known_metric(m)),
            i <= ms@.len(),
            string_views(out@) == mv.take(i as int).filter(p),
        decreases ms@.len() - i,
    {
        proof {
            assert(mv.take(i + 1) =~= mv.take(i as int).push(mv[i as int]));
            mv.take(i as int).lemma_filter_push(mv[i as int], p);
        }
        if lookup_spec(ms[i].as_str()).is_none() {
            out.push(String::from_str(ms[i].as_str()));
            assert(string_views(out@) =~= mv.take(i as int).filter(p).push(mv[i as int]));
        }
        i = i + 1;
    }
    assert(mv.take(ms@.len() as int) =~= mv);
    out
}

fn registry_key_strings() -> (r: Vec<String>)
    ensures
        string_views(r@) == registry_keys(),
{
    let reg = metric_registry();
    let ghost rv = reg@.map_values(|m: MetricSpec| m.spec_view());
    let mut out: Vec<String> = Vec::new();
    let mut i: usize = 0;
    while i < reg.len()
        invariant
            rv == reg@.map_values(|m: MetricSpec| m.spec_view()),
            rv == registry(),
            i <= reg@.len(),
            string_views(out@) == registry_keys().take(i as int),
        decreases reg@.len() - i,
    {
        out.push(String::from_str(reg[i].key));
        proof {
            assert(rv[i as int] == reg@[i as int].spec_view());
            assert(registry_keys()[i as int] == registry()[i as int].key);
            assert(registry_keys().take(i + 1) =~= registry_keys().take(i as int).push(registry_keys()[i as int]));
            assert(string_views(out@) =~= registry_keys().take(i + 1));
        }
        i = i + 1;
    }
    assert(registry_keys().take(reg@.len() as int) =~= registry_keys());
    out
}

impl Options {
    /// Parse the comma-separated `symbols` (trimmed, at most five) and
    /// `metrics` (trimmed, lowercased, each a registered key) lists.
    pub fn parse(symbols: &str, metrics: &str) -> (r: Result<Options, String>)
        ensures
            match r {
                Ok(o) => {
                    &&& parse_error(symbols@, metrics@) is None
                    &&& string_views(o.symbols@) == symbol_items(symbols@)
                    &&& string_views(o.metrics@) == metric_items(metrics@)
                },
                Err(e) => parse_error(symbols@, metrics@) == Some(e@),
            },
    {
        let sym_pieces = split_char(symbols, ',');
        let syms = clean_items(&sym_pieces, false);
        if syms.len() == 0 {
            return Err(String::from_str("symbols list is empty."));
        }
        if syms.len() > MAX_SYMBOLS {
            let mut e = String::from_str("too many symbols (");
            e.append(decimal_string(syms.len() as u64).as_str());
            e.append("); max ");
            e.append(decimal_string(MAX_SYMBOLS as u64).as_str());
            e.append(".");
            return Err(e);
        }
        let metric_pieces = split_char(metrics, ',');
        let ms = clean_items(&metric_pieces, true);
        if ms.len() == 0 {
            return Err(String::from_str("metrics list is empty."));
        }
        let unknown = unknown_of(&ms);
        if unknown.len() > 0 {
            let mut e = String::from_str("unknown metric(s): ");
            e.append(join_strings(&unknown, ", ").as_str());
            e.append(". Available: ");
            e.append(join_strings(&registry_key_strings(), ", ").as_str());
            return Err(e);
        }
        Ok(Options { symbols: syms, metrics: ms })
    }
}

/// ` cell |` for each cell.
pub open spec fn row_cells_text(cs: Seq<Seq<char>>) -> Seq<char>
    decreases cs.len(),
{
    if cs.len() == 0 {
        Seq::empty()
    } else {
        row_cells_text(cs.drop_last()) + " "@ + cs.last() + " |"@
    }
}

/// One metric line: its label, then a cell per symbol.
pub open spec fn metric_line(r: (String, Vec<String>)) -> Seq<char> {
    "| "@ + r.0@ + " |"@ + row_cells_text(string_views(r.1@)) + "\n"@
}

/// The metric lines.
pub open spec fn metric_lines(rs: Seq<(String, Vec<String>)>) -> Seq<char>
    decreases rs.len(),
{
    if rs.len() == 0 {
        Seq::empty()
    } else {
        metric_lines(rs.drop_last()) + metric_line(rs.last())
    }
}

/// ` ---: |`, `n` times.
pub open spec fn right_aligned(n: nat) -> Seq<char>
    decreases n,
{
    if n == 0 {
        Seq::empty()
    } else {
        right_aligned((n - 1) as nat) + " ---: |"@
    }
}

/// A comparison table: a column per symbol, a line per metric.
pub open spec fn metric_table_text(symbols: Seq<Seq<char>>, rows: Seq<(String, Vec<String>)>) -> Seq<char> {
    "| Metric |"@ + row_cells_text(symbols) + "\n"@ + "| --- |"@ + right_aligned(symbols.len()) + "\n"@
        + metric_lines(rows)
}

fn push_row_cells(out: &mut String, cells: &Vec<String>)
    ensures
        final(out)@ == old(out)@ + row_cells_text(string_views(cells@)),
{
    let ghost cv = string_views(cells@);
    let ghost base = out@;
    let mut i: usize = 0;
    while i < cells.len()
        invariant
            cv == string_views(cells@),
            i <= cells@.len(),
            out@ == base + row_cells_text(cv.take(i as int)),
        decreases cells@.len() - i,
    {
        proof {
            assert(cv.take(i + 1).drop_last() =~= cv.take(i as int));
        }
        out.append(" ");
        out.append(cells[i].as_str());
        out.append(" |");
        proof {
            assert(out@ =~= base + row_cells_text(cv.take(i + 1)));
        }
        i = i + 1;
    }
    assert(cv.take(cells@.len() as int) =~= cv);
}

/// Lay out a comparison table (see [`metric_table_text`]); the cells come
/// already rendered, one per symbol.
pub fn render_metric_table(symbols: &Vec<String>, rows: &Vec<(String, Vec<String>)>) -> (out: String)
    ensures
        out@ == metric_table_text(string_views(symbols@), rows@),
{
    let mut out = String::from_str("| Metric |");
    push_row_cells(&mut out, symbols);
    out.append("\n");
    out.append("| --- |");
    let ghost sep = out@;
    let mut i: usize = 0;
    while i < symbols.len()
        invariant
            i <= symbols@.len(),
            out@ == sep + right_aligned(i as nat),
        decreases symbols@.len() - i,
    {
        out.append(" ---: |");
        i = i + 1;
    }
    out.append("\n");
    let ghost body = out@;
    let mut r: usize = 0;
    while r < rows.len()
        invariant
            r <= rows@.len(),
            out@ == body + metric_lines(rows@.take(r as int)),
        decreases rows@.len() - r,
    {
        proof {
            assert(rows@.take(r + 1).drop_last() =~= rows@.take(r as int));
        }
        out.append("| ");
        out.append(rows[r].0.as_str());
        out.append(" |");
        push_row_cells(&mut out, &rows[r].1);
        out.append("\n");
        proof {
            assert(out@ =~= body + metric_lines(rows@.take(r + 1)));
        }
        r = r + 1;
    }
    assert(rows@.take(rows@.len() as int) =~= rows@);
    assert(out@ =~= metric_table_text(string_views(symbols@), rows@));
    out
}

/// How a rank is shown: its number, or a dash for an unranked value.
pub open spec fn rank_text(r: Option<usize>) -> Seq<char> {
    match r {
        Some(n) => decimal_text(n as nat),
        None => "—"@,
    }
}

/// The cells of a ranking line (see [`rank_text`]).
pub fn rank_cells(ranks: &Vec<Option<usize>>) -> (cells: Vec<String>)
    ensures
        string_views(cells@) == ranks@.map_values(|r: Option<usize>| rank_text(r)),
{
    let mut cells: Vec<String> = Vec::new();
    let mut i: usize = 0;
    while i < ranks.len()
        invariant
            i <= ranks@.len(),
            string_views(cells@) == ranks@.take(i as int).map_values(|r: Option<usize>| rank_text(r)),
        decreases ranks@.len() - i,
    {
        let cell = match ranks[i] {
            Some(n) => decimal_string(n as u64),
            None => String::from_str("—"),
        };
        let ghost before = cells@;
        cells.push(cell);
        proof {
            assert(string_views(cells@) =~= string_views(before).push(cell@));
            assert(ranks@.take(i + 1).map_values(|r: Option<usize>| rank_text(r)) =~= ranks@.take(
                i as int,
            ).map_values(|r: Option<usize>| rank_text(r)).push(rank_text(ranks@[i as int])));
        }
        i = i + 1;
    }
    assert(ranks@.take(ranks@.len() as int) =~= ranks@);
    cells
}

/// How a compared company is named: `Name (SYMBOL)`, the symbol standing
/// in for a missing name.
pub open spec fn compared_name(p: (String, Json)) -> Seq<char> {
    (match general_name(p.1) {
        Some(n) => n,
        None => p.0@,
    }) + " ("@ + p.0@ + ")"@
}

/// The opening prose of a comparison.
pub open spec fn compare_summary_text(payloads: Seq<(String, Json)>, n_metrics: nat) -> Seq<char> {
    "Comparison across "@ + join_seqs(payloads.map_values(|p: (String, Json)| compared_name(p)), ", "@) + " on "@
        + decimal_text(n_metrics) + " metric"@ + (if n_metrics == 1 {
        Seq::empty()
    } else {
        "s"@
    })
        + ". Lower-is-better metrics (debt, valuation multiples) and higher-is-better metrics (margins, growth) are ranked separately in the ranking table."@
}

/// The opening prose of a comparison: the companies compared, by name and
/// symbol, and the number of metrics.
pub fn render_summary(opts: &Options, payloads: &Vec<(String, Json)>) -> (out: String)
    ensures
        out@ == compare_summary_text(payloads@, opts.metrics@.len()),
{
    let mut names: Vec<String> = Vec::new();
    let mut i: usize = 0;
    while i < payloads.len()
        invariant
            i <= payloads@.len(),
            string_views(names@) == payloads@.take(i as int).map_values(|p: (String, Json)| compared_name(p)),
        decreases payloads@.len() - i,
    {
        let (sym, f) = (&payloads[i].0, &payloads[i].1);
        let mut n = match company_name(f) {
            Some(nm) => String::from_str(nm),
            None => sym.clone(),
        };
        n.append(" (");
        n.append(sym.as_str());
        n.append(")");
        let ghost before = names@;
        names.push(n);
        proof {
            assert(string_views(names@) =~= string_views(before).push(n@));
            assert(payloads@.take(i + 1).map_values(|p: (String, Json)| compared_name(p)) =~= payloads@.take(
                i as int,
            ).map_values(|p: (String, Json)| compared_name(p)).push(compared_name(payloads@[i as int])));
        }
        i = i + 1;
    }
    assert(payloads@.take(payloads@.len() as int) =~= payloads@);
    let mut out = String::from_str("Comparison across ");
    out.append(join_strings(&names, ", ").as_str());
    out.append(" on ");
    out.append(decimal_string(opts.metrics.len() as u64).as_str());
    out.append(" metric");
    if opts.metrics.len() != 1 {
        out.append("s");
    }
    out.append(
        ". Lower-is-better metrics (debt, valuation multiples) and higher-is-better metrics (margins, growth) are ranked separately in the ranking table.",
    );
    assert(out@ =~= compare_summary_text(payloads@, opts.metrics@.len()));
    out
}

/// The data section of a comparison: the values table, then the ranking table.
pub fn compare_data(value_table: &str, rank_table: &str) -> (d: String)
    ensures
        d@ == "### Values\n\n"@ + value_table@ + "\n\n### Ranking (1 = best)\n\n"@ + rank_table@,
{
    let mut d = String::from_str("### Values\n\n");
    d.append(value_table);
    d.append("\n\n### Ranking (1 = best)\n\n");
    d.append(rank_table);
    d
}

/// The warning for a symbol whose fundamentals could not be fetched.
pub fn fetch_failed_warning(symbol: &str, error: &str) -> (w: String)
    ensures
        w@ == symbol@ + ": fetch failed — "@ + error@,
{
    let mut w = String::from_str(symbol);
    w.append(": fetch failed — ");
    w.append(error);
    w
}

/// The error when no symbol could be fetched.
pub fn all_fetches_failed() -> (e: String)
    ensures
        e@ == "All fetches failed; nothing to compare."@,
{
    String::from_str("All fetches failed; nothing to compare.")
}

} // verus!
