//! Options and labels of the `financials` tool (statement tables with
//! derived rows).

use vstd::prelude::*;
use vstd::string::*;
use crate::json::{json_field, json_text, lookup, Json, JsonMap};
use crate::normalization::views_of;
use crate::text::{
    ascii_lower, ascii_upper, char_is_uppercase, decimal_string, decimal_text, is_upper_char,
    lowercase_of, str_eq, str_to_lowercase, string_views, to_ascii_lower, to_ascii_upper,
};

verus! {

/// Default period count for the `financials` view.
pub const DEFAULT_LAST_N: usize = 8;

/// Display name and EODHD path segment of a statement keyword.
pub open spec fn statement_path_spec(s: Seq<char>) -> Option<(Seq<char>, Seq<char>)> {
    if s == "income"@ {
        Some(("Income Statement"@, "Income_Statement"@))
    } else if s == "balance"@ {
        Some(("Balance Sheet"@, "Balance_Sheet"@))
    } else if s == "cashflow"@ {
        Some(("Cash Flow"@, "Cash_Flow"@))
    } else {
        None
    }
}

/// Mapping `statement` keyword to (display name, EODHD path segment).
pub fn statement_path(statement: &str) -> (r: Option<(&'static str, &'static str)>)
    ensures
        r matches Some(p) ==> statement_path_spec(statement@) == Some((p.0@, p.1@)),
        r is None ==> statement_path_spec(statement@) is None,
{
    if str_eq(statement, "income") {
        Some(("Income Statement", "Income_Statement"))
    } else if str_eq(statement, "balance") {
        Some(("Balance Sheet", "Balance_Sheet"))
    } else if str_eq(statement, "cashflow") {
        Some(("Cash Flow", "Cash_Flow"))
    } else {
        None
    }
}

/// Validated input options after defaults applied.
#[derive(Debug)]
pub struct Options {
    /// income | balance | cashflow | all
    pub statement: String,
    /// quarterly | yearly
    pub period: String,
    pub last_n: usize,
}

/// The statement keywords the tool accepts.
pub open spec fn valid_statement(s: Seq<char>) -> bool {
    s == "income"@ || s == "balance"@ || s == "cashflow"@ || s == "all"@
}

/// The periods the tool accepts.
pub open spec fn valid_period(p: Seq<char>) -> bool {
    p == "quarterly"@ || p == "yearly"@
}

/// The view of an optional text argument.
pub open spec fn opt_text(o: Option<&str>) -> Option<Seq<char>> {
    match o {
        Some(s) => Some(s@),
        None => None,
    }
}

/// The error `Options::new` reports, or nothing when the input is valid.
pub open spec fn options_error(statement: Seq<char>, period: Option<Seq<char>>, last_n: Option<usize>) -> Option<
    Seq<char>,
> {
    let pe = lowercase_of(
        match period {
            Some(p) => p,
            None => "quarterly"@,
        },
    );
    let n: usize = match last_n {
        Some(n) => n,
        None => DEFAULT_LAST_N,
    };
    if !valid_statement(lowercase_of(statement)) {
        Some("Invalid statement '"@ + statement + "'. Use: income, balance, cashflow, all."@)
    } else if !valid_period(pe) {
        Some("Invalid period '"@ + (match period {
            Some(p) => p,
            None => "?"@,
        }) + "'. Use: quarterly, yearly."@)
    } else if n == 0 || n > 40 {
        Some("last_n out of range: "@ + decimal_text(n as nat) + " (use 1-40)."@)
    } else {
        None
    }
}

impl Options {
    /// Validate `statement` (income, balance, cashflow or all, any case),
    /// `period` (quarterly by default, or yearly, any case) and `last_n`
    /// (8 by default, 1 to 40).
    pub fn new(statement: &str, period: Option<&str>, last_n: Option<usize>) -> (r: Result<Options, String>)
        ensures
            match r {
                Ok(o) => {
                    &&& options_error(statement@, opt_text(period), last_n) is None
                    &&& o.statement@ == lowercase_of(statement@)
                    &&& o.period@ == lowercase_of(
                        match period {
                            Some(p) => p@,
                            None => "quarterly"@,
                        },
                    )
                    &&& o.last_n == match last_n {
                        Some(n) => n,
                        None => DEFAULT_LAST_N,
                    }
                },
                Err(e) => options_error(statement@, opt_text(period), last_n) == Some(e@),
            },
    {
        let st = str_to_lowercase(statement);
        if !(str_eq(st.as_str(), "income") || str_eq(st.as_str(), "balance") || str_eq(st.as_str(), "cashflow")
            || str_eq(st.as_str(), "all")) {
            let mut e = String::from_str("Invalid statement '");
            e.append(statement);
            e.append("'. Use: income, balance, cashflow, all.");
            return Err(e);
        }
        let pe = match period {
            Some(p) => str_to_lowercase(p),
            None => str_to_lowercase("quarterly"),
        };
        if !(str_eq(pe.as_str(), "quarterly") || str_eq(pe.as_str(), "yearly")) {
            let mut e = String::from_str("Invalid period '");
            match period {
                Some(p) => e.append(p),
                None => e.append("?"),
            }
            e.append("'. Use: quarterly, yearly.");
            return Err(e);
        }
        let n = match last_n {
            Some(n) => n,
            None => DEFAULT_LAST_N,
        };
        if n == 0 || n > 40 {
            let mut e = String::from_str("last_n out of range: ");
            e.append(decimal_string(n as u64).as_str());
            e.append(" (use 1-40).");
            return Err(e);
        }
        Ok(Options { statement: st, period: pe, last_n: n })
    }
}

/// A camelCase field name made readable: the first character in ASCII
/// upper case, and before every later upper-case character a space, with
/// that character in ASCII lower case.
pub open spec fn humanized(s: Seq<char>) -> Seq<char>
    decreases s.len(),
{
    if s.len() == 0 {
        Seq::empty()
    } else {
        let prev = humanized(s.drop_last());
        let c = s.last();
        if s.len() == 1 {
            seq![ascii_upper(c)]
        } else if is_upper_char(c) {
            prev + seq![' ', ascii_lower(c)]
        } else {
            prev.push(c)
        }
    }
}

/// camelCase to "Camel case" so that row labels read naturally.
pub fn humanize_field(s: &str) -> (out: String)
    ensures
        out@ == humanized(s@),
{
    let n = s.unicode_len();
    let mut out = String::new();
    let mut i: usize = 0;
    while i < n
        invariant
            n == s@.len(),
            i <= n,
            out@ == humanized(s@.take(i as int)),
        decreases n - i,
    {
        let c = s.get_char(i);
        proof {
            assert(s@.take(i + 1).drop_last() =~= s@.take(i as int));
        }
        if char_is_uppercase(c) && i > 0 {
            out.push(' ');
            out.push(to_ascii_lower(c));
        } else if i == 0 {
            out.push(to_ascii_upper(c));
        } else {
            out.push(c);
        }
        proof {
            assert(out@ =~= humanized(s@.take(i + 1)));
        }
        i = i + 1;
    }
    assert(s@.take(n as int) =~= s@);
    out
}

/// The company name under `General/Name`, when it is a string.
pub open spec fn general_name(f: Json) -> Option<Seq<char>> {
    match json_field(f, "General"@) {
        Some(g) => match json_field(g, "Name"@) {
            Some(n) => json_text(n),
            None => None,
        },
        None => None,
    }
}

/// The opening prose of a `financials` answer.
pub open spec fn financials_summary_text(symbol: Seq<char>, opts: Options, f: Json) -> Seq<char> {
    let name = match general_name(f) {
        Some(n) => n,
        None => symbol,
    };
    let what = if opts.statement@ == "all"@ {
        "income statement, balance sheet, and cash flow"@
    } else {
        opts.statement@ + " statement"@
    };
    name + " — "@ + what + " ("@ + opts.period@ + ", last "@ + decimal_text(opts.last_n as nat)
        + " periods). Native EODHD line items plus derived margin / growth / TTM rows. Empty cells indicate the source omitted that field for that period."@
}

/// The company name found in a fundamentals payload.
pub fn company_name<'a>(fundamentals: &'a Json) -> (r: Option<&'a str>)
    ensures
        r matches Some(s) ==> general_name(*fundamentals) == Some(s@),
        r is None ==> general_name(*fundamentals) is None,
{
    match fundamentals.get("General") {
        Some(g) => match g.get("Name") {
            Some(n) => n.as_str(),
            None => None,
        },
        None => None,
    }
}

/// The opening prose of a `financials` answer: company (or symbol),
/// statements, period and period count.
pub fn render_summary(symbol: &str, opts: &Options, fundamentals: &Json) -> (out: String)
    ensures
        out@ == financials_summary_text(symbol@, *opts, *fundamentals),
{
    let name = match company_name(fundamentals) {
        Some(n) => n,
        None => symbol,
    };
    let mut out = String::from_str(name);
    out.append(" — ");
    if str_eq(opts.statement.as_str(), "all") {
        out.append("income statement, balance sheet, and cash flow");
    } else {
        out.append(opts.statement.as_str());
        out.append(" statement");
    }
    out.append(" (");
    out.append(opts.period.as_str());
    out.append(", last ");
    out.append(decimal_string(opts.last_n as u64).as_str());
    out.append(
        " periods). Native EODHD line items plus derived margin / growth / TTM rows. Empty cells indicate the source omitted that field for that period.",
    );
    assert(out@ =~= financials_summary_text(symbol@, *opts, *fundamentals));
    out
}

/// Keys of a period entry that describe the period rather than a line item.
pub open spec fn is_meta_key(k: Seq<char>) -> bool {
    k == "date"@ || k == "filing_date"@ || k == "currency_symbol"@
}

fn meta_key(k: &str) -> (b: bool)
    ensures
        b == is_meta_key(k@),
{
    str_eq(k, "date") || str_eq(k, "filing_date") || str_eq(k, "currency_symbol")
}

/// The line-item keys of a period entry's fields, in order.
pub open spec fn item_keys(es: Seq<(String, Json)>) -> Seq<Seq<char>>
    decreases es.len(),
{
    if es.len() == 0 {
        Seq::empty()
    } else if is_meta_key(es.last().0@) {
        item_keys(es.drop_last())
    } else {
        item_keys(es.drop_last()).push(es.last().0@)
    }
}

/// The line-item keys of the entry of one period (none when the entry is
/// not an object).
pub open spec fn entry_items(e: Option<Json>) -> Seq<Seq<char>> {
    match e {
        Some(Json::Object(m)) => item_keys(m.entries@),
        _ => Seq::empty(),
    }
}

/// The line-item keys of the periods, period after period.
pub open spec fn period_items(block: JsonMap, dates: Seq<Seq<char>>) -> Seq<Seq<char>>
    decreases dates.len(),
{
    if dates.len() == 0 {
        Seq::empty()
    } else {
        period_items(block, dates.drop_last()) + entry_items(lookup(block.entries@, dates.last()))
    }
}

/// `s` without repeats, each kept where it first occurs.
pub open spec fn first_occurrences(s: Seq<Seq<char>>) -> Seq<Seq<char>>
    decreases s.len(),
{
    if s.len() == 0 {
        Seq::empty()
    } else {
        let r = first_occurrences(s.drop_last());
        if r.contains(s.last()) {
            r
        } else {
            r.push(s.last())
        }
    }
}

fn contains_text(v: &Vec<String>, k: &str) -> (b: bool)
    ensures
        b == string_views(v@).contains(k@),
{
    let mut i: usize = 0;
    while i < v.len()
        invariant
            i <= v@.len(),
            forall|j: int| 0 <= j < i ==> v@[j]@ != k@,
        decreases v@.len() - i,
    {
        if str_eq(v[i].as_str(), k) {
            assert(string_views(v@)[i as int] == k@);
            return true;
        }
        i = i + 1;
    }
    assert forall|j: int| 0 <= j < string_views(v@).len() implies string_views(v@)[j] != k@ by {
        assert(string_views(v@)[j] == v@[j]@);
    }
    false
}

/// The rows of a statement table: every line-item key of the periods, in
/// the order the periods list them, each once.
pub fn line_items(block: &JsonMap, dates: &Vec<&str>) -> (rows: Vec<String>)
    ensures
        string_views(rows@) == first_occurrences(period_items(*block, views_of(dates@))),
{
    let ghost dv = views_of(dates@);
    let mut rows: Vec<String> = Vec::new();
    let mut j: usize = 0;
    while j < dates.len()
        invariant
            dv == views_of(dates@),
            j <= dates@.len(),
            string_views(rows@) == first_occurrences(period_items(*block, dv.take(j as int))),
        decreases dates@.len() - j,
    {
        let ghost before = period_items(*block, dv.take(j as int));
        proof {
            assert(dv.take(j + 1).drop_last() =~= dv.take(j as int));
            assert(dv.take(j + 1).last() == dates@[j as int]@);
        }
        match block.get(dates[j]) {
            Some(Json::Object(m)) => {
                let mut c: usize = 0;
                while c < m.entries.len()
                    invariant
                        c <= m.entries@.len(),
                        string_views(rows@) == first_occurrences(before + item_keys(m.entries@.take(c as int))),
                    decreases m.entries@.len() - c,
                {
                    let k = m.entries[c].0.as_str();
                    proof {
                        assert(m.entries@.take(c + 1).drop_last() =~= m.entries@.take(c as int));
                    }
                    if !meta_key(k) {
                        let ghost items = before + item_keys(m.entries@.take(c as int));
                        proof {
                            assert(before + item_keys(m.entries@.take(c + 1)) =~= items.push(k@));
                            assert(items.push(k@).drop_last() =~= items);
                        }
                        if !contains_text(&rows, k) {
                            rows.push(String::from_str(k));
                            proof {
                                assert(string_views(rows@) =~= first_occurrences(items).push(k@));
                            }
                        }
                    }
                    c = c + 1;
                }
                assert(m.entries@.take(m.entries@.len() as int) =~= m.entries@);
                assert(period_items(*block, dv.take(j + 1)) =~= before + item_keys(m.entries@));
            },
            _ => {
                assert(period_items(*block, dv.take(j + 1)) =~= before);
            },
        }
        j = j + 1;
    }
    assert(dv.take(dates@.len() as int) =~= dv);
    rows
}

/// A TTM column is shown on quarterly views with at least four periods.
pub fn wants_ttm(period: &str, n_dates: usize) -> (b: bool)
    ensures
        b == (period@ == "quarterly"@ && n_dates >= 4),
{
    str_eq(period, "quarterly") && n_dates >= 4
}

/// ` cell |` for each cell.
pub open spec fn cells_text(cs: Seq<Seq<char>>) -> Seq<char>
    decreases cs.len(),
{
    if cs.len() == 0 {
        Seq::empty()
    } else {
        cells_text(cs.drop_last()) + " "@ + cs.last() + " |"@
    }
}

/// `piece`, `n` times.
pub open spec fn repeated(piece: Seq<char>, n: nat) -> Seq<char>
    decreases n,
{
    if n == 0 {
        Seq::empty()
    } else {
        repeated(piece, (n - 1) as nat) + piece
    }
}

/// One native row: the humanized field name, a cell per period, and the
/// TTM cell when the column is shown.
pub open spec fn native_row_text(r: (String, Vec<String>, String), ttm: bool) -> Seq<char> {
    "| "@ + humanized(r.0@) + " |"@ + cells_text(string_views(r.1@)) + (if ttm {
        " "@ + r.2@ + " |"@
    } else {
        Seq::empty()
    }) + "\n"@
}

/// The native rows.
pub open spec fn native_rows_text(rs: Seq<(String, Vec<String>, String)>, ttm: bool) -> Seq<char>
    decreases rs.len(),
{
    if rs.len() == 0 {
        Seq::empty()
    } else {
        native_rows_text(rs.drop_last(), ttm) + native_row_text(rs.last(), ttm)
    }
}

/// Lines, each followed by a line break.
pub open spec fn lines_text(ls: Seq<Seq<char>>) -> Seq<char>
    decreases ls.len(),
{
    if ls.len() == 0 {
        Seq::empty()
    } else {
        lines_text(ls.drop_last()) + ls.last() + "\n"@
    }
}

/// A statement table: a header of periods (and `TTM_4Q`), a separator,
/// the native rows, and, when there are derived rows, a spacer line
/// followed by them.
pub open spec fn dataframe_text(
    dates: Seq<Seq<char>>,
    ttm: bool,
    rows: Seq<(String, Vec<String>, String)>,
    derived: Seq<Seq<char>>,
) -> Seq<char> {
    "| Line item |"@ + cells_text(dates) + (if ttm {
        " TTM_4Q |"@
    } else {
        Seq::empty()
    }) + "\n"@ + "| --- |"@ + repeated(" ---: |"@, dates.len()) + (if ttm {
        " ---: |"@
    } else {
        Seq::empty()
    }) + "\n"@ + native_rows_text(rows, ttm) + (if derived.len() == 0 {
        Seq::empty()
    } else {
        "| | |"@ + repeated(" |"@, dates.len()) + (if ttm {
            " |"@
        } else {
            Seq::empty()
        }) + "\n"@ + lines_text(derived)
    })
}

fn push_cells(out: &mut String, cells: &Vec<String>)
    ensures
        final(out)@ == old(out)@ + cells_text(string_views(cells@)),
{
    let ghost cv = string_views(cells@);
    let ghost base = out@;
    let mut i: usize = 0;
    while i < cells.len()
        invariant
            cv == string_views(cells@),
            i <= cells@.len(),
            out@ == base + cells_text(cv.take(i as int)),
        decreases cells@.len() - i,
    {
        proof {
            assert(cv.take(i + 1).drop_last() =~= cv.take(i as int));
        }
        out.append(" ");
        out.append(cells[i].as_str());
        out.append(" |");
        proof {
            assert(out@ =~= base + cells_text(cv.take(i + 1)));
        }
        i = i + 1;
    }
    assert(cv.take(cells@.len() as int) =~= cv);
}

fn push_repeated(out: &mut String, piece: &str, n: usize)
    ensures
        final(out)@ == old(out)@ + repeated(piece@, n as nat),
{
    let ghost base = out@;
    let mut i: usize = 0;
    while i < n
        invariant
            i <= n,
            out@ == base + repeated(piece@, i as nat),
        decreases n - i,
    {
        out.append(piece);
        proof {
            assert(out@ =~= base + repeated(piece@, (i + 1) as nat));
        }
        i = i + 1;
    }
}

/// Lay out a statement table (see [`dataframe_text`]). Each native row
/// holds its field name, its cells per period and its TTM cell; derived
/// rows come already rendered.
pub fn render_dataframe(
    dates: &Vec<&str>,
    ttm: bool,
    rows: &Vec<(String, Vec<String>, String)>,
    derived: &Vec<String>,
) -> (out: String)
    ensures
        out@ == dataframe_text(views_of(dates@), ttm, rows@, string_views(derived@)),
{
    let ghost dv = views_of(dates@);
    let mut out = String::from_str("| Line item |");
    let ghost h0 = out@;
    let mut i: usize = 0;
    while i < dates.len()
        invariant
            dv == views_of(dates@),
            i <= dates@.len(),
            out@ == h0 + cells_text(dv.take(i as int)),
        decreases dates@.len() - i,
    {
        proof {
            assert(dv.take(i + 1).drop_last() =~= dv.take(i as int));
        }
        out.append(" ");
        out.append(dates[i]);
        out.append(" |");
        proof {
            assert(out@ =~= h0 + cells_text(dv.take(i + 1)));
        }
        i = i + 1;
    }
    assert(dv.take(dates@.len() as int) =~= dv);
    if ttm {
        out.append(" TTM_4Q |");
    }
    out.append("\n");
    out.append("| --- |");
    push_repeated(&mut out, " ---: |", dates.len());
    if ttm {
        out.append(" ---: |");
    }
    out.append("\n");
    let ghost body = out@;
    let mut r: usize = 0;
    while r < rows.len()
        invariant
            r <= rows@.len(),
            out@ == body + native_rows_text(rows@.take(r as int), ttm),
        decreases rows@.len() - r,
    {
        proof {
            assert(rows@.take(r + 1).drop_last() =~= rows@.take(r as int));
        }
        let row = &rows[r];
        out.append("| ");
        let label = humanize_field(row.0.as_str());
        out.append(label.as_str());
        out.append(" |");
        push_cells(&mut out, &row.1);
        if ttm {
            out.append(" ");
            out.append(row.2.as_str());
            out.append(" |");
        }
        out.append("\n");
        proof {
            assert(out@ =~= body + native_rows_text(rows@.take(r + 1), ttm));
        }
        r = r + 1;
    }
    assert(rows@.take(rows@.len() as int) =~= rows@);
    let ghost tail_start = out@;
    if derived.len() > 0 {
        out.append("| | |");
        push_repeated(&mut out, " |", dates.len());
        if ttm {
            out.append(" |");
        }
        out.append("\n");
        let ghost lines_start = out@;
        let ghost lv = string_views(derived@);
        let mut k: usize = 0;
        while k < derived.len()
            invariant
                lv == string_views(derived@),
                k <= derived@.len(),
                out@ == lines_start + lines_text(lv.take(k as int)),
            decreases derived@.len() - k,
        {
            proof {
                assert(lv.take(k + 1).drop_last() =~= lv.take(k as int));
            }
            out.append(derived[k].as_str());
            out.append("\n");
            proof {
                assert(out@ =~= lines_start + lines_text(lv.take(k + 1)));
            }
            k = k + 1;
        }
        assert(lv.take(derived@.len() as int) =~= lv);
    }
    assert(out@ =~= dataframe_text(dv, ttm, rows@, string_views(derived@)));
    out
}

/// The warning given when a statement has no periods.
pub open spec fn no_data_text(path: Seq<char>, period: Seq<char>) -> Seq<char> {
    "No data for "@ + path + "::"@ + period + ". Likely an ETF, fund, or index — or the source omits this period."@
}

/// The warning given when a statement has no periods.
pub fn no_data_warning(path: &str, period: &str) -> (w: String)
    ensures
        w@ == no_data_text(path@, period@),
{
    let mut w = String::from_str("No data for ");
    w.append(path);
    w.append("::");
    w.append(period);
    w.append(". Likely an ETF, fund, or index — or the source omits this period.");
    w
}

/// What stands in place of a table without periods.
pub fn no_data_table() -> (t: String)
    ensures
        t@ == "*(no data available)*"@,
{
    String::from_str("*(no data available)*")
}

/// A statement's section: its heading, then its table.
pub open spec fn statement_block_text(label: Seq<char>, period: Seq<char>, last_n: usize, table: Seq<char>) -> Seq<char> {
    "### "@ + label + " ("@ + period + ", last "@ + decimal_text(last_n as nat) + ")\n\n"@ + table
}

/// A statement's section (see [`statement_block_text`]).
pub fn statement_block(label: &str, period: &str, last_n: usize, table: &str) -> (b: String)
    ensures
        b@ == statement_block_text(label@, period@, last_n, table@),
{
    let mut b = String::from_str("### ");
    b.append(label);
    b.append(" (");
    b.append(period);
    b.append(", last ");
    b.append(decimal_string(last_n as u64).as_str());
    b.append(")\n\n");
    b.append(table);
    b
}

/// The statements an answer covers: all three for `all`, else the one named.
pub open spec fn statements_text(statement: Seq<char>) -> Seq<Seq<char>> {
    if statement == "all"@ {
        seq!["income"@, "balance"@, "cashflow"@]
    } else {
        seq![statement]
    }
}

/// The statements an answer covers (see [`statements_text`]).
pub fn statements_of(statement: &str) -> (v: Vec<String>)
    ensures
        string_views(v@) == statements_text(statement@),
{
    let mut v: Vec<String> = Vec::new();
    if str_eq(statement, "all") {
        v.push(String::from_str("income"));
        v.push(String::from_str("balance"));
        v.push(String::from_str("cashflow"));
    } else {
        v.push(String::from_str(statement));
    }
    assert(string_views(v@) =~= statements_text(statement@));
    v
}

/// The freshness hint of a `financials` answer: the last filing date.
pub fn filing_hint(filing: &str) -> (h: String)
    ensures
        h@ == "last_filing="@ + filing@,
{
    let mut h = String::from_str("last_filing=");
    h.append(filing);
    h
}

/// The rows of a statement table name every line item of its periods
/// exactly once: `first_occurrences` keeps each element of `s` and repeats
/// none.
pub proof fn law_line_items_once(s: Seq<Seq<char>>)
    ensures
        forall|x: Seq<char>| first_occurrences(s).contains(x) <==> s.contains(x),
        forall|i: int, j: int|
            0 <= i < j < first_occurrences(s).len() ==> first_occurrences(s)[i] != first_occurrences(s)[j],
    decreases s.len(),
{
    if s.len() > 0 {
        let p = s.drop_last();
        law_line_items_once(p);
        let r = first_occurrences(p);
        assert forall|x: Seq<char>| first_occurrences(s).contains(x) <==> s.contains(x) by {
            if s.contains(x) {
                let k = choose|k: int| 0 <= k < s.len() && s[k] == x;
                if k < s.len() - 1 {
                    assert(p[k] == x);
                    assert(p.contains(x));
                }
            }
            if p.contains(x) {
                let k = choose|k: int| 0 <= k < p.len() && p[k] == x;
                assert(s[k] == x);
            }
            if first_occurrences(s).contains(x) && !r.contains(x) {
                assert(x == s.last());
            }
            if r.contains(x) && !r.contains(s.last()) {
                let k = choose|k: int| 0 <= k < r.len() && r[k] == x;
                assert(first_occurrences(s)[k] == x);
            }
            if !r.contains(s.last()) {
                assert(first_occurrences(s)[r.len() as int] == s.last());
            }
        }
    }
}

} // verus!
