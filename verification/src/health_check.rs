//! Scorecard helpers of the `health_check` tool: flag severities, score
//! averaging, and the verdict that a composite score earns.

use vstd::prelude::*;
use vstd::string::*;
use crate::text::{decimal_string, decimal_text, join_seqs, join_strings, string_views};

verus! {

/// Severity of an outlier: `Watch` from 2σ, `Material` from 2.5σ.
#[derive(Debug, Clone, Copy, PartialEq, Eq, Structural)]
pub enum Severity {
    Watch,
    Material,
}

/// Severity of a red flag.
#[derive(Debug, Clone, Copy, PartialEq, Eq, Structural)]
pub enum FlagSeverity {
    Info,
    Warning,
    Critical,
}

/// A red flag raised by a rule, with the evidence behind it.
#[derive(Debug)]
pub struct RedFlag {
    pub rule: String,
    pub severity: FlagSeverity,
    pub evidence: String,
}

/// Sum of the scores.
pub open spec fn score_sum(xs: Seq<u32>) -> nat
    decreases xs.len(),
{
    if xs.len() == 0 {
        0
    } else {
        score_sum(xs.drop_last()) + xs.last() as nat
    }
}

/// Integer mean of the scores (0 for none).
pub open spec fn score_avg(xs: Seq<u32>) -> nat {
    if xs.len() == 0 {
        0
    } else {
        score_sum(xs) / xs.len()
    }
}

proof fn lemma_score_sum_prefix(xs: Seq<u32>, i: int)
    requires
        0 <= i <= xs.len(),
    ensures
        score_sum(xs.take(i)) <= score_sum(xs),
    decreases xs.len() - i,
{
    if i < xs.len() {
        lemma_score_sum_prefix(xs, i + 1);
        assert(xs.take(i + 1).drop_last() =~= xs.take(i));
    } else {
        assert(xs.take(i) =~= xs);
    }
}

/// Integer mean of the scores, rounded down; 0 for an empty list.
pub fn avg_scores(xs: &[u32]) -> (r: u32)
    requires
        score_sum(xs@) <= u32::MAX,
        xs@.len() <= u32::MAX,
    ensures
        r == score_avg(xs@),
        xs@.len() > 0 ==> r * xs@.len() <= score_sum(xs@) < (r + 1) * xs@.len(),
{
    proof {
        law_average_is_floor_mean(xs@);
    }
    if xs.len() == 0 {
        return 0;
    }
    let mut sum: u32 = 0;
    let mut i: usize = 0;
    while i < xs.len()
        invariant
            i <= xs@.len(),
            sum == score_sum(xs@.take(i as int)),
            score_sum(xs@) <= u32::MAX,
        decreases xs@.len() - i,
    {
        proof {
            assert(xs@.take(i + 1).drop_last() =~= xs@.take(i as int));
            lemma_score_sum_prefix(xs@, i + 1);
        }
        sum = sum + xs[i];
        i = i + 1;
    }
    assert(xs@.take(xs@.len() as int) =~= xs@);
    let n = xs.len() as u32;
    assert(n as nat == xs@.len());
    sum / n
}

/// The verdict a composite score earns.
pub open spec fn verdict_text(composite: u32) -> Seq<char> {
    if composite >= 85 {
        "Strong"@
    } else if composite >= 70 {
        "Healthy"@
    } else if composite >= 55 {
        "Mixed"@
    } else if composite >= 40 {
        "Weak"@
    } else {
        "Distressed"@
    }
}

/// The verdict a composite score earns: Strong from 85, Healthy from 70,
/// Mixed from 55, Weak from 40, Distressed below.
pub fn verdict(composite: u32) -> (v: &'static str)
    ensures
        v@ == verdict_text(composite),
{
    if composite >= 85 {
        "Strong"
    } else if composite >= 70 {
        "Healthy"
    } else if composite >= 55 {
        "Mixed"
    } else if composite >= 40 {
        "Weak"
    } else {
        "Distressed"
    }
}

/// The flag severity an outlier raises: material outliers warn, the rest
/// inform.
pub fn outlier_flag_severity(s: Severity) -> (f: FlagSeverity)
    ensures
        s == Severity::Material ==> f == FlagSeverity::Warning,
        s == Severity::Watch ==> f == FlagSeverity::Info,
{
    match s {
        Severity::Material => FlagSeverity::Warning,
        Severity::Watch => FlagSeverity::Info,
    }
}

/// The label a flag severity shows in the red-flag table.
pub fn severity_label(s: FlagSeverity) -> (l: &'static str)
    ensures
        s == FlagSeverity::Critical ==> l@ == "CRITICAL"@,
        s == FlagSeverity::Warning ==> l@ == "WARNING"@,
        s == FlagSeverity::Info ==> l@ == "INFO"@,
{
    match s {
        FlagSeverity::Critical => "CRITICAL",
        FlagSeverity::Warning => "WARNING",
        FlagSeverity::Info => "INFO",
    }
}

/// The opening prose of a health report.
pub open spec fn health_summary_text(ticker: Seq<char>, composite: u32, n_flags: usize) -> Seq<char> {
    ticker + " ("@ + verdict_text(composite) + "). Composite health score "@ + decimal_text(composite as nat)
        + "/100 — "@ + verdict_text(composite) + ". "@ + decimal_text(n_flags as nat)
        + " red flag(s) raised; see Data section."@
}

/// The opening prose of a health report: ticker, verdict, composite score
/// and number of red flags.
pub fn render_summary(r: &HealthReport) -> (out: String)
    ensures
        out@ == health_summary_text(r.ticker@, r.composite, r.red_flags@.len() as usize),
{
    let v = verdict(r.composite);
    let mut out = String::from_str(r.ticker.as_str());
    out.append(" (");
    out.append(v);
    out.append("). Composite health score ");
    out.append(decimal_string(r.composite as u64).as_str());
    out.append("/100 — ");
    out.append(v);
    out.append(". ");
    out.append(decimal_string(r.red_flags.len() as u64).as_str());
    out.append(" red flag(s) raised; see Data section.");
    assert(out@ =~= health_summary_text(r.ticker@, r.composite, r.red_flags@.len() as usize));
    out
}

/// The score of one dimension, with the sub-criteria it was built from:
/// each criterion's label, its value as shown (none when it could not be
/// computed) and the points it earned.
#[derive(Debug)]
pub struct DimensionScore {
    pub name: String,
    pub score: u32,
    pub components: Vec<(String, Option<String>, u32)>,
}

/// A health report: the composite score, the dimension scores, the red
/// flags raised, and how recent the data is.
#[derive(Debug)]
pub struct HealthReport {
    pub ticker: String,
    pub composite: u32,
    pub dimensions: Vec<DimensionScore>,
    pub red_flags: Vec<RedFlag>,
    pub last_quarter: Option<String>,
    pub last_filing: Option<String>,
}

/// One sub-criterion as `label=value·points`, a dash standing for a
/// missing value.
pub open spec fn component_text(c: (String, Option<String>, u32)) -> Seq<char> {
    c.0@ + "="@ + (match c.1 {
        Some(v) => v@,
        None => "—"@,
    }) + "·"@ + decimal_text(c.2 as nat)
}

/// The sub-criteria texts of a dimension.
pub open spec fn component_texts(cs: Seq<(String, Option<String>, u32)>) -> Seq<Seq<char>> {
    cs.map_values(|c: (String, Option<String>, u32)| component_text(c))
}

/// The table line of one dimension.
pub open spec fn dimension_line(d: DimensionScore) -> Seq<char> {
    "| "@ + d.name@ + " | "@ + decimal_text(d.score as nat) + "/100 | "@ + join_seqs(
        component_texts(d.components@),
        "; "@,
    ) + " |\n"@
}

/// The table lines of the dimensions.
pub open spec fn dimension_lines(ds: Seq<DimensionScore>) -> Seq<char>
    decreases ds.len(),
{
    if ds.len() == 0 {
        Seq::empty()
    } else {
        dimension_lines(ds.drop_last()) + dimension_line(ds.last())
    }
}

/// The label of a flag severity.
pub open spec fn severity_text(s: FlagSeverity) -> Seq<char> {
    match s {
        FlagSeverity::Critical => "CRITICAL"@,
        FlagSeverity::Warning => "WARNING"@,
        FlagSeverity::Info => "INFO"@,
    }
}

/// The table lines of the red flags.
pub open spec fn flag_lines(fs: Seq<RedFlag>) -> Seq<char>
    decreases fs.len(),
{
    if fs.len() == 0 {
        Seq::empty()
    } else {
        flag_lines(fs.drop_last()) + "| "@ + severity_text(fs.last().severity) + " | "@ + fs.last().rule@ + " | "@
            + fs.last().evidence@ + " |\n"@
    }
}

/// The data section of a health report: the composite score, a table of
/// dimensions, and a table of red flags (or a line saying none fired).
pub open spec fn health_data_text(r: HealthReport) -> Seq<char> {
    "**Composite score: "@ + decimal_text(r.composite as nat) + "/100**\n\n"@ + "### Dimensions\n\n"@
        + "| Dimension | Score | Sub-criteria (value · score) |\n"@ + "| --- | ---: | --- |\n"@ + dimension_lines(
        r.dimensions@,
    ) + "\n### Red flags\n\n"@ + (if r.red_flags@.len() == 0 {
        "*None triggered.*\n"@
    } else {
        "| Severity | Rule | Evidence |\n"@ + "| --- | --- | --- |\n"@ + flag_lines(r.red_flags@)
    })
}

fn component_string(c: &(String, Option<String>, u32)) -> (s: String)
    ensures
        s@ == component_text(*c),
{
    let mut s = c.0.clone();
    s.append("=");
    match &c.1 {
        Some(v) => s.append(v.as_str()),
        None => s.append("—"),
    }
    s.append("·");
    s.append(decimal_string(c.2 as u64).as_str());
    s
}

fn push_dimension_line(out: &mut String, d: &DimensionScore)
    ensures
        final(out)@ == old(out)@ + dimension_line(*d),
{
    let mut parts: Vec<String> = Vec::new();
    let mut i: usize = 0;
    while i < d.components.len()
        invariant
            i <= d.components@.len(),
            string_views(parts@) == component_texts(d.components@.take(i as int)),
        decreases d.components@.len() - i,
    {
        let ghost before = parts@;
        let part = component_string(&d.components[i]);
        parts.push(part);
        proof {
            assert(string_views(parts@) =~= string_views(before).push(part@));
            assert(component_texts(d.components@.take(i + 1)) =~= component_texts(d.components@.take(i as int)).push(
                component_text(d.components@[i as int]),
            ));
        }
        i = i + 1;
    }
    assert(d.components@.take(d.components@.len() as int) =~= d.components@);
    let joined = join_strings(&parts, "; ");
    out.append("| ");
    out.append(d.name.as_str());
    out.append(" | ");
    out.append(decimal_string(d.score as u64).as_str());
    out.append("/100 | ");
    out.append(joined.as_str());
    out.append(" |\n");
    assert(out@ =~= old(out)@ + dimension_line(*d));
}

/// The data section of a health report (see [`health_data_text`]).
pub fn render_data(r: &HealthReport) -> (out: String)
    ensures
        out@ == health_data_text(*r),
{
    let mut out = String::from_str("**Composite score: ");
    out.append(decimal_string(r.composite as u64).as_str());
    out.append("/100**\n\n");
    out.append("### Dimensions\n\n");
    out.append("| Dimension | Score | Sub-criteria (value · score) |\n");
    out.append("| --- | ---: | --- |\n");
    let ghost head = out@;
    let mut i: usize = 0;
    while i < r.dimensions.len()
        invariant
            i <= r.dimensions@.len(),
            out@ == head + dimension_lines(r.dimensions@.take(i as int)),
        decreases r.dimensions@.len() - i,
    {
        proof {
            assert(r.dimensions@.take(i + 1).drop_last() =~= r.dimensions@.take(i as int));
        }
        push_dimension_line(&mut out, &r.dimensions[i]);
        i = i + 1;
    }
    assert(r.dimensions@.take(r.dimensions@.len() as int) =~= r.dimensions@);
    out.append("\n### Red flags\n\n");
    if r.red_flags.len() == 0 {
        out.append("*None triggered.*\n");
    } else {
        out.append("| Severity | Rule | Evidence |\n");
        out.append("| --- | --- | --- |\n");
        let ghost mid = out@;
        let mut j: usize = 0;
        while j < r.red_flags.len()
            invariant
                j <= r.red_flags@.len(),
                out@ == mid + flag_lines(r.red_flags@.take(j as int)),
            decreases r.red_flags@.len() - j,
        {
            proof {
                assert(r.red_flags@.take(j + 1).drop_last() =~= r.red_flags@.take(j as int));
            }
            let f = &r.red_flags[j];
            out.append("| ");
            out.append(severity_label(f.severity));
            out.append(" | ");
            out.append(f.rule.as_str());
            out.append(" | ");
            out.append(f.evidence.as_str());
            out.append(" |\n");
            proof {
                assert(out@ =~= mid + flag_lines(r.red_flags@.take(j + 1)));
            }
            j = j + 1;
        }
        assert(r.red_flags@.take(r.red_flags@.len() as int) =~= r.red_flags@);
    }
    assert(out@ =~= health_data_text(*r));
    out
}

/// The warnings of a health report: a note that no rule fired, when none did.
pub fn report_warnings(r: &HealthReport) -> (w: Vec<String>)
    ensures
        string_views(w@) == (if r.red_flags@.len() == 0 {
            seq!["No red flags triggered."@]
        } else {
            Seq::<Seq<char>>::empty()
        }),
{
    let mut w: Vec<String> = Vec::new();
    if r.red_flags.len() == 0 {
        w.push(String::from_str("No red flags triggered."));
    }
    assert(string_views(w@) =~= (if r.red_flags@.len() == 0 {
        seq!["No red flags triggered."@]
    } else {
        Seq::<Seq<char>>::empty()
    }));
    w
}

/// The sum of scores adds up: the sum of two lists one after the other is
/// the sum of the first plus the sum of the second, the sum of one score is
/// that score, and the sum of no scores is 0.
pub proof fn law_score_sum_adds(a: Seq<u32>, b: Seq<u32>)
    ensures
        score_sum(a + b) == score_sum(a) + score_sum(b),
        score_sum(Seq::<u32>::empty()) == 0,
        forall|x: u32| #[trigger] score_sum(seq![x]) == x,
    decreases b.len(),
{
    assert forall|x: u32| #[trigger] score_sum(seq![x]) == x by {
        assert(seq![x].drop_last() =~= Seq::<u32>::empty());
        assert(score_sum(Seq::<u32>::empty()) == 0);
        assert(seq![x].last() == x);
        assert(score_sum(seq![x]) == score_sum(seq![x].drop_last()) + seq![x].last() as nat);
    }
    if b.len() == 0 {
        assert(a + b =~= a);
    } else {
        law_score_sum_adds(a, b.drop_last());
        assert((a + b).drop_last() =~= a + b.drop_last());
        assert((a + b).last() == b.last());
    }
}

/// The average of a non-empty list of scores is the mean of all of them,
/// rounded down: `r * len <= sum < (r + 1) * len`.
pub proof fn law_average_is_floor_mean(xs: Seq<u32>)
    ensures
        xs.len() > 0 ==> score_avg(xs) * xs.len() <= score_sum(xs) < (score_avg(xs) + 1) * xs.len(),
        xs.len() == 0 ==> score_avg(xs) == 0,
{
    if xs.len() > 0 {
        let s = score_sum(xs) as int;
        let n = xs.len() as int;
        let r = s / n;
        assert(r * n <= s < (r + 1) * n) by (nonlinear_arith)
            requires
                n > 0,
                s >= 0,
                r == s / n,
        ;
    }
}

} // verus!
