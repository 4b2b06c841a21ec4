use eodhd_mcp::health_check::{
    avg_scores, outlier_flag_severity, render_data, render_summary, report_warnings, severity_label, verdict,
    DimensionScore, FlagSeverity, HealthReport, RedFlag, Severity,
};

fn report(composite: u32, flags: Vec<RedFlag>) -> HealthReport {
    HealthReport {
        ticker: "AAPL.US".into(),
        composite,
        dimensions: vec![],
        red_flags: flags,
        last_quarter: None,
        last_filing: None,
    }
}

#[test]
fn average_of_scores_rounds_down() {
    assert_eq!(avg_scores(&[]), 0);
    assert_eq!(avg_scores(&[100, 50, 0]), 50);
    assert_eq!(avg_scores(&[100, 99]), 99);
}

#[test]
fn verdict_bands() {
    assert_eq!(verdict(90), "Strong");
    assert_eq!(verdict(85), "Strong");
    assert_eq!(verdict(84), "Healthy");
    assert_eq!(verdict(75), "Healthy");
    assert_eq!(verdict(60), "Mixed");
    assert_eq!(verdict(45), "Weak");
    assert_eq!(verdict(39), "Distressed");
}

#[test]
fn render_summary_picks_correct_verdict_label() {
    let mut r = report(90, vec![]);
    assert!(render_summary(&r).contains("Strong"));
    r.composite = 75;
    assert!(render_summary(&r).contains("Healthy"));
    r.composite = 60;
    assert!(render_summary(&r).contains("Mixed"));
    r.composite = 45;
    assert!(render_summary(&r).contains("Weak"));
    r.composite = 30;
    assert!(render_summary(&r).contains("Distressed"));
}

#[test]
fn summary_mentions_verdict_score_and_flags() {
    let flag = RedFlag { rule: "r".into(), severity: FlagSeverity::Info, evidence: "e".into() };
    let flag2 = RedFlag { rule: "r2".into(), severity: FlagSeverity::Info, evidence: "e2".into() };
    assert_eq!(
        render_summary(&report(72, vec![flag, flag2])),
        "AAPL.US (Healthy). Composite health score 72/100 — Healthy. 2 red flag(s) raised; see Data section."
    );
}

#[test]
fn severities() {
    assert_eq!(outlier_flag_severity(Severity::Material), FlagSeverity::Warning);
    assert_eq!(outlier_flag_severity(Severity::Watch), FlagSeverity::Info);
    assert_eq!(severity_label(FlagSeverity::Critical), "CRITICAL");
    assert_eq!(severity_label(FlagSeverity::Warning), "WARNING");
    assert_eq!(severity_label(FlagSeverity::Info), "INFO");
}

#[test]
fn data_section_lists_dimensions_and_flags() {
    let mut r = report(55, vec![RedFlag {
        rule: "Interest coverage < 3×".into(),
        severity: FlagSeverity::Critical,
        evidence: "Currently 0.50×".into(),
    }]);
    r.dimensions.push(DimensionScore {
        name: "Liquidity".into(),
        score: 40,
        components: vec![("current_ratio".into(), Some("1.100".into()), 40), ("quick_ratio".into(), None, 0)],
    });
    assert_eq!(
        render_data(&r),
        "**Composite score: 55/100**\n\n### Dimensions\n\n| Dimension | Score | Sub-criteria (value · score) |\n| --- | ---: | --- |\n| Liquidity | 40/100 | current_ratio=1.100·40; quick_ratio=—·0 |\n\n### Red flags\n\n| Severity | Rule | Evidence |\n| --- | --- | --- |\n| CRITICAL | Interest coverage < 3× | Currently 0.50× |\n"
    );
    assert!(report_warnings(&r).is_empty());
}

#[test]
fn data_section_without_flags() {
    let r = report(80, vec![]);
    assert!(render_data(&r).ends_with("### Red flags\n\n*None triggered.*\n"));
    assert_eq!(report_warnings(&r), vec!["No red flags triggered.".to_string()]);
}
