//! Exercises the verdict classifier on concrete findings.

use scanner::classify::{calculate_verdict_severity_score, is_likely_fp, SeverityLabel, Verdict};
use scanner::finding::{CategorizedFinding, CategorizedFindings, Finding};

fn finding(category: &str, rule: &str, desc: &str, severity: u32) -> CategorizedFinding {
    CategorizedFinding {
        category: category.to_string(),
        finding: Finding {
            category: category.to_string(),
            rule_name: rule.to_string(),
            description: desc.to_string(),
            severity,
        },
    }
}

fn results(items: Vec<CategorizedFinding>) -> CategorizedFindings {
    CategorizedFindings { items }
}

#[test]
fn empty_findings_are_benign() {
    let r = calculate_verdict_severity_score(&results(vec![]));
    assert_eq!(r, (Verdict::Benign, SeverityLabel::NoSeverity, 0));
}

#[test]
fn single_clean_auth_high_is_malicious_at_floor() {
    // 0.9 * 100 * 1.0 = 90 points: exactly the malicious floor.
    let r = calculate_verdict_severity_score(&results(vec![finding(
        "authentication",
        "RealLeak",
        "credential theft",
        4,
    )]));
    assert_eq!(r, (Verdict::Malicious, SeverityLabel::High, 90));
}

#[test]
fn fp_discount_is_exactly_one_tenth() {
    // Identical findings but for the rule name: the marked one scores 9,
    // one tenth of the clean one's 90.
    let marked = calculate_verdict_severity_score(&results(vec![finding(
        "authentication",
        "Test_Leak",
        "credential theft",
        4,
    )]));
    let clean = calculate_verdict_severity_score(&results(vec![finding(
        "authentication",
        "RealLeak",
        "credential theft",
        4,
    )]));
    assert_eq!(marked.2, 9);
    assert_eq!(clean.2, 90);
    assert_eq!(u32::from(marked.2) * 10, u32::from(clean.2));
    assert_eq!(marked.0, Verdict::Benign);
}

#[test]
fn huge_raw_score_is_clamped_into_band() {
    // Six clean authentication hits: raw score 540, no critical combination
    // (no file-path or class-loading finding), still capped at 100.
    let items: Vec<CategorizedFinding> = (0..6)
        .map(|i| finding("authentication", &format!("Leak{i}"), "credential theft", 4))
        .collect();
    let r = calculate_verdict_severity_score(&results(items));
    assert_eq!(r, (Verdict::Malicious, SeverityLabel::High, 100));
}

#[test]
fn critical_combination_forces_malicious() {
    // Two high authentication hits plus one high file-path hit.
    let r = calculate_verdict_severity_score(&results(vec![
        finding("authentication", "LeakA", "credential theft", 4),
        finding("authentication", "LeakB", "credential theft", 4),
        finding("file_paths", "SuspectPath", "system path touched", 3),
    ]));
    assert_eq!(r.0, Verdict::Malicious);
    assert_eq!(r.1, SeverityLabel::High);
    assert!(r.2 >= 90);
}

#[test]
fn critical_combination_is_independent_of_total() {
    // The same combination, all marked as likely false positives: the raw
    // total is far below the malicious threshold, yet the combination of
    // high findings still forces the malicious floor.
    let r = calculate_verdict_severity_score(&results(vec![
        finding("authentication", "Test_LeakA", "credential theft", 4),
        finding("authentication", "Test_LeakB", "credential theft", 4),
        finding("file_paths", "Test_Path", "system path touched", 3),
    ]));
    assert_eq!(r, (Verdict::Malicious, SeverityLabel::High, 90));
}

#[test]
fn volume_is_damped_past_ten_findings() {
    // Twenty findings each worth one point are damped by 10/20 to ten points.
    let items: Vec<CategorizedFinding> = (0..20)
        .map(|i| finding("obfuscation", &format!("Rule{i}"), "packed strings", 2))
        .collect();
    let r = calculate_verdict_severity_score(&results(items));
    assert_eq!(r, (Verdict::Benign, SeverityLabel::NoSeverity, 10));
}

#[test]
fn few_heavy_findings_are_not_damped() {
    // Two findings of ten points each stay at twenty points.
    let r = calculate_verdict_severity_score(&results(vec![
        finding("misc", "HeavyA", "unknown category hit", 4),
        finding("misc", "HeavyB", "unknown category hit", 4),
    ]));
    assert_eq!(r, (Verdict::Undetected, SeverityLabel::Low, 20));
}

#[test]
fn one_suspicious_hit_raises_the_band() {
    // A single high network finding is worth only six points, but the
    // suspicious flag lifts the response into the middle band.
    let r = calculate_verdict_severity_score(&results(vec![finding(
        "network",
        "Beacon",
        "calls home",
        3,
    )]));
    assert_eq!(r, (Verdict::Suspicious, SeverityLabel::Medium, 60));
}

#[test]
fn severity_zero_is_weightless() {
    let r = calculate_verdict_severity_score(&results(vec![finding(
        "reflection",
        "Reflect",
        "reflective call",
        0,
    )]));
    assert_eq!(r, (Verdict::Benign, SeverityLabel::NoSeverity, 0));
}

#[test]
fn adding_a_finding_never_lowers_a_low_score() {
    // Far below every threshold, the score grows with each finding.
    let one = calculate_verdict_severity_score(&results(vec![finding(
        "obfuscation",
        "PackA",
        "packed strings",
        2,
    )]));
    let two = calculate_verdict_severity_score(&results(vec![
        finding("obfuscation", "PackA", "packed strings", 2),
        finding("obfuscation", "PackB", "packed strings", 2),
    ]));
    assert_eq!(one.2, 1);
    assert_eq!(two.2, 2);
    assert!(two.2 >= one.2);
}

#[test]
fn classification_ignores_finding_order() {
    let a = finding("authentication", "LeakA", "credential theft", 4);
    let b = finding("network", "Beacon", "calls home", 3);
    let c = finding("file_paths", "SuspectPath", "system path touched", 2);
    let one = calculate_verdict_severity_score(&results(vec![a.clone(), b.clone(), c.clone()]));
    let other = calculate_verdict_severity_score(&results(vec![c, a, b]));
    assert_eq!(one, other);
}

#[test]
fn marker_words_are_found_case_insensitively() {
    let marked = finding("authentication", "SAMPLE_rule", "x", 4);
    assert!(is_likely_fp(&marked.finding));
    let in_description = finding("authentication", "Leak", "an ExAmPle capture", 4);
    assert!(is_likely_fp(&in_description.finding));
    let clean = finding("authentication", "Samp", "le capture", 4);
    assert!(!is_likely_fp(&clean.finding));
}

#[test]
fn marker_match_does_not_cross_non_ascii_text() {
    // The umlaut makes the rule name differ from "test" at byte level.
    let f = finding("authentication", "T\u{eb}st", "x", 4);
    assert!(!is_likely_fp(&f.finding));
}

#[test]
fn labels_match_the_wire_names() {
    assert_eq!(Verdict::Benign.label(), "Benign");
    assert_eq!(Verdict::Undetected.label(), "Undetected");
    assert_eq!(Verdict::Suspicious.label(), "Suspicious");
    assert_eq!(Verdict::Malicious.label(), "Malicious");
    assert_eq!(SeverityLabel::NoSeverity.label(), "None");
    assert_eq!(SeverityLabel::Low.label(), "Low");
    assert_eq!(SeverityLabel::Medium.label(), "Medium");
    assert_eq!(SeverityLabel::High.label(), "High");
}
