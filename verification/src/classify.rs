//! The verdict classifier: a deterministic, commutative accumulation over the
//! filtered findings that yields a verdict, a severity label and a score.
//!
//! All weights of the scoring rule are multiples of one hundredth, so the
//! accumulation is carried out exactly, in integer thousandths of a score
//! point: a finding contributes `category weight (in hundredths) x severity
//! weight x false-positive factor (in tenths)` thousandths.

use vstd::prelude::*;
use vstd::string::StringSliceAdditionalSpecFns;
use vstd::utf8::encode_utf8;
use crate::finding::{CategorizedFindingView, CategorizedFindings, Finding, FindingView,
    CategorizedFinding};
use crate::text::{contains_ci, find_ci, str_eq_lit};

verus! {

/// The triage verdict reported for one submission.
#[derive(Clone, Copy, Debug, PartialEq, Eq, Structural)]
pub enum Verdict {
    Benign,
    Undetected,
    Suspicious,
    Malicious,
}

/// The severity band reported alongside the verdict, one to one with it.
#[derive(Clone, Copy, Debug, PartialEq, Eq, Structural)]
pub enum SeverityLabel {
    NoSeverity,
    Low,
    Medium,
    High,
}

impl Verdict {
    /// Wire name of the verdict.
    pub open spec fn label_spec(self) -> Seq<char> {
        match self {
            Verdict::Benign => "Benign"@,
            Verdict::Undetected => "Undetected"@,
            Verdict::Suspicious => "Suspicious"@,
            Verdict::Malicious => "Malicious"@,
        }
    }

    /// Wire name of the verdict.
    pub fn label(&self) -> (r: String)
        ensures
            r@ == self.label_spec(),
    {
        match self {
            Verdict::Benign => "Benign".to_owned(),
            Verdict::Undetected => "Undetected".to_owned(),
            Verdict::Suspicious => "Suspicious".to_owned(),
            Verdict::Malicious => "Malicious".to_owned(),
        }
    }
}

impl SeverityLabel {
    /// Wire name of the severity band.
    pub open spec fn label_spec(self) -> Seq<char> {
        match self {
            SeverityLabel::NoSeverity => "None"@,
            SeverityLabel::Low => "Low"@,
            SeverityLabel::Medium => "Medium"@,
            SeverityLabel::High => "High"@,
        }
    }

    /// Wire name of the severity band.
    pub fn label(&self) -> (r: String)
        ensures
            r@ == self.label_spec(),
    {
        match self {
            SeverityLabel::NoSeverity => "None".to_owned(),
            SeverityLabel::Low => "Low".to_owned(),
            SeverityLabel::Medium => "Medium".to_owned(),
            SeverityLabel::High => "High".to_owned(),
        }
    }
}

/// Lower-case byte pattern that marks a likely false positive.
pub open spec fn marker_test() -> Seq<u8> {
    seq!['t' as u8, 'e' as u8, 's' as u8, 't' as u8]
}

/// Lower-case byte pattern that marks a likely false positive.
pub open spec fn marker_example() -> Seq<u8> {
    seq!['e' as u8, 'x' as u8, 'a' as u8, 'm' as u8, 'p' as u8, 'l' as u8, 'e' as u8]
}

/// Lower-case byte pattern that marks a likely false positive.
pub open spec fn marker_sample() -> Seq<u8> {
    seq!['s' as u8, 'a' as u8, 'm' as u8, 'p' as u8, 'l' as u8, 'e' as u8]
}

/// A text carries a false-positive marker when its UTF-8 bytes contain one of
/// the marker words, ignoring ASCII case.
pub open spec fn fp_marker(s: Seq<char>) -> bool {
    ||| contains_ci(encode_utf8(s), marker_test())
    ||| contains_ci(encode_utf8(s), marker_example())
    ||| contains_ci(encode_utf8(s), marker_sample())
}

/// A finding is discounted as a likely false positive when its rule name or
/// its description carries a marker word.
pub open spec fn likely_fp(f: FindingView) -> bool {
    fp_marker(f.rule_name) || fp_marker(f.description)
}

/// Category weight of a finding, in hundredths, keyed by the category the
/// engine reported the finding under.
pub open spec fn category_weight100(cat: Seq<char>, severity: u32) -> nat {
    if cat == "authentication"@ {
        if severity >= 4 { 90 } else { 50 }
    } else if cat == "file_paths"@ {
        if severity >= 3 { 70 } else { 20 }
    } else if cat == "class_loading"@ {
        if severity >= 3 { 70 } else { 20 }
    } else if cat == "obfuscation"@ {
        20
    } else if cat == "network"@ {
        30
    } else if cat == "reflection"@ {
        if severity >= 3 { 10 } else { 1 }
    } else if cat == "urls"@ {
        20
    } else {
        10
    }
}

/// Severity weight of a finding; severities outside 0 to 4 weigh nothing.
pub open spec fn severity_weight(severity: u32) -> nat {
    if severity == 1 { 2 }
    else if severity == 2 { 5 }
    else if severity == 3 { 20 }
    else if severity == 4 { 100 }
    else { 0 }
}

/// False-positive factor, in tenths: a likely false positive keeps one tenth
/// of its weight.
pub open spec fn fp_factor10(f: FindingView) -> nat {
    if likely_fp(f) { 1 } else { 10 }
}

/// Contribution of one finding to the raw score, in thousandths.
pub open spec fn contribution_milli(p: CategorizedFindingView) -> nat {
    category_weight100(p.category, p.finding.severity) * severity_weight(p.finding.severity)
        * fp_factor10(p.finding)
}

/// Raw score of a finding sequence, in thousandths, before normalization.
pub open spec fn raw_score_milli(ps: Seq<CategorizedFindingView>) -> nat
    decreases ps.len(),
{
    if ps.len() == 0 {
        0
    } else {
        raw_score_milli(ps.drop_last()) + contribution_milli(ps.last())
    }
}

/// A high-severity authentication finding.
pub open spec fn is_auth_high(p: CategorizedFindingView) -> bool {
    p.category == "authentication"@ && p.finding.severity >= 4
}

/// A high-severity file-path finding.
pub open spec fn is_filepath_high(p: CategorizedFindingView) -> bool {
    p.category == "file_paths"@ && p.finding.severity >= 3
}

/// A high-severity class-loading finding.
pub open spec fn is_classload_high(p: CategorizedFindingView) -> bool {
    p.category == "class_loading"@ && p.finding.severity >= 3
}

/// A finding that alone makes the submission suspicious.
pub open spec fn is_suspicious_hit(p: CategorizedFindingView) -> bool {
    (p.category == "obfuscation"@ || p.category == "network"@ || p.category == "reflection"@
        || p.category == "urls"@) && p.finding.severity >= 3
}

/// How many high-severity authentication findings the sequence holds.
pub open spec fn count_auth_high(ps: Seq<CategorizedFindingView>) -> nat
    decreases ps.len(),
{
    if ps.len() == 0 {
        0
    } else {
        count_auth_high(ps.drop_last()) + if is_auth_high(ps.last()) { 1nat } else { 0nat }
    }
}

/// How many high-severity file-path findings the sequence holds.
pub open spec fn count_filepath_high(ps: Seq<CategorizedFindingView>) -> nat
    decreases ps.len(),
{
    if ps.len() == 0 {
        0
    } else {
        count_filepath_high(ps.drop_last()) + if is_filepath_high(ps.last()) { 1nat } else { 0nat }
    }
}

/// How many high-severity class-loading findings the sequence holds.
pub open spec fn count_classload_high(ps: Seq<CategorizedFindingView>) -> nat
    decreases ps.len(),
{
    if ps.len() == 0 {
        0
    } else {
        count_classload_high(ps.drop_last()) + if is_classload_high(ps.last()) { 1nat } else { 0nat }
    }
}

/// Whether any finding alone marks the submission as suspicious.
pub open spec fn has_suspicious(ps: Seq<CategorizedFindingView>) -> bool
    decreases ps.len(),
{
    if ps.len() == 0 {
        false
    } else {
        has_suspicious(ps.drop_last()) || is_suspicious_hit(ps.last())
    }
}

/// The combinations of high-severity findings that force a malicious verdict
/// regardless of the arithmetic total.
pub open spec fn has_critical_pattern(ps: Seq<CategorizedFindingView>) -> bool {
    let a = count_auth_high(ps);
    let f = count_filepath_high(ps);
    let c = count_classload_high(ps);
    ||| (a >= 2 && f >= 1)
    ||| (a >= 1 && f >= 2)
    ||| (a >= 1 && c >= 1)
    ||| (f >= 1 && c >= 1)
}

/// The normalized score reaches threshold `t` (in points): for more than ten
/// findings the raw score is damped by ten over the number of findings.
pub open spec fn meets_threshold(raw: nat, n: nat, t: nat) -> bool {
    if n > 10 { raw >= 100 * t * n } else { raw >= 1000 * t }
}

/// The normalized score, rounded to the nearest point (halves away from zero).
pub open spec fn rounded_score(raw: nat, n: nat) -> nat {
    if n > 10 { (2 * raw + 100 * n) / (200 * n) } else { (2 * raw + 1000) / 2000 }
}

/// Clamps `x` into the band `lo` to `hi`.
pub open spec fn clamp(x: nat, lo: nat, hi: nat) -> nat {
    if x < lo { lo } else if x > hi { hi } else { x }
}

/// The full classification of a finding sequence: verdict, severity band and
/// the score clamped into the band.  Without findings the submission is
/// benign; otherwise the critical combinations and the suspicious flag use
/// the raw tallies while the numeric score is normalized and clamped.
pub open spec fn classify_spec(ps: Seq<CategorizedFindingView>) -> (Verdict, SeverityLabel, u8) {
    if ps.len() == 0 {
        (Verdict::Benign, SeverityLabel::NoSeverity, 0u8)
    } else {
        let raw = raw_score_milli(ps);
        let n = ps.len();
        let sc = rounded_score(raw, n);
        if has_critical_pattern(ps) || meets_threshold(raw, n, 90) {
            (Verdict::Malicious, SeverityLabel::High, clamp(sc, 90, 100) as u8)
        } else if has_suspicious(ps) || meets_threshold(raw, n, 60) {
            (Verdict::Suspicious, SeverityLabel::Medium, clamp(sc, 60, 89) as u8)
        } else if meets_threshold(raw, n, 20) {
            (Verdict::Undetected, SeverityLabel::Low, clamp(sc, 20, 59) as u8)
        } else {
            (Verdict::Benign, SeverityLabel::NoSeverity, clamp(sc, 0, 19) as u8)
        }
    }
}

/// Executable category weight, in hundredths.
fn category_weight100_exec(cat: &String, severity: u32) -> (r: u64)
    ensures
        r as nat == category_weight100(cat@, severity),
        r <= 90,
{
    if str_eq_lit(cat, "authentication") {
        if severity >= 4 { 90 } else { 50 }
    } else if str_eq_lit(cat, "file_paths") {
        if severity >= 3 { 70 } else { 20 }
    } else if str_eq_lit(cat, "class_loading") {
        if severity >= 3 { 70 } else { 20 }
    } else if str_eq_lit(cat, "obfuscation") {
        20
    } else if str_eq_lit(cat, "network") {
        30
    } else if str_eq_lit(cat, "reflection") {
        if severity >= 3 { 10 } else { 1 }
    } else if str_eq_lit(cat, "urls") {
        20
    } else {
        10
    }
}

/// Executable severity weight.
fn severity_weight_exec(severity: u32) -> (r: u64)
    ensures
        r as nat == severity_weight(severity),
        r <= 100,
{
    if severity == 1 { 2 }
    else if severity == 2 { 5 }
    else if severity == 3 { 20 }
    else if severity == 4 { 100 }
    else { 0 }
}

/// Builds one marker pattern as bytes.
fn marker_test_bytes() -> (r: Vec<u8>)
    ensures
        r@ == marker_test(),
{
    let mut v: Vec<u8> = Vec::new();
    v.push('t' as u8);
    v.push('e' as u8);
    v.push('s' as u8);
    v.push('t' as u8);
    proof { assert(v@ =~= marker_test()); }
    v
}

/// Builds one marker pattern as bytes.
fn marker_example_bytes() -> (r: Vec<u8>)
    ensures
        r@ == marker_example(),
{
    let mut v: Vec<u8> = Vec::new();
    v.push('e' as u8);
    v.push('x' as u8);
    v.push('a' as u8);
    v.push('m' as u8);
    v.push('p' as u8);
    v.push('l' as u8);
    v.push('e' as u8);
    proof { assert(v@ =~= marker_example()); }
    v
}

/// Builds one marker pattern as bytes.
fn marker_sample_bytes() -> (r: Vec<u8>)
    ensures
        r@ == marker_sample(),
{
    let mut v: Vec<u8> = Vec::new();
    v.push('s' as u8);
    v.push('a' as u8);
    v.push('m' as u8);
    v.push('p' as u8);
    v.push('l' as u8);
    v.push('e' as u8);
    proof { assert(v@ =~= marker_sample()); }
    v
}

/// Whether a text carries a false-positive marker word.
fn has_fp_marker(s: &str) -> (r: bool)
    ensures
        r == fp_marker(s@),
{
    let bytes = s.as_bytes();
    let t = marker_test_bytes();
    if find_ci(bytes, t.as_slice()) {
        return true;
    }
    let e = marker_example_bytes();
    if find_ci(bytes, e.as_slice()) {
        return true;
    }
    let m = marker_sample_bytes();
    find_ci(bytes, m.as_slice())
}

/// Whether a finding is discounted as a likely false positive.
pub fn is_likely_fp(f: &Finding) -> (r: bool)
    ensures
        r == likely_fp(f@),
{
    has_fp_marker(f.rule_name.as_str()) || has_fp_marker(f.description.as_str())
}

/// Adding a finding adds exactly its contribution to the raw score; in
/// particular the pre-normalization raw score never decreases.
pub proof fn lemma_raw_score_monotonic(ps: Seq<CategorizedFindingView>, p: CategorizedFindingView)
    ensures
        raw_score_milli(ps.push(p)) == raw_score_milli(ps) + contribution_milli(p),
        raw_score_milli(ps.push(p)) >= raw_score_milli(ps),
{
    assert(ps.push(p).drop_last() =~= ps);
    assert(ps.push(p).last() == p);
}

/// Removing one finding removes exactly its contribution from the raw score.
proof fn lemma_raw_score_remove(ps: Seq<CategorizedFindingView>, j: int)
    requires
        0 <= j < ps.len(),
    ensures
        raw_score_milli(ps) == raw_score_milli(ps.remove(j)) + contribution_milli(ps[j]),
    decreases ps.len(),
{
    if j == ps.len() - 1 {
        assert(ps.remove(j) =~= ps.drop_last());
    } else {
        assert(ps.remove(j).drop_last() =~= ps.drop_last().remove(j));
        assert(ps.remove(j).last() == ps.last());
        lemma_raw_score_remove(ps.drop_last(), j);
        assert(ps.drop_last()[j] == ps[j]);
    }
}

/// The accumulation is commutative: two orderings of the same findings have
/// the same raw score, so the iteration order never shows in the result.
pub proof fn lemma_raw_score_order_independent(
    s1: Seq<CategorizedFindingView>,
    s2: Seq<CategorizedFindingView>,
)
    requires
        s1.to_multiset() == s2.to_multiset(),
    ensures
        raw_score_milli(s1) == raw_score_milli(s2),
    decreases s1.len(),
{
    broadcast use vstd::seq_lib::group_to_multiset_ensures;

    if s1.len() == 0 {
        assert(s2.len() == s2.to_multiset().len());
    } else {
        let x = s1.last();
        assert(s1.to_multiset().count(x) > 0);
        assert(s2.contains(x));
        let j = choose|j: int| 0 <= j < s2.len() && s2[j] == x;
        assert(s1.drop_last() =~= s1.remove(s1.len() - 1));
        assert(s1.drop_last().to_multiset() =~= s1.to_multiset().remove(x));
        assert(s2.remove(j).to_multiset() =~= s2.to_multiset().remove(x));
        lemma_raw_score_order_independent(s1.drop_last(), s2.remove(j));
        lemma_raw_score_remove(s2, j);
    }
}

/// Removing one finding removes exactly its tally mark, if any.
proof fn lemma_count_auth_high_remove(ps: Seq<CategorizedFindingView>, j: int)
    requires
        0 <= j < ps.len(),
    ensures
        count_auth_high(ps) == count_auth_high(ps.remove(j)) + if is_auth_high(ps[j]) {
            1nat
        } else {
            0nat
        },
    decreases ps.len(),
{
    if j == ps.len() - 1 {
        assert(ps.remove(j) =~= ps.drop_last());
    } else {
        assert(ps.remove(j).drop_last() =~= ps.drop_last().remove(j));
        assert(ps.remove(j).last() == ps.last());
        lemma_count_auth_high_remove(ps.drop_last(), j);
        assert(ps.drop_last()[j] == ps[j]);
    }
}

/// Removing one finding removes exactly its tally mark, if any.
proof fn lemma_count_filepath_high_remove(ps: Seq<CategorizedFindingView>, j: int)
    requires
        0 <= j < ps.len(),
    ensures
        count_filepath_high(ps) == count_filepath_high(ps.remove(j)) + if is_filepath_high(
            ps[j],
        ) {
            1nat
        } else {
            0nat
        },
    decreases ps.len(),
{
    if j == ps.len() - 1 {
        assert(ps.remove(j) =~= ps.drop_last());
    } else {
        assert(ps.remove(j).drop_last() =~= ps.drop_last().remove(j));
        assert(ps.remove(j).last() == ps.last());
        lemma_count_filepath_high_remove(ps.drop_last(), j);
        assert(ps.drop_last()[j] == ps[j]);
    }
}

/// Removing one finding removes exactly its tally mark, if any.
proof fn lemma_count_classload_high_remove(ps: Seq<CategorizedFindingView>, j: int)
    requires
        0 <= j < ps.len(),
    ensures
        count_classload_high(ps) == count_classload_high(ps.remove(j)) + if is_classload_high(
            ps[j],
        ) {
            1nat
        } else {
            0nat
        },
    decreases ps.len(),
{
    if j == ps.len() - 1 {
        assert(ps.remove(j) =~= ps.drop_last());
    } else {
        assert(ps.remove(j).drop_last() =~= ps.drop_last().remove(j));
        assert(ps.remove(j).last() == ps.last());
        lemma_count_classload_high_remove(ps.drop_last(), j);
        assert(ps.drop_last()[j] == ps[j]);
    }
}

/// Two orderings of the same findings have the same high-severity tallies.
proof fn lemma_counts_order_independent(
    s1: Seq<CategorizedFindingView>,
    s2: Seq<CategorizedFindingView>,
)
    requires
        s1.to_multiset() == s2.to_multiset(),
    ensures
        count_auth_high(s1) == count_auth_high(s2),
        count_filepath_high(s1) == count_filepath_high(s2),
        count_classload_high(s1) == count_classload_high(s2),
    decreases s1.len(),
{
    broadcast use vstd::seq_lib::group_to_multiset_ensures;

    if s1.len() == 0 {
        assert(s2.len() == s2.to_multiset().len());
    } else {
        let x = s1.last();
        assert(s1.to_multiset().count(x) > 0);
        assert(s2.contains(x));
        let j = choose|j: int| 0 <= j < s2.len() && s2[j] == x;
        assert(s1.drop_last() =~= s1.remove(s1.len() - 1));
        assert(s1.drop_last().to_multiset() =~= s1.to_multiset().remove(x));
        assert(s2.remove(j).to_multiset() =~= s2.to_multiset().remove(x));
        lemma_counts_order_independent(s1.drop_last(), s2.remove(j));
        lemma_count_auth_high_remove(s2, j);
        lemma_count_filepath_high_remove(s2, j);
        lemma_count_classload_high_remove(s2, j);
    }
}

/// The suspicious flag is set exactly when some finding alone is suspicious.
proof fn lemma_has_suspicious_iff(ps: Seq<CategorizedFindingView>)
    ensures
        has_suspicious(ps) <==> exists|i: int|
            0 <= i < ps.len() && is_suspicious_hit(#[trigger] ps[i]),
    decreases ps.len(),
{
    if ps.len() > 0 {
        lemma_has_suspicious_iff(ps.drop_last());
        if has_suspicious(ps.drop_last()) {
            let i = choose|i: int|
                0 <= i < ps.drop_last().len() && is_suspicious_hit(ps.drop_last()[i]);
            assert(ps[i] == ps.drop_last()[i]);
        }
        if is_suspicious_hit(ps.last()) {
            assert(is_suspicious_hit(ps[ps.len() - 1]));
        }
        if exists|i: int| 0 <= i < ps.len() && is_suspicious_hit(#[trigger] ps[i]) {
            let i = choose|i: int| 0 <= i < ps.len() && is_suspicious_hit(#[trigger] ps[i]);
            if i < ps.len() - 1 {
                assert(ps.drop_last()[i] == ps[i]);
            }
        }
    }
}

/// The classification is independent of the order in which the engine listed
/// the findings: two orderings of the same findings classify identically.
pub proof fn lemma_classification_order_independent(
    s1: Seq<CategorizedFindingView>,
    s2: Seq<CategorizedFindingView>,
)
    requires
        s1.to_multiset() == s2.to_multiset(),
    ensures
        classify_spec(s1) == classify_spec(s2),
{
    broadcast use vstd::seq_lib::group_to_multiset_ensures;

    assert(s1.len() == s1.to_multiset().len());
    assert(s2.len() == s2.to_multiset().len());
    lemma_raw_score_order_independent(s1, s2);
    lemma_counts_order_independent(s1, s2);
    lemma_has_suspicious_iff(s1);
    lemma_has_suspicious_iff(s2);
    if has_suspicious(s1) {
        let i = choose|i: int| 0 <= i < s1.len() && is_suspicious_hit(#[trigger] s1[i]);
        assert(s1.contains(s1[i]));
        assert(s1.to_multiset().count(s1[i]) > 0);
        assert(s2.contains(s1[i]));
        let j = choose|j: int| 0 <= j < s2.len() && s2[j] == s1[i];
        assert(is_suspicious_hit(s2[j]));
    }
    if has_suspicious(s2) {
        let i = choose|i: int| 0 <= i < s2.len() && is_suspicious_hit(#[trigger] s2[i]);
        assert(s2.contains(s2[i]));
        assert(s2.to_multiset().count(s2[i]) > 0);
        assert(s1.contains(s2[i]));
        let j = choose|j: int| 0 <= j < s1.len() && s1[j] == s2[i];
        assert(is_suspicious_hit(s1[j]));
    }
}

/// A finding with a false-positive marker contributes exactly one tenth of
/// what the same finding without one contributes.
pub proof fn lemma_fp_discount(marked: CategorizedFindingView, clean: CategorizedFindingView)
    requires
        marked.category == clean.category,
        marked.finding.severity == clean.finding.severity,
        likely_fp(marked.finding),
        !likely_fp(clean.finding),
    ensures
        10 * contribution_milli(marked) == contribution_milli(clean),
{
    let w = category_weight100(marked.category, marked.finding.severity);
    let s = severity_weight(marked.finding.severity);
    assert(10 * (w * s * 1) == w * s * 10) by (nonlinear_arith);
}

/// The weighted scoring pass: accumulates every finding's contribution and
/// the raw tallies, then normalizes, applies the critical combinations, and
/// clamps the score into the band of the verdict.
pub fn calculate_verdict_severity_score(results: &CategorizedFindings) -> (r: (
    Verdict,
    SeverityLabel,
    u8,
))
    ensures
        r == classify_spec(results@),
        results@.len() == 0 ==> r == (Verdict::Benign, SeverityLabel::NoSeverity, 0u8),
        has_critical_pattern(results@) && results@.len() > 0 ==> r.0 == Verdict::Malicious
            && r.2 >= 90,
        r.0 == Verdict::Malicious ==> 90 <= r.2 <= 100,
        r.0 == Verdict::Suspicious ==> 60 <= r.2 <= 89,
        r.0 == Verdict::Undetected ==> 20 <= r.2 <= 59,
        r.0 == Verdict::Benign ==> r.2 <= 19,
{
    let n = results.items.len();
    let mut raw: u128 = 0;
    let mut auth_high: usize = 0;
    let mut filepath_high: usize = 0;
    let mut classload_high: usize = 0;
    let mut suspicious = false;
    let mut i: usize = 0;
    while i < n
        invariant
            n == results.items@.len(),
            results@ == results.items@.map_values(|c: CategorizedFinding| c@),
            i <= n,
            raw as nat == raw_score_milli(results@.take(i as int)),
            raw <= 90000 * (i as u128),
            auth_high <= i,
            filepath_high <= i,
            classload_high <= i,
            auth_high as nat == count_auth_high(results@.take(i as int)),
            filepath_high as nat == count_filepath_high(results@.take(i as int)),
            classload_high as nat == count_classload_high(results@.take(i as int)),
            suspicious == has_suspicious(results@.take(i as int)),
        decreases n - i,
    {
        let item = &results.items[i];
        let ghost prefix = results@.take(i as int);
        let ghost next = results@.take(i + 1 as int);
        proof {
            assert(next.drop_last() =~= prefix);
            assert(next.last() == item@);
        }
        let catw = category_weight100_exec(&item.category, item.finding.severity);
        let sevw = severity_weight_exec(item.finding.severity);
        let fp: u64 = if is_likely_fp(&item.finding) { 1 } else { 10 };
        assert(catw * sevw * fp <= 90000) by (nonlinear_arith)
            requires catw <= 90 && sevw <= 100 && fp <= 10,
        ;
        let added_milli: u64 = catw * sevw * fp;
        assert(added_milli as nat == contribution_milli(item@));
        raw = raw + (added_milli as u128);
        let sev = item.finding.severity;
        if str_eq_lit(&item.category, "authentication") && sev >= 4 {
            auth_high += 1;
        }
        if str_eq_lit(&item.category, "file_paths") && sev >= 3 {
            filepath_high += 1;
        }
        if str_eq_lit(&item.category, "class_loading") && sev >= 3 {
            classload_high += 1;
        }
        if (str_eq_lit(&item.category, "obfuscation") || str_eq_lit(&item.category, "network")
            || str_eq_lit(&item.category, "reflection") || str_eq_lit(&item.category, "urls"))
            && sev >= 3 {
            suspicious = true;
        }
        i += 1;
    }
    proof {
        assert(results@.take(n as int) =~= results@);
    }
    if n == 0 {
        return (Verdict::Benign, SeverityLabel::NoSeverity, 0);
    }
    let critical = (auth_high >= 2 && filepath_high >= 1) || (auth_high >= 1 && filepath_high
        >= 2) || (auth_high >= 1 && classload_high >= 1) || (filepath_high >= 1 && classload_high
        >= 1);
    let n128 = n as u128;
    let rounded: u128 = if n > 10 {
        (2 * raw + 100 * n128) / (200 * n128)
    } else {
        (2 * raw + 1000) / 2000
    };
    assert(rounded as nat == rounded_score(raw as nat, n as nat));
    let meets90 = if n > 10 { raw >= 9000 * n128 } else { raw >= 90000 };
    let meets60 = if n > 10 { raw >= 6000 * n128 } else { raw >= 60000 };
    let meets20 = if n > 10 { raw >= 2000 * n128 } else { raw >= 20000 };
    assert(meets90 == meets_threshold(raw as nat, n as nat, 90));
    assert(meets60 == meets_threshold(raw as nat, n as nat, 60));
    assert(meets20 == meets_threshold(raw as nat, n as nat, 20));
    if critical || meets90 {
        (Verdict::Malicious, SeverityLabel::High, clamp_band(rounded, 90, 100))
    } else if suspicious || meets60 {
        (Verdict::Suspicious, SeverityLabel::Medium, clamp_band(rounded, 60, 89))
    } else if meets20 {
        (Verdict::Undetected, SeverityLabel::Low, clamp_band(rounded, 20, 59))
    } else {
        (Verdict::Benign, SeverityLabel::NoSeverity, clamp_band(rounded, 0, 19))
    }
}

/// Clamps a score into a band.
fn clamp_band(x: u128, lo: u8, hi: u8) -> (r: u8)
    requires
        lo <= hi,
    ensures
        r as nat == clamp(x as nat, lo as nat, hi as nat),
{
    if x < lo as u128 {
        lo
    } else if x > hi as u128 {
        hi
    } else {
        x as u8
    }
}

} // verus!
