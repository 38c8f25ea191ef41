//! The findings the external detection engine reports for one scan, and the
//! noise categories that are stripped before scoring.

use vstd::prelude::*;
use crate::text::str_eq_lit;

verus! {

/// One rule match reported by the external detection engine.
#[derive(Debug, PartialEq, Eq)]
pub struct Finding {
    /// Category the rule itself carries; may differ from the key the engine
    /// reported the finding under.
    pub category: String,
    /// Name of the matching rule.
    pub rule_name: String,
    /// Human-readable description of the match.
    pub description: String,
    /// Ordinal severity; the engine is expected to stay within 0 to 4, and
    /// anything above carries no severity weight.
    pub severity: u32,
}

/// Mathematical image of a [`Finding`].
pub ghost struct FindingView {
    pub category: Seq<char>,
    pub rule_name: Seq<char>,
    pub description: Seq<char>,
    pub severity: u32,
}

impl View for Finding {
    type V = FindingView;

    open spec fn view(&self) -> FindingView {
        FindingView {
            category: self.category@,
            rule_name: self.rule_name@,
            description: self.description@,
            severity: self.severity,
        }
    }
}

impl Clone for Finding {
    fn clone(&self) -> (r: Self)
        ensures
            r == *self,
    {
        Finding {
            category: self.category.clone(),
            rule_name: self.rule_name.clone(),
            description: self.description.clone(),
            severity: self.severity,
        }
    }
}

/// A finding together with the category key the engine reported it under.
/// Scoring weighs a finding by this key, while the noise filter also looks at
/// the finding's own category field.
#[derive(Debug, PartialEq, Eq)]
pub struct CategorizedFinding {
    /// Category key the finding was reported under.
    pub category: String,
    /// The finding itself.
    pub finding: Finding,
}

/// Mathematical image of a [`CategorizedFinding`].
pub ghost struct CategorizedFindingView {
    pub category: Seq<char>,
    pub finding: FindingView,
}

impl View for CategorizedFinding {
    type V = CategorizedFindingView;

    open spec fn view(&self) -> CategorizedFindingView {
        CategorizedFindingView { category: self.category@, finding: self.finding@ }
    }
}

impl Clone for CategorizedFinding {
    fn clone(&self) -> (r: Self)
        ensures
            r == *self,
    {
        CategorizedFinding { category: self.category.clone(), finding: self.finding.clone() }
    }
}

/// Everything one scan produced, flattened to a sequence of categorized
/// findings.  A category key the engine reported with no findings under it
/// carries no information, so the flat form is faithful to the engine's
/// category-to-findings mapping.
#[derive(Debug, PartialEq, Eq)]
pub struct CategorizedFindings {
    /// The findings, in the order the engine reported them.
    pub items: Vec<CategorizedFinding>,
}

impl View for CategorizedFindings {
    type V = Seq<CategorizedFindingView>;

    open spec fn view(&self) -> Seq<CategorizedFindingView> {
        self.items@.map_values(|c: CategorizedFinding| c@)
    }
}

impl Clone for CategorizedFindings {
    fn clone(&self) -> (r: Self)
        ensures
            r@ == self@,
    {
        let items = self.items.clone();
        proof {
            assert forall|i: int| 0 <= i < items@.len() implies items@[i] == self.items@[i] by {
                assert(cloned::<CategorizedFinding>(self.items@[i], items@[i]));
            }
            assert(items@ =~= self.items@);
        }
        CategorizedFindings { items }
    }
}

impl CategorizedFindings {
    /// A scan result with no findings at all.
    pub fn empty() -> (r: Self)
        ensures
            r@ =~= Seq::<CategorizedFindingView>::empty(),
    {
        CategorizedFindings { items: Vec::new() }
    }
}

/// Categories dropped wholesale before scoring, as keys and on individual
/// findings alike.
pub open spec fn is_noise_category(c: Seq<char>) -> bool {
    c == "executables"@ || c == "deprecated"@
}

/// A finding survives the noise filter only when neither its reported
/// category key nor its own category field is a noise category.
pub open spec fn keep_finding(p: CategorizedFindingView) -> bool {
    !is_noise_category(p.category) && !is_noise_category(p.finding.category)
}

/// Executable test for a noise category name.
pub fn is_noise_category_name(c: &String) -> (r: bool)
    ensures
        r == is_noise_category(c@),
{
    str_eq_lit(c, "executables") || str_eq_lit(c, "deprecated")
}

} // verus!
