//! The noise filter: findings in noise categories are removed before scoring
//! and never appear in a response.

use vstd::prelude::*;
use crate::finding::{CategorizedFinding, CategorizedFindingView, CategorizedFindings,
    is_noise_category_name, keep_finding};

verus! {

/// The findings that survive the noise filter, in their original order.
pub open spec fn filtered(ps: Seq<CategorizedFindingView>) -> Seq<CategorizedFindingView>
    decreases ps.len(),
{
    if ps.len() == 0 {
        Seq::empty()
    } else if keep_finding(ps.last()) {
        filtered(ps.drop_last()).push(ps.last())
    } else {
        filtered(ps.drop_last())
    }
}

/// Every surviving finding is clear of noise categories.
pub proof fn lemma_filtered_keeps(ps: Seq<CategorizedFindingView>)
    ensures
        forall|i: int| 0 <= i < filtered(ps).len() ==> keep_finding(#[trigger] filtered(ps)[i]),
    decreases ps.len(),
{
    if ps.len() > 0 {
        lemma_filtered_keeps(ps.drop_last());
        let rest = filtered(ps.drop_last());
        assert forall|i: int| 0 <= i < filtered(ps).len() implies keep_finding(
            #[trigger] filtered(ps)[i],
        ) by {
            if keep_finding(ps.last()) {
                assert(filtered(ps) == rest.push(ps.last()));
                if i < rest.len() {
                    assert(filtered(ps)[i] == rest[i]);
                } else {
                    assert(filtered(ps)[i] == ps.last());
                }
            }
        }
    }
}

/// Every surviving finding stood in the input: the filter only removes.
pub proof fn lemma_filtered_subset(ps: Seq<CategorizedFindingView>)
    ensures
        filtered(ps).len() <= ps.len(),
        forall|i: int|
            0 <= i < filtered(ps).len() ==> ps.contains(#[trigger] filtered(ps)[i]),
    decreases ps.len(),
{
    if ps.len() > 0 {
        lemma_filtered_subset(ps.drop_last());
        assert forall|i: int| 0 <= i < filtered(ps).len() implies ps.contains(
            #[trigger] filtered(ps)[i],
        ) by {
            if i < filtered(ps.drop_last()).len() {
                let j = choose|j: int|
                    0 <= j < ps.drop_last().len() && ps.drop_last()[j] == filtered(ps)[i];
                assert(ps[j] == filtered(ps)[i]);
            } else {
                assert(filtered(ps)[i] == ps.last());
                assert(ps[ps.len() - 1] == ps.last());
            }
        }
    }
}

/// A finding whose reported key or own category is noise never survives.
pub proof fn lemma_filtered_excludes_noise(ps: Seq<CategorizedFindingView>, p: CategorizedFindingView)
    requires
        !keep_finding(p),
    ensures
        !filtered(ps).contains(p),
{
    lemma_filtered_keeps(ps);
    if filtered(ps).contains(p) {
        let i = choose|i: int| 0 <= i < filtered(ps).len() && filtered(ps)[i] == p;
        assert(keep_finding(filtered(ps)[i]));
    }
}

/// Drops every finding whose reported category key or own category field is a
/// noise category; everything else is kept, in order.
pub fn filter_relevant_results(results: &CategorizedFindings) -> (r: CategorizedFindings)
    ensures
        r@ == filtered(results@),
        forall|i: int| 0 <= i < r@.len() ==> keep_finding(#[trigger] r@[i]),
        r@.len() <= results@.len(),
{
    let mut out: Vec<CategorizedFinding> = Vec::new();
    let n = results.items.len();
    let mut i: usize = 0;
    while i < n
        invariant
            n == results.items@.len(),
            i <= n,
            out@.map_values(|c: CategorizedFinding| c@) == filtered(results@.take(i as int)),
            out@.len() <= i,
        decreases n - i,
    {
        let item = &results.items[i];
        let ghost prefix = results@.take(i as int);
        let keep = !is_noise_category_name(&item.category)
            && !is_noise_category_name(&item.finding.category);
        if keep {
            out.push(item.clone());
        }
        proof {
            let next = results@.take(i + 1 as int);
            assert(next.drop_last() =~= prefix);
            assert(next.last() == results@[i as int]);
            assert(out@.map_values(|c: CategorizedFinding| c@) =~= filtered(next));
        }
        i += 1;
    }
    proof {
        assert(results@.take(n as int) =~= results@);
        lemma_filtered_keeps(results@);
        lemma_filtered_subset(results@);
    }
    CategorizedFindings { items: out }
}

} // verus!
