//! The response a submission receives: the surviving findings, the content
//! hash, and the triage decision.

use vstd::prelude::*;
use crate::classify::{SeverityLabel, Verdict};
use crate::finding::{CategorizedFindingView, CategorizedFindings};

verus! {

/// The answer stored and returned for one content hash.
#[derive(Debug, PartialEq, Eq)]
pub struct ScanResponse {
    /// The findings that survived the noise filter.
    pub results: CategorizedFindings,
    /// Lower-case hex SHA-256 of the payload as received.
    pub hash: String,
    /// The triage verdict.
    pub verdict: Verdict,
    /// The severity band, one to one with the verdict.
    pub severity: SeverityLabel,
    /// The confidence score, clamped into the verdict's band.
    pub score: u8,
}

/// Mathematical image of a [`ScanResponse`].
pub ghost struct ScanResponseView {
    pub results: Seq<CategorizedFindingView>,
    pub hash: Seq<char>,
    pub verdict: Verdict,
    pub severity: SeverityLabel,
    pub score: u8,
}

impl View for ScanResponse {
    type V = ScanResponseView;

    open spec fn view(&self) -> ScanResponseView {
        ScanResponseView {
            results: self.results@,
            hash: self.hash@,
            verdict: self.verdict,
            severity: self.severity,
            score: self.score,
        }
    }
}

impl Clone for ScanResponse {
    fn clone(&self) -> (r: Self)
        ensures
            r@ == self@,
    {
        ScanResponse {
            results: self.results.clone(),
            hash: self.hash.clone(),
            verdict: self.verdict,
            severity: self.severity,
            score: self.score,
        }
    }
}

} // verus!
