//! The request decision layer: how one submission travels from its content
//! hash through the cache, the decoder, the noise filter and the classifier
//! to the response that is stored and returned.
//!
//! The caller runs the external engine between [`process_request`] and
//! [`complete_scan`]; everything the engine's outcome decides is here.  A
//! scan that fails or overruns its time budget degrades to empty findings
//! (fail open), which these functions then score and cache like any other
//! result; a payload that cannot be decoded is answered but never cached.

use vstd::prelude::*;
use crate::cache::ScanCache;
use crate::classify::{calculate_verdict_severity_score, classify_spec, SeverityLabel, Verdict};
use crate::content::{base64_decode, base64_decoded, compute_content_hash, content_hash};
use crate::filter::{filter_relevant_results, filtered};
use crate::finding::CategorizedFindings;
use crate::response::{ScanResponse, ScanResponseView};

verus! {

/// The payload of a submission that still has to be scanned.
pub struct PendingScan {
    /// Content hash of the submission as received.
    pub hash: String,
    /// The decoded bytes the engine is to scan.
    pub payload: Vec<u8>,
}

/// What a submission needs next.
pub enum ScanStep {
    /// The response previously stored for this content hash; no new scan.
    Cached(ScanResponse),
    /// The payload could not be decoded: this response is returned to the
    /// client but never stored.
    Rejected(ScanResponse),
    /// The payload decoded and no response is stored yet: the engine must
    /// scan the bytes, then [`complete_scan`] finishes the request.
    NeedsScan(PendingScan),
}

/// Decides how a submission is handled: answered from the cache, rejected as
/// undecodable, or handed on for a fresh scan.  The cache is only read.
pub fn process_request(cache: &ScanCache, encoded: &str) -> (r: ScanStep)
    ensures
        (r matches ScanStep::Cached(_)) <==> cache@.contains_key(content_hash(encoded@)),
        r matches ScanStep::Cached(resp) ==> resp@ == cache@[content_hash(encoded@)],
        (r matches ScanStep::Rejected(_)) <==> !cache@.contains_key(content_hash(encoded@))
            && base64_decoded(encoded@) is None,
        r matches ScanStep::Rejected(resp) ==> resp@.hash == content_hash(encoded@)
            && resp@.results.len() == 0 && resp@.verdict == Verdict::Undetected
            && resp@.severity == SeverityLabel::NoSeverity && resp@.score == 0,
        (r matches ScanStep::NeedsScan(_)) <==> !cache@.contains_key(content_hash(encoded@))
            && base64_decoded(encoded@) is Some,
        r matches ScanStep::NeedsScan(p) ==> p.hash@ == content_hash(encoded@)
            && Option::Some(p.payload@) == base64_decoded(encoded@),
{
    let hash = compute_content_hash(encoded);
    if let Some(stored) = cache.get(&hash) {
        return ScanStep::Cached(stored.clone());
    }
    match base64_decode(encoded) {
        Some(payload) => ScanStep::NeedsScan(PendingScan { hash, payload }),
        None => ScanStep::Rejected(
            ScanResponse {
                results: CategorizedFindings::empty(),
                hash,
                verdict: Verdict::Undetected,
                severity: SeverityLabel::NoSeverity,
                score: 0,
            },
        ),
    }
}

/// Turns the engine's findings into the response stored for `hash`: strips
/// the noise categories, scores what is left, assembles the response and
/// stores it.  Without findings, after filtering, the submission is benign
/// with score zero; that holds in particular for a failed or overrun scan
/// that degraded to empty findings.
pub fn complete_scan(cache: &mut ScanCache, hash: String, results: &CategorizedFindings) -> (r:
    ScanResponse)
    ensures
        r@.hash == hash@,
        r@.results == filtered(results@),
        (r@.verdict, r@.severity, r@.score) == classify_spec(filtered(results@)),
        filtered(results@).len() == 0 ==> r@.verdict == Verdict::Benign && r@.severity
            == SeverityLabel::NoSeverity && r@.score == 0,
        final(cache)@ == old(cache)@.insert(hash@, r@),
{
    let kept = filter_relevant_results(results);
    let (verdict, severity, score) = calculate_verdict_severity_score(&kept);
    let response = ScanResponse { results: kept, hash: hash.clone(), verdict, severity, score };
    cache.put(hash, response.clone());
    response
}

/// Once a response is stored under its content hash, that hash maps to that
/// very response: a repeated identical submission is answered from the cache
/// with the stored response, and no further scan is needed for it.
pub proof fn lemma_cached_response_stable(
    cache: Map<Seq<char>, ScanResponseView>,
    hash: Seq<char>,
    response: ScanResponseView,
)
    ensures
        cache.insert(hash, response).contains_key(hash),
        cache.insert(hash, response)[hash] == response,
{
}

} // verus!
