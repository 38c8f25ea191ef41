//! Exercises the request decision flow: hashing, caching, decoding, and the
//! assembly of stored responses.

use scanner::cache::ScanCache;
use scanner::classify::{SeverityLabel, Verdict};
use scanner::content::{compute_content_hash, to_hex};
use scanner::finding::{CategorizedFinding, CategorizedFindings, Finding};
use scanner::gateway::{complete_scan, process_request, ScanStep};
use scanner::response::ScanResponse;

fn engine_finding(key: &str, rule: &str, severity: u32) -> CategorizedFinding {
    CategorizedFinding {
        category: key.to_string(),
        finding: Finding {
            category: key.to_string(),
            rule_name: rule.to_string(),
            description: "d".to_string(),
            severity,
        },
    }
}

#[test]
fn content_hash_matches_known_vectors() {
    // SHA-256 of the encoded text as received, not of the decoded bytes.
    assert_eq!(
        compute_content_hash(""),
        "e3b0c44298fc1c149afbf4c8996fb92427ae41e4649b934ca495991b7852b855"
    );
    assert_eq!(
        compute_content_hash("aGVsbG8="),
        "333d6b3a3c1f5db6c9bdda5939b136986d170f4649172a68368d54ecb44c2ff2"
    );
    // The identity is taken over the encoded text, not the decoded bytes:
    // the hash of "aGVsbG8=" is not the SHA-256 of "hello".
    assert_ne!(
        compute_content_hash("aGVsbG8="),
        "2cf24dba5fb0a30e26e83b2ac5b9e29e1b161e5c1fa7425e73043362938b9824"
    );
}

#[test]
fn hex_encoding_is_lower_case_two_digits_per_byte() {
    assert_eq!(to_hex(&[]), "");
    assert_eq!(to_hex(&[0x00, 0xff, 0x1a]), "00ff1a");
}

#[test]
fn valid_payload_needs_a_scan() {
    let cache = ScanCache::new();
    match process_request(&cache, "aGVsbG8=") {
        ScanStep::NeedsScan(pending) => {
            assert_eq!(pending.payload, b"hello".to_vec());
            assert_eq!(
                pending.hash,
                "333d6b3a3c1f5db6c9bdda5939b136986d170f4649172a68368d54ecb44c2ff2"
            );
        }
        _ => panic!("expected a fresh scan"),
    }
}

#[test]
fn malformed_payload_is_rejected_and_never_cached() {
    let cache = ScanCache::new();
    let step = process_request(&cache, "%%%");
    match step {
        ScanStep::Rejected(resp) => {
            assert_eq!(resp.score, 0);
            assert_eq!(resp.verdict, Verdict::Undetected);
            assert_eq!(resp.severity, SeverityLabel::NoSeverity);
            assert!(resp.results.items.is_empty());
            assert_eq!(resp.hash, compute_content_hash("%%%"));
        }
        _ => panic!("expected a rejection"),
    }
    // The cache was only read; the hash of the bad payload is not stored.
    assert!(cache.get(&compute_content_hash("%%%")).is_none());
}

#[test]
fn identical_payload_is_answered_from_the_cache() {
    let mut cache = ScanCache::new();
    let encoded = "aGVsbG8=";
    let mut engine_calls = 0;

    // First submission: a scan is needed, the engine runs once.
    let first = match process_request(&cache, encoded) {
        ScanStep::NeedsScan(pending) => {
            engine_calls += 1;
            let findings = CategorizedFindings {
                items: vec![engine_finding("network", "Beacon", 3)],
            };
            complete_scan(&mut cache, pending.hash, &findings)
        }
        _ => panic!("expected a fresh scan"),
    };

    // Second identical submission: answered from the cache, engine untouched.
    let second = match process_request(&cache, encoded) {
        ScanStep::Cached(resp) => resp,
        _ => panic!("expected the cached response"),
    };
    assert_eq!(engine_calls, 1);
    assert_eq!(first, second);
}

#[test]
fn failed_or_overrun_scan_degrades_to_benign_and_is_cached() {
    // The orchestrator substitutes empty findings when the engine fails or
    // overruns its budget; the degraded response is computed and cached.
    let mut cache = ScanCache::new();
    let pending = match process_request(&cache, "AAAA") {
        ScanStep::NeedsScan(p) => p,
        _ => panic!("expected a fresh scan"),
    };
    let resp = complete_scan(&mut cache, pending.hash, &CategorizedFindings::empty());
    assert_eq!(resp.verdict, Verdict::Benign);
    assert_eq!(resp.severity, SeverityLabel::NoSeverity);
    assert_eq!(resp.score, 0);
    assert!(resp.results.items.is_empty());
    match process_request(&cache, "AAAA") {
        ScanStep::Cached(cached) => assert_eq!(cached, resp),
        _ => panic!("expected the degraded response to be cached"),
    }
}

#[test]
fn scan_response_keeps_only_filtered_findings() {
    let mut cache = ScanCache::new();
    let pending = match process_request(&cache, "AAAA") {
        ScanStep::NeedsScan(p) => p,
        _ => panic!("expected a fresh scan"),
    };
    let findings = CategorizedFindings {
        items: vec![
            engine_finding("executables", "Packed", 4),
            engine_finding("urls", "BadUrl", 1),
        ],
    };
    let resp = complete_scan(&mut cache, pending.hash, &findings);
    assert_eq!(resp.results.items.len(), 1);
    assert_eq!(resp.results.items[0].finding.rule_name, "BadUrl");
}

#[test]
fn latest_store_for_a_hash_wins() {
    let mut cache = ScanCache::new();
    let key = "k".repeat(64);
    let older = ScanResponse {
        results: CategorizedFindings::empty(),
        hash: key.clone(),
        verdict: Verdict::Benign,
        severity: SeverityLabel::NoSeverity,
        score: 0,
    };
    let newer = ScanResponse { score: 5, ..older.clone() };
    cache.put(key.clone(), older);
    cache.put(key.clone(), newer);
    assert_eq!(cache.get(&key).unwrap().score, 5);
}
