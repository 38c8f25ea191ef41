//! Decision core of a malware triage gateway.
//!
//! Clients submit base64-encoded payloads; an external rule-matching engine
//! turns the decoded bytes into categorized findings.  This crate holds the
//! verified orchestration and decision layer around that engine: the
//! content-addressed response cache, the noise filter that strips irrelevant
//! findings, and the weighted scoring that condenses the remaining findings
//! into a verdict, a severity label and a bounded integer score.

pub mod cache;
pub mod classify;
pub mod content;
pub mod filter;
pub mod finding;
pub mod gateway;
pub mod response;
pub mod text;
