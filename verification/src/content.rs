//! Content identity and payload decoding: the canonical cache key is the
//! lower-case hex SHA-256 digest of the payload exactly as received, still in
//! its text encoding.

use vstd::prelude::*;
use vstd::string::{StringSliceAdditionalSpecFns, StringExecFns};
use vstd::utf8::encode_utf8;

verus! {

/// SHA-256 digest of a byte sequence, as the sha2 crate computes it.
pub uninterp spec fn sha256_of(data: Seq<u8>) -> Seq<u8>;

/// What standard base64 decoding yields for a character sequence: the byte
/// sequence for a well-formed input, nothing for a malformed one.
pub uninterp spec fn base64_decoded(s: Seq<char>) -> Option<Seq<u8>>;

/// Relies on sha2::Sha256 through sha2::Digest::digest: the digest is a pure
/// function of the input bytes, 32 bytes long.
#[verifier::external_body]
fn sha256_digest(data: &[u8]) -> (r: Vec<u8>)
    ensures
        r@ == sha256_of(data@),
        r@.len() == 32,
{
    <sha2::Sha256 as sha2::Digest>::digest(data).to_vec()
}

/// Relies on base64's STANDARD engine decode: deterministic, `Ok` exactly on
/// well-formed standard base64 and `Err` otherwise.
#[verifier::external_body]
pub(crate) fn base64_decode(s: &str) -> (r: Option<Vec<u8>>)
    ensures
        match r {
            Option::Some(v) => base64_decoded(s@) == Option::Some(v@),
            Option::None => base64_decoded(s@) is None,
        },
{
    match base64::Engine::decode(&base64::engine::general_purpose::STANDARD, s) {
        Ok(v) => Some(v),
        Err(_) => None,
    }
}

/// The lower-case hex digits of one value below sixteen.
pub open spec fn hex_digit_chars(v: u8) -> Seq<char> {
    if v == 0 { "0"@ }
    else if v == 1 { "1"@ }
    else if v == 2 { "2"@ }
    else if v == 3 { "3"@ }
    else if v == 4 { "4"@ }
    else if v == 5 { "5"@ }
    else if v == 6 { "6"@ }
    else if v == 7 { "7"@ }
    else if v == 8 { "8"@ }
    else if v == 9 { "9"@ }
    else if v == 10 { "a"@ }
    else if v == 11 { "b"@ }
    else if v == 12 { "c"@ }
    else if v == 13 { "d"@ }
    else if v == 14 { "e"@ }
    else { "f"@ }
}

/// Lower-case hex encoding of a byte sequence, two digits per byte, high
/// nibble first.
pub open spec fn hex_chars(data: Seq<u8>) -> Seq<char>
    decreases data.len(),
{
    if data.len() == 0 {
        Seq::empty()
    } else {
        hex_chars(data.drop_last()) + hex_digit_chars((data.last() / 16) as u8)
            + hex_digit_chars((data.last() % 16) as u8)
    }
}

/// Content identity of a submission: lower-case hex of the SHA-256 digest of
/// the payload text exactly as received, before any decoding.
pub open spec fn content_hash(encoded: Seq<char>) -> Seq<char> {
    hex_chars(sha256_of(encode_utf8(encoded)))
}

/// One lower-case hex digit as a string slice.
fn hex_digit_str(v: u8) -> (r: &'static str)
    requires
        v < 16,
    ensures
        r@ == hex_digit_chars(v),
{
    if v == 0 { "0" }
    else if v == 1 { "1" }
    else if v == 2 { "2" }
    else if v == 3 { "3" }
    else if v == 4 { "4" }
    else if v == 5 { "5" }
    else if v == 6 { "6" }
    else if v == 7 { "7" }
    else if v == 8 { "8" }
    else if v == 9 { "9" }
    else if v == 10 { "a" }
    else if v == 11 { "b" }
    else if v == 12 { "c" }
    else if v == 13 { "d" }
    else if v == 14 { "e" }
    else { "f" }
}

/// Lower-case hex encoding of a byte slice.
pub fn to_hex(data: &[u8]) -> (r: String)
    ensures
        r@ == hex_chars(data@),
{
    let n = data.len();
    let mut s = String::new();
    let mut i: usize = 0;
    while i < n
        invariant
            n == data@.len(),
            i <= n,
            s@ == hex_chars(data@.take(i as int)),
        decreases n - i,
    {
        let ghost prefix = data@.take(i as int);
        let b = data[i];
        s.append(hex_digit_str(b / 16));
        s.append(hex_digit_str(b % 16));
        proof {
            let next = data@.take(i + 1 as int);
            assert(next.drop_last() =~= prefix);
            assert(next.last() == data@[i as int]);
        }
        i += 1;
    }
    proof {
        assert(data@.take(n as int) =~= data@);
    }
    s
}

/// The canonical content hash of a submission as received.
pub fn compute_content_hash(encoded: &str) -> (r: String)
    ensures
        r@ == content_hash(encoded@),
{
    let digest = sha256_digest(encoded.as_bytes());
    to_hex(digest.as_slice())
}

} // verus!
