//! Webhook authenticity: the two mandatory checks that run before any
//! untrusted body is parsed.
//!
//! The repository side authenticates with HMAC-SHA-256 over the raw body
//! against a shared secret, compared in constant time against the
//! `sha256=<hex>` header value. The platform side authenticates with an
//! Ed25519 signature over the timestamp header concatenated with the raw
//! body. Both fail closed on any missing, malformed or mismatched input.

use vstd::prelude::*;
use vstd::string::StrSliceExecFns;
use vstd::string::StringSliceAdditionalSpecFns;

use crate::strutil::str_eq;

verus! {

pub open spec fn is_hex_digit(c: char) -> bool {
    ||| 48 <= c as u32 && c as u32 <= 57
    ||| 97 <= c as u32 && c as u32 <= 102
    ||| 65 <= c as u32 && c as u32 <= 70
}

pub open spec fn hex_nibble(c: char) -> int {
    if 48 <= c as u32 && c as u32 <= 57 {
        c as u32 - 48
    } else if 97 <= c as u32 && c as u32 <= 102 {
        c as u32 - 87
    } else {
        c as u32 - 55
    }
}

pub open spec fn all_hex(s: Seq<char>) -> bool {
    forall|i: int| 0 <= i < s.len() ==> is_hex_digit(#[trigger] s[i])
}

/// The bytes a hex numeral denotes, two digits to a byte.
pub open spec fn hex_bytes(s: Seq<char>) -> Seq<u8> {
    Seq::new((s.len() / 2) as nat, |i: int| (16 * hex_nibble(s[2 * i]) + hex_nibble(s[2 * i + 1])) as u8)
}

/// Relies on `hex::decode`: succeeds exactly on even-length all-hex-digit
/// input (upper or lower case), yielding one byte per digit pair.
#[verifier::external_body]
fn hex_decode(s: &str) -> (r: Option<Vec<u8>>)
    ensures
        r is Some <==> (s@.len() % 2 == 0 && all_hex(s@)),
        r matches Some(b) ==> b@ == hex_bytes(s@),
{
    hex::decode(s).ok()
}

/// The HMAC-SHA-256 tag over a key and message; a function of the two byte
/// strings alone.
pub uninterp spec fn hmac_sha256_of(key: Seq<u8>, msg: Seq<u8>) -> Seq<u8>;

/// Relies on `crabgraph::mac::hmac_sha256`: the 32-byte HMAC-SHA-256 tag of
/// the message under the key. The underlying `hmac` crate accepts keys of
/// every length, so the call cannot fail.
#[verifier::external_body]
fn hmac_sha256(key: &[u8], message: &[u8]) -> (r: Vec<u8>)
    ensures
        r@ == hmac_sha256_of(key@, message@),
        r@.len() == 32,
{
    match crabgraph::mac::hmac_sha256(key, message) {
        Ok(tag) => tag.to_vec(),
        Err(_) => Vec::new(),
    }
}

/// Whether `sig` is a valid Ed25519 signature by the 32-byte key `pk` over
/// `msg`; a function of the three byte strings alone. A key encoding that is
/// not a valid curve point verifies nothing.
pub uninterp spec fn ed25519_verifies(pk: Seq<u8>, msg: Seq<u8>, sig: Seq<u8>) -> bool;

/// Relies on crabgraph's `Ed25519PublicKey::{from_bytes, verify}` and
/// `Ed25519Signature::from_bytes`: deterministic signature verification over
/// the given bytes, false for a key that is not a valid curve point.
#[verifier::external_body]
fn ed25519_verify(pk: &[u8], message: &[u8], sig: &[u8]) -> (r: bool)
    requires
        pk@.len() == 32,
        sig@.len() == 64,
    ensures
        r == ed25519_verifies(pk@, message@, sig@),
{
    let Ok(key) = crabgraph::asym::Ed25519PublicKey::from_bytes(pk) else {
        return false;
    };
    let Ok(signature) = crabgraph::asym::Ed25519Signature::from_bytes(sig) else {
        return false;
    };
    match key.verify(message, &signature) {
        Ok(valid) => valid,
        Err(_) => false,
    }
}

/// Byte-wise equality computed without data-dependent early exit, so the
/// comparison's timing leaks nothing about the expected tag.
pub fn constant_time_eq(a: &[u8], b: &[u8]) -> (r: bool)
    ensures
        r == (a@ == b@),
{
    if a.len() != b.len() {
        return false;
    }
    let n = a.len();
    let mut acc: u8 = 0;
    let mut i: usize = 0;
    while i < n
        invariant
            i <= n,
            n == a@.len(),
            a@.len() == b@.len(),
            (acc == 0) <==> (forall|k: int| 0 <= k < i ==> a@[k] == b@[k]),
        decreases n - i,
    {
        let x = a[i];
        let y = b[i];
        let d = x ^ y;
        proof {
            assert((x ^ y) == 0 <==> x == y) by (bit_vector);
            assert((acc | d) == 0 <==> (acc == 0 && d == 0)) by (bit_vector);
        }
        acc = acc | d;
        i = i + 1;
    }
    if acc == 0 {
        proof {
            assert(a@ =~= b@);
        }
        true
    } else {
        false
    }
}

/// The repository-side authenticity predicate: the header holds
/// `sha256=<hex>`, and the hex decodes to exactly the HMAC-SHA-256 tag of
/// the raw body under the shared secret's UTF-8 bytes.
pub open spec fn spec_github_sig_ok(
    secret: Seq<char>,
    payload: Seq<u8>,
    signature: Seq<char>,
) -> bool {
    &&& signature.len() >= 7
    &&& signature.subrange(0, 7) == "sha256="@
    &&& signature.skip(7).len() % 2 == 0
    &&& all_hex(signature.skip(7))
    &&& hex_bytes(signature.skip(7)) == hmac_sha256_of(vstd::utf8::encode_utf8(secret), payload)
}

/// Verify a repository webhook body against its signature header; true
/// exactly when the header is well-formed and the keyed hash matches.
pub fn verify_github_signature(secret: &str, payload: &[u8], signature: &str) -> (r: bool)
    ensures
        r == spec_github_sig_ok(secret@, payload@, signature@),
{
    proof {
        reveal_strlit("sha256=");
    }
    let sig_len = signature.unicode_len();
    if sig_len < 7 {
        return false;
    }
    let prefix = signature.substring_char(0, 7);
    if !str_eq(prefix, "sha256=") {
        return false;
    }
    let hex_part = signature.substring_char(7, sig_len);
    proof {
        assert(hex_part@ =~= signature@.skip(7));
    }
    let decoded = hex_decode(hex_part);
    let expected = match decoded {
        Some(b) => b,
        None => {
            return false;
        }
    };
    let computed = hmac_sha256(secret.as_bytes(), payload);
    constant_time_eq(computed.as_slice(), expected.as_slice())
}

/// The platform-side authenticity predicate: both hex fields decode to the
/// right lengths, and the Ed25519 signature verifies over the timestamp
/// bytes concatenated with the raw body.
pub open spec fn spec_discord_sig_ok(
    pk_hex: Seq<char>,
    timestamp: Seq<char>,
    body: Seq<u8>,
    sig_hex: Seq<char>,
) -> bool {
    &&& pk_hex.len() % 2 == 0 && all_hex(pk_hex) && hex_bytes(pk_hex).len() == 32
    &&& sig_hex.len() % 2 == 0 && all_hex(sig_hex) && hex_bytes(sig_hex).len() == 64
    &&& ed25519_verifies(
        hex_bytes(pk_hex),
        vstd::utf8::encode_utf8(timestamp) + body,
        hex_bytes(sig_hex),
    )
}

/// Verify a platform interaction body against its signature and timestamp
/// headers; true exactly when key and signature are well-formed hex of the
/// right lengths and the signature verifies.
pub fn verify_discord_signature(
    public_key_hex: &str,
    timestamp: &str,
    body: &[u8],
    signature_hex: &str,
) -> (r: bool)
    ensures
        r == spec_discord_sig_ok(public_key_hex@, timestamp@, body@, signature_hex@),
{
    let pk = match hex_decode(public_key_hex) {
        Some(b) => b,
        None => {
            return false;
        }
    };
    if pk.len() != 32 {
        return false;
    }
    let sig = match hex_decode(signature_hex) {
        Some(b) => b,
        None => {
            return false;
        }
    };
    if sig.len() != 64 {
        return false;
    }
    let mut message = timestamp.as_bytes_vec();
    let ghost ts_bytes = message@;
    let mut i: usize = 0;
    while i < body.len()
        invariant
            i <= body@.len(),
            message@ == ts_bytes + body@.subrange(0, i as int),
        decreases body@.len() - i,
    {
        message.push(body[i]);
        proof {
            assert((ts_bytes + body@.subrange(0, i as int)).push(body@[i as int]) =~= ts_bytes
                + body@.subrange(0, i + 1 as int));
        }
        i = i + 1;
    }
    proof {
        assert(message@ =~= ts_bytes + body@);
    }
    ed25519_verify(pk.as_slice(), message.as_slice(), sig.as_slice())
}

} // verus!
