//! Request signatures: a SHA-256 HMAC of the raw body under the repository's
//! secret, written `sha256=<lowercase hex>`, and the check of the header that
//! carries it.

use vstd::prelude::*;
use vstd::utf8::encode_utf8;

verus! {

/// The 32-byte SHA-256 HMAC of `message` under `key`.
pub uninterp spec fn hmac_sha256_of(key: Seq<u8>, message: Seq<u8>) -> Seq<u8>;

/// Relies on hmac's `Hmac<Sha256>` (`Mac::new_from_slice`, `update`,
/// `finalize`): every key length is accepted, and the tag is the HMAC of the
/// message, as many bytes as a SHA-256 digest.
#[verifier::external_body]
fn hmac_sha256(key: &[u8], message: &[u8]) -> (r: Vec<u8>)
    ensures
        r@ == hmac_sha256_of(key@, message@),
        r@.len() == 32,
{
    let mut mac = <hmac::Hmac<sha2::Sha256> as hmac::Mac>::new_from_slice(key).unwrap();
    hmac::Mac::update(&mut mac, message);
    hmac::Mac::finalize(mac).into_bytes().to_vec()
}

/// The lowercase hexadecimal digit for `d` (below 16), as an ASCII byte.
pub open spec fn hex_digit(d: u8) -> u8 {
    if d < 10 {
        (48 + d) as u8
    } else {
        (87 + d) as u8
    }
}

/// Each byte of `b` as two lowercase hexadecimal digits, high nibble first.
pub open spec fn lower_hex(b: Seq<u8>) -> Seq<u8>
    decreases b.len(),
{
    if b.len() == 0 {
        Seq::empty()
    } else {
        lower_hex(b.drop_last()) + seq![hex_digit(b.last() / 16), hex_digit(b.last() % 16)]
    }
}

/// The algorithm tag `sha256=` in ASCII.
pub open spec fn signature_prefix() -> Seq<u8> {
    seq![115u8, 104u8, 97u8, 50u8, 53u8, 54u8, 61u8]
}

/// The signature of `body` under `key`: the tag, then the HMAC in lowercase hex.
pub open spec fn signature_of(key: Seq<u8>, body: Seq<u8>) -> Seq<u8> {
    signature_prefix() + lower_hex(hmac_sha256_of(key, body))
}

/// An ASCII upper-case letter turned to lower case; any other byte unchanged.
pub open spec fn ascii_lower(b: u8) -> u8 {
    if 65 <= b <= 90 {
        (b + 32) as u8
    } else {
        b
    }
}

/// The length of the algorithm tag `sha256=`.
pub const PREFIX_LEN: usize = 7;

/// `s` with ASCII upper-case letters after the algorithm tag turned to lower
/// case; the tag's own bytes are kept as they are.
pub open spec fn hex_case_folded(s: Seq<u8>) -> Seq<u8> {
    Seq::new(s.len(), |i: int| if i < PREFIX_LEN { s[i] } else { ascii_lower(s[i]) })
}

/// Whether a presented signature equals the expected one: the tag exactly,
/// the hexadecimal digits in either case.
pub open spec fn header_matches(expected: Seq<u8>, presented: Seq<u8>) -> bool {
    hex_case_folded(presented) == expected
}

/// Why a request's signature was refused.
#[derive(Debug, Clone, Copy, PartialEq, Eq, Structural)]
pub enum SignatureError {
    /// A secret is configured but the request carries no signature.
    HeaderMissing,
    /// The presented signature is not the one computed from the body.
    Mismatch,
}

/// The outcome of checking `header` against `body` under `secret`: an empty
/// secret needs no signature; otherwise the header must be present and match.
pub open spec fn signature_verdict(
    secret: Seq<char>,
    body: Seq<u8>,
    header: Option<Seq<u8>>,
) -> Result<(), SignatureError> {
    if secret.len() == 0 {
        Ok(())
    } else {
        match header {
            None => Err(SignatureError::HeaderMissing),
            Some(h) => if header_matches(signature_of(encode_utf8(secret), body), h) {
                Ok(())
            } else {
                Err(SignatureError::Mismatch)
            },
        }
    }
}

/// Lowercase hex of `bytes`.
pub fn to_lower_hex(bytes: &[u8]) -> (r: Vec<u8>)
    ensures
        r@ == lower_hex(bytes@),
{
    let mut r: Vec<u8> = Vec::new();
    let mut i: usize = 0;
    while i < bytes.len()
        invariant
            i <= bytes@.len(),
            r@ == lower_hex(bytes@.take(i as int)),
        decreases bytes.len() - i,
    {
        assert(bytes@.take(i + 1).drop_last() == bytes@.take(i as int));
        let b = bytes[i];
        let hi = b / 16;
        let lo = b % 16;
        r.push(if hi < 10 { 48 + hi } else { 87 + hi });
        r.push(if lo < 10 { 48 + lo } else { 87 + lo });
        i = i + 1;
    }
    assert(bytes@.take(bytes@.len() as int) == bytes@);
    r
}

/// The signature a sender holding `secret` attaches to `body`:
/// `sha256=` followed by the lowercase hex of the HMAC.
pub fn compute_signature(secret: &str, body: &[u8]) -> (r: Vec<u8>)
    ensures
        r@ == signature_of(encode_utf8(secret@), body@),
{
    let mac = hmac_sha256(secret.as_bytes(), body);
    let mut r: Vec<u8> = vec![115u8, 104u8, 97u8, 50u8, 53u8, 54u8, 61u8];
    let mut hex = to_lower_hex(mac.as_slice());
    r.append(&mut hex);
    r
}

/// Checks the signature header of a request whose raw body is `body`.
/// With an empty `secret` no signature is required.
pub fn verify_signature(secret: &str, body: &[u8], header: &Option<Vec<u8>>) -> (r: Result<
    (),
    SignatureError,
>)
    ensures
        r == signature_verdict(
            secret@,
            body@,
            match header {
                Some(h) => Some(h@),
                None => None,
            },
        ),
{
    if secret.is_empty() {
        return Ok(());
    }
    match header {
        None => Err(SignatureError::HeaderMissing),
        Some(h) => {
            let expected = compute_signature(secret, body);
            let ghost lowered = hex_case_folded(h@);
            if h.len() != expected.len() {
                assert(lowered.len() != expected@.len());
                return Err(SignatureError::Mismatch);
            }
            let mut i: usize = 0;
            while i < h.len()
                invariant
                    i <= h@.len(),
                    h@.len() == expected@.len(),
                    expected@ == signature_of(encode_utf8(secret@), body@),
                    secret@.len() > 0,
                    *header == Some(*h),
                    lowered == hex_case_folded(h@),
                    forall|j: int| 0 <= j < i ==> lowered[j] == expected@[j],
                decreases h.len() - i,
            {
                let b = h[i];
                let lower = if i >= PREFIX_LEN && 65 <= b && b <= 90 { b + 32 } else { b };
                if lower != expected[i] {
                    assert(lowered[i as int] != expected@[i as int]);
                    assert(lowered != expected@);
                    return Err(SignatureError::Mismatch);
                }
                i = i + 1;
            }
            assert(lowered =~= expected@);
            Ok(())
        },
    }
}

proof fn lemma_lower_hex_len(b: Seq<u8>)
    ensures
        lower_hex(b).len() == 2 * b.len(),
    decreases b.len(),
{
    if b.len() > 0 {
        lemma_lower_hex_len(b.drop_last());
    }
}

proof fn lemma_lower_hex_is_lowercase(b: Seq<u8>)
    ensures
        forall|i: int| 0 <= i < lower_hex(b).len() ==> ascii_lower(#[trigger] lower_hex(b)[i]) == lower_hex(b)[i],
    decreases b.len(),
{
    if b.len() > 0 {
        let h = lower_hex(b);
        let p = lower_hex(b.drop_last());
        lemma_lower_hex_is_lowercase(b.drop_last());
        assert forall|i: int| 0 <= i < h.len() implies ascii_lower(#[trigger] h[i]) == h[i] by {
            if i < p.len() {
                assert(h[i] == p[i]);
            }
        }
    }
}

proof fn lemma_lower_hex_injective(a: Seq<u8>, b: Seq<u8>)
    requires
        lower_hex(a) == lower_hex(b),
    ensures
        a == b,
    decreases a.len(),
{
    lemma_lower_hex_len(a);
    lemma_lower_hex_len(b);
    if a.len() > 0 {
        lemma_lower_hex_len(a.drop_last());
        lemma_lower_hex_len(b.drop_last());
        let n = lower_hex(a).len() as int;
        assert(lower_hex(a.drop_last()) == lower_hex(a).take(n - 2));
        assert(lower_hex(b.drop_last()) == lower_hex(b).take(n - 2));
        lemma_lower_hex_injective(a.drop_last(), b.drop_last());
        let x = a.last();
        let y = b.last();
        assert(lower_hex(a)[n - 2] == hex_digit(x / 16));
        assert(lower_hex(b)[n - 2] == hex_digit(y / 16));
        assert(lower_hex(a)[n - 1] == hex_digit(x % 16));
        assert(lower_hex(b)[n - 1] == hex_digit(y % 16));
        assert(x / 16 == y / 16);
        assert(x % 16 == y % 16);
        assert(x == y);
        assert(a == a.drop_last().push(x));
        assert(b == b.drop_last().push(y));
    }
}

proof fn lemma_signature_matches_itself(key: Seq<u8>, body: Seq<u8>)
    ensures
        header_matches(signature_of(key, body), signature_of(key, body)),
{
    let s = signature_of(key, body);
    let mac = hmac_sha256_of(key, body);
    lemma_lower_hex_is_lowercase(mac);
    assert forall|i: int| 0 <= i < s.len() implies ascii_lower(#[trigger] s[i]) == s[i] by {
        if i >= 7 {
            assert(s[i] == lower_hex(mac)[i - 7]);
        }
    }
    assert(hex_case_folded(s) =~= s);
}

/// A body signed with the configured (non-empty) secret passes the check.
pub proof fn lemma_own_signature_accepted(secret: Seq<char>, body: Seq<u8>)
    requires
        secret.len() > 0,
    ensures
        signature_verdict(secret, body, Some(signature_of(encode_utf8(secret), body))) == Ok::<
            (),
            SignatureError,
        >(()),
{
    lemma_signature_matches_itself(encode_utf8(secret), body);
}

/// A body signed with another secret, whose HMAC differs from the one under
/// the configured (non-empty) secret, is refused as a mismatch.
pub proof fn lemma_other_signature_refused(secret: Seq<char>, other: Seq<char>, body: Seq<u8>)
    requires
        secret.len() > 0,
        hmac_sha256_of(encode_utf8(secret), body) != hmac_sha256_of(encode_utf8(other), body),
    ensures
        signature_verdict(secret, body, Some(signature_of(encode_utf8(other), body)))
            == Err::<(), SignatureError>(SignatureError::Mismatch),
{
    let own = signature_of(encode_utf8(secret), body);
    let theirs = signature_of(encode_utf8(other), body);
    lemma_signature_matches_itself(encode_utf8(other), body);
    if header_matches(own, theirs) {
        assert(theirs == own);
        assert(lower_hex(hmac_sha256_of(encode_utf8(secret), body)) == own.subrange(7, own.len() as int));
        assert(lower_hex(hmac_sha256_of(encode_utf8(other), body)) == theirs.subrange(7, theirs.len() as int));
        lemma_lower_hex_injective(
            hmac_sha256_of(encode_utf8(secret), body),
            hmac_sha256_of(encode_utf8(other), body),
        );
    }
}

} // verus!
