//! Content digests: SHA-256 of a byte string, written as lowercase
//! hexadecimal, and the comparison against an expected digest.

use crate::text::{
    ascii_lower, ascii_upper, eq_ignore_ascii_case, lemma_recased_is_equal,
    str_eq_ignore_ascii_case,
};
use vstd::prelude::*;
use vstd::string::*;

verus! {

/// The SHA-256 digest of `data`, as the `sha2` crate computes it.
pub uninterp spec fn sha256(data: Seq<u8>) -> Seq<u8>;

/// Calls `sha2::Sha256::digest`, the one-shot form of the hasher. The result
/// is a function of the input bytes alone, and has the 32 bytes that the type
/// of the hasher fixes as its output size; nothing else is claimed of it.
#[verifier::external_body]
fn sha256_bytes(data: &[u8]) -> (out: Vec<u8>)
    ensures
        out@ == sha256(data@),
        out@.len() == 32,
{
    <sha2::Sha256 as sha2::Digest>::digest(data).to_vec()
}

/// The lowercase hexadecimal digit of a value below 16.
pub open spec fn hex_digit(n: int) -> char {
    "0123456789abcdef"@[n]
}

/// Lowercase hexadecimal form of `bytes`: two digits for each byte, the high
/// half first.
pub open spec fn hex_lower(bytes: Seq<u8>) -> Seq<char> {
    Seq::new(
        2 * bytes.len(),
        |i: int|
            if i % 2 == 0 {
                hex_digit(bytes[i / 2] as int / 16)
            } else {
                hex_digit(bytes[i / 2] as int % 16)
            },
    )
}

/// The digest of `data` as text: what is compared with a manifest's digest.
pub open spec fn digest_hex(data: Seq<u8>) -> Seq<char> {
    hex_lower(sha256(data))
}

/// An expected digest stands for an actual one when the two are equal up to
/// the case of the hexadecimal letters.
pub open spec fn digest_matches(actual: Seq<char>, expected: Seq<char>) -> bool {
    eq_ignore_ascii_case(actual, expected)
}

/// The message that reports a digest other than the expected one.
pub open spec fn mismatch_message(expected: Seq<char>, actual: Seq<char>) -> Seq<char> {
    "digest mismatch: expected "@ + expected + ", got "@ + actual
}

/// Digest computation is deterministic: the same bytes always give the same
/// digest text.
pub proof fn lemma_digest_deterministic(a: Seq<u8>, b: Seq<u8>)
    requires
        a == b,
    ensures
        digest_hex(a) == digest_hex(b),
{
}

/// The hexadecimal form has two characters for each byte, each of them a
/// digit or a small letter from `a` to `f`.
pub proof fn lemma_hex_lower_digits(bytes: Seq<u8>)
    ensures
        hex_lower(bytes).len() == 2 * bytes.len(),
        forall|i: int|
            0 <= i < hex_lower(bytes).len() ==> {
                let c = #[trigger] hex_lower(bytes)[i];
                ('0' <= c && c <= '9') || ('a' <= c && c <= 'f')
            },
        forall|i: int|
            0 <= i < hex_lower(bytes).len() ==> ascii_lower(#[trigger] hex_lower(bytes)[i])
                == hex_lower(bytes)[i],
{
    reveal_strlit("0123456789abcdef");
    assert forall|i: int| 0 <= i < hex_lower(bytes).len() implies {
        let c = #[trigger] hex_lower(bytes)[i];
        ('0' <= c && c <= '9') || ('a' <= c && c <= 'f')
    } by {
        let b = bytes[i / 2] as int;
        let n = if i % 2 == 0 {
            b / 16
        } else {
            b % 16
        };
        assert(0 <= n < 16);
        assert(hex_lower(bytes)[i] == hex_digit(n));
    }
}

/// The comparison of a digest succeeds whatever the case in which the
/// expected digest is written: `expected` may give each letter of the digest
/// of `data` as a small letter or as a capital.
pub proof fn lemma_digest_any_case(data: Seq<u8>, expected: Seq<char>)
    requires
        expected.len() == digest_hex(data).len(),
        forall|i: int|
            0 <= i < expected.len() ==> {
                ||| #[trigger] expected[i] == digest_hex(data)[i]
                ||| expected[i] == ascii_upper(digest_hex(data)[i])
            },
    ensures
        digest_matches(digest_hex(data), expected),
{
    lemma_recased_is_equal(digest_hex(data), expected);
}

/// Writes `bytes` in lowercase hexadecimal.
pub fn to_hex(bytes: &[u8]) -> (s: String)
    ensures
        s@ == hex_lower(bytes@),
{
    let digits = "0123456789abcdef";
    proof {
        reveal_strlit("0123456789abcdef");
    }
    let mut s = String::new();
    let mut i: usize = 0;
    while i < bytes.len()
        invariant
            i <= bytes.len(),
            digits@ == "0123456789abcdef"@,
            digits@.len() == 16,
            s@ == hex_lower(bytes@.take(i as int)),
        decreases bytes.len() - i,
    {
        let b = bytes[i];
        let hi: usize = (b / 16) as usize;
        let lo: usize = (b % 16) as usize;
        let ghost before = s@;
        s.append(digits.substring_char(hi, hi + 1));
        s.append(digits.substring_char(lo, lo + 1));
        proof {
            let prev = bytes@.take(i as int);
            let next = bytes@.take(i + 1);
            assert(s@ =~= before.push(hex_digit(hi as int)).push(hex_digit(lo as int)));
            assert forall|k: int| 0 <= k < 2 * next.len() implies s@[k] == hex_lower(next)[k] by {
                if k < 2 * i {
                    assert(next[k / 2] == prev[k / 2]);
                } else {
                    assert(next[k / 2] == b);
                }
            }
            assert(s@ =~= hex_lower(next));
        }
        i += 1;
    }
    assert(bytes@.take(i as int) =~= bytes@);
    s
}

/// The SHA-256 digest of `data` in lowercase hexadecimal: 64 characters for
/// the 256 bits of the digest.
pub fn sha256_hex(data: &[u8]) -> (s: String)
    ensures
        s@ == digest_hex(data@),
        s@.len() == 64,
{
    let raw = sha256_bytes(data);
    to_hex(raw.as_slice())
}

/// Compares a computed digest with the expected one, without regard to case.
/// A difference is reported with both digests in the message.
pub fn check_digest(expected: &str, actual: &str) -> (r: Result<(), String>)
    ensures
        r is Ok <==> digest_matches(actual@, expected@),
        r matches Err(m) ==> m@ == mismatch_message(expected@, actual@),
{
    if str_eq_ignore_ascii_case(actual, expected) {
        Ok(())
    } else {
        let mut m = "digest mismatch: expected ".to_owned();
        m.append(expected);
        m.append(", got ");
        m.append(actual);
        Err(m)
    }
}

} // verus!
