//! Certificate identification for the TLS control channel: the SHA-256
//! fingerprint of a DER certificate, written as colon-separated lower-case
//! hex pairs.

use sha2::{Digest, Sha256};
use vstd::prelude::*;

verus! {

/// The SHA-256 digest of a byte string (FIPS 180-4).
pub uninterp spec fn spec_sha256(data: Seq<u8>) -> Seq<u8>;

/// `Sha256::digest` of the `sha2` crate: the digest of `data`, 32 bytes.
#[verifier::external_body]
fn sha256(data: &[u8]) -> (h: Vec<u8>)
    ensures
        h@ == spec_sha256(data@),
        h@.len() == 32,
{
    Sha256::digest(data).to_vec()
}

pub open spec fn hex_digit(n: int) -> char {
    if n < 10 {
        ((n + 0x30) as u32) as char
    } else {
        ((n - 10 + 0x61) as u32) as char
    }
}

/// A byte as two lower-case hex digits.
pub open spec fn hex_pair(b: u8) -> Seq<char> {
    seq![hex_digit(b as int / 16), hex_digit(b as int % 16)]
}

/// Hex pairs joined by colons.
pub open spec fn colon_hex(bytes: Seq<u8>) -> Seq<char>
    decreases bytes.len(),
{
    if bytes.len() == 0 {
        Seq::empty()
    } else if bytes.len() == 1 {
        hex_pair(bytes[0])
    } else {
        colon_hex(bytes.drop_last()) + seq![':'] + hex_pair(bytes.last())
    }
}

fn hex_digit_exec(n: u8) -> (c: char)
    requires
        n < 16,
    ensures
        c == hex_digit(n as int),
{
    if n < 10 {
        let b: u8 = n + 0x30;
        b as char
    } else {
        let b: u8 = n - 10 + 0x61;
        b as char
    }
}

/// The colon-separated hex form of `bytes`.
pub fn colon_hex_string(bytes: &[u8]) -> (s: String)
    ensures
        s@ == colon_hex(bytes@),
{
    let mut s = String::new();
    let mut i: usize = 0;
    while i < bytes.len()
        invariant
            i <= bytes@.len(),
            s@ == colon_hex(bytes@.take(i as int)),
        decreases bytes@.len() - i,
    {
        let b = bytes[i];
        proof {
            assert(bytes@.take(i + 1).drop_last() =~= bytes@.take(i as int));
            assert(bytes@.take(i + 1).last() == b);
        }
        if i > 0 {
            crate::text::push_char(&mut s, ':');
        }
        crate::text::push_char(&mut s, hex_digit_exec(b / 16));
        crate::text::push_char(&mut s, hex_digit_exec(b % 16));
        proof {
            if i == 0 {
                assert(s@ =~= hex_pair(b));
            } else {
                assert(s@ =~= colon_hex(bytes@.take(i as int)) + seq![':'] + hex_pair(b));
            }
        }
        i += 1;
    }
    assert(bytes@.take(i as int) =~= bytes@);
    s
}

/// `n` hex pairs and `n - 1` colons.
pub proof fn lemma_colon_hex_len(bytes: Seq<u8>)
    requires
        bytes.len() > 0,
    ensures
        colon_hex(bytes).len() == 3 * bytes.len() - 1,
    decreases bytes.len(),
{
    if bytes.len() > 1 {
        lemma_colon_hex_len(bytes.drop_last());
    }
}

/// The fingerprint of a DER certificate: its SHA-256 digest in
/// colon-separated hex, 95 characters long.
pub fn cert_fingerprint(cert_der: &[u8]) -> (fp: String)
    ensures
        fp@ == colon_hex(spec_sha256(cert_der@)),
        fp@.len() == 95,
{
    let h = sha256(cert_der);
    proof {
        lemma_colon_hex_len(h@);
    }
    colon_hex_string(h.as_slice())
}

} // verus!
