//! Content-hash verification: SHA-256 over the downloaded body, compared
//! case-insensitively against the hex checksum recorded in the index.
use vstd::prelude::*;
use crate::bytes::bytes_eq;

verus! {

/// Lower-case hex digit for a value below sixteen.
pub open spec fn hex_digit(n: u8) -> u8
    recommends
        n < 16,
{
    if n < 10 {
        (48 + n) as u8
    } else {
        (87 + n) as u8
    }
}

/// Lower-case hex rendering of a byte string, two digits per byte.
pub open spec fn hex_of(b: Seq<u8>) -> Seq<u8>
    decreases b.len(),
{
    if b.len() == 0 {
        Seq::empty()
    } else {
        hex_of(b.drop_last()) + seq![hex_digit(b.last() / 16), hex_digit(b.last() % 16)]
    }
}

/// ASCII lower-casing of one byte.
pub open spec fn ascii_lower(b: u8) -> u8 {
    if 65 <= b <= 90 {
        (b + 32) as u8
    } else {
        b
    }
}

/// ASCII lower-casing of a byte string.
pub open spec fn lower_of(s: Seq<u8>) -> Seq<u8> {
    s.map_values(|b: u8| ascii_lower(b))
}

/// Render a byte string in lower-case hex.
pub fn to_hex(b: &[u8]) -> (r: Vec<u8>)
    ensures
        r@ == hex_of(b@),
{
    let mut out: Vec<u8> = Vec::new();
    let mut i: usize = 0;
    while i < b.len()
        invariant
            0 <= i <= b@.len(),
            out@ == hex_of(b@.take(i as int)),
        decreases b@.len() - i,
    {
        let x = b[i];
        let hi = x / 16;
        let lo = x % 16;
        out.push(if hi < 10 { 48 + hi } else { 87 + hi });
        out.push(if lo < 10 { 48 + lo } else { 87 + lo });
        proof {
            assert(b@.take(i + 1).drop_last() =~= b@.take(i as int));
            assert(b@.take(i + 1).last() == b@[i as int]);
            assert(out@ =~= hex_of(b@.take(i as int))
                + seq![hex_digit(b@[i as int] / 16), hex_digit(b@[i as int] % 16)]);
        }
        i += 1;
    }
    assert(b@.take(b@.len() as int) =~= b@);
    out
}

/// Lower-case a byte string.
pub fn to_lower(s: &[u8]) -> (r: Vec<u8>)
    ensures
        r@ == lower_of(s@),
{
    let mut out: Vec<u8> = Vec::new();
    let mut i: usize = 0;
    while i < s.len()
        invariant
            0 <= i <= s@.len(),
            out@ == lower_of(s@.take(i as int)),
        decreases s@.len() - i,
    {
        let x = s[i];
        out.push(if 65 <= x && x <= 90 { x + 32 } else { x });
        proof {
            assert(out@ =~= lower_of(s@.take(i + 1))) by {
                assert(out@.len() == i + 1);
                assert(forall|k: int| 0 <= k < i + 1
                    ==> out@[k] == ascii_lower(#[trigger] s@.take(i + 1)[k]));
            }
        }
        i += 1;
    }
    assert(s@.take(s@.len() as int) =~= s@);
    out
}

/// The SHA-256 digest of a byte string, as the outside hash library computes
/// it; a fixed function of the input alone.
pub uninterp spec fn sha256_of(data: Seq<u8>) -> Seq<u8>;

/// Relies on sha2's `Sha256`: the digest is 32 bytes and depends on the input
/// bytes alone.
#[verifier::external_body]
fn sha256(data: &[u8]) -> (r: Vec<u8>)
    ensures
        r@ == sha256_of(data@),
        r@.len() == 32,
{
    let out = <sha2::Sha256 as sha2::Digest>::digest(data);
    AsRef::<[u8]>::as_ref(&out).to_vec()
}

/// Whether `body` hashes to the checksum `expected_hex`, compared in hex,
/// ignoring ASCII case.
pub open spec fn checksum_ok(body: Seq<u8>, expected_hex: Seq<u8>) -> bool {
    hex_of(sha256_of(body)) == lower_of(expected_hex)
}

/// Hash the body and compare against the expected hex checksum.
pub fn checksum_matches(body: &[u8], expected_hex: &[u8]) -> (r: bool)
    ensures
        r == checksum_ok(body@, expected_hex@),
{
    let digest = sha256(body);
    let actual = to_hex(digest.as_slice());
    let expected = to_lower(expected_hex);
    bytes_eq(actual.as_slice(), expected.as_slice())
}

} // verus!
