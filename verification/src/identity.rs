//! Card identities: a raw UID is hashed with MD5 and the digest is written
//! out as thirty-two lower-case hexadecimal characters.

use vstd::prelude::*;

verus! {

/// The MD5 digest of `data`, as computed by the `md5` crate.
pub uninterp spec fn md5_digest(data: Seq<u8>) -> Seq<u8>;

/// The ASCII code of the lower-case hexadecimal digit for `nibble`.
pub open spec fn hex_digit(nibble: u8) -> u8 {
    if nibble < 10 {
        (48 + nibble) as u8
    } else {
        (87 + nibble) as u8
    }
}

/// Two lower-case hexadecimal characters per byte, high nibble first.
pub open spec fn hex_lower(bytes: Seq<u8>) -> Seq<u8> {
    Seq::new(
        2 * bytes.len(),
        |i: int|
            if i % 2 == 0 {
                hex_digit(bytes[i / 2] / 16)
            } else {
                hex_digit(bytes[i / 2] % 16)
            },
    )
}

/// The identity of the card whose raw UID is `uid`.
pub open spec fn card_identity(uid: Seq<u8>) -> Seq<u8> {
    hex_lower(md5_digest(uid))
}

/// Equal UIDs have equal identities: the identity depends on nothing but
/// the length and the bytes of the UID.
pub proof fn lemma_identity_is_deterministic(a: Seq<u8>, b: Seq<u8>)
    requires
        a.len() == b.len(),
        forall|i: int| 0 <= i < a.len() ==> a[i] == b[i],
    ensures
        card_identity(a) == card_identity(b),
{
    assert(a =~= b);
}

/// Calls `md5::compute` and returns the sixteen bytes of its digest. The
/// digest is a function of the input bytes alone; `md5_digest` names it.
#[verifier::external_body]
fn md5_compute(data: &[u8]) -> (digest: [u8; 16])
    ensures
        digest@ == md5_digest(data@),
{
    md5::compute(data).0
}

fn hex_char(nibble: u8) -> (c: u8)
    requires
        nibble < 16,
    ensures
        c == hex_digit(nibble),
{
    if nibble < 10 {
        48 + nibble
    } else {
        87 + nibble
    }
}

/// Writes a digest out as its thirty-two character identity.
pub fn format_digest(digest: &[u8; 16]) -> (identity: [u8; 32])
    ensures
        identity@ == hex_lower(digest@),
{
    let mut out = [0u8; 32];
    let mut i: usize = 0;
    while i < 16
        invariant
            i <= 16,
            forall|k: int| 0 <= k < 2 * i ==> out@[k] == hex_lower(digest@)[k],
        decreases 16 - i,
    {
        let b = digest[i];
        out[2 * i] = hex_char(b / 16);
        out[2 * i + 1] = hex_char(b % 16);
        i += 1;
    }
    assert(out@ =~= hex_lower(digest@));
    out
}

/// Hashes a raw UID into the digest that travels with a read event.
pub fn digest_uid(uid: &[u8]) -> (digest: [u8; 16])
    ensures
        digest@ == md5_digest(uid@),
{
    md5_compute(uid)
}

/// Normalises a raw UID of any length into its card identity.
pub fn normalize_uid(uid: &[u8]) -> (identity: [u8; 32])
    ensures
        identity@ == card_identity(uid@),
{
    let digest = md5_compute(uid);
    format_digest(&digest)
}

} // verus!
