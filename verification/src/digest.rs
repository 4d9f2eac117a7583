//! MD5 checksums, written as lowercase hexadecimal text.
use vstd::prelude::*;
use crate::text::{hex_lower, push_hex};

verus! {

/// The MD5 digest of `data`, as `md5::compute` returns it.
pub uninterp spec fn md5_digest(data: Seq<u8>) -> Seq<u8>;

/// Calls `md5::compute` and returns the sixteen digest bytes. Claimed: they
/// are `md5_digest` of the input.
#[verifier::external_body]
pub(crate) fn md5_compute(data: &[u8]) -> (d: [u8; 16])
    ensures
        d@ == md5_digest(data@),
{
    md5::compute(data).0
}

/// The checksum text of `data`: its MD5 digest in lowercase hexadecimal, as
/// `format!("{:x}", md5::compute(data))` writes it.
pub open spec fn md5_text(data: Seq<u8>) -> Seq<char> {
    hex_lower(md5_digest(data))
}

/// Computes the checksum text of `data`; it is 32 characters long.
pub fn md5_hex(data: &[u8]) -> (s: String)
    ensures
        s@ == md5_text(data@),
        s@.len() == 32,
{
    let d = md5_compute(data);
    let mut s = String::new();
    push_hex(&mut s, &d);
    assert(s@ =~= hex_lower(d@));
    s
}

} // verus!
