//! Hex digests of text.
use vstd::prelude::*;
use vstd::utf8::encode_utf8;
use crate::text::{hex_lower, hex_lower_exec};
use crate::outside::{md5_digest, md5_compute, string_from_chars};

verus! {

/// The lower-case hex MD5 of the UTF-8 of `s`.
pub open spec fn md5_hex_of(s: Seq<char>) -> Seq<char> {
    hex_lower(md5_digest(encode_utf8(s)))
}

pub fn md5_hex(input: &str) -> (r: String)
    ensures
        r@ == md5_hex_of(input@),
        r@.len() == 32,
{
    let digest = md5_compute(input.as_bytes());
    let hex = hex_lower_exec(digest.as_slice());
    proof {
        crate::text::lemma_hex_lower_len(digest@);
    }
    string_from_chars(hex.as_slice())
}

} // verus!
