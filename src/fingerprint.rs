//! Content fingerprints of SQL text.
use vstd::prelude::*;

verus! {

/// The lowercase hexadecimal MD5 digest of the UTF-8 encoding of a text.
pub uninterp spec fn md5_hex(text: Seq<char>) -> Seq<char>;

/// Whether a character is a lowercase hexadecimal digit.
pub open spec fn is_lower_hex_digit(c: char) -> bool {
    ('0' <= c && c <= '9') || ('a' <= c && c <= 'f')
}

/// Relies on `md5::compute` over the text's UTF-8 bytes, rendered through the
/// digest's `LowerHex` impl, which writes two lowercase hex digits for each of
/// its 16 bytes.
#[verifier::external_body]
fn md5_lower_hex(text: &str) -> (r: String)
    ensures
        r@ == md5_hex(text@),
        r@.len() == 32,
        forall|i: int| 0 <= i < r@.len() ==> is_lower_hex_digit(#[trigger] r@[i]),
{
    format!("{:x}", md5::compute(text.as_bytes()))
}

/// The fingerprint of a migration's SQL text: its MD5 digest in lowercase hex.
pub fn calculate_hash(text: &String) -> (r: String)
    ensures
        r@ == md5_hex(text@),
        r@.len() == 32,
        forall|i: int| 0 <= i < r@.len() ==> is_lower_hex_digit(#[trigger] r@[i]),
{
    md5_lower_hex(text.as_str())
}

/// The fingerprint depends on the text alone: equal texts, given in separate
/// calls, have equal fingerprints.
pub proof fn lemma_fingerprint_stable(a: String, b: String)
    requires
        a@ == b@,
    ensures
        md5_hex(a@) == md5_hex(b@),
{
}

} // verus!
