use vstd::prelude::*;

verus! {

/// The lower-case hex MD5 digest of the UTF-8 bytes of a text.
pub uninterp spec fn md5_hex_of(s: Seq<char>) -> Seq<char>;

/// Relies on `md5::compute` and the lower-hex formatting of its `Digest`:
/// the result depends on the characters of `s` alone.
#[verifier::external_body]
fn md5_hex(s: &str) -> (r: String)
    ensures
        r@ == md5_hex_of(s@),
{
    format!("{:x}", md5::compute(s.as_bytes()))
}

/// The content address of a book: the hex MD5 of its file path, so the
/// same path always yields the same id.
pub fn book_id(path: &str) -> (r: String)
    ensures
        r@ == md5_hex_of(path@),
{
    md5_hex(path)
}

} // verus!
