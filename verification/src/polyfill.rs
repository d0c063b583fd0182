//! Text helpers: contracts for the few standard-library functions that the
//! library calls and that have no specification of their own, and the
//! comparison of byte strings.

use vstd::prelude::*;
use vstd::utf8::*;

verus! {

/// The text that `String::from_utf8_lossy` produces for a byte string.
pub uninterp spec fn utf8_lossy(bytes: Seq<u8>) -> Seq<char>;

/// The text that a byte string stands for: its decoding where it is valid
/// UTF-8, and otherwise the repaired text.
pub open spec fn text_of(bytes: Seq<u8>) -> Seq<char> {
    if valid_utf8(bytes) {
        decode_utf8(bytes)
    } else {
        utf8_lossy(bytes)
    }
}

/// Calls `String::from_utf8_lossy` and takes ownership of the outcome.
///
/// The conversion is a function of the bytes alone. Valid UTF-8 is decoded
/// as it stands; anything else comes back with replacement characters in a
/// way that this contract only names.
#[verifier::external_body]
pub(crate) fn string_from_utf8_lossy(bytes: &[u8]) -> (s: String)
    ensures
        valid_utf8(bytes@) ==> s@ == decode_utf8(bytes@),
        !valid_utf8(bytes@) ==> s@ == utf8_lossy(bytes@),
{
    String::from_utf8_lossy(bytes).into_owned()
}

/// Calls `std::str::from_utf8` and tells whether it accepted the bytes, which
/// it does exactly when they are valid UTF-8.
#[verifier::external_body]
pub(crate) fn is_utf8(bytes: &[u8]) -> (r: bool)
    ensures
        r == valid_utf8(bytes@),
{
    std::str::from_utf8(bytes).is_ok()
}

/// Calls `str::strip_prefix` with a string pattern.
///
/// When the text starts with the prefix the rest is handed out; otherwise
/// nothing is.
#[verifier::external_body]
pub(crate) fn strip_prefix<'a>(s: &'a str, prefix: &str) -> (r: Option<&'a str>)
    ensures
        r matches Some(rest) ==> prefix@.is_prefix_of(s@) && rest@ == s@.skip(prefix@.len() as int),
        r is None ==> !prefix@.is_prefix_of(s@),
{
    s.strip_prefix(prefix)
}

/// A sequence is its prefix followed by what comes after the prefix.
pub proof fn lemma_prefix_and_rest<T>(prefix: Seq<T>, s: Seq<T>)
    requires
        prefix.is_prefix_of(s),
    ensures
        prefix + s.skip(prefix.len() as int) == s,
{
    assert(prefix + s.skip(prefix.len() as int) =~= s);
}

/// Whether two byte strings hold the same bytes.
pub fn bytes_eq(a: &[u8], b: &[u8]) -> (r: bool)
    ensures
        r == (a@ == b@),
{
    if a.len() != b.len() {
        return false;
    }
    let mut i: usize = 0;
    while i < a.len()
        invariant
            a.len() == b.len(),
            i <= a.len(),
            a@.subrange(0, i as int) == b@.subrange(0, i as int),
        decreases a.len() - i,
    {
        if a[i] != b[i] {
            return false;
        }
        assert(a@.subrange(0, i + 1) == a@.subrange(0, i as int).push(a@[i as int]));
        assert(b@.subrange(0, i + 1) == b@.subrange(0, i as int).push(b@[i as int]));
        i += 1;
    }
    assert(a@ == a@.subrange(0, i as int));
    assert(b@ == b@.subrange(0, i as int));
    true
}

} // verus!
