//! The calls that leave this crate, each behind a function whose contract is
//! taken on trust.
use vstd::prelude::*;
use vstd::utf8::is_ascii_chars;

verus! {

/// `s` in lower case, as `str::to_lowercase` computes it.
pub uninterp spec fn lowercase(s: Seq<char>) -> Seq<char>;

/// `c`, with an ASCII capital letter replaced by its small one.
pub open spec fn ascii_lowered(c: char) -> char {
    if 'A' <= c <= 'Z' {
        (c as u32 + 32) as char
    } else {
        c
    }
}

/// Calls `str::to_lowercase`, which maps text to lower case by the Unicode
/// tables, independently of any locale. The result is a function of the text
/// alone; of text in ASCII it is the text with each capital letter replaced by
/// its small one. What the tables say of other text is left unsaid.
#[verifier::external_body]
pub(crate) fn to_lowercase(s: &str) -> (res: String)
    ensures
        res@ == lowercase(s@),
        is_ascii_chars(s@) ==> res@ == s@.map_values(|c: char| ascii_lowered(c)),
{
    s.to_lowercase()
}

/// Calls `chrono::Utc::now` and `chrono::DateTime::timestamp_millis`: the
/// milliseconds since 1970-01-01 00:00 UTC on the system's clock. Any two calls
/// may differ. On a native target the count is never negative: `chrono` panics on
/// a clock that is set to before 1970, and that clock is no argument that could
/// be ruled out here.
#[verifier::external_body]
pub(crate) fn timestamp_millis() -> (millis: i64)
    ensures
        millis >= 0,
{
    chrono::Utc::now().timestamp_millis()
}

} // verus!
