//! The crate's interface to the outside world that Verus cannot check:
//! building a `String` from computed characters, drawing a random sentinel
//! suffix, reading the clock, finding the home directory, and computing a
//! relative path between two absolute paths.
//!
//! Each function here is believed on its contract; everything else in the
//! crate is proved against these contracts.

use vstd::prelude::*;

verus! {

/// The character is a lowercase hexadecimal digit.
pub open spec fn is_lower_hex(c: char) -> bool {
    ('0' <= c && c <= '9') || ('a' <= c && c <= 'f')
}

/// The character is a decimal digit.
pub open spec fn is_digit(c: char) -> bool {
    '0' <= c && c <= '9'
}

/// The character may appear in an RFC 3339 timestamp: digits and the
/// punctuation of the date, time, fraction and offset parts.
pub open spec fn is_rfc3339_char(c: char) -> bool {
    is_digit(c) || c == '-' || c == ':' || c == '.' || c == 'T' || c == 'Z' || c == '+'
}

/// The path string is absolute.
pub open spec fn starts_slash(s: Seq<char>) -> bool {
    s.len() > 0 && s[0] == '/'
}

/// The path string contains a `..` component.
pub open spec fn has_dotdot_component(s: Seq<char>) -> bool {
    exists|i: int|
        {
            &&& crate::text::match_at(s, ".."@, i)
            &&& (i == 0 || s[i - 1] == '/')
            &&& (i + 2 == s.len() || s[i + 2] == '/')
        }
}

/// Relies on `String`'s `FromIterator<char>` implementation: collecting
/// characters yields the string of exactly those characters.
#[verifier::external_body]
pub(crate) fn string_from_chars(v: Vec<char>) -> (s: String)
    ensures
        s@ == v@,
{
    v.into_iter().collect()
}

/// Relies on `uuid::Uuid::new_v4` and its `Display` implementation: the
/// hyphenated form is 36 characters, lowercase hexadecimal digits with
/// hyphens at positions 8, 13, 18 and 23.
#[verifier::external_body]
pub(crate) fn random_uuid_string() -> (r: String)
    ensures
        r@.len() == 36,
        forall|k: int|
            0 <= k < 36 ==> if k == 8 || k == 13 || k == 18 || k == 23 {
                r@[k] == '-'
            } else {
                is_lower_hex(r@[k])
            },
{
    uuid::Uuid::new_v4().to_string()
}

/// Relies on `chrono::DateTime::to_rfc3339_opts` with millisecond
/// precision in UTC: the result is a nonempty RFC 3339 timestamp, so
/// every character is a digit or RFC 3339 punctuation.
#[verifier::external_body]
pub(crate) fn now_rfc3339_millis() -> (r: String)
    ensures
        r@.len() > 0,
        forall|k: int| 0 <= k < r@.len() ==> is_rfc3339_char(r@[k]),
{
    chrono::Utc::now().to_rfc3339_opts(chrono::SecondsFormat::Millis, true)
}

/// Relies on `dirs::home_dir`: when a home directory is reported, its
/// path is nonempty (the implementation filters out an empty `HOME`).
/// A path that is not valid UTF-8 is reported as absent.
#[verifier::external_body]
pub(crate) fn home_dir_string() -> (r: Option<String>)
    ensures
        r matches Some(h) ==> h@.len() > 0,
{
    dirs::home_dir().and_then(|p| p.to_str().map(|s| s.to_string()))
}

/// What `pathdiff::diff_paths` returns for the given path and base.
pub uninterp spec fn diff_of(path: Seq<char>, base: Seq<char>) -> Seq<char>;

/// Relies on `pathdiff::diff_paths`: the relative path from `base` to
/// `path`. The result depends on the two arguments alone. The source
/// shows that when both arguments are absolute and the base has no `..`
/// component, a path is always produced.
#[verifier::external_body]
pub(crate) fn relative_path_between(path: &str, base: &str) -> (r: Option<String>)
    ensures
        r matches Some(s) ==> s@ == diff_of(path@, base@),
        starts_slash(path@) && starts_slash(base@) && !has_dotdot_component(base@) ==> r is Some,
{
    pathdiff::diff_paths(path, base).and_then(|p| p.to_str().map(|s| s.to_string()))
}

} // verus!
