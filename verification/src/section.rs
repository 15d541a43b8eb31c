//! The section protocol: recognizing and reading the delimited metadata
//! block that the guard embeds in a configuration file.
//!
//! A section is a run of marker and field lines.  Reading is tolerant:
//! a file without both marker tokens has no section; a field line may
//! appear anywhere; when a field line is repeated, the last one wins,
//! which mirrors a line-by-line scan that overwrites earlier finds.

use vstd::prelude::*;
use crate::decimal::{dec_val, digit_val};
use crate::errors::ConfGuardError;
use crate::text::{chars_of, contains_seq, find_char_from, find_from, is_match_at, match_at,
    rfind_char_in, subvec};
use crate::trusted::{is_digit, string_from_chars};

verus! {

// ---------------------------------------------------------------------
// The literal lines and patterns of the section grammar.
// ---------------------------------------------------------------------

pub open spec fn start_token() -> Seq<char> {
    "confguard start"@
}

pub open spec fn end_token() -> Seq<char> {
    "confguard end"@
}

pub open spec fn start_marker() -> Seq<char> {
    "#------------------------------- confguard start --------------------------------"@
}

pub open spec fn end_marker() -> Seq<char> {
    "#-------------------------------- confguard end ---------------------------------"@
}

pub open spec fn true_pat() -> Seq<char> {
    "# config.relative = true"@
}

pub open spec fn false_pat() -> Seq<char> {
    "# config.relative = false"@
}

pub open spec fn ver_prefix() -> Seq<char> {
    "# config.version = "@
}

pub open spec fn sentinel_prefix() -> Seq<char> {
    "# state.sentinel = '"@
}

pub open spec fn timestamp_prefix() -> Seq<char> {
    "# state.timestamp = '"@
}

pub open spec fn sourcedir_prefix() -> Seq<char> {
    "# state.sourceDir = '"@
}

// ---------------------------------------------------------------------
// Lines.
// ---------------------------------------------------------------------

/// Position `i` begins a line of `s`.
pub open spec fn line_start(s: Seq<char>, i: int) -> bool {
    0 <= i <= s.len() && (i == 0 || s[i - 1] == '\n')
}

/// The line beginning at `i` extends to `j`: no newline in between, and
/// `j` is a newline or the end of the text.
pub open spec fn is_line_at(s: Seq<char>, i: int, j: int) -> bool {
    &&& line_start(s, i)
    &&& i <= j <= s.len()
    &&& (j == s.len() || s[j] == '\n')
    &&& forall|k: int| i <= k < j ==> s[k] != '\n'
}

/// A line's end is determined by its start.
pub proof fn lemma_line_end_unique(s: Seq<char>, i: int, j1: int, j2: int)
    requires
        is_line_at(s, i, j1),
        is_line_at(s, i, j2),
    ensures
        j1 == j2,
{
    if j1 < j2 {
        assert(s[j1] != '\n');
    }
    if j2 < j1 {
        assert(s[j2] != '\n');
    }
}

/// Lines do not overlap: an earlier line ends before a later one begins.
pub proof fn lemma_line_order(s: Seq<char>, a1: int, b1: int, a2: int, b2: int)
    requires
        is_line_at(s, a1, b1),
        is_line_at(s, a2, b2),
        a1 < a2,
    ensures
        b1 < a2,
{
    if b1 >= a2 {
        assert(s[a2 - 1] == '\n');
        assert(a1 <= a2 - 1 < b1);
    }
}

// ---------------------------------------------------------------------
// The relative flag field.
// ---------------------------------------------------------------------

/// A line at `i` carries the relative flag.
pub open spec fn rel_match(s: Seq<char>, i: int) -> bool {
    line_start(s, i) && (match_at(s, true_pat(), i) || match_at(s, false_pat(), i))
}

/// The flag value carried by the line at `i`.
pub open spec fn rel_value(s: Seq<char>, i: int) -> bool {
    match_at(s, true_pat(), i)
}

/// `r` is the relative flag gathered from all lines starting before `b`,
/// the last carrying line deciding.
pub open spec fn rel_result_b(s: Seq<char>, b: int, r: Option<bool>) -> bool {
    match r {
        Some(x) => exists|i: int|
            {
                &&& #[trigger] rel_match(s, i)
                &&& i < b
                &&& x == rel_value(s, i)
                &&& forall|i2: int| i < i2 < b ==> !rel_match(s, i2)
            },
        None => forall|i: int| 0 <= i < b ==> !rel_match(s, i),
    }
}

pub open spec fn rel_result(s: Seq<char>, r: Option<bool>) -> bool {
    rel_result_b(s, s.len() as int + 1, r)
}

// ---------------------------------------------------------------------
// The version field.
// ---------------------------------------------------------------------

/// A line at `i` carries a version: the prefix is followed by at least
/// one digit.
pub open spec fn ver_start(s: Seq<char>, i: int) -> bool {
    &&& line_start(s, i)
    &&& match_at(s, ver_prefix(), i)
    &&& i + ver_prefix().len() < s.len()
    &&& is_digit(s[i + ver_prefix().len()])
}

/// `[d, e)` is a maximal run of digits.
pub open spec fn digits_run(s: Seq<char>, d: int, e: int) -> bool {
    &&& 0 <= d <= e <= s.len()
    &&& forall|k: int| d <= k < e ==> is_digit(s[k])
    &&& (e == s.len() || !is_digit(s[e]))
}

/// A version line at `i` whose digit run ends at `e`.
pub open spec fn ver_line(s: Seq<char>, i: int, e: int) -> bool {
    ver_start(s, i) && digits_run(s, i + ver_prefix().len(), e)
}

/// The number carried by the version line at `i` with run end `e`.
pub open spec fn ver_value(s: Seq<char>, i: int, e: int) -> int {
    dec_val(s.subrange(i + ver_prefix().len(), e))
}

/// A maximal digit run from a fixed start has a unique end.
pub proof fn lemma_digits_run_unique(s: Seq<char>, d: int, e1: int, e2: int)
    requires
        digits_run(s, d, e1),
        digits_run(s, d, e2),
    ensures
        e1 == e2,
{
    if e1 < e2 {
        assert(is_digit(s[e1]));
    }
    if e2 < e1 {
        assert(is_digit(s[e2]));
    }
}

/// `r` is the version gathered from all lines starting before `b`.
pub open spec fn ver_result_b(s: Seq<char>, b: int, r: Option<int>) -> bool {
    match r {
        Some(x) => exists|i: int, e: int|
            {
                &&& #[trigger] ver_line(s, i, e)
                &&& i < b
                &&& x == ver_value(s, i, e)
                &&& forall|i2: int| i < i2 < b ==> !ver_start(s, i2)
            },
        None => forall|i: int| 0 <= i < b ==> !ver_start(s, i),
    }
}

pub open spec fn ver_result(s: Seq<char>, r: Option<int>) -> bool {
    ver_result_b(s, s.len() as int + 1, r)
}

/// Some version line starting before `b` carries a number too large for
/// the version field.
pub open spec fn ver_overflow_b(s: Seq<char>, b: int) -> bool {
    exists|i: int, e: int|
        {
            &&& #[trigger] ver_line(s, i, e)
            &&& i < b
            &&& ver_value(s, i, e) > i64::MAX
        }
}

pub open spec fn ver_overflow(s: Seq<char>) -> bool {
    ver_overflow_b(s, s.len() as int + 1)
}

// ---------------------------------------------------------------------
// The quoted fields: sentinel, timestamp, source directory.
// ---------------------------------------------------------------------

/// The line `[i, j)` starts with `p` and closes a nonempty value with
/// the last single quote of the line at `q`.
pub open spec fn quoted_line(s: Seq<char>, p: Seq<char>, i: int, j: int, q: int) -> bool {
    &&& is_line_at(s, i, j)
    &&& match_at(s, p, i)
    &&& i + p.len() < q < j
    &&& s[q] == '\''
    &&& forall|k: int| q < k < j ==> s[k] != '\''
}

/// A line at `i` carries a value for the quoted field with prefix `p`.
pub open spec fn quoted_start(s: Seq<char>, p: Seq<char>, i: int) -> bool {
    exists|j: int, q: int| quoted_line(s, p, i, j, q)
}

/// The value carried by a quoted field line.
pub open spec fn quoted_value(s: Seq<char>, p: Seq<char>, i: int, q: int) -> Seq<char> {
    s.subrange(i + p.len(), q)
}

/// `r` is the value of the quoted field with prefix `p`, gathered from
/// all lines starting before `b`.
pub open spec fn quoted_result_b(s: Seq<char>, p: Seq<char>, b: int, r: Option<Seq<char>>) -> bool {
    match r {
        Some(v) => exists|i: int, j: int, q: int|
            {
                &&& #[trigger] quoted_line(s, p, i, j, q)
                &&& i < b
                &&& v == quoted_value(s, p, i, q)
                &&& forall|i2: int| i < i2 < b ==> !quoted_start(s, p, i2)
            },
        None => forall|i: int| 0 <= i < b ==> !quoted_start(s, p, i),
    }
}

pub open spec fn quoted_result(s: Seq<char>, p: Seq<char>, r: Option<Seq<char>>) -> bool {
    quoted_result_b(s, p, s.len() as int + 1, r)
}

/// The text determines the relative flag it carries: two readings
/// agree.
pub proof fn lemma_rel_result_unique(s: Seq<char>, x1: bool, x2: bool)
    requires
        rel_result(s, Some(x1)),
        rel_result(s, Some(x2)),
    ensures
        x1 == x2,
{
    let b = s.len() as int + 1;
    let i1 = choose|i: int|
        {
            &&& #[trigger] rel_match(s, i)
            &&& i < b
            &&& x1 == rel_value(s, i)
            &&& forall|i2: int| i < i2 < b ==> !rel_match(s, i2)
        };
    let i2 = choose|i: int|
        {
            &&& #[trigger] rel_match(s, i)
            &&& i < b
            &&& x2 == rel_value(s, i)
            &&& forall|i3: int| i < i3 < b ==> !rel_match(s, i3)
        };
    if i1 < i2 {
        assert(!rel_match(s, i2));
    }
    if i2 < i1 {
        assert(!rel_match(s, i1));
    }
}

/// The text determines the version it carries.
pub proof fn lemma_ver_result_unique(s: Seq<char>, x1: int, x2: int)
    requires
        ver_result(s, Some(x1)),
        ver_result(s, Some(x2)),
    ensures
        x1 == x2,
{
    let b = s.len() as int + 1;
    let (i1, e1) = choose|i: int, e: int|
        {
            &&& #[trigger] ver_line(s, i, e)
            &&& i < b
            &&& x1 == ver_value(s, i, e)
            &&& forall|i2: int| i < i2 < b ==> !ver_start(s, i2)
        };
    let (i2, e2) = choose|i: int, e: int|
        {
            &&& #[trigger] ver_line(s, i, e)
            &&& i < b
            &&& x2 == ver_value(s, i, e)
            &&& forall|i3: int| i < i3 < b ==> !ver_start(s, i3)
        };
    if i1 < i2 {
        assert(!ver_start(s, i2));
    }
    if i2 < i1 {
        assert(!ver_start(s, i1));
    }
    lemma_digits_run_unique(s, i1 + ver_prefix().len(), e1, e2);
}

/// The text determines each quoted field it carries.
pub proof fn lemma_quoted_result_unique(s: Seq<char>, p: Seq<char>, v1: Seq<char>, v2: Seq<char>)
    requires
        quoted_result(s, p, Some(v1)),
        quoted_result(s, p, Some(v2)),
    ensures
        v1 == v2,
{
    let b = s.len() as int + 1;
    let (i1, j1, q1) = choose|i: int, j: int, q: int|
        {
            &&& #[trigger] quoted_line(s, p, i, j, q)
            &&& i < b
            &&& v1 == quoted_value(s, p, i, q)
            &&& forall|i2: int| i < i2 < b ==> !quoted_start(s, p, i2)
        };
    let (i2, j2, q2) = choose|i: int, j: int, q: int|
        {
            &&& #[trigger] quoted_line(s, p, i, j, q)
            &&& i < b
            &&& v2 == quoted_value(s, p, i, q)
            &&& forall|i3: int| i < i3 < b ==> !quoted_start(s, p, i3)
        };
    if i1 < i2 {
        assert(!quoted_start(s, p, i2));
    }
    if i2 < i1 {
        assert(!quoted_start(s, p, i1));
    }
    lemma_line_end_unique(s, i1, j1, j2);
    if q1 < q2 {
        assert(s[q2] != '\'');
    }
    if q2 < q1 {
        assert(s[q1] != '\'');
    }
}

// ---------------------------------------------------------------------
// The parse result.
// ---------------------------------------------------------------------

/// The fields recorded in a section.  `source_dir` is kept exactly as
/// written in the file (home-relative); expanding it is the caller's
/// business.  A section is valid without its timestamp line, so the
/// timestamp alone is optional.
pub struct SectionFields {
    pub is_relative: bool,
    pub version: i64,
    pub sentinel: String,
    pub timestamp: Option<String>,
    pub source_dir: String,
}

/// Both marker tokens occur somewhere in the text.
pub open spec fn has_markers(s: Seq<char>) -> bool {
    contains_seq(s, start_token()) && contains_seq(s, end_token())
}

/// What `parse_section` returns on text `s`: absence without both
/// marker tokens, an error exactly on an oversized version number, and
/// otherwise the fields, each decided by its last carrying line, with
/// absence when any of the four required fields has no carrying line.
/// The timestamp is read when present but is not required.
pub open spec fn parse_outcome(
    s: Seq<char>,
    r: Result<Option<SectionFields>, ConfGuardError>,
) -> bool {
    if !has_markers(s) {
        r matches Ok(o) && o is None
    } else if ver_overflow(s) {
        r matches Err(e) && e is Internal
    } else {
        match r {
            Ok(o) => match o {
                Some(f) => {
                    &&& rel_result(s, Some(f.is_relative))
                    &&& ver_result(s, Some(f.version as int))
                    &&& quoted_result(s, sentinel_prefix(), Some(f.sentinel@))
                    &&& quoted_result(s, timestamp_prefix(), opt_str_view(f.timestamp))
                    &&& quoted_result(s, sourcedir_prefix(), Some(f.source_dir@))
                },
                None => {
                    ||| rel_result(s, None)
                    ||| ver_result(s, None)
                    ||| quoted_result(s, sentinel_prefix(), None)
                    ||| quoted_result(s, sourcedir_prefix(), None)
                },
            },
            Err(_) => false,
        }
    }
}

pub open spec fn opt_str_view(o: Option<String>) -> Option<Seq<char>> {
    match o {
        Some(v) => Some(v@),
        None => None,
    }
}

pub open spec fn opt_chars_view(o: Option<Vec<char>>) -> Option<Seq<char>> {
    match o {
        Some(v) => Some(v@),
        None => None,
    }
}

pub open spec fn opt_int_view(o: Option<i64>) -> Option<int> {
    match o {
        Some(x) => Some(x as int),
        None => None,
    }
}

// ---------------------------------------------------------------------
// How one processed line advances each gathered field.
// ---------------------------------------------------------------------

/// Advancing the bound past the line at `pos` keeps the relative flag
/// gathered so far correct.
proof fn lemma_rel_step(s: Seq<char>, pos: int, b2: int, r: Option<bool>)
    requires
        line_start(s, pos),
        pos < b2,
        forall|i2: int| pos < i2 < b2 ==> !line_start(s, i2),
        rel_match(s, pos) ==> r == Some(rel_value(s, pos)),
        !rel_match(s, pos) ==> rel_result_b(s, pos, r),
    ensures
        rel_result_b(s, b2, r),
{
    if rel_match(s, pos) {
        assert(forall|i2: int| pos < i2 < b2 ==> !rel_match(s, i2));
    } else {
        match r {
            Some(x) => {
                let i = choose|i: int|
                    {
                        &&& #[trigger] rel_match(s, i)
                        &&& i < pos
                        &&& x == rel_value(s, i)
                        &&& forall|i2: int| i < i2 < pos ==> !rel_match(s, i2)
                    };
                assert(forall|i2: int| i < i2 < b2 ==> !rel_match(s, i2));
            },
            None => {},
        }
    }
}

/// Advancing the bound past the line at `pos` keeps the version
/// gathered so far correct, and keeps overflow absent.
proof fn lemma_ver_step(s: Seq<char>, pos: int, b2: int, r: Option<int>)
    requires
        line_start(s, pos),
        pos < b2,
        forall|i2: int| pos < i2 < b2 ==> !line_start(s, i2),
        ver_start(s, pos) ==> exists|e: int|
            {
                &&& #[trigger] ver_line(s, pos, e)
                &&& r == Some(ver_value(s, pos, e))
                &&& ver_value(s, pos, e) <= i64::MAX
            },
        !ver_start(s, pos) ==> ver_result_b(s, pos, r),
        !ver_overflow_b(s, pos),
    ensures
        ver_result_b(s, b2, r),
        !ver_overflow_b(s, b2),
{
    assert(forall|i2: int| pos < i2 < b2 ==> !ver_start(s, i2));
    if ver_start(s, pos) {
        let e = choose|e: int|
            {
                &&& #[trigger] ver_line(s, pos, e)
                &&& r == Some(ver_value(s, pos, e))
                &&& ver_value(s, pos, e) <= i64::MAX
            };
        if ver_overflow_b(s, b2) {
            let (i2, e2) = choose|i2: int, e2: int|
                {
                    &&& #[trigger] ver_line(s, i2, e2)
                    &&& i2 < b2
                    &&& ver_value(s, i2, e2) > i64::MAX
                };
            if i2 == pos {
                lemma_digits_run_unique(s, pos + ver_prefix().len(), e, e2);
            }
        }
    } else {
        match r {
            Some(x) => {
                let (i, e) = choose|i: int, e: int|
                    {
                        &&& #[trigger] ver_line(s, i, e)
                        &&& i < pos
                        &&& x == ver_value(s, i, e)
                        &&& forall|i2: int| i < i2 < pos ==> !ver_start(s, i2)
                    };
                assert(ver_line(s, i, e) && i < b2 && x == ver_value(s, i, e));
                assert(forall|i2: int| i < i2 < b2 ==> !ver_start(s, i2));
            },
            None => {},
        }
        if ver_overflow_b(s, b2) {
            let (i2, e2) = choose|i2: int, e2: int|
                {
                    &&& #[trigger] ver_line(s, i2, e2)
                    &&& i2 < b2
                    &&& ver_value(s, i2, e2) > i64::MAX
                };
        }
    }
}

/// Advancing the bound past the line at `pos` keeps a quoted field
/// gathered so far correct.
proof fn lemma_quoted_step(s: Seq<char>, p: Seq<char>, pos: int, b2: int, r: Option<Seq<char>>)
    requires
        line_start(s, pos),
        pos < b2,
        forall|i2: int| pos < i2 < b2 ==> !line_start(s, i2),
        quoted_start(s, p, pos) ==> exists|j: int, q: int|
            {
                &&& #[trigger] quoted_line(s, p, pos, j, q)
                &&& r == Some(quoted_value(s, p, pos, q))
            },
        !quoted_start(s, p, pos) ==> quoted_result_b(s, p, pos, r),
    ensures
        quoted_result_b(s, p, b2, r),
{
    assert forall|i2: int| pos < i2 < b2 implies !quoted_start(s, p, i2) by {
        if quoted_start(s, p, i2) {
            let (j, q) = choose|j: int, q: int| quoted_line(s, p, i2, j, q);
            assert(line_start(s, i2));
        }
    }
    if quoted_start(s, p, pos) {
        let (j, q) = choose|j: int, q: int|
            {
                &&& #[trigger] quoted_line(s, p, pos, j, q)
                &&& r == Some(quoted_value(s, p, pos, q))
            };
    } else {
        match r {
            Some(x) => {
                let (i, j, q) = choose|i: int, j: int, q: int|
                    {
                        &&& #[trigger] quoted_line(s, p, i, j, q)
                        &&& i < pos
                        &&& x == quoted_value(s, p, i, q)
                        &&& forall|i2: int| i < i2 < pos ==> !quoted_start(s, p, i2)
                    };
                assert(forall|i2: int| i < i2 < b2 ==> !quoted_start(s, p, i2));
            },
            None => {},
        }
    }
}

// ---------------------------------------------------------------------
// Per-line field tests.
// ---------------------------------------------------------------------

/// Reads the relative flag from the line starting at `pos`.
fn line_rel(v: &Vec<char>, pos: usize) -> (r: Option<bool>)
    requires
        pos <= v@.len(),
    ensures
        match r {
            Some(x) => (match_at(v@, true_pat(), pos as int) || match_at(
                v@,
                false_pat(),
                pos as int,
            )) && x == rel_value(v@, pos as int),
            None => !match_at(v@, true_pat(), pos as int) && !match_at(
                v@,
                false_pat(),
                pos as int,
            ),
        },
{
    let len: usize = v.len();
    let tp: Vec<char> = chars_of("# config.relative = true");
    let fp: Vec<char> = chars_of("# config.relative = false");
    if tp.len() <= len - pos && is_match_at(v, &tp, pos) {
        return Some(true);
    }
    if fp.len() <= len - pos && is_match_at(v, &fp, pos) {
        return Some(false);
    }
    None
}

/// Reads the version number from the line starting at `pos`; reports an
/// error when the digits exceed the version field's range.
fn line_ver(v: &Vec<char>, pos: usize) -> (r: Result<Option<i64>, ()>)
    requires
        line_start(v@, pos as int),
    ensures
        match r {
            Ok(o) => match o {
                Some(x) => exists|e: int|
                    {
                        &&& #[trigger] ver_line(v@, pos as int, e)
                        &&& x == ver_value(v@, pos as int, e)
                        &&& x <= i64::MAX
                    },
                None => !ver_start(v@, pos as int),
            },
            Err(_) => exists|e: int|
                #[trigger] ver_line(v@, pos as int, e) && ver_value(v@, pos as int, e)
                    > i64::MAX,
        },
{
    let len: usize = v.len();
    let vp: Vec<char> = chars_of("# config.version = ");
    let plen: usize = vp.len();
    if plen > len - pos || !is_match_at(v, &vp, pos) {
        return Ok(None);
    }
    let ds: usize = pos + plen;
    if ds >= len {
        return Ok(None);
    }
    let c0: char = v[ds];
    if !('0' <= c0 && c0 <= '9') {
        return Ok(None);
    }
    // find the end of the digit run
    let mut e: usize = ds;
    while e < len && '0' <= v[e] && v[e] <= '9'
        invariant
            ds <= e <= len,
            len == v@.len(),
            forall|k: int| ds <= k < e ==> is_digit(v@[k]),
        decreases len - e,
    {
        e = e + 1;
    }
    proof {
        assert(digits_run(v@, ds as int, e as int));
        assert(ver_start(v@, pos as int));
        assert(ver_line(v@, pos as int, e as int));
    }
    // accumulate the value, watching for the version field's range
    let ghost run: Seq<char> = v@.subrange(ds as int, e as int);
    proof {
        assert(forall|kk: int| 0 <= kk < run.len() ==> is_digit(#[trigger] run[kk])) by {
            assert(forall|kk: int| 0 <= kk < run.len() ==> run[kk] == v@[ds + kk]);
        }
    }
    let mut acc: u64 = 0;
    let mut k: usize = ds;
    while k < e
        invariant
            ds <= k <= e <= len,
            len == v@.len(),
            ds == pos + ver_prefix().len(),
            ver_line(v@, pos as int, e as int),
            run == v@.subrange(ds as int, e as int),
            forall|kk: int| 0 <= kk < run.len() ==> is_digit(#[trigger] run[kk]),
            forall|kk: int| ds <= kk < e ==> is_digit(v@[kk]),
            acc <= i64::MAX as u64,
            acc as int == dec_val(v@.subrange(ds as int, k as int)),
        decreases e - k,
    {
        let c: char = v[k];
        let d: u64 = (c as u32 - 48) as u64;
        proof {
            assert(is_digit(v@[k as int]));
            assert(d < 10);
            assert(v@.subrange(ds as int, k as int + 1).drop_last() =~= v@.subrange(
                ds as int,
                k as int,
            ));
            assert(v@.subrange(ds as int, k as int + 1).last() == v@[k as int]);
            assert(digit_val(v@[k as int]) == d as int);
            assert(dec_val(v@.subrange(ds as int, k as int + 1)) == acc as int * 10 + d as int);
        }
        if acc > 922337203685477580u64 || (acc == 922337203685477580u64 && d > 7) {
            proof {
                assert(acc as int * 10 + d as int > i64::MAX as int);
                assert(run.subrange(0, k - ds + 1) =~= v@.subrange(ds as int, k as int + 1));
                crate::decimal::lemma_dec_val_prefix(run, k - ds + 1);
                assert(dec_val(run) >= dec_val(v@.subrange(ds as int, k as int + 1)));
                assert(ver_value(v@, pos as int, e as int) > i64::MAX);
            }
            return Err(());
        }
        acc = acc * 10 + d;
        k = k + 1;
    }
    proof {
        assert(v@.subrange(ds as int, k as int) == run);
        assert(ver_value(v@, pos as int, e as int) == acc as int);
    }
    Ok(Some(acc as i64))
}

/// Reads a quoted field with prefix `p` from the line `[pos, nl)`.
fn line_quoted(v: &Vec<char>, pos: usize, nl: usize, p: &Vec<char>) -> (r: Option<Vec<char>>)
    requires
        is_line_at(v@, pos as int, nl as int),
    ensures
        match r {
            Some(val) => exists|q: int|
                {
                    &&& #[trigger] quoted_line(v@, p@, pos as int, nl as int, q)
                    &&& val@ == quoted_value(v@, p@, pos as int, q)
                },
            None => !quoted_start(v@, p@, pos as int),
        },
{
    let len: usize = v.len();
    let plen: usize = p.len();
    if plen > len - pos || !is_match_at(v, p, pos) {
        proof {
            if quoted_start(v@, p@, pos as int) {
                let (j, q) = choose|j: int, q: int| quoted_line(v@, p@, pos as int, j, q);
                assert(match_at(v@, p@, pos as int));
            }
        }
        return None;
    }
    match rfind_char_in(v, '\'', pos, nl) {
        Some(q) => {
            if q > pos + plen {
                let val: Vec<char> = subvec(v, pos + plen, q);
                proof {
                    assert(quoted_line(v@, p@, pos as int, nl as int, q as int));
                }
                Some(val)
            } else {
                proof {
                    if quoted_start(v@, p@, pos as int) {
                        let (j, q2) = choose|j: int, q2: int|
                            quoted_line(v@, p@, pos as int, j, q2);
                        lemma_line_end_unique(v@, pos as int, j, nl as int);
                        assert(v@[q2] == '\'');
                        assert(q2 <= q);
                    }
                }
                None
            }
        },
        None => {
            proof {
                if quoted_start(v@, p@, pos as int) {
                    let (j, q2) = choose|j: int, q2: int| quoted_line(v@, p@, pos as int, j, q2);
                    lemma_line_end_unique(v@, pos as int, j, nl as int);
                    assert(v@[q2] == '\'');
                }
            }
            None
        },
    }
}

// ---------------------------------------------------------------------
// The parser.
// ---------------------------------------------------------------------

/// Scans `text` for a section and reads its five fields.
///
/// Absence of either marker token means "no section here", never an
/// error; a version number too large for the field is the one error.
pub fn parse_section(text: &str) -> (r: Result<Option<SectionFields>, ConfGuardError>)
    ensures
        parse_outcome(text@, r),
{
    let v: Vec<char> = chars_of(text);
    let len: usize = v.len();
    let st: Vec<char> = chars_of("confguard start");
    let et: Vec<char> = chars_of("confguard end");
    if find_from(&v, &st, 0).is_none() {
        return Ok(None);
    }
    if find_from(&v, &et, 0).is_none() {
        return Ok(None);
    }
    let sp: Vec<char> = chars_of("# state.sentinel = '");
    let tp: Vec<char> = chars_of("# state.timestamp = '");
    let dp: Vec<char> = chars_of("# state.sourceDir = '");

    let mut cur_rel: Option<bool> = None;
    let mut cur_ver: Option<i64> = None;
    let mut cur_sent: Option<Vec<char>> = None;
    let mut cur_ts: Option<Vec<char>> = None;
    let mut cur_src: Option<Vec<char>> = None;

    let mut pos: usize = 0;
    loop
        invariant_except_break
            pos <= len,
            len == v@.len(),
            v@ == text@,
            has_markers(v@),
            sp@ == sentinel_prefix(),
            tp@ == timestamp_prefix(),
            dp@ == sourcedir_prefix(),
            line_start(v@, pos as int),
            rel_result_b(v@, pos as int, cur_rel),
            ver_result_b(v@, pos as int, opt_int_view(cur_ver)),
            !ver_overflow_b(v@, pos as int),
            quoted_result_b(v@, sentinel_prefix(), pos as int, opt_chars_view(cur_sent)),
            quoted_result_b(v@, timestamp_prefix(), pos as int, opt_chars_view(cur_ts)),
            quoted_result_b(v@, sourcedir_prefix(), pos as int, opt_chars_view(cur_src)),
        ensures
            rel_result(v@, cur_rel),
            ver_result(v@, opt_int_view(cur_ver)),
            !ver_overflow(v@),
            quoted_result(v@, sentinel_prefix(), opt_chars_view(cur_sent)),
            quoted_result(v@, timestamp_prefix(), opt_chars_view(cur_ts)),
            quoted_result(v@, sourcedir_prefix(), opt_chars_view(cur_src)),
        decreases len - pos,
    {
        let nl: usize = find_char_from(&v, '\n', pos);
        proof {
            assert(is_line_at(v@, pos as int, nl as int));
        }
        let ghost next_b: int = if nl == len {
            len + 1
        } else {
            nl + 1
        };
        proof {
            assert(forall|i2: int| pos < i2 < next_b ==> !line_start(v@, i2));
        }
        if let Some(x) = line_rel(&v, pos) {
            cur_rel = Some(x);
        }
        proof {
            lemma_rel_step(v@, pos as int, next_b, cur_rel);
        }
        match line_ver(&v, pos) {
            Ok(o) => {
                if let Some(x) = o {
                    cur_ver = Some(x);
                }
                proof {
                    lemma_ver_step(v@, pos as int, next_b, opt_int_view(cur_ver));
                }
            },
            Err(_) => {
                proof {
                    assert(ver_overflow(v@));
                }
                return Err(ConfGuardError::Internal(String::from_str(
                    "version number out of range",
                )));
            },
        }
        if let Some(val) = line_quoted(&v, pos, nl, &sp) {
            cur_sent = Some(val);
        }
        proof {
            lemma_quoted_step(v@, sentinel_prefix(), pos as int, next_b, opt_chars_view(cur_sent));
        }
        if let Some(val) = line_quoted(&v, pos, nl, &tp) {
            cur_ts = Some(val);
        }
        proof {
            lemma_quoted_step(v@, timestamp_prefix(), pos as int, next_b, opt_chars_view(cur_ts));
        }
        if let Some(val) = line_quoted(&v, pos, nl, &dp) {
            cur_src = Some(val);
        }
        proof {
            lemma_quoted_step(v@, sourcedir_prefix(), pos as int, next_b, opt_chars_view(cur_src));
        }
        if nl == len {
            break;
        }
        pos = nl + 1;
    }

    match (cur_rel, cur_ver, cur_sent, cur_src) {
        (Some(r), Some(ver), Some(se), Some(sd)) => {
            let timestamp: Option<String> = match cur_ts {
                Some(ts) => Some(string_from_chars(ts)),
                None => None,
            };
            Ok(
                Some(
                    SectionFields {
                        is_relative: r,
                        version: ver,
                        sentinel: string_from_chars(se),
                        timestamp,
                        source_dir: string_from_chars(sd),
                    },
                ),
            )
        },
        _ => Ok(None),
    }
}

} // verus!
