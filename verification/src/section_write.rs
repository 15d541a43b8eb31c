//! Embedding and removing a section: splicing a freshly rendered block
//! over an existing well-formed one, appending it otherwise, and cutting
//! a block out again.

use vstd::prelude::*;
use crate::text::{chars_of, contains_seq, find_char_from, find_from, find_last_from, match_at,
    newline_free, push_all, rfind_char_in, subvec};
use crate::section::{end_token, is_line_at, line_start, start_marker, end_marker, start_token,
    lemma_line_order};
use crate::trusted::string_from_chars;

verus! {

// ---------------------------------------------------------------------
// Where a section sits: the first line holding each marker token.
// ---------------------------------------------------------------------

/// The token occurs inside the line `[a, b)`.
pub open spec fn line_contains(s: Seq<char>, a: int, b: int, tok: Seq<char>) -> bool {
    exists|k: int| a <= k && k + tok.len() <= b && match_at(s, tok, k)
}

/// `[a, b)` is a line holding the token.
pub open spec fn token_line(s: Seq<char>, tok: Seq<char>, a: int, b: int) -> bool {
    is_line_at(s, a, b) && line_contains(s, a, b, tok)
}

/// `[a, b)` is the first line holding the token.
pub open spec fn first_token_line(s: Seq<char>, tok: Seq<char>, a: int, b: int) -> bool {
    token_line(s, tok, a, b) && forall|a2: int, b2: int|
        #[trigger] token_line(s, tok, a2, b2) ==> a <= a2
}

/// The first start-token line precedes the first end-token line: a
/// well-formed section is present and can be replaced in place.
pub open spec fn splice_sites(s: Seq<char>, a1: int, b1: int, a2: int, b2: int) -> bool {
    &&& first_token_line(s, start_token(), a1, b1)
    &&& first_token_line(s, end_token(), a2, b2)
    &&& a1 < a2
}

/// What remains after the end line at `[.., b2)`.
pub open spec fn tail_after(s: Seq<char>, b2: int) -> Seq<char> {
    if b2 < s.len() {
        s.subrange(b2 + 1, s.len() as int)
    } else {
        Seq::empty()
    }
}

/// The text with a newline appended when it does not end in one.
pub open spec fn pad_nl(s: Seq<char>) -> Seq<char> {
    if s.len() > 0 && s.last() == '\n' {
        s
    } else {
        s.push('\n')
    }
}

/// The text followed by the section, on a fresh line.
pub open spec fn appended(s: Seq<char>, sec: Seq<char>) -> Seq<char> {
    pad_nl(s) + sec
}

/// What `write_section` returns: the new section spliced over a
/// well-formed existing one, or appended at end of text.
pub open spec fn write_outcome(s: Seq<char>, sec: Seq<char>, r: Seq<char>) -> bool {
    if exists|a1: int, b1: int, a2: int, b2: int| splice_sites(s, a1, b1, a2, b2) {
        exists|a1: int, b1: int, a2: int, b2: int|
            {
                &&& #[trigger] splice_sites(s, a1, b1, a2, b2)
                &&& r == s.subrange(0, a1) + sec + tail_after(s, b2)
            }
    } else {
        r == appended(s, sec)
    }
}

/// The marker tokens are single-line: neither holds a newline, and
/// neither is empty.
pub proof fn lemma_tokens_wf()
    ensures
        newline_free(start_token()),
        newline_free(end_token()),
        start_token().len() > 0,
        end_token().len() > 0,
{
    reveal_strlit("confguard start");
    reveal_strlit("confguard end");
}

// ---------------------------------------------------------------------
// Finding the line around a token occurrence.
// ---------------------------------------------------------------------

/// Locates the first line holding the token, given the position of the
/// token's first occurrence.
fn locate_token_line(v: &Vec<char>, tok: &Vec<char>, m: usize) -> (r: (usize, usize))
    requires
        match_at(v@, tok@, m as int),
        forall|k: int| 0 <= k < m ==> !match_at(v@, tok@, k),
        newline_free(tok@),
        tok@.len() > 0,
    ensures
        first_token_line(v@, tok@, r.0 as int, r.1 as int),
        r.0 <= m < r.1 <= v@.len(),
{
    let a: usize = match rfind_char_in(v, '\n', 0, m) {
        Some(p) => p + 1,
        None => 0,
    };
    let b: usize = find_char_from(v, '\n', m);
    proof {
        assert(m + tok@.len() <= v@.len());
        assert(forall|kk: int| 0 <= kk < tok@.len() ==> v@[m + kk] == tok@[kk]) by {
            assert(forall|kk: int|
                0 <= kk < tok@.len() ==> v@.subrange(m as int, m + tok@.len())[kk] == tok@[kk]);
        }
        // the token holds no newline, so the line reaches past it
        assert(m + tok@.len() <= b) by {
            if b < m + tok@.len() {
                assert(v@[b as int] == tok@[b - m]);
            }
        }
        assert(is_line_at(v@, a as int, b as int));
        assert(token_line(v@, tok@, a as int, b as int)) by {
            assert(a <= m && m + tok@.len() <= b && match_at(v@, tok@, m as int));
        }
        assert forall|a2: int, b2: int|
            #[trigger] token_line(v@, tok@, a2, b2) implies a as int <= a2 by {
            if a2 < a {
                let k = choose|k: int| a2 <= k && k + tok@.len() <= b2 && match_at(v@, tok@, k);
                lemma_line_order(v@, a2, b2, a as int, b as int);
                assert(k < b2 < a <= m);
            }
        }
    }
    (a, b)
}

// ---------------------------------------------------------------------
// Writing a section.
// ---------------------------------------------------------------------

/// Embeds `section` in `text`: a well-formed existing section (a start
/// line before an end line) is replaced in place; otherwise the new
/// section goes at the end of the text, on a fresh line.  A malformed
/// section (start without end) is left untouched.
pub fn write_section(text: &str, section: &str) -> (r: String)
    ensures
        write_outcome(text@, section@, r@),
{
    let v: Vec<char> = chars_of(text);
    let sec: Vec<char> = chars_of(section);
    let len: usize = v.len();
    let st: Vec<char> = chars_of("confguard start");
    let et: Vec<char> = chars_of("confguard end");
    proof {
        lemma_tokens_wf();
    }
    let m1 = find_from(&v, &st, 0);
    let m2 = find_from(&v, &et, 0);
    if let (Some(p1), Some(p2)) = (m1, m2) {
        let (a1, b1) = locate_token_line(&v, &st, p1);
        let (a2, b2) = locate_token_line(&v, &et, p2);
        if a1 < a2 {
            let mut out: Vec<char> = subvec(&v, 0, a1);
            push_all(&mut out, &sec);
            if b2 < len {
                let rest: Vec<char> = subvec(&v, b2 + 1, len);
                push_all(&mut out, &rest);
            }
            proof {
                assert(splice_sites(v@, a1 as int, b1 as int, a2 as int, b2 as int));
                assert(out@ == v@.subrange(0, a1 as int) + sec@ + tail_after(v@, b2 as int));
            }
            return string_from_chars(out);
        }
        // the first start line does not precede the first end line
        proof {
            assert(!(exists|x1: int, y1: int, x2: int, y2: int|
                splice_sites(v@, x1, y1, x2, y2))) by {
                if exists|x1: int, y1: int, x2: int, y2: int| splice_sites(v@, x1, y1, x2, y2) {
                    let (x1, y1, x2, y2) = choose|x1: int, y1: int, x2: int, y2: int|
                        splice_sites(v@, x1, y1, x2, y2);
                    assert(x1 == a1 as int);
                    assert(x2 == a2 as int);
                }
            }
        }
        return append_section(&v, &sec);
    }
    proof {
        assert(!(exists|x1: int, y1: int, x2: int, y2: int| splice_sites(v@, x1, y1, x2, y2)))
            by {
            if exists|x1: int, y1: int, x2: int, y2: int| splice_sites(v@, x1, y1, x2, y2) {
                let (x1, y1, x2, y2) = choose|x1: int, y1: int, x2: int, y2: int|
                    splice_sites(v@, x1, y1, x2, y2);
                let k1 = choose|k: int|
                    x1 <= k && k + start_token().len() <= y1 && match_at(v@, start_token(), k);
                let k2 = choose|k: int|
                    x2 <= k && k + end_token().len() <= y2 && match_at(v@, end_token(), k);
            }
        }
    }
    append_section(&v, &sec)
}

/// Appends the section at end of text, on a fresh line.
fn append_section(v: &Vec<char>, sec: &Vec<char>) -> (r: String)
    ensures
        r@ == appended(v@, sec@),
{
    let len: usize = v.len();
    let mut out: Vec<char> = subvec(v, 0, len);
    proof {
        assert(out@ =~= v@);
    }
    if len == 0 || out[len - 1] != '\n' {
        out.push('\n');
        proof {
            assert(out@ == pad_nl(v@));
        }
    }
    push_all(&mut out, sec);
    string_from_chars(out)
}

// ---------------------------------------------------------------------
// Deleting a section.
// ---------------------------------------------------------------------

/// The end-marker line followed by its newline.
pub open spec fn end_marker_nl() -> Seq<char> {
    end_marker().push('\n')
}

/// A full start-marker occurrence at `i` with a full end-marker line at
/// `j` after it.
pub open spec fn marker_pair(s: Seq<char>, i: int, j: int) -> bool {
    &&& match_at(s, start_marker(), i)
    &&& match_at(s, end_marker_nl(), j)
    &&& j >= i + start_marker().len()
}

/// What `delete_section` returns: the block from the first full start
/// marker through the last full end-marker line removed, and the text
/// unchanged when no such block exists.
pub open spec fn delete_outcome(s: Seq<char>, r: Seq<char>) -> bool {
    if exists|i: int, j: int| marker_pair(s, i, j) {
        exists|i: int, j: int|
            {
                &&& #[trigger] marker_pair(s, i, j)
                &&& forall|i2: int| 0 <= i2 < i ==> !match_at(s, start_marker(), i2)
                &&& forall|j2: int| j2 > j ==> !match_at(s, end_marker_nl(), j2)
                &&& r == s.subrange(0, i) + s.subrange(j + end_marker_nl().len(), s.len() as int)
            }
    } else {
        r == s
    }
}

/// Cuts one embedded section out of `text`: everything from the first
/// full start-marker line through the last full end-marker line.  Text
/// with no section, or an incomplete one (a start without an end), is
/// returned unchanged.
pub fn delete_section(text: &str) -> (r: String)
    ensures
        delete_outcome(text@, r@),
{
    let v: Vec<char> = chars_of(text);
    let len: usize = v.len();
    let sm: Vec<char> = chars_of(
        "#------------------------------- confguard start --------------------------------",
    );
    let mut em: Vec<char> = chars_of(
        "#-------------------------------- confguard end ---------------------------------",
    );
    em.push('\n');
    proof {
        assert(em@ == end_marker_nl());
    }
    let smlen: usize = sm.len();
    if let Some(i) = find_from(&v, &sm, 0) {
        if let Some(j) = find_last_from(&v, &em, i + smlen) {
            let emlen: usize = em.len();
            let mut out: Vec<char> = subvec(&v, 0, i);
            let rest: Vec<char> = subvec(&v, j + emlen, len);
            push_all(&mut out, &rest);
            proof {
                assert(marker_pair(v@, i as int, j as int));
            }
            return string_from_chars(out);
        }
        // a start marker without a full end-marker line after it
        proof {
            assert(!(exists|i2: int, j2: int| marker_pair(v@, i2, j2))) by {
                if exists|i2: int, j2: int| marker_pair(v@, i2, j2) {
                    let (i2, j2) = choose|i2: int, j2: int| marker_pair(v@, i2, j2);
                    assert(i as int <= i2);
                    assert(j2 >= i + smlen);
                }
            }
        }
        return string_from_chars(v);
    }
    proof {
        assert(!(exists|i2: int, j2: int| marker_pair(v@, i2, j2))) by {
            if exists|i2: int, j2: int| marker_pair(v@, i2, j2) {
                let (i2, j2) = choose|i2: int, j2: int| marker_pair(v@, i2, j2);
            }
        }
    }
    string_from_chars(v)
}

/// Text without a full start-marker line keeps every character under
/// `delete_section`.
pub proof fn lemma_delete_no_start(s: Seq<char>, r: Seq<char>)
    requires
        delete_outcome(s, r),
        !contains_seq(s, start_marker()),
    ensures
        r == s,
{
    if exists|i: int, j: int| marker_pair(s, i, j) {
        let (i, j) = choose|i: int, j: int| marker_pair(s, i, j);
        assert(contains_seq(s, start_marker()));
    }
}

/// Text with a start marker but no full end-marker line after it — an
/// incomplete section — also keeps every character.
pub proof fn lemma_delete_incomplete(s: Seq<char>, r: Seq<char>)
    requires
        delete_outcome(s, r),
        !contains_seq(s, end_marker_nl()),
    ensures
        r == s,
{
    if exists|i: int, j: int| marker_pair(s, i, j) {
        let (i, j) = choose|i: int, j: int| marker_pair(s, i, j);
        assert(contains_seq(s, end_marker_nl()));
    }
}

} // verus!
