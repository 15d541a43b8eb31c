//! The laws of the section protocol: embedding a freshly rendered
//! section into text that has none, then reading it back, recovers the
//! fields exactly; and removing it afterwards recovers the text.

use vstd::prelude::*;
use crate::render::section_parses_to;
use crate::section::{SectionFields, digits_run, has_markers, is_line_at, line_start,
    parse_outcome, quoted_line, quoted_result, quoted_start, quoted_value, rel_match, rel_result,
    rel_value, sentinel_prefix, sourcedir_prefix, start_marker, start_token, timestamp_prefix,
    true_pat, false_pat, ver_line, ver_overflow, ver_prefix, ver_result, ver_start, ver_value};
use crate::section_write::{appended, delete_outcome, end_marker_nl, marker_pair, pad_nl,
    splice_sites, write_outcome};
use crate::text::{contains_seq, match_at, newline_free};

verus! {

// ---------------------------------------------------------------------
// Facts about the grammar's literal lines.
// ---------------------------------------------------------------------

/// The version prefix holds no newline.
proof fn lemma_ver_prefix_wf()
    ensures
        newline_free(ver_prefix()),
{
    reveal_strlit("# config.version = ");
}

/// The start-marker line holds no newline, does not begin with a
/// digit, and holds the start token.
proof fn lemma_start_marker_wf()
    ensures
        newline_free(start_marker()),
        start_marker().len() == 81,
        start_marker()[0] == '#',
        start_marker().subrange(33, 48) == start_token(),
{
    reveal_strlit("#------------------------------- confguard start --------------------------------");
    reveal_strlit("confguard start");
    assert(start_marker().subrange(33, 48) =~= start_token());
}

// ---------------------------------------------------------------------
// Shifting matches and lines across a concatenation.
// ---------------------------------------------------------------------

/// A match inside the right part of a concatenation is a match of the
/// whole.
proof fn lemma_match_shift(a: Seq<char>, b: Seq<char>, p: Seq<char>, i: int)
    requires
        match_at(b, p, i),
    ensures
        match_at(a + b, p, a.len() + i),
{
    assert((a + b).subrange(a.len() + i, a.len() + i + p.len()) =~= b.subrange(i, i + p.len()));
}

/// A match of a concatenation lying wholly in the right part is a
/// match of that part.
proof fn lemma_match_unshift(a: Seq<char>, b: Seq<char>, p: Seq<char>, i: int)
    requires
        match_at(a + b, p, i),
        i >= a.len(),
    ensures
        match_at(b, p, i - a.len()),
{
    assert(b.subrange(i - a.len(), i - a.len() + p.len()) =~= (a + b).subrange(i, i + p.len()));
}

/// Whatever the right part contains, the concatenation contains.
proof fn lemma_contains_concat(a: Seq<char>, b: Seq<char>, t: Seq<char>)
    requires
        contains_seq(b, t),
    ensures
        contains_seq(a + b, t),
{
    let i = choose|i: int| match_at(b, t, i);
    lemma_match_shift(a, b, t, i);
}

// ---------------------------------------------------------------------
// Each field's gathered result carries across prepending closed text.
// ---------------------------------------------------------------------

/// Prepending text that ends in a newline does not change the relative
/// flag read from a section, when the section decides it.
proof fn lemma_rel_concat(a: Seq<char>, b: Seq<char>, x: bool)
    requires
        a.len() > 0,
        a.last() == '\n',
        rel_result(b, Some(x)),
    ensures
        rel_result(a + b, Some(x)),
{
    let s = a + b;
    let i = choose|i: int|
        {
            &&& #[trigger] rel_match(b, i)
            &&& i < b.len() + 1
            &&& x == rel_value(b, i)
            &&& forall|i2: int| i < i2 < b.len() + 1 ==> !rel_match(b, i2)
        };
    let si = a.len() + i;
    assert(line_start(s, si)) by {
        if i == 0 {
            assert(s[a.len() - 1] == a[a.len() - 1]);
        } else {
            assert(s[si - 1] == b[i - 1]);
        }
    }
    if match_at(b, true_pat(), i) {
        lemma_match_shift(a, b, true_pat(), i);
    }
    if match_at(b, false_pat(), i) {
        lemma_match_shift(a, b, false_pat(), i);
    }
    assert(rel_match(s, si));
    if match_at(s, true_pat(), si) {
        lemma_match_unshift(a, b, true_pat(), si);
    }
    assert(rel_value(s, si) == x);
    assert forall|i2: int| si < i2 < s.len() + 1 implies !rel_match(s, i2) by {
        if rel_match(s, i2) {
            assert(line_start(b, i2 - a.len())) by {
                assert(s[i2 - 1] == b[i2 - 1 - a.len()]);
            }
            if match_at(s, true_pat(), i2) {
                lemma_match_unshift(a, b, true_pat(), i2);
            }
            if match_at(s, false_pat(), i2) {
                lemma_match_unshift(a, b, false_pat(), i2);
            }
            assert(rel_match(b, i2 - a.len()));
        }
    }
}

/// Prepending text that ends in a newline does not change the version
/// read from a section, when the section decides it.
proof fn lemma_ver_concat(a: Seq<char>, b: Seq<char>, x: int)
    requires
        a.len() > 0,
        a.last() == '\n',
        ver_result(b, Some(x)),
    ensures
        ver_result(a + b, Some(x)),
{
    let s = a + b;
    let vplen = ver_prefix().len() as int;
    let (i, e) = choose|i: int, e: int|
        {
            &&& #[trigger] ver_line(b, i, e)
            &&& i < b.len() + 1
            &&& x == ver_value(b, i, e)
            &&& forall|i2: int| i < i2 < b.len() + 1 ==> !ver_start(b, i2)
        };
    let si = a.len() + i;
    let se = a.len() + e;
    assert(line_start(s, si)) by {
        if i == 0 {
            assert(s[a.len() - 1] == a[a.len() - 1]);
        } else {
            assert(s[si - 1] == b[i - 1]);
        }
    }
    lemma_match_shift(a, b, ver_prefix(), i);
    assert(s[si + vplen] == b[i + vplen]);
    assert(ver_start(s, si));
    assert(digits_run(s, si + vplen, se)) by {
        assert(forall|k: int| si + vplen <= k < se ==> s[k] == b[k - a.len()]);
        if se < s.len() {
            assert(s[se] == b[e]);
        }
    }
    assert(ver_line(s, si, se));
    assert(ver_value(s, si, se) == x) by {
        assert(s.subrange(si + vplen, se) =~= b.subrange(i + vplen, e));
    }
    assert forall|i2: int| si < i2 < s.len() + 1 implies !ver_start(s, i2) by {
        if ver_start(s, i2) {
            assert(line_start(b, i2 - a.len())) by {
                assert(s[i2 - 1] == b[i2 - 1 - a.len()]);
            }
            lemma_match_unshift(a, b, ver_prefix(), i2);
            assert(b[i2 - a.len() + vplen] == s[i2 + vplen]);
            assert(ver_start(b, i2 - a.len()));
        }
    }
}

/// Prepending text that ends in a newline does not change a quoted
/// field read from a section, when the section decides it.
proof fn lemma_quoted_concat(a: Seq<char>, b: Seq<char>, p: Seq<char>, v: Seq<char>)
    requires
        a.len() > 0,
        a.last() == '\n',
        quoted_result(b, p, Some(v)),
    ensures
        quoted_result(a + b, p, Some(v)),
{
    let s = a + b;
    let (i, j, q) = choose|i: int, j: int, q: int|
        {
            &&& #[trigger] quoted_line(b, p, i, j, q)
            &&& i < b.len() + 1
            &&& v == quoted_value(b, p, i, q)
            &&& forall|i2: int| i < i2 < b.len() + 1 ==> !quoted_start(b, p, i2)
        };
    let si = a.len() + i;
    let sj = a.len() + j;
    let sq = a.len() + q;
    assert(line_start(s, si)) by {
        if i == 0 {
            assert(s[a.len() - 1] == a[a.len() - 1]);
        } else {
            assert(s[si - 1] == b[i - 1]);
        }
    }
    assert(is_line_at(s, si, sj)) by {
        if j < b.len() {
            assert(s[sj] == b[j]);
        }
        assert(forall|k: int| si <= k < sj ==> s[k] == b[k - a.len()]);
    }
    lemma_match_shift(a, b, p, i);
    assert(s[sq] == b[q]);
    assert(quoted_line(s, p, si, sj, sq)) by {
        assert(forall|k: int| sq < k < sj ==> s[k] == b[k - a.len()]);
    }
    assert(quoted_value(s, p, si, sq) == v) by {
        assert(s.subrange(si + p.len(), sq) =~= b.subrange(i + p.len(), q));
    }
    assert forall|i2: int| si < i2 < s.len() + 1 implies !quoted_start(s, p, i2) by {
        if quoted_start(s, p, i2) {
            let (j2, q2) = choose|j2: int, q2: int| quoted_line(s, p, i2, j2, q2);
            assert(line_start(b, i2 - a.len())) by {
                assert(s[i2 - 1] == b[i2 - 1 - a.len()]);
            }
            assert(is_line_at(b, i2 - a.len(), j2 - a.len())) by {
                if j2 < s.len() {
                    assert(b[j2 - a.len()] == s[j2]);
                }
                assert(forall|k: int| i2 - a.len() <= k < j2 - a.len() ==> b[k] == s[k + a.len()]);
            }
            lemma_match_unshift(a, b, p, i2);
            assert(b[q2 - a.len()] == s[q2]);
            assert(quoted_line(b, p, i2 - a.len(), j2 - a.len(), q2 - a.len())) by {
                assert(forall|k: int| q2 - a.len() < k < j2 - a.len() ==> b[k] == s[k + a.len()]);
            }
            assert(quoted_start(b, p, i2 - a.len()));
        }
    }
}

/// A concatenation has an oversized version line only if one of its
/// parts has one, provided the boundary is closed by a newline and the
/// right part does not begin with a digit.
proof fn lemma_ver_overflow_concat(a: Seq<char>, b: Seq<char>)
    requires
        (a.len() > 0 && a.last() == '\n') || (b.len() > 0 && b[0] == '\n'),
        b.len() > 0 ==> !crate::trusted::is_digit(b[0]),
        !ver_overflow(a),
        !ver_overflow(b),
    ensures
        !ver_overflow(a + b),
{
    lemma_ver_prefix_wf();
    let s = a + b;
    let vplen = ver_prefix().len() as int;
    if ver_overflow(s) {
        let (i, e) = choose|i: int, e: int|
            {
                &&& #[trigger] ver_line(s, i, e)
                &&& i < s.len() + 1
                &&& ver_value(s, i, e) > i64::MAX
            };
        if i >= a.len() {
            let bi = i - a.len();
            let be = e - a.len();
            assert(line_start(b, bi)) by {
                if i > a.len() {
                    assert(s[i - 1] == b[i - 1 - a.len()]);
                }
            }
            lemma_match_unshift(a, b, ver_prefix(), i);
            assert(b[bi + vplen] == s[i + vplen]);
            assert(ver_start(b, bi));
            assert(digits_run(b, bi + vplen, be)) by {
                assert(forall|k: int| bi + vplen <= k < be ==> b[k] == s[k + a.len()]);
                if be < b.len() {
                    assert(b[be] == s[e]);
                }
            }
            assert(ver_line(b, bi, be));
            assert(ver_value(b, bi, be) == ver_value(s, i, e)) by {
                assert(b.subrange(bi + vplen, be) =~= s.subrange(i + vplen, e));
            }
            assert(ver_overflow(b));
        } else {
            // the prefix match cannot cross the boundary
            assert(i + vplen <= a.len()) by {
                if i + vplen > a.len() {
                    if a.len() > 0 && a.last() == '\n' {
                        let k = a.len() - 1 - i;
                        assert(s.subrange(i, i + vplen)[k] == ver_prefix()[k]);
                        assert(s[a.len() - 1] == a[a.len() - 1]);
                    } else {
                        let k = a.len() - i;
                        assert(s.subrange(i, i + vplen)[k] == ver_prefix()[k]);
                        assert(s[a.len() as int] == b[0]);
                    }
                }
            }
            let ds = i + vplen;
            assert(ds < s.len() && crate::trusted::is_digit(s[ds]));
            if ds == a.len() {
                assert(s[ds] == b[0]);
                assert(false);
            }
            assert(ds < a.len());
            assert(line_start(a, i)) by {
                if i > 0 {
                    assert(s[i - 1] == a[i - 1]);
                }
            }
            assert(match_at(a, ver_prefix(), i)) by {
                assert(a.subrange(i, i + vplen) =~= s.subrange(i, i + vplen));
            }
            assert(a[ds] == s[ds]);
            assert(ver_start(a, i));
            assert(e <= a.len()) by {
                if e > a.len() {
                    assert(ds <= a.len() < e);
                    assert(crate::trusted::is_digit(s[a.len() as int]));
                    assert(s[a.len() as int] == b[0]);
                }
            }
            assert(digits_run(a, ds, e)) by {
                assert(forall|k: int| ds <= k < e ==> a[k] == s[k]);
                if e < a.len() {
                    assert(a[e] == s[e]);
                }
            }
            assert(ver_line(a, i, e));
            assert(ver_value(a, i, e) == ver_value(s, i, e)) by {
                assert(a.subrange(ds, e) =~= s.subrange(ds, e));
            }
            assert(ver_overflow(a));
        }
    }
}

/// A text of one newline has no version line.
proof fn lemma_newline_no_overflow()
    ensures
        !ver_overflow(seq!['\n']),
{
    lemma_ver_prefix_wf();
    let b: Seq<char> = seq!['\n'];
    if ver_overflow(b) {
        let (i, e) = choose|i: int, e: int|
            {
                &&& #[trigger] ver_line(b, i, e)
                &&& i < b.len() + 1
                &&& ver_value(b, i, e) > i64::MAX
            };
        assert(crate::trusted::is_digit(b[i + ver_prefix().len()]));
        assert(b[i + ver_prefix().len()] == '\n');
    }
}

// ---------------------------------------------------------------------
// Embedding into section-free text appends.
// ---------------------------------------------------------------------

/// On text without the start token, `write_section` appends.
proof fn lemma_write_appends(text: Seq<char>, sec: Seq<char>, written: Seq<char>)
    requires
        write_outcome(text, sec, written),
        !contains_seq(text, start_token()),
    ensures
        written == pad_nl(text) + sec,
{
    if exists|a1: int, b1: int, a2: int, b2: int| splice_sites(text, a1, b1, a2, b2) {
        let (a1, b1, a2, b2) = choose|a1: int, b1: int, a2: int, b2: int|
            splice_sites(text, a1, b1, a2, b2);
        let k = choose|k: int|
            a1 <= k && k + start_token().len() <= b1 && match_at(text, start_token(), k);
        assert(contains_seq(text, start_token()));
    }
    assert(written == appended(text, sec));
}

/// The padded text ends in a newline and carries no oversized version
/// line if the text had none.
proof fn lemma_pad_wf(text: Seq<char>)
    requires
        !ver_overflow(text),
    ensures
        pad_nl(text).len() > 0,
        pad_nl(text).last() == '\n',
        !ver_overflow(pad_nl(text)),
{
    if !(text.len() > 0 && text.last() == '\n') {
        lemma_newline_no_overflow();
        assert(pad_nl(text) =~= text + seq!['\n']);
        lemma_ver_overflow_concat(text, seq!['\n']);
    }
}

// ---------------------------------------------------------------------
// The round-trip laws.
// ---------------------------------------------------------------------

/// Embedding a section into text that has none, then reading the
/// result, recovers the section's fields exactly: the text below the
/// section cannot override them.
///
/// The one family of texts left out: a text with its own oversized
/// version line, which turns the later read into an error.
pub proof fn lemma_write_then_parse(
    text: Seq<char>,
    sec: Seq<char>,
    written: Seq<char>,
    f: SectionFields,
)
    requires
        write_outcome(text, sec, written),
        !contains_seq(text, start_token()),
        !ver_overflow(text),
        f.timestamp matches Some(ts) && section_parses_to(
            sec,
            f.is_relative,
            f.version as int,
            f.sentinel@,
            ts@,
            f.source_dir@,
        ),
        match_at(sec, start_marker(), 0),
    ensures
        parse_outcome(written, Ok(Some(f))),
{
    lemma_write_appends(text, sec, written);
    lemma_pad_wf(text);
    lemma_start_marker_wf();
    let a = pad_nl(text);
    assert(written == a + sec);
    assert(has_markers(written)) by {
        lemma_contains_concat(a, sec, start_token());
        lemma_contains_concat(a, sec, crate::section::end_token());
    }
    assert(!ver_overflow(written)) by {
        assert(sec.len() > 0 && sec[0] == '#') by {
            assert(sec.subrange(0, start_marker().len() as int)[0] == start_marker()[0]);
        }
        assert(!crate::trusted::is_digit(sec[0]));
        lemma_ver_overflow_concat(a, sec);
    }
    lemma_rel_concat(a, sec, f.is_relative);
    lemma_ver_concat(a, sec, f.version as int);
    lemma_quoted_concat(a, sec, sentinel_prefix(), f.sentinel@);
    match f.timestamp {
        Some(ts) => {
            lemma_quoted_concat(a, sec, timestamp_prefix(), ts@);
        },
        None => {
            assert(false);
        },
    }
    lemma_quoted_concat(a, sec, sourcedir_prefix(), f.source_dir@);
}

/// Embedding a section into text that has none, then deleting the
/// section, recovers the text — with a final newline added when the
/// text lacked one, since embedding put the section on a fresh line.
pub proof fn lemma_write_then_delete(
    text: Seq<char>,
    sec: Seq<char>,
    written: Seq<char>,
    deleted: Seq<char>,
)
    requires
        write_outcome(text, sec, written),
        delete_outcome(written, deleted),
        !contains_seq(text, start_token()),
        !contains_seq(text, start_marker()),
        match_at(sec, start_marker(), 0),
        match_at(sec, end_marker_nl(), sec.len() - end_marker_nl().len()),
        sec.len() >= start_marker().len() + end_marker_nl().len(),
    ensures
        deleted == pad_nl(text),
{
    lemma_write_appends(text, sec, written);
    lemma_start_marker_wf();
    let a = pad_nl(text);
    assert(written == a + sec);
    let smlen = start_marker().len() as int;
    let emlen = end_marker_nl().len() as int;
    // our markers in the written text
    lemma_match_shift(a, sec, start_marker(), 0);
    lemma_match_shift(a, sec, end_marker_nl(), sec.len() - emlen);
    let i0 = a.len() as int;
    let j0 = a.len() + sec.len() - emlen;
    assert(marker_pair(written, i0, j0));
    // the first start marker is ours
    assert forall|i2: int| 0 <= i2 < i0 implies !match_at(written, start_marker(), i2) by {
        if match_at(written, start_marker(), i2) {
            if i2 + smlen <= a.len() {
                // a marker inside the padded text
                assert(match_at(a, start_marker(), i2)) by {
                    assert(a.subrange(i2, i2 + smlen) =~= written.subrange(i2, i2 + smlen));
                }
                if text.len() > 0 && text.last() == '\n' {
                    assert(contains_seq(text, start_marker()));
                } else {
                    // the marker would have to cross or touch the added newline
                    if i2 + smlen <= text.len() {
                        assert(match_at(text, start_marker(), i2)) by {
                            assert(text.subrange(i2, i2 + smlen) =~= a.subrange(
                                i2,
                                i2 + smlen,
                            ));
                        }
                        assert(contains_seq(text, start_marker()));
                    } else {
                        let k = text.len() - i2;
                        assert(a.subrange(i2, i2 + smlen)[k] == start_marker()[k]);
                        assert(a[text.len() as int] == '\n');
                    }
                }
            } else {
                // the marker would cross the boundary newline
                let k = a.len() - 1 - i2;
                assert(written.subrange(i2, i2 + smlen)[k] == start_marker()[k]);
                assert(written[a.len() - 1] == a[a.len() - 1]);
                assert(a.last() == '\n');
            }
        }
    }
    // the last full end-marker line is ours
    assert forall|j2: int| j2 > j0 implies !match_at(written, end_marker_nl(), j2) by {
        if match_at(written, end_marker_nl(), j2) {
            assert(j2 + emlen <= written.len());
        }
    }
    // so deletion removes exactly the section
    let cut = written.subrange(0, i0) + written.subrange(j0 + emlen, written.len() as int);
    assert(cut =~= a);
    if exists|i: int, j: int| marker_pair(written, i, j) {
        let (i, j) = choose|i: int, j: int|
            {
                &&& #[trigger] marker_pair(written, i, j)
                &&& forall|i2: int| 0 <= i2 < i ==> !match_at(written, start_marker(), i2)
                &&& forall|j2: int| j2 > j ==> !match_at(written, end_marker_nl(), j2)
                &&& deleted == written.subrange(0, i) + written.subrange(
                    j + emlen,
                    written.len() as int,
                )
            };
        assert(i == i0) by {
            if i < i0 {
                assert(match_at(written, start_marker(), i));
            }
            if i > i0 {
                assert(match_at(written, start_marker(), i0));
            }
        }
        assert(j == j0) by {
            if j < j0 {
                assert(match_at(written, end_marker_nl(), j0));
            }
            if j > j0 {
                assert(match_at(written, end_marker_nl(), j));
            }
        }
        assert(deleted == cut);
    }
}

/// For text already ending in a newline, embedding and then deleting
/// the section restores it byte for byte.
pub proof fn lemma_round_trip_exact(
    text: Seq<char>,
    sec: Seq<char>,
    written: Seq<char>,
    deleted: Seq<char>,
)
    requires
        write_outcome(text, sec, written),
        delete_outcome(written, deleted),
        !contains_seq(text, start_token()),
        !contains_seq(text, start_marker()),
        match_at(sec, start_marker(), 0),
        match_at(sec, end_marker_nl(), sec.len() - end_marker_nl().len()),
        sec.len() >= start_marker().len() + end_marker_nl().len(),
        text.len() > 0,
        text.last() == '\n',
    ensures
        deleted == text,
{
    lemma_write_then_delete(text, sec, written, deleted);
}

} // verus!
