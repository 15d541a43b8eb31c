//! Rendering a fresh section block from the guard's fields.
//!
//! The block is built line by line and then read back through
//! `parse_section` before it is handed out: a returned block is
//! guaranteed to parse to exactly the fields it was rendered from, to
//! begin with the full start-marker line, and to end with the full
//! end-marker line and its newline.

use vstd::prelude::*;
use crate::decimal::{dec_digits, lemma_dec_digits_val};
use crate::errors::ConfGuardError;
use crate::section::{digits_run, end_marker, end_token, false_pat, has_markers, is_line_at,
    line_start, parse_outcome, parse_section, quoted_line, quoted_result, quoted_start,
    quoted_value, rel_match,
    rel_result, rel_value, sentinel_prefix, sourcedir_prefix, start_marker, start_token,
    timestamp_prefix, true_pat, ver_line, ver_overflow, ver_prefix, ver_result, ver_start,
    ver_value, lemma_digits_run_unique, lemma_rel_result_unique, lemma_ver_result_unique,
    lemma_quoted_result_unique};
use crate::section_write::end_marker_nl;
use crate::text::{chars_of, contains_seq, match_at, newline_free, push_all, str_eq};
use crate::trusted::{is_digit, string_from_chars};

verus! {

/// The exact text of a section block built from the given fields.
pub open spec fn section_text(
    is_relative: bool,
    version: int,
    sentinel: Seq<char>,
    timestamp: Seq<char>,
    source_dir: Seq<char>,
    sops_rel: Seq<char>,
) -> Seq<char> {
    start_marker() + seq!['\n'] + (if is_relative {
        true_pat()
    } else {
        false_pat()
    }) + seq!['\n'] + ver_prefix() + dec_digits(version) + seq!['\n'] + sentinel_prefix()
        + sentinel + seq!['\'', '\n'] + timestamp_prefix() + timestamp + seq!['\'', '\n']
        + sourcedir_prefix() + source_dir + seq!['\'', '\n'] + "export SOPS_PATH=$HOME/"@
        + sops_rel + seq!['\n'] + "dotenv $SOPS_PATH/environments/local.env\n"@ + end_marker()
        + seq!['\n']
}

/// Reading `sec` finds a section carrying exactly these field values.
pub open spec fn section_parses_to(
    sec: Seq<char>,
    is_relative: bool,
    version: int,
    sentinel: Seq<char>,
    timestamp: Seq<char>,
    source_dir: Seq<char>,
) -> bool {
    &&& has_markers(sec)
    &&& !ver_overflow(sec)
    &&& rel_result(sec, Some(is_relative))
    &&& ver_result(sec, Some(version))
    &&& quoted_result(sec, sentinel_prefix(), Some(sentinel))
    &&& quoted_result(sec, timestamp_prefix(), Some(timestamp))
    &&& quoted_result(sec, sourcedir_prefix(), Some(source_dir))
}

/// The fields can sit on single section lines: each recorded value is
/// nonempty and holds no newline, and the storage path holds no
/// newline.
pub open spec fn fields_renderable(
    sentinel: Seq<char>,
    timestamp: Seq<char>,
    source_dir: Seq<char>,
    sops_rel: Seq<char>,
) -> bool {
    &&& sentinel.len() > 0 && newline_free(sentinel)
    &&& timestamp.len() > 0 && newline_free(timestamp)
    &&& source_dir.len() > 0 && newline_free(source_dir)
    &&& newline_free(sops_rel)
}

/// A built block begins with the start-marker line and ends with the
/// end-marker line and its newline.
#[verifier::rlimit(100)]
proof fn lemma_section_markers(
    b: bool,
    v: int,
    sen: Seq<char>,
    ts: Seq<char>,
    sd: Seq<char>,
    rl: Seq<char>,
)
    ensures
        ({
            let t = section_text(b, v, sen, ts, sd, rl);
            &&& match_at(t, start_marker(), 0)
            &&& match_at(t, end_marker_nl(), t.len() - end_marker_nl().len())
        }),
{
    lemma_grammar_wf();
    let t = section_text(b, v, sen, ts, sd, rl);
    assert(t.subrange(0, start_marker().len() as int) =~= start_marker());
    assert(t.subrange(t.len() - end_marker_nl().len(), t.len() as int) =~= end_marker_nl());
}

/// Assembles the block's characters: nine lines, each closed by a
/// newline.
#[verifier::rlimit(100)]
fn build_section(
    is_relative: bool,
    version: i64,
    sentinel: &str,
    timestamp: &str,
    source_dir: &str,
    sops_rel: &str,
) -> (out: Vec<char>)
    requires
        version >= 0,
    ensures
        out@ == section_text(
            is_relative,
            version as int,
            sentinel@,
            timestamp@,
            source_dir@,
            sops_rel@,
        ),
{
    let mut out: Vec<char> = chars_of(
        "#------------------------------- confguard start --------------------------------",
    );
    out.push('\n');
    if is_relative {
        let piece: Vec<char> = chars_of("# config.relative = true");
        push_all(&mut out, &piece);
    } else {
        let piece: Vec<char> = chars_of("# config.relative = false");
        push_all(&mut out, &piece);
    }
    out.push('\n');
    let piece: Vec<char> = chars_of("# config.version = ");
    push_all(&mut out, &piece);
    crate::decimal::push_decimal(&mut out, version as u64);
    out.push('\n');
    let piece: Vec<char> = chars_of("# state.sentinel = '");
    push_all(&mut out, &piece);
    let val: Vec<char> = chars_of(sentinel);
    push_all(&mut out, &val);
    out.push('\'');
    out.push('\n');
    let piece: Vec<char> = chars_of("# state.timestamp = '");
    push_all(&mut out, &piece);
    let val: Vec<char> = chars_of(timestamp);
    push_all(&mut out, &val);
    out.push('\'');
    out.push('\n');
    let piece: Vec<char> = chars_of("# state.sourceDir = '");
    push_all(&mut out, &piece);
    let val: Vec<char> = chars_of(source_dir);
    push_all(&mut out, &val);
    out.push('\'');
    out.push('\n');
    let piece: Vec<char> = chars_of("export SOPS_PATH=$HOME/");
    push_all(&mut out, &piece);
    let val: Vec<char> = chars_of(sops_rel);
    push_all(&mut out, &val);
    out.push('\n');
    let piece: Vec<char> = chars_of("dotenv $SOPS_PATH/environments/local.env\n");
    push_all(&mut out, &piece);
    let piece: Vec<char> = chars_of(
        "#-------------------------------- confguard end ---------------------------------",
    );
    push_all(&mut out, &piece);
    out.push('\n');

    proof {
        assert(out@ =~= section_text(
            is_relative,
            version as int,
            sentinel@,
            timestamp@,
            source_dir@,
            sops_rel@,
        ));
    }

    out
}

/// Builds the section block for the given fields: the start-marker
/// line, the five field lines, the two environment-loading lines, and
/// the end-marker line, each ending in a newline.
///
/// The result is validated by reading it back; a block whose fields do
/// not survive the round trip (one holding a newline, say) is refused.
/// For renderable fields the validation always passes.
#[verifier::rlimit(100)]
pub fn render_section(
    is_relative: bool,
    version: i64,
    sentinel: &str,
    timestamp: &str,
    source_dir: &str,
    sops_rel: &str,
) -> (r: Result<String, ConfGuardError>)
    requires
        version >= 0,
    ensures
        r matches Ok(s) ==> {
            &&& s@ == section_text(
                is_relative,
                version as int,
                sentinel@,
                timestamp@,
                source_dir@,
                sops_rel@,
            )
            &&& section_parses_to(
                s@,
                is_relative,
                version as int,
                sentinel@,
                timestamp@,
                source_dir@,
            )
            &&& match_at(s@, start_marker(), 0)
            &&& match_at(s@, end_marker_nl(), s@.len() - end_marker_nl().len())
        },
        fields_renderable(sentinel@, timestamp@, source_dir@, sops_rel@) ==> r is Ok,
{
    let out: Vec<char> = build_section(
        is_relative,
        version,
        sentinel,
        timestamp,
        source_dir,
        sops_rel,
    );
    proof {
        lemma_section_markers(
            is_relative,
            version as int,
            sentinel@,
            timestamp@,
            source_dir@,
            sops_rel@,
        );
        if fields_renderable(sentinel@, timestamp@, source_dir@, sops_rel@) {
            lemma_section_text_parses(
                is_relative,
                version as int,
                sentinel@,
                timestamp@,
                source_dir@,
                sops_rel@,
            );
        }
    }

    // the block must read back as exactly the fields it was built from;
    // for renderable fields this cannot fail
    let s: String = string_from_chars(out);
    let parsed = parse_section(s.as_str());
    match parsed {
        Ok(Some(f)) => {
            proof {
                if fields_renderable(sentinel@, timestamp@, source_dir@, sops_rel@) {
                    lemma_rel_result_unique(s@, f.is_relative, is_relative);
                    lemma_ver_result_unique(s@, f.version as int, version as int);
                    lemma_quoted_result_unique(s@, sentinel_prefix(), f.sentinel@, sentinel@);
                    lemma_quoted_result_unique(s@, sourcedir_prefix(), f.source_dir@, source_dir@);
                    // the block carries a timestamp line, so the read
                    // cannot have missed it
                    match &f.timestamp {
                        Some(t) => {
                            lemma_quoted_result_unique(s@, timestamp_prefix(), t@, timestamp@);
                        },
                        None => {
                            let b2 = s@.len() as int + 1;
                            let (i5, j5, q5) = choose|i: int, j: int, q: int|
                                {
                                    &&& #[trigger] quoted_line(s@, timestamp_prefix(), i, j, q)
                                    &&& i < b2
                                    &&& timestamp@ == quoted_value(
                                        s@,
                                        timestamp_prefix(),
                                        i,
                                        q,
                                    )
                                    &&& forall|i2: int|
                                        i < i2 < b2 ==> !quoted_start(
                                            s@,
                                            timestamp_prefix(),
                                            i2,
                                        )
                                };
                            assert(quoted_start(s@, timestamp_prefix(), i5));
                            assert(false);
                        },
                    }
                }
            }
            let ts_matches: bool = match &f.timestamp {
                Some(t) => str_eq(t.as_str(), timestamp),
                None => false,
            };
            if f.is_relative == is_relative && f.version == version && str_eq(
                f.sentinel.as_str(),
                sentinel,
            ) && ts_matches && str_eq(f.source_dir.as_str(), source_dir) {
                Ok(s)
            } else {
                proof {
                    if fields_renderable(sentinel@, timestamp@, source_dir@, sops_rel@) {
                        assert(f.is_relative == is_relative);
                        assert(f.version as int == version as int);
                        assert(f.sentinel@ == sentinel@);
                        assert(ts_matches);
                        assert(f.source_dir@ == source_dir@);
                        assert(false);
                    }
                }
                Err(ConfGuardError::Internal(String::from_str(
                    "section block does not read back as its own fields",
                )))
            }
        },
        _ => {
            proof {
                if fields_renderable(sentinel@, timestamp@, source_dir@, sops_rel@) {
                    assert(has_markers(s@));
                    assert(!ver_overflow(s@));
                    // each field does have a carrying line, so the read
                    // cannot have come up empty
                    let b2 = s@.len() as int + 1;
                    let ir = choose|i: int|
                        {
                            &&& #[trigger] rel_match(s@, i)
                            &&& i < b2
                            &&& is_relative == rel_value(s@, i)
                            &&& forall|i2: int| i < i2 < b2 ==> !rel_match(s@, i2)
                        };
                    let (iv, ev) = choose|i: int, e: int|
                        {
                            &&& #[trigger] ver_line(s@, i, e)
                            &&& i < b2
                            &&& version as int == ver_value(s@, i, e)
                            &&& forall|i2: int| i < i2 < b2 ==> !ver_start(s@, i2)
                        };
                    assert(ver_start(s@, iv));
                    let (i4, j4, q4) = choose|i: int, j: int, q: int|
                        {
                            &&& #[trigger] quoted_line(s@, sentinel_prefix(), i, j, q)
                            &&& i < b2
                            &&& sentinel@ == quoted_value(s@, sentinel_prefix(), i, q)
                            &&& forall|i2: int|
                                i < i2 < b2 ==> !quoted_start(s@, sentinel_prefix(), i2)
                        };
                    assert(quoted_start(s@, sentinel_prefix(), i4));
                    let (i5, j5, q5) = choose|i: int, j: int, q: int|
                        {
                            &&& #[trigger] quoted_line(s@, timestamp_prefix(), i, j, q)
                            &&& i < b2
                            &&& timestamp@ == quoted_value(s@, timestamp_prefix(), i, q)
                            &&& forall|i2: int|
                                i < i2 < b2 ==> !quoted_start(s@, timestamp_prefix(), i2)
                        };
                    assert(quoted_start(s@, timestamp_prefix(), i5));
                    let (i6, j6, q6) = choose|i: int, j: int, q: int|
                        {
                            &&& #[trigger] quoted_line(s@, sourcedir_prefix(), i, j, q)
                            &&& i < b2
                            &&& source_dir@ == quoted_value(s@, sourcedir_prefix(), i, q)
                            &&& forall|i2: int|
                                i < i2 < b2 ==> !quoted_start(s@, sourcedir_prefix(), i2)
                        };
                    assert(quoted_start(s@, sourcedir_prefix(), i6));
                    assert(parse_outcome(s@, parsed));
                    assert(false);
                }
            }
            Err(ConfGuardError::Internal(String::from_str(
                "section block does not read back as its own fields",
            )))
        },
    }
}


// ---------------------------------------------------------------------
// A built block always reads back as its own fields.
// ---------------------------------------------------------------------

/// A pattern differing from the text's known content at one position
/// does not match there.
proof fn lemma_no_match(s: Seq<char>, p: Seq<char>, lead: Seq<char>, i: int, j: int)
    requires
        match_at(s, lead, i),
        0 <= j < p.len(),
        j < lead.len(),
        p[j] != lead[j],
    ensures
        !match_at(s, p, i),
{
    if match_at(s, p, i) {
        assert(s.subrange(i, i + p.len())[j] == p[j]);
        assert(s.subrange(i, i + lead.len())[j] == lead[j]);
    }
}

/// A match of an outer pattern carries its inner parts along.
proof fn lemma_match_within(s: Seq<char>, outer: Seq<char>, inner: Seq<char>, i: int, off: int)
    requires
        match_at(s, outer, i),
        0 <= off,
        off + inner.len() <= outer.len(),
        outer.subrange(off, off + inner.len()) == inner,
    ensures
        match_at(s, inner, i + off),
{
    assert(s.subrange(i + off, i + off + inner.len()) =~= outer.subrange(
        off,
        off + inner.len(),
    )) by {
        assert forall|k: int|
            #![trigger s.subrange(i + off, i + off + inner.len())[k]]
            0 <= k < inner.len() implies s.subrange(
            i + off,
            i + off + inner.len(),
        )[k] == outer.subrange(off, off + inner.len())[k] by {
            assert(s.subrange(i, i + outer.len())[off + k] == outer[off + k]);
            assert(s[i + off + k] == outer[off + k]);
        }
    }
}

/// One line of a composite text: its placement, its content, the
/// newline that closes it, and the absence of newlines inside it.
proof fn lemma_line_block(t: Seq<char>, pre: Seq<char>, l: Seq<char>, post: Seq<char>)
    requires
        t == pre + l + seq!['\n'] + post,
        pre.len() == 0 || pre.last() == '\n',
        newline_free(l),
    ensures
        is_line_at(t, pre.len() as int, pre.len() + l.len() as int),
        match_at(t, l, pre.len() as int),
        t[pre.len() + l.len() as int] == '\n',
        forall|p: int| pre.len() <= p < pre.len() + l.len() ==> t[p] != '\n',
{
    let i = pre.len() as int;
    let j = pre.len() + l.len() as int;
    assert(t.subrange(i, j) =~= l);
    assert(t[j] == '\n');
    assert(line_start(t, i)) by {
        if pre.len() > 0 {
            assert(t[i - 1] == pre.last());
        }
    }
    assert(forall|p: int| i <= p < j ==> t[p] == l[p - i]);
}

/// The lengths, characters and token placements of the grammar's
/// literal lines that the completeness argument leans on.
proof fn lemma_grammar_wf()
    ensures
        start_marker().len() == 81,
        end_marker().len() == 81,
        true_pat().len() == 24,
        false_pat().len() == 25,
        ver_prefix().len() == 19,
        sentinel_prefix().len() == 20,
        timestamp_prefix().len() == 21,
        sourcedir_prefix().len() == 21,
        "export SOPS_PATH=$HOME/"@.len() == 23,
        "dotenv $SOPS_PATH/environments/local.env"@.len() == 40,
        newline_free(start_marker()),
        newline_free(end_marker()),
        newline_free(true_pat()),
        newline_free(false_pat()),
        newline_free(ver_prefix()),
        newline_free(sentinel_prefix()),
        newline_free(timestamp_prefix()),
        newline_free(sourcedir_prefix()),
        newline_free("export SOPS_PATH=$HOME/"@),
        newline_free("dotenv $SOPS_PATH/environments/local.env"@),
        "dotenv $SOPS_PATH/environments/local.env\n"@ == "dotenv $SOPS_PATH/environments/local.env"@
            + seq!['\n'],
        start_marker().subrange(33, 48) == start_token(),
        end_marker().subrange(34, 47) == end_token(),
        start_marker()[1] == '-',
        end_marker()[1] == '-',
        true_pat()[1] == ' ',
        true_pat()[2] == 'c',
        true_pat()[9] == 'r',
        true_pat()[20] == 't',
        false_pat()[1] == ' ',
        false_pat()[2] == 'c',
        false_pat()[9] == 'r',
        false_pat()[20] == 'f',
        ver_prefix()[1] == ' ',
        ver_prefix()[2] == 'c',
        ver_prefix()[9] == 'v',
        sentinel_prefix()[1] == ' ',
        sentinel_prefix()[2] == 's',
        sentinel_prefix()[8] == 's',
        sentinel_prefix()[9] == 'e',
        timestamp_prefix()[1] == ' ',
        timestamp_prefix()[2] == 's',
        timestamp_prefix()[8] == 't',
        sourcedir_prefix()[1] == ' ',
        sourcedir_prefix()[2] == 's',
        sourcedir_prefix()[8] == 's',
        sourcedir_prefix()[9] == 'o',
        "export SOPS_PATH=$HOME/"@[0] == 'e',
        "dotenv $SOPS_PATH/environments/local.env"@[0] == 'd',
        true_pat()[0] == '#',
        false_pat()[0] == '#',
        ver_prefix()[0] == '#',
        sentinel_prefix()[0] == '#',
        timestamp_prefix()[0] == '#',
        sourcedir_prefix()[0] == '#',
{
    reveal_strlit("#------------------------------- confguard start --------------------------------");
    reveal_strlit("#-------------------------------- confguard end ---------------------------------");
    reveal_strlit("confguard start");
    reveal_strlit("confguard end");
    reveal_strlit("# config.relative = true");
    reveal_strlit("# config.relative = false");
    reveal_strlit("# config.version = ");
    reveal_strlit("# state.sentinel = '");
    reveal_strlit("# state.timestamp = '");
    reveal_strlit("# state.sourceDir = '");
    reveal_strlit("export SOPS_PATH=$HOME/");
    reveal_strlit("dotenv $SOPS_PATH/environments/local.env");
    reveal_strlit("dotenv $SOPS_PATH/environments/local.env\n");
    assert(start_marker().subrange(33, 48) =~= start_token());
    assert(end_marker().subrange(34, 47) =~= end_token());
    assert("dotenv $SOPS_PATH/environments/local.env\n"@
        =~= "dotenv $SOPS_PATH/environments/local.env"@ + seq!['\n']);
}

/// The relative-flag line for the given preference.
spec fn rel_pat(b: bool) -> Seq<char> {
    if b {
        true_pat()
    } else {
        false_pat()
    }
}

/// The content of the `k`-th line of a section block.
spec fn sec_line(
    k: int,
    b: bool,
    v: int,
    sen: Seq<char>,
    ts: Seq<char>,
    sd: Seq<char>,
    rl: Seq<char>,
) -> Seq<char> {
    if k == 1 {
        start_marker()
    } else if k == 2 {
        rel_pat(b)
    } else if k == 3 {
        ver_prefix() + dec_digits(v)
    } else if k == 4 {
        sentinel_prefix() + sen + seq!['\'']
    } else if k == 5 {
        timestamp_prefix() + ts + seq!['\'']
    } else if k == 6 {
        sourcedir_prefix() + sd + seq!['\'']
    } else if k == 7 {
        "export SOPS_PATH=$HOME/"@ + rl
    } else if k == 8 {
        "dotenv $SOPS_PATH/environments/local.env"@
    } else {
        end_marker()
    }
}

/// Where the `k`-th line of a section block starts.
spec fn sec_off(
    k: int,
    b: bool,
    v: int,
    sen: Seq<char>,
    ts: Seq<char>,
    sd: Seq<char>,
    rl: Seq<char>,
) -> int
    decreases k,
{
    if k <= 1 {
        0
    } else {
        sec_off(k - 1, b, v, sen, ts, sd, rl) + sec_line(k - 1, b, v, sen, ts, sd, rl).len() + 1
    }
}

/// Later lines start strictly later.
proof fn lemma_sec_off_mono(
    k1: int,
    k2: int,
    b: bool,
    v: int,
    sen: Seq<char>,
    ts: Seq<char>,
    sd: Seq<char>,
    rl: Seq<char>,
)
    requires
        1 <= k1 < k2 <= 10,
    ensures
        sec_off(k1, b, v, sen, ts, sd, rl) < sec_off(k2, b, v, sen, ts, sd, rl),
    decreases k2,
{
    if k1 < k2 - 1 {
        lemma_sec_off_mono(k1, k2 - 1, b, v, sen, ts, sd, rl);
    }
}

/// Line 1 of a built block sits at its offset with its content.
#[verifier::rlimit(100)]
proof fn lemma_sec_block_1(b: bool, v: int, sen: Seq<char>, ts: Seq<char>, sd: Seq<char>, rl: Seq<char>)
    requires
        0 <= v,
        fields_renderable(sen, ts, sd, rl),
    ensures
        ({
            let t = section_text(b, v, sen, ts, sd, rl);
            let o = sec_off(1, b, v, sen, ts, sd, rl);
            let l = sec_line(1, b, v, sen, ts, sd, rl);
            &&& is_line_at(t, o, o + l.len())
            &&& match_at(t, l, o)
        }),
{
    lemma_grammar_wf();
    lemma_dec_digits_val(v);
    let t = section_text(b, v, sen, ts, sd, rl);
    let ex = "export SOPS_PATH=$HOME/"@;
    let dvl = "dotenv $SOPS_PATH/environments/local.env"@;
    let nl = seq!['\n'];
    let dig = dec_digits(v);
    let l1 = start_marker();
    let l2 = rel_pat(b);
    let l3 = ver_prefix() + dig;
    let l4 = sentinel_prefix() + sen + seq!['\''];
    let l5 = timestamp_prefix() + ts + seq!['\''];
    let l6 = sourcedir_prefix() + sd + seq!['\''];
    let l7 = ex + rl;
    let l8 = dvl;
    let l9 = end_marker();
    assert(newline_free(l1));
    let pre = Seq::<char>::empty();
    let post = l2 + nl + l3 + nl + l4 + nl + l5 + nl + l6 + nl + l7 + nl + l8 + nl + l9 + nl;
    assert(t =~= pre + l1 + nl + post);
    lemma_line_block(t, pre, l1, post);
    assert(sec_line(1, b, v, sen, ts, sd, rl) == l1);
    assert(sec_off(1, b, v, sen, ts, sd, rl) == pre.len());
}

/// Line 2 of a built block sits at its offset with its content.
#[verifier::rlimit(100)]
proof fn lemma_sec_block_2(b: bool, v: int, sen: Seq<char>, ts: Seq<char>, sd: Seq<char>, rl: Seq<char>)
    requires
        0 <= v,
        fields_renderable(sen, ts, sd, rl),
    ensures
        ({
            let t = section_text(b, v, sen, ts, sd, rl);
            let o = sec_off(2, b, v, sen, ts, sd, rl);
            let l = sec_line(2, b, v, sen, ts, sd, rl);
            &&& is_line_at(t, o, o + l.len())
            &&& match_at(t, l, o)
        }),
{
    lemma_grammar_wf();
    lemma_dec_digits_val(v);
    let t = section_text(b, v, sen, ts, sd, rl);
    let ex = "export SOPS_PATH=$HOME/"@;
    let dvl = "dotenv $SOPS_PATH/environments/local.env"@;
    let nl = seq!['\n'];
    let dig = dec_digits(v);
    let l1 = start_marker();
    let l2 = rel_pat(b);
    let l3 = ver_prefix() + dig;
    let l4 = sentinel_prefix() + sen + seq!['\''];
    let l5 = timestamp_prefix() + ts + seq!['\''];
    let l6 = sourcedir_prefix() + sd + seq!['\''];
    let l7 = ex + rl;
    let l8 = dvl;
    let l9 = end_marker();
    assert(newline_free(l2));
    let pre = l1 + nl;
    let post = l3 + nl + l4 + nl + l5 + nl + l6 + nl + l7 + nl + l8 + nl + l9 + nl;
    assert(t =~= pre + l2 + nl + post);
    assert(pre.last() == '\n');
    lemma_line_block(t, pre, l2, post);
    assert(sec_line(1, b, v, sen, ts, sd, rl) == l1);
    assert(sec_line(2, b, v, sen, ts, sd, rl) == l2);
    assert(sec_off(2, b, v, sen, ts, sd, rl) == sec_off(1, b, v, sen, ts, sd, rl) + sec_line(1, b, v, sen, ts, sd, rl).len() + 1);
    assert(sec_off(2, b, v, sen, ts, sd, rl) == pre.len());
}

/// Line 3 of a built block sits at its offset with its content.
#[verifier::rlimit(100)]
proof fn lemma_sec_block_3(b: bool, v: int, sen: Seq<char>, ts: Seq<char>, sd: Seq<char>, rl: Seq<char>)
    requires
        0 <= v,
        fields_renderable(sen, ts, sd, rl),
    ensures
        ({
            let t = section_text(b, v, sen, ts, sd, rl);
            let o = sec_off(3, b, v, sen, ts, sd, rl);
            let l = sec_line(3, b, v, sen, ts, sd, rl);
            &&& is_line_at(t, o, o + l.len())
            &&& match_at(t, l, o)
        }),
{
    lemma_grammar_wf();
    lemma_dec_digits_val(v);
    let t = section_text(b, v, sen, ts, sd, rl);
    let ex = "export SOPS_PATH=$HOME/"@;
    let dvl = "dotenv $SOPS_PATH/environments/local.env"@;
    let nl = seq!['\n'];
    let dig = dec_digits(v);
    let l1 = start_marker();
    let l2 = rel_pat(b);
    let l3 = ver_prefix() + dig;
    let l4 = sentinel_prefix() + sen + seq!['\''];
    let l5 = timestamp_prefix() + ts + seq!['\''];
    let l6 = sourcedir_prefix() + sd + seq!['\''];
    let l7 = ex + rl;
    let l8 = dvl;
    let l9 = end_marker();
    assert(newline_free(l3)) by {
        assert(forall|k: int| 19 <= k < l3.len() ==> l3[k] == dig[k - 19]);
        assert(forall|k: int| 0 <= k < dig.len() ==> is_digit(#[trigger] dig[k]));
        assert(!is_digit('\n'));
    }
    let pre = l1 + nl + l2 + nl;
    let post = l4 + nl + l5 + nl + l6 + nl + l7 + nl + l8 + nl + l9 + nl;
    assert(t =~= pre + l3 + nl + post);
    assert(pre.last() == '\n');
    lemma_line_block(t, pre, l3, post);
    assert(sec_line(1, b, v, sen, ts, sd, rl) == l1);
    assert(sec_line(2, b, v, sen, ts, sd, rl) == l2);
    assert(sec_line(3, b, v, sen, ts, sd, rl) == l3);
    assert(sec_off(2, b, v, sen, ts, sd, rl) == sec_off(1, b, v, sen, ts, sd, rl) + sec_line(1, b, v, sen, ts, sd, rl).len() + 1);
    assert(sec_off(3, b, v, sen, ts, sd, rl) == sec_off(2, b, v, sen, ts, sd, rl) + sec_line(2, b, v, sen, ts, sd, rl).len() + 1);
    assert(sec_off(3, b, v, sen, ts, sd, rl) == pre.len());
}

/// Line 4 of a built block sits at its offset with its content.
#[verifier::rlimit(100)]
proof fn lemma_sec_block_4(b: bool, v: int, sen: Seq<char>, ts: Seq<char>, sd: Seq<char>, rl: Seq<char>)
    requires
        0 <= v,
        fields_renderable(sen, ts, sd, rl),
    ensures
        ({
            let t = section_text(b, v, sen, ts, sd, rl);
            let o = sec_off(4, b, v, sen, ts, sd, rl);
            let l = sec_line(4, b, v, sen, ts, sd, rl);
            &&& is_line_at(t, o, o + l.len())
            &&& match_at(t, l, o)
        }),
{
    lemma_grammar_wf();
    lemma_dec_digits_val(v);
    let t = section_text(b, v, sen, ts, sd, rl);
    let ex = "export SOPS_PATH=$HOME/"@;
    let dvl = "dotenv $SOPS_PATH/environments/local.env"@;
    let nl = seq!['\n'];
    let dig = dec_digits(v);
    let l1 = start_marker();
    let l2 = rel_pat(b);
    let l3 = ver_prefix() + dig;
    let l4 = sentinel_prefix() + sen + seq!['\''];
    let l5 = timestamp_prefix() + ts + seq!['\''];
    let l6 = sourcedir_prefix() + sd + seq!['\''];
    let l7 = ex + rl;
    let l8 = dvl;
    let l9 = end_marker();
    assert(newline_free(l4)) by {
        assert(forall|k: int| 20 <= k < 20 + sen.len() ==> l4[k] == sen[k - 20]);
        assert(l4[l4.len() - 1] == '\'');
    }
    let pre = l1 + nl + l2 + nl + l3 + nl;
    let post = l5 + nl + l6 + nl + l7 + nl + l8 + nl + l9 + nl;
    assert(t =~= pre + l4 + nl + post);
    assert(pre.last() == '\n');
    lemma_line_block(t, pre, l4, post);
    assert(sec_line(1, b, v, sen, ts, sd, rl) == l1);
    assert(sec_line(2, b, v, sen, ts, sd, rl) == l2);
    assert(sec_line(3, b, v, sen, ts, sd, rl) == l3);
    assert(sec_line(4, b, v, sen, ts, sd, rl) == l4);
    assert(sec_off(2, b, v, sen, ts, sd, rl) == sec_off(1, b, v, sen, ts, sd, rl) + sec_line(1, b, v, sen, ts, sd, rl).len() + 1);
    assert(sec_off(3, b, v, sen, ts, sd, rl) == sec_off(2, b, v, sen, ts, sd, rl) + sec_line(2, b, v, sen, ts, sd, rl).len() + 1);
    assert(sec_off(4, b, v, sen, ts, sd, rl) == sec_off(3, b, v, sen, ts, sd, rl) + sec_line(3, b, v, sen, ts, sd, rl).len() + 1);
    assert(sec_off(4, b, v, sen, ts, sd, rl) == pre.len());
}

/// Line 5 of a built block sits at its offset with its content.
#[verifier::rlimit(100)]
proof fn lemma_sec_block_5(b: bool, v: int, sen: Seq<char>, ts: Seq<char>, sd: Seq<char>, rl: Seq<char>)
    requires
        0 <= v,
        fields_renderable(sen, ts, sd, rl),
    ensures
        ({
            let t = section_text(b, v, sen, ts, sd, rl);
            let o = sec_off(5, b, v, sen, ts, sd, rl);
            let l = sec_line(5, b, v, sen, ts, sd, rl);
            &&& is_line_at(t, o, o + l.len())
            &&& match_at(t, l, o)
        }),
{
    lemma_grammar_wf();
    lemma_dec_digits_val(v);
    let t = section_text(b, v, sen, ts, sd, rl);
    let ex = "export SOPS_PATH=$HOME/"@;
    let dvl = "dotenv $SOPS_PATH/environments/local.env"@;
    let nl = seq!['\n'];
    let dig = dec_digits(v);
    let l1 = start_marker();
    let l2 = rel_pat(b);
    let l3 = ver_prefix() + dig;
    let l4 = sentinel_prefix() + sen + seq!['\''];
    let l5 = timestamp_prefix() + ts + seq!['\''];
    let l6 = sourcedir_prefix() + sd + seq!['\''];
    let l7 = ex + rl;
    let l8 = dvl;
    let l9 = end_marker();
    assert(newline_free(l5)) by {
        assert(forall|k: int| 21 <= k < 21 + ts.len() ==> l5[k] == ts[k - 21]);
        assert(l5[l5.len() - 1] == '\'');
    }
    let pre = l1 + nl + l2 + nl + l3 + nl + l4 + nl;
    let post = l6 + nl + l7 + nl + l8 + nl + l9 + nl;
    assert(t =~= pre + l5 + nl + post);
    assert(pre.last() == '\n');
    lemma_line_block(t, pre, l5, post);
    assert(sec_line(1, b, v, sen, ts, sd, rl) == l1);
    assert(sec_line(2, b, v, sen, ts, sd, rl) == l2);
    assert(sec_line(3, b, v, sen, ts, sd, rl) == l3);
    assert(sec_line(4, b, v, sen, ts, sd, rl) == l4);
    assert(sec_line(5, b, v, sen, ts, sd, rl) == l5);
    assert(sec_off(2, b, v, sen, ts, sd, rl) == sec_off(1, b, v, sen, ts, sd, rl) + sec_line(1, b, v, sen, ts, sd, rl).len() + 1);
    assert(sec_off(3, b, v, sen, ts, sd, rl) == sec_off(2, b, v, sen, ts, sd, rl) + sec_line(2, b, v, sen, ts, sd, rl).len() + 1);
    assert(sec_off(4, b, v, sen, ts, sd, rl) == sec_off(3, b, v, sen, ts, sd, rl) + sec_line(3, b, v, sen, ts, sd, rl).len() + 1);
    assert(sec_off(5, b, v, sen, ts, sd, rl) == sec_off(4, b, v, sen, ts, sd, rl) + sec_line(4, b, v, sen, ts, sd, rl).len() + 1);
    assert(sec_off(5, b, v, sen, ts, sd, rl) == pre.len());
}

/// Line 6 of a built block sits at its offset with its content.
#[verifier::rlimit(100)]
proof fn lemma_sec_block_6(b: bool, v: int, sen: Seq<char>, ts: Seq<char>, sd: Seq<char>, rl: Seq<char>)
    requires
        0 <= v,
        fields_renderable(sen, ts, sd, rl),
    ensures
        ({
            let t = section_text(b, v, sen, ts, sd, rl);
            let o = sec_off(6, b, v, sen, ts, sd, rl);
            let l = sec_line(6, b, v, sen, ts, sd, rl);
            &&& is_line_at(t, o, o + l.len())
            &&& match_at(t, l, o)
        }),
{
    lemma_grammar_wf();
    lemma_dec_digits_val(v);
    let t = section_text(b, v, sen, ts, sd, rl);
    let ex = "export SOPS_PATH=$HOME/"@;
    let dvl = "dotenv $SOPS_PATH/environments/local.env"@;
    let nl = seq!['\n'];
    let dig = dec_digits(v);
    let l1 = start_marker();
    let l2 = rel_pat(b);
    let l3 = ver_prefix() + dig;
    let l4 = sentinel_prefix() + sen + seq!['\''];
    let l5 = timestamp_prefix() + ts + seq!['\''];
    let l6 = sourcedir_prefix() + sd + seq!['\''];
    let l7 = ex + rl;
    let l8 = dvl;
    let l9 = end_marker();
    assert(newline_free(l6)) by {
        assert(forall|k: int| 21 <= k < 21 + sd.len() ==> l6[k] == sd[k - 21]);
        assert(l6[l6.len() - 1] == '\'');
    }
    let pre = l1 + nl + l2 + nl + l3 + nl + l4 + nl + l5 + nl;
    let post = l7 + nl + l8 + nl + l9 + nl;
    assert(t =~= pre + l6 + nl + post);
    assert(pre.last() == '\n');
    lemma_line_block(t, pre, l6, post);
    assert(sec_line(1, b, v, sen, ts, sd, rl) == l1);
    assert(sec_line(2, b, v, sen, ts, sd, rl) == l2);
    assert(sec_line(3, b, v, sen, ts, sd, rl) == l3);
    assert(sec_line(4, b, v, sen, ts, sd, rl) == l4);
    assert(sec_line(5, b, v, sen, ts, sd, rl) == l5);
    assert(sec_line(6, b, v, sen, ts, sd, rl) == l6);
    assert(sec_off(2, b, v, sen, ts, sd, rl) == sec_off(1, b, v, sen, ts, sd, rl) + sec_line(1, b, v, sen, ts, sd, rl).len() + 1);
    assert(sec_off(3, b, v, sen, ts, sd, rl) == sec_off(2, b, v, sen, ts, sd, rl) + sec_line(2, b, v, sen, ts, sd, rl).len() + 1);
    assert(sec_off(4, b, v, sen, ts, sd, rl) == sec_off(3, b, v, sen, ts, sd, rl) + sec_line(3, b, v, sen, ts, sd, rl).len() + 1);
    assert(sec_off(5, b, v, sen, ts, sd, rl) == sec_off(4, b, v, sen, ts, sd, rl) + sec_line(4, b, v, sen, ts, sd, rl).len() + 1);
    assert(sec_off(6, b, v, sen, ts, sd, rl) == sec_off(5, b, v, sen, ts, sd, rl) + sec_line(5, b, v, sen, ts, sd, rl).len() + 1);
    assert(sec_off(6, b, v, sen, ts, sd, rl) == pre.len());
}

/// Line 7 of a built block sits at its offset with its content.
#[verifier::rlimit(100)]
proof fn lemma_sec_block_7(b: bool, v: int, sen: Seq<char>, ts: Seq<char>, sd: Seq<char>, rl: Seq<char>)
    requires
        0 <= v,
        fields_renderable(sen, ts, sd, rl),
    ensures
        ({
            let t = section_text(b, v, sen, ts, sd, rl);
            let o = sec_off(7, b, v, sen, ts, sd, rl);
            let l = sec_line(7, b, v, sen, ts, sd, rl);
            &&& is_line_at(t, o, o + l.len())
            &&& match_at(t, l, o)
        }),
{
    lemma_grammar_wf();
    lemma_dec_digits_val(v);
    let t = section_text(b, v, sen, ts, sd, rl);
    let ex = "export SOPS_PATH=$HOME/"@;
    let dvl = "dotenv $SOPS_PATH/environments/local.env"@;
    let nl = seq!['\n'];
    let dig = dec_digits(v);
    let l1 = start_marker();
    let l2 = rel_pat(b);
    let l3 = ver_prefix() + dig;
    let l4 = sentinel_prefix() + sen + seq!['\''];
    let l5 = timestamp_prefix() + ts + seq!['\''];
    let l6 = sourcedir_prefix() + sd + seq!['\''];
    let l7 = ex + rl;
    let l8 = dvl;
    let l9 = end_marker();
    assert(newline_free(l7)) by {
        assert(forall|k: int| 23 <= k < l7.len() ==> l7[k] == rl[k - 23]);
    }
    let pre = l1 + nl + l2 + nl + l3 + nl + l4 + nl + l5 + nl + l6 + nl;
    let post = l8 + nl + l9 + nl;
    assert(t =~= pre + l7 + nl + post);
    assert(pre.last() == '\n');
    lemma_line_block(t, pre, l7, post);
    assert(sec_line(1, b, v, sen, ts, sd, rl) == l1);
    assert(sec_line(2, b, v, sen, ts, sd, rl) == l2);
    assert(sec_line(3, b, v, sen, ts, sd, rl) == l3);
    assert(sec_line(4, b, v, sen, ts, sd, rl) == l4);
    assert(sec_line(5, b, v, sen, ts, sd, rl) == l5);
    assert(sec_line(6, b, v, sen, ts, sd, rl) == l6);
    assert(sec_line(7, b, v, sen, ts, sd, rl) == l7);
    assert(sec_off(2, b, v, sen, ts, sd, rl) == sec_off(1, b, v, sen, ts, sd, rl) + sec_line(1, b, v, sen, ts, sd, rl).len() + 1);
    assert(sec_off(3, b, v, sen, ts, sd, rl) == sec_off(2, b, v, sen, ts, sd, rl) + sec_line(2, b, v, sen, ts, sd, rl).len() + 1);
    assert(sec_off(4, b, v, sen, ts, sd, rl) == sec_off(3, b, v, sen, ts, sd, rl) + sec_line(3, b, v, sen, ts, sd, rl).len() + 1);
    assert(sec_off(5, b, v, sen, ts, sd, rl) == sec_off(4, b, v, sen, ts, sd, rl) + sec_line(4, b, v, sen, ts, sd, rl).len() + 1);
    assert(sec_off(6, b, v, sen, ts, sd, rl) == sec_off(5, b, v, sen, ts, sd, rl) + sec_line(5, b, v, sen, ts, sd, rl).len() + 1);
    assert(sec_off(7, b, v, sen, ts, sd, rl) == sec_off(6, b, v, sen, ts, sd, rl) + sec_line(6, b, v, sen, ts, sd, rl).len() + 1);
    assert(sec_off(7, b, v, sen, ts, sd, rl) == pre.len());
}

/// Line 8 of a built block sits at its offset with its content.
#[verifier::rlimit(100)]
proof fn lemma_sec_block_8(b: bool, v: int, sen: Seq<char>, ts: Seq<char>, sd: Seq<char>, rl: Seq<char>)
    requires
        0 <= v,
        fields_renderable(sen, ts, sd, rl),
    ensures
        ({
            let t = section_text(b, v, sen, ts, sd, rl);
            let o = sec_off(8, b, v, sen, ts, sd, rl);
            let l = sec_line(8, b, v, sen, ts, sd, rl);
            &&& is_line_at(t, o, o + l.len())
            &&& match_at(t, l, o)
        }),
{
    lemma_grammar_wf();
    lemma_dec_digits_val(v);
    let t = section_text(b, v, sen, ts, sd, rl);
    let ex = "export SOPS_PATH=$HOME/"@;
    let dvl = "dotenv $SOPS_PATH/environments/local.env"@;
    let nl = seq!['\n'];
    let dig = dec_digits(v);
    let l1 = start_marker();
    let l2 = rel_pat(b);
    let l3 = ver_prefix() + dig;
    let l4 = sentinel_prefix() + sen + seq!['\''];
    let l5 = timestamp_prefix() + ts + seq!['\''];
    let l6 = sourcedir_prefix() + sd + seq!['\''];
    let l7 = ex + rl;
    let l8 = dvl;
    let l9 = end_marker();
    assert(newline_free(l8));
    let pre = l1 + nl + l2 + nl + l3 + nl + l4 + nl + l5 + nl + l6 + nl + l7 + nl;
    let post = l9 + nl;
    assert(t =~= pre + l8 + nl + post);
    assert(pre.last() == '\n');
    lemma_line_block(t, pre, l8, post);
    assert(sec_line(1, b, v, sen, ts, sd, rl) == l1);
    assert(sec_line(2, b, v, sen, ts, sd, rl) == l2);
    assert(sec_line(3, b, v, sen, ts, sd, rl) == l3);
    assert(sec_line(4, b, v, sen, ts, sd, rl) == l4);
    assert(sec_line(5, b, v, sen, ts, sd, rl) == l5);
    assert(sec_line(6, b, v, sen, ts, sd, rl) == l6);
    assert(sec_line(7, b, v, sen, ts, sd, rl) == l7);
    assert(sec_line(8, b, v, sen, ts, sd, rl) == l8);
    assert(sec_off(2, b, v, sen, ts, sd, rl) == sec_off(1, b, v, sen, ts, sd, rl) + sec_line(1, b, v, sen, ts, sd, rl).len() + 1);
    assert(sec_off(3, b, v, sen, ts, sd, rl) == sec_off(2, b, v, sen, ts, sd, rl) + sec_line(2, b, v, sen, ts, sd, rl).len() + 1);
    assert(sec_off(4, b, v, sen, ts, sd, rl) == sec_off(3, b, v, sen, ts, sd, rl) + sec_line(3, b, v, sen, ts, sd, rl).len() + 1);
    assert(sec_off(5, b, v, sen, ts, sd, rl) == sec_off(4, b, v, sen, ts, sd, rl) + sec_line(4, b, v, sen, ts, sd, rl).len() + 1);
    assert(sec_off(6, b, v, sen, ts, sd, rl) == sec_off(5, b, v, sen, ts, sd, rl) + sec_line(5, b, v, sen, ts, sd, rl).len() + 1);
    assert(sec_off(7, b, v, sen, ts, sd, rl) == sec_off(6, b, v, sen, ts, sd, rl) + sec_line(6, b, v, sen, ts, sd, rl).len() + 1);
    assert(sec_off(8, b, v, sen, ts, sd, rl) == sec_off(7, b, v, sen, ts, sd, rl) + sec_line(7, b, v, sen, ts, sd, rl).len() + 1);
    assert(sec_off(8, b, v, sen, ts, sd, rl) == pre.len());
}

/// Line 9 of a built block sits at its offset with its content.
#[verifier::rlimit(100)]
proof fn lemma_sec_block_9(b: bool, v: int, sen: Seq<char>, ts: Seq<char>, sd: Seq<char>, rl: Seq<char>)
    requires
        0 <= v,
        fields_renderable(sen, ts, sd, rl),
    ensures
        ({
            let t = section_text(b, v, sen, ts, sd, rl);
            let o = sec_off(9, b, v, sen, ts, sd, rl);
            let l = sec_line(9, b, v, sen, ts, sd, rl);
            &&& is_line_at(t, o, o + l.len())
            &&& match_at(t, l, o)
            &&& t.len() == sec_off(10, b, v, sen, ts, sd, rl)
        }),
{
    lemma_grammar_wf();
    lemma_dec_digits_val(v);
    let t = section_text(b, v, sen, ts, sd, rl);
    let ex = "export SOPS_PATH=$HOME/"@;
    let dvl = "dotenv $SOPS_PATH/environments/local.env"@;
    let nl = seq!['\n'];
    let dig = dec_digits(v);
    let l1 = start_marker();
    let l2 = rel_pat(b);
    let l3 = ver_prefix() + dig;
    let l4 = sentinel_prefix() + sen + seq!['\''];
    let l5 = timestamp_prefix() + ts + seq!['\''];
    let l6 = sourcedir_prefix() + sd + seq!['\''];
    let l7 = ex + rl;
    let l8 = dvl;
    let l9 = end_marker();
    assert(newline_free(l9));
    let pre = l1 + nl + l2 + nl + l3 + nl + l4 + nl + l5 + nl + l6 + nl + l7 + nl + l8 + nl;
    let post = Seq::<char>::empty();
    assert(t =~= pre + l9 + nl + post);
    assert(pre.last() == '\n');
    lemma_line_block(t, pre, l9, post);
    assert(sec_line(1, b, v, sen, ts, sd, rl) == l1);
    assert(sec_line(2, b, v, sen, ts, sd, rl) == l2);
    assert(sec_line(3, b, v, sen, ts, sd, rl) == l3);
    assert(sec_line(4, b, v, sen, ts, sd, rl) == l4);
    assert(sec_line(5, b, v, sen, ts, sd, rl) == l5);
    assert(sec_line(6, b, v, sen, ts, sd, rl) == l6);
    assert(sec_line(7, b, v, sen, ts, sd, rl) == l7);
    assert(sec_line(8, b, v, sen, ts, sd, rl) == l8);
    assert(sec_line(9, b, v, sen, ts, sd, rl) == l9);
    assert(sec_off(2, b, v, sen, ts, sd, rl) == sec_off(1, b, v, sen, ts, sd, rl) + sec_line(1, b, v, sen, ts, sd, rl).len() + 1);
    assert(sec_off(3, b, v, sen, ts, sd, rl) == sec_off(2, b, v, sen, ts, sd, rl) + sec_line(2, b, v, sen, ts, sd, rl).len() + 1);
    assert(sec_off(4, b, v, sen, ts, sd, rl) == sec_off(3, b, v, sen, ts, sd, rl) + sec_line(3, b, v, sen, ts, sd, rl).len() + 1);
    assert(sec_off(5, b, v, sen, ts, sd, rl) == sec_off(4, b, v, sen, ts, sd, rl) + sec_line(4, b, v, sen, ts, sd, rl).len() + 1);
    assert(sec_off(6, b, v, sen, ts, sd, rl) == sec_off(5, b, v, sen, ts, sd, rl) + sec_line(5, b, v, sen, ts, sd, rl).len() + 1);
    assert(sec_off(7, b, v, sen, ts, sd, rl) == sec_off(6, b, v, sen, ts, sd, rl) + sec_line(6, b, v, sen, ts, sd, rl).len() + 1);
    assert(sec_off(8, b, v, sen, ts, sd, rl) == sec_off(7, b, v, sen, ts, sd, rl) + sec_line(7, b, v, sen, ts, sd, rl).len() + 1);
    assert(sec_off(9, b, v, sen, ts, sd, rl) == sec_off(8, b, v, sen, ts, sd, rl) + sec_line(8, b, v, sen, ts, sd, rl).len() + 1);
    assert(sec_off(10, b, v, sen, ts, sd, rl) == sec_off(9, b, v, sen, ts, sd, rl) + sec_line(9, b, v, sen, ts, sd, rl).len() + 1);
    assert(sec_off(9, b, v, sen, ts, sd, rl) == pre.len());
}

/// Every line of a built block starts at one of its nine offsets.
#[verifier::rlimit(100)]
proof fn lemma_section_line_starts(
    b: bool,
    v: int,
    sen: Seq<char>,
    ts: Seq<char>,
    sd: Seq<char>,
    rl: Seq<char>,
)
    requires
        0 <= v,
        fields_renderable(sen, ts, sd, rl),
    ensures
        ({
            let t = section_text(b, v, sen, ts, sd, rl);
            forall|i: int|
                #[trigger] line_start(t, i) ==> i == t.len() || (exists|k: int|
                    1 <= k <= 9 && i == #[trigger] sec_off(k, b, v, sen, ts, sd, rl))
        }),
{
    lemma_sec_block_1(b, v, sen, ts, sd, rl);
    lemma_sec_block_2(b, v, sen, ts, sd, rl);
    lemma_sec_block_3(b, v, sen, ts, sd, rl);
    lemma_sec_block_4(b, v, sen, ts, sd, rl);
    lemma_sec_block_5(b, v, sen, ts, sd, rl);
    lemma_sec_block_6(b, v, sen, ts, sd, rl);
    lemma_sec_block_7(b, v, sen, ts, sd, rl);
    lemma_sec_block_8(b, v, sen, ts, sd, rl);
    lemma_sec_block_9(b, v, sen, ts, sd, rl);
    let t = section_text(b, v, sen, ts, sd, rl);
    let tl = t.len() as int;
    let o1 = sec_off(1, b, v, sen, ts, sd, rl);
    let o2 = sec_off(2, b, v, sen, ts, sd, rl);
    let o3 = sec_off(3, b, v, sen, ts, sd, rl);
    let o4 = sec_off(4, b, v, sen, ts, sd, rl);
    let o5 = sec_off(5, b, v, sen, ts, sd, rl);
    let o6 = sec_off(6, b, v, sen, ts, sd, rl);
    let o7 = sec_off(7, b, v, sen, ts, sd, rl);
    let o8 = sec_off(8, b, v, sen, ts, sd, rl);
    let o9 = sec_off(9, b, v, sen, ts, sd, rl);
    assert(o1 == 0);
    assert(o2 == o1 + sec_line(1, b, v, sen, ts, sd, rl).len() + 1);
    assert(o3 == o2 + sec_line(2, b, v, sen, ts, sd, rl).len() + 1);
    assert(o4 == o3 + sec_line(3, b, v, sen, ts, sd, rl).len() + 1);
    assert(o5 == o4 + sec_line(4, b, v, sen, ts, sd, rl).len() + 1);
    assert(o6 == o5 + sec_line(5, b, v, sen, ts, sd, rl).len() + 1);
    assert(o7 == o6 + sec_line(6, b, v, sen, ts, sd, rl).len() + 1);
    assert(o8 == o7 + sec_line(7, b, v, sen, ts, sd, rl).len() + 1);
    assert(o9 == o8 + sec_line(8, b, v, sen, ts, sd, rl).len() + 1);
    assert(tl == o9 + sec_line(9, b, v, sen, ts, sd, rl).len() + 1);
    assert forall|i: int| #[trigger] line_start(t, i) implies i == tl || (exists|k: int|
        1 <= k <= 9 && i == #[trigger] sec_off(k, b, v, sen, ts, sd, rl)) by {
        if i == 0 {
            assert(1 <= 1 <= 9 && i == sec_off(1, b, v, sen, ts, sd, rl));
        } else if i != tl {
            let p = i - 1;
            assert(t[p] == '\n');
            if p < o2 - 1 {
                assert(t[p] != '\n');
            } else if p == o2 - 1 {
                assert(1 <= 2 <= 9 && i == sec_off(2, b, v, sen, ts, sd, rl));
            } else if p < o3 - 1 {
                assert(t[p] != '\n');
            } else if p == o3 - 1 {
                assert(1 <= 3 <= 9 && i == sec_off(3, b, v, sen, ts, sd, rl));
            } else if p < o4 - 1 {
                assert(t[p] != '\n');
            } else if p == o4 - 1 {
                assert(1 <= 4 <= 9 && i == sec_off(4, b, v, sen, ts, sd, rl));
            } else if p < o5 - 1 {
                assert(t[p] != '\n');
            } else if p == o5 - 1 {
                assert(1 <= 5 <= 9 && i == sec_off(5, b, v, sen, ts, sd, rl));
            } else if p < o6 - 1 {
                assert(t[p] != '\n');
            } else if p == o6 - 1 {
                assert(1 <= 6 <= 9 && i == sec_off(6, b, v, sen, ts, sd, rl));
            } else if p < o7 - 1 {
                assert(t[p] != '\n');
            } else if p == o7 - 1 {
                assert(1 <= 7 <= 9 && i == sec_off(7, b, v, sen, ts, sd, rl));
            } else if p < o8 - 1 {
                assert(t[p] != '\n');
            } else if p == o8 - 1 {
                assert(1 <= 8 <= 9 && i == sec_off(8, b, v, sen, ts, sd, rl));
            } else if p < o9 - 1 {
                assert(t[p] != '\n');
            } else if p == o9 - 1 {
                assert(1 <= 9 <= 9 && i == sec_off(9, b, v, sen, ts, sd, rl));
            } else {
                assert(o9 <= p < tl - 1);
                assert(t[p] != '\n');
            }
        }
    }
}

/// The block's relative-flag line decides the flag: it is the only
/// line carrying one.
#[verifier::rlimit(100)]
proof fn lemma_section_rel(
    b: bool,
    v: int,
    sen: Seq<char>,
    ts: Seq<char>,
    sd: Seq<char>,
    rl: Seq<char>,
)
    requires
        0 <= v,
        fields_renderable(sen, ts, sd, rl),
    ensures
        rel_result(section_text(b, v, sen, ts, sd, rl), Some(b)),
{
    lemma_grammar_wf();
    lemma_sec_block_1(b, v, sen, ts, sd, rl);
    lemma_sec_block_2(b, v, sen, ts, sd, rl);
    lemma_sec_block_3(b, v, sen, ts, sd, rl);
    lemma_sec_block_4(b, v, sen, ts, sd, rl);
    lemma_sec_block_5(b, v, sen, ts, sd, rl);
    lemma_sec_block_6(b, v, sen, ts, sd, rl);
    lemma_sec_block_7(b, v, sen, ts, sd, rl);
    lemma_sec_block_8(b, v, sen, ts, sd, rl);
    lemma_sec_block_9(b, v, sen, ts, sd, rl);
    lemma_section_line_starts(b, v, sen, ts, sd, rl);
    let t = section_text(b, v, sen, ts, sd, rl);
    let tl = t.len() as int;
    let o2 = sec_off(2, b, v, sen, ts, sd, rl);
    assert(rel_match(t, o2)) by {
        assert(match_at(t, rel_pat(b), o2));
    }
    assert(rel_value(t, o2) == b) by {
        if !b {
            assert(match_at(t, false_pat(), o2));
            lemma_no_match(t, true_pat(), false_pat(), o2, 20);
        }
    }
    assert forall|i2: int| o2 < i2 < tl + 1 implies !rel_match(t, i2) by {
        if rel_match(t, i2) {
            assert(line_start(t, i2));
            if i2 != tl {
                let k = choose|k: int|
                    1 <= k <= 9 && i2 == #[trigger] sec_off(k, b, v, sen, ts, sd, rl);
                lemma_sec_off_mono(2, 10, b, v, sen, ts, sd, rl);
                if k <= 2 {
                    if k < 2 {
                        lemma_sec_off_mono(k, 2, b, v, sen, ts, sd, rl);
                    }
                }
                assert(k > 2);
                let lead = sec_line(k, b, v, sen, ts, sd, rl);
                assert(match_at(t, lead, i2));
                if k == 3 {
                    assert(lead[9] == ver_prefix()[9]);
                    lemma_no_match(t, true_pat(), lead, i2, 9);
                    lemma_no_match(t, false_pat(), lead, i2, 9);
                } else if k == 4 {
                    assert(lead[2] == sentinel_prefix()[2]);
                    lemma_no_match(t, true_pat(), lead, i2, 2);
                    lemma_no_match(t, false_pat(), lead, i2, 2);
                } else if k == 5 {
                    assert(lead[2] == timestamp_prefix()[2]);
                    lemma_no_match(t, true_pat(), lead, i2, 2);
                    lemma_no_match(t, false_pat(), lead, i2, 2);
                } else if k == 6 {
                    assert(lead[2] == sourcedir_prefix()[2]);
                    lemma_no_match(t, true_pat(), lead, i2, 2);
                    lemma_no_match(t, false_pat(), lead, i2, 2);
                } else if k == 7 {
                    assert(lead[0] == "export SOPS_PATH=$HOME/"@[0]);
                    lemma_no_match(t, true_pat(), lead, i2, 0);
                    lemma_no_match(t, false_pat(), lead, i2, 0);
                } else if k == 8 {
                    lemma_no_match(t, true_pat(), lead, i2, 0);
                    lemma_no_match(t, false_pat(), lead, i2, 0);
                } else {
                    lemma_no_match(t, true_pat(), lead, i2, 1);
                    lemma_no_match(t, false_pat(), lead, i2, 1);
                }
            }
        }
    }
    assert(rel_result(t, Some(b))) by {
        assert(rel_match(t, o2) && o2 < tl + 1 && b == rel_value(t, o2) && (forall|i2: int|
            o2 < i2 < tl + 1 ==> !rel_match(t, i2)));
    }
}

/// The block's version line decides the version, which stays in
/// range; no other line carries one.
#[verifier::rlimit(100)]
proof fn lemma_section_ver(
    b: bool,
    v: int,
    sen: Seq<char>,
    ts: Seq<char>,
    sd: Seq<char>,
    rl: Seq<char>,
)
    requires
        0 <= v <= i64::MAX,
        fields_renderable(sen, ts, sd, rl),
    ensures
        ver_result(section_text(b, v, sen, ts, sd, rl), Some(v)),
        !ver_overflow(section_text(b, v, sen, ts, sd, rl)),
{
    lemma_grammar_wf();
    lemma_dec_digits_val(v);
    lemma_sec_block_1(b, v, sen, ts, sd, rl);
    lemma_sec_block_2(b, v, sen, ts, sd, rl);
    lemma_sec_block_3(b, v, sen, ts, sd, rl);
    lemma_sec_block_4(b, v, sen, ts, sd, rl);
    lemma_sec_block_5(b, v, sen, ts, sd, rl);
    lemma_sec_block_6(b, v, sen, ts, sd, rl);
    lemma_sec_block_7(b, v, sen, ts, sd, rl);
    lemma_sec_block_8(b, v, sen, ts, sd, rl);
    lemma_sec_block_9(b, v, sen, ts, sd, rl);
    lemma_section_line_starts(b, v, sen, ts, sd, rl);
    let t = section_text(b, v, sen, ts, sd, rl);
    let tl = t.len() as int;
    let dig = dec_digits(v);
    let o3 = sec_off(3, b, v, sen, ts, sd, rl);
    let l3 = sec_line(3, b, v, sen, ts, sd, rl);
    let ds = o3 + 19;
    let e3 = o3 + l3.len();
    assert(match_at(t, l3, o3));
    assert forall|k2: int| o3 <= k2 < e3 implies #[trigger] t[k2] == l3[k2 - o3] by {
        assert(t.subrange(o3, o3 + l3.len())[k2 - o3] == l3[k2 - o3]);
    }
    assert(ver_start(t, o3)) by {
        assert(l3.subrange(0, 19) =~= ver_prefix());
        lemma_match_within(t, l3, ver_prefix(), o3, 0);
        lemma_sec_off_mono(3, 10, b, v, sen, ts, sd, rl);
        assert(t[ds] == l3[19]);
        assert(l3[19] == dig[0]);
    }
    assert(digits_run(t, ds, e3)) by {
        assert(forall|k2: int| 19 <= k2 < l3.len() ==> l3[k2] == dig[k2 - 19]);
        assert(is_line_at(t, o3, e3));
        if e3 < tl {
            assert(t[e3] == '\n' || e3 == tl) by {
                assert(is_line_at(t, o3, e3));
            }
            assert(!is_digit(t[e3]));
        }
    }
    assert(ver_line(t, o3, e3));
    assert(ver_value(t, o3, e3) == v) by {
        assert(t.subrange(ds, e3) =~= dig);
    }
    assert forall|i2: int| o3 < i2 < tl + 1 implies !ver_start(t, i2) by {
        if ver_start(t, i2) {
            assert(line_start(t, i2));
            if i2 != tl {
                let k = choose|k: int|
                    1 <= k <= 9 && i2 == #[trigger] sec_off(k, b, v, sen, ts, sd, rl);
                if k < 3 {
                    lemma_sec_off_mono(k, 3, b, v, sen, ts, sd, rl);
                }
                assert(k > 3);
                let lead = sec_line(k, b, v, sen, ts, sd, rl);
                assert(match_at(t, lead, i2));
                if k == 4 {
                    assert(lead[2] == sentinel_prefix()[2]);
                    lemma_no_match(t, ver_prefix(), lead, i2, 2);
                } else if k == 5 {
                    assert(lead[2] == timestamp_prefix()[2]);
                    lemma_no_match(t, ver_prefix(), lead, i2, 2);
                } else if k == 6 {
                    assert(lead[2] == sourcedir_prefix()[2]);
                    lemma_no_match(t, ver_prefix(), lead, i2, 2);
                } else if k == 7 {
                    lemma_no_match(t, ver_prefix(), lead, i2, 0);
                } else if k == 8 {
                    lemma_no_match(t, ver_prefix(), lead, i2, 0);
                } else {
                    lemma_no_match(t, ver_prefix(), lead, i2, 1);
                }
            }
        }
    }
    assert(ver_result(t, Some(v))) by {
        assert(ver_line(t, o3, e3) && o3 < tl + 1 && v == ver_value(t, o3, e3) && (forall|
            i2: int,
        | o3 < i2 < tl + 1 ==> !ver_start(t, i2)));
    }
    assert(!ver_overflow(t)) by {
        if ver_overflow(t) {
            let (i, e) = choose|i: int, e: int|
                {
                    &&& #[trigger] ver_line(t, i, e)
                    &&& i < tl + 1
                    &&& ver_value(t, i, e) > i64::MAX
                };
            assert(ver_start(t, i));
            assert(line_start(t, i));
            assert(i + ver_prefix().len() < tl);
            let k = choose|k: int|
                1 <= k <= 9 && i == #[trigger] sec_off(k, b, v, sen, ts, sd, rl);
            if k == 1 {
                assert(match_at(t, sec_line(1, b, v, sen, ts, sd, rl), 0));
                lemma_no_match(t, ver_prefix(), start_marker(), 0, 1);
            } else if k == 2 {
                assert(match_at(t, rel_pat(b), i));
                assert(rel_pat(b)[9] == 'r');
                lemma_no_match(t, ver_prefix(), rel_pat(b), i, 9);
            } else if k == 3 {
                lemma_digits_run_unique(t, ds, e, e3);
            }
        }
    }
}

/// The block's sentinel line decides that field; no later line
/// carries the same prefix.
#[verifier::rlimit(100)]
proof fn lemma_section_sentinel(
    b: bool,
    v: int,
    sen: Seq<char>,
    ts: Seq<char>,
    sd: Seq<char>,
    rl: Seq<char>,
)
    requires
        0 <= v,
        fields_renderable(sen, ts, sd, rl),
    ensures
        quoted_result(section_text(b, v, sen, ts, sd, rl), sentinel_prefix(), Some(sen)),
{
    lemma_grammar_wf();
    lemma_sec_block_1(b, v, sen, ts, sd, rl);
    lemma_sec_block_2(b, v, sen, ts, sd, rl);
    lemma_sec_block_3(b, v, sen, ts, sd, rl);
    lemma_sec_block_4(b, v, sen, ts, sd, rl);
    lemma_sec_block_5(b, v, sen, ts, sd, rl);
    lemma_sec_block_6(b, v, sen, ts, sd, rl);
    lemma_sec_block_7(b, v, sen, ts, sd, rl);
    lemma_sec_block_8(b, v, sen, ts, sd, rl);
    lemma_sec_block_9(b, v, sen, ts, sd, rl);
    lemma_section_line_starts(b, v, sen, ts, sd, rl);
    let t = section_text(b, v, sen, ts, sd, rl);
    let tl = t.len() as int;
    let p = sentinel_prefix();
    let val = sen;
    let o = sec_off(4, b, v, sen, ts, sd, rl);
    let l = sec_line(4, b, v, sen, ts, sd, rl);
    let j = o + l.len();
    let q = j - 1;
    assert(l == p + val + seq!['\'']);
    assert(match_at(t, l, o));
    assert(is_line_at(t, o, j));
    assert forall|k2: int| o <= k2 < j implies #[trigger] t[k2] == l[k2 - o] by {
        assert(t.subrange(o, o + l.len())[k2 - o] == l[k2 - o]);
    }
    assert(quoted_line(t, p, o, j, q)) by {
        assert(l.subrange(0, p.len() as int) =~= p);
        lemma_match_within(t, l, p, o, 0);
        assert(t[q] == l[l.len() - 1]);
        assert(l[l.len() - 1] == '\'');
        assert(q == o + p.len() + val.len());
    }
    assert(quoted_value(t, p, o, q) == val) by {
        assert(t.subrange(o + p.len(), q) =~= val) by {
            assert(forall|k2: int|
                p.len() <= k2 < p.len() + val.len() ==> l[k2] == val[k2 - p.len()]);
        }
    }
    assert forall|i2: int| o < i2 < tl + 1 implies !quoted_start(t, p, i2) by {
        if quoted_start(t, p, i2) {
            let (j2, q2) = choose|j2: int, q2: int| quoted_line(t, p, i2, j2, q2);
            assert(match_at(t, p, i2));
            assert(line_start(t, i2));
            if i2 != tl {
                let k = choose|k: int|
                    1 <= k <= 9 && i2 == #[trigger] sec_off(k, b, v, sen, ts, sd, rl);
                if k < 4 {
                    lemma_sec_off_mono(k, 4, b, v, sen, ts, sd, rl);
                }
                assert(k > 4);
                let lead = sec_line(k, b, v, sen, ts, sd, rl);
                assert(match_at(t, lead, i2));
                if k == 5 {
                    assert(lead[8] == timestamp_prefix()[8]);
                    lemma_no_match(t, p, lead, i2, 8);
                } else if k == 6 {
                    assert(lead[9] == sourcedir_prefix()[9]);
                    lemma_no_match(t, p, lead, i2, 9);
                } else if k == 7 {
                    lemma_no_match(t, p, lead, i2, 0);
                } else if k == 8 {
                    lemma_no_match(t, p, lead, i2, 0);
                } else {
                    lemma_no_match(t, p, lead, i2, 1);
                }
            }
        }
    }
    assert(quoted_result(t, p, Some(val))) by {
        assert(quoted_line(t, p, o, j, q) && o < tl + 1 && val == quoted_value(t, p, o, q) && (
        forall|i2: int| o < i2 < tl + 1 ==> !quoted_start(t, p, i2)));
    }
}

/// The block's timestamp line decides that field; no later line
/// carries the same prefix.
#[verifier::rlimit(100)]
proof fn lemma_section_timestamp(
    b: bool,
    v: int,
    sen: Seq<char>,
    ts: Seq<char>,
    sd: Seq<char>,
    rl: Seq<char>,
)
    requires
        0 <= v,
        fields_renderable(sen, ts, sd, rl),
    ensures
        quoted_result(section_text(b, v, sen, ts, sd, rl), timestamp_prefix(), Some(ts)),
{
    lemma_grammar_wf();
    lemma_sec_block_1(b, v, sen, ts, sd, rl);
    lemma_sec_block_2(b, v, sen, ts, sd, rl);
    lemma_sec_block_3(b, v, sen, ts, sd, rl);
    lemma_sec_block_4(b, v, sen, ts, sd, rl);
    lemma_sec_block_5(b, v, sen, ts, sd, rl);
    lemma_sec_block_6(b, v, sen, ts, sd, rl);
    lemma_sec_block_7(b, v, sen, ts, sd, rl);
    lemma_sec_block_8(b, v, sen, ts, sd, rl);
    lemma_sec_block_9(b, v, sen, ts, sd, rl);
    lemma_section_line_starts(b, v, sen, ts, sd, rl);
    let t = section_text(b, v, sen, ts, sd, rl);
    let tl = t.len() as int;
    let p = timestamp_prefix();
    let val = ts;
    let o = sec_off(5, b, v, sen, ts, sd, rl);
    let l = sec_line(5, b, v, sen, ts, sd, rl);
    let j = o + l.len();
    let q = j - 1;
    assert(l == p + val + seq!['\'']);
    assert(match_at(t, l, o));
    assert(is_line_at(t, o, j));
    assert forall|k2: int| o <= k2 < j implies #[trigger] t[k2] == l[k2 - o] by {
        assert(t.subrange(o, o + l.len())[k2 - o] == l[k2 - o]);
    }
    assert(quoted_line(t, p, o, j, q)) by {
        assert(l.subrange(0, p.len() as int) =~= p);
        lemma_match_within(t, l, p, o, 0);
        assert(t[q] == l[l.len() - 1]);
        assert(l[l.len() - 1] == '\'');
        assert(q == o + p.len() + val.len());
    }
    assert(quoted_value(t, p, o, q) == val) by {
        assert(t.subrange(o + p.len(), q) =~= val) by {
            assert(forall|k2: int|
                p.len() <= k2 < p.len() + val.len() ==> l[k2] == val[k2 - p.len()]);
        }
    }
    assert forall|i2: int| o < i2 < tl + 1 implies !quoted_start(t, p, i2) by {
        if quoted_start(t, p, i2) {
            let (j2, q2) = choose|j2: int, q2: int| quoted_line(t, p, i2, j2, q2);
            assert(match_at(t, p, i2));
            assert(line_start(t, i2));
            if i2 != tl {
                let k = choose|k: int|
                    1 <= k <= 9 && i2 == #[trigger] sec_off(k, b, v, sen, ts, sd, rl);
                if k < 5 {
                    lemma_sec_off_mono(k, 5, b, v, sen, ts, sd, rl);
                }
                assert(k > 5);
                let lead = sec_line(k, b, v, sen, ts, sd, rl);
                assert(match_at(t, lead, i2));
                if k == 6 {
                    assert(lead[8] == sourcedir_prefix()[8]);
                    lemma_no_match(t, p, lead, i2, 8);
                } else if k == 7 {
                    lemma_no_match(t, p, lead, i2, 0);
                } else if k == 8 {
                    lemma_no_match(t, p, lead, i2, 0);
                } else {
                    lemma_no_match(t, p, lead, i2, 1);
                }
            }
        }
    }
    assert(quoted_result(t, p, Some(val))) by {
        assert(quoted_line(t, p, o, j, q) && o < tl + 1 && val == quoted_value(t, p, o, q) && (
        forall|i2: int| o < i2 < tl + 1 ==> !quoted_start(t, p, i2)));
    }
}

/// The block's source directory line decides that field; no later line
/// carries the same prefix.
#[verifier::rlimit(100)]
proof fn lemma_section_sourcedir(
    b: bool,
    v: int,
    sen: Seq<char>,
    ts: Seq<char>,
    sd: Seq<char>,
    rl: Seq<char>,
)
    requires
        0 <= v,
        fields_renderable(sen, ts, sd, rl),
    ensures
        quoted_result(section_text(b, v, sen, ts, sd, rl), sourcedir_prefix(), Some(sd)),
{
    lemma_grammar_wf();
    lemma_sec_block_1(b, v, sen, ts, sd, rl);
    lemma_sec_block_2(b, v, sen, ts, sd, rl);
    lemma_sec_block_3(b, v, sen, ts, sd, rl);
    lemma_sec_block_4(b, v, sen, ts, sd, rl);
    lemma_sec_block_5(b, v, sen, ts, sd, rl);
    lemma_sec_block_6(b, v, sen, ts, sd, rl);
    lemma_sec_block_7(b, v, sen, ts, sd, rl);
    lemma_sec_block_8(b, v, sen, ts, sd, rl);
    lemma_sec_block_9(b, v, sen, ts, sd, rl);
    lemma_section_line_starts(b, v, sen, ts, sd, rl);
    let t = section_text(b, v, sen, ts, sd, rl);
    let tl = t.len() as int;
    let p = sourcedir_prefix();
    let val = sd;
    let o = sec_off(6, b, v, sen, ts, sd, rl);
    let l = sec_line(6, b, v, sen, ts, sd, rl);
    let j = o + l.len();
    let q = j - 1;
    assert(l == p + val + seq!['\'']);
    assert(match_at(t, l, o));
    assert(is_line_at(t, o, j));
    assert forall|k2: int| o <= k2 < j implies #[trigger] t[k2] == l[k2 - o] by {
        assert(t.subrange(o, o + l.len())[k2 - o] == l[k2 - o]);
    }
    assert(quoted_line(t, p, o, j, q)) by {
        assert(l.subrange(0, p.len() as int) =~= p);
        lemma_match_within(t, l, p, o, 0);
        assert(t[q] == l[l.len() - 1]);
        assert(l[l.len() - 1] == '\'');
        assert(q == o + p.len() + val.len());
    }
    assert(quoted_value(t, p, o, q) == val) by {
        assert(t.subrange(o + p.len(), q) =~= val) by {
            assert(forall|k2: int|
                p.len() <= k2 < p.len() + val.len() ==> l[k2] == val[k2 - p.len()]);
        }
    }
    assert forall|i2: int| o < i2 < tl + 1 implies !quoted_start(t, p, i2) by {
        if quoted_start(t, p, i2) {
            let (j2, q2) = choose|j2: int, q2: int| quoted_line(t, p, i2, j2, q2);
            assert(match_at(t, p, i2));
            assert(line_start(t, i2));
            if i2 != tl {
                let k = choose|k: int|
                    1 <= k <= 9 && i2 == #[trigger] sec_off(k, b, v, sen, ts, sd, rl);
                if k < 6 {
                    lemma_sec_off_mono(k, 6, b, v, sen, ts, sd, rl);
                }
                assert(k > 6);
                let lead = sec_line(k, b, v, sen, ts, sd, rl);
                assert(match_at(t, lead, i2));
                if k == 7 {
                    lemma_no_match(t, p, lead, i2, 0);
                } else if k == 8 {
                    lemma_no_match(t, p, lead, i2, 0);
                } else {
                    lemma_no_match(t, p, lead, i2, 1);
                }
            }
        }
    }
    assert(quoted_result(t, p, Some(val))) by {
        assert(quoted_line(t, p, o, j, q) && o < tl + 1 && val == quoted_value(t, p, o, q) && (
        forall|i2: int| o < i2 < tl + 1 ==> !quoted_start(t, p, i2)));
    }
}

/// A block built from renderable fields reads back as exactly those
/// fields.
pub proof fn lemma_section_text_parses(
    is_relative: bool,
    version: int,
    sentinel: Seq<char>,
    timestamp: Seq<char>,
    source_dir: Seq<char>,
    sops_rel: Seq<char>,
)
    requires
        0 <= version <= i64::MAX,
        fields_renderable(sentinel, timestamp, source_dir, sops_rel),
    ensures
        section_parses_to(
            section_text(is_relative, version, sentinel, timestamp, source_dir, sops_rel),
            is_relative,
            version,
            sentinel,
            timestamp,
            source_dir,
        ),
{
    lemma_grammar_wf();
    lemma_sec_block_1(is_relative, version, sentinel, timestamp, source_dir, sops_rel);
    lemma_sec_block_9(is_relative, version, sentinel, timestamp, source_dir, sops_rel);
    let t = section_text(is_relative, version, sentinel, timestamp, source_dir, sops_rel);
    let l1 = sec_line(1, is_relative, version, sentinel, timestamp, source_dir, sops_rel);
    let l9 = sec_line(9, is_relative, version, sentinel, timestamp, source_dir, sops_rel);
    let o9 = sec_off(9, is_relative, version, sentinel, timestamp, source_dir, sops_rel);
    assert(sec_off(1, is_relative, version, sentinel, timestamp, source_dir, sops_rel) == 0);
    assert(has_markers(t)) by {
        assert(match_at(t, l1, 0));
        lemma_match_within(t, start_marker(), start_token(), 0, 33);
        assert(match_at(t, l9, o9));
        lemma_match_within(t, end_marker(), end_token(), o9, 34);
        assert(contains_seq(t, start_token())) by {
            assert(match_at(t, start_token(), 33));
        }
        assert(contains_seq(t, end_token())) by {
            assert(match_at(t, end_token(), o9 + 34));
        }
    }
    lemma_section_rel(is_relative, version, sentinel, timestamp, source_dir, sops_rel);
    lemma_section_ver(is_relative, version, sentinel, timestamp, source_dir, sops_rel);
    lemma_section_sentinel(is_relative, version, sentinel, timestamp, source_dir, sops_rel);
    lemma_section_timestamp(is_relative, version, sentinel, timestamp, source_dir, sops_rel);
    lemma_section_sourcedir(is_relative, version, sentinel, timestamp, source_dir, sops_rel);
}


} // verus!
