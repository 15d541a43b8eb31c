//! The ignore-file manager: maintains a delimited block of entries
//! mirroring the encryption include-list.  The verified part is the
//! three-way split of the file's lines around that block; reading and
//! rewriting the file is the shell's.

use vstd::prelude::*;
use crate::text::{chars_of, find_char_from};
use crate::trusted::string_from_chars;

verus! {

// ---------------------------------------------------------------------
// Splitting text into lines.
// ---------------------------------------------------------------------

/// A carriage return left at the end of a line is dropped: a file
/// with CRLF endings reads as the same lines.
pub open spec fn strip_cr(l: Seq<char>) -> Seq<char> {
    if l.len() > 0 && l.last() == '\r' {
        l.drop_last()
    } else {
        l
    }
}

/// The closed lines of `s` and the still-open final line.
pub open spec fn lines_acc(s: Seq<char>) -> (Seq<Seq<char>>, Seq<char>)
    decreases s.len(),
{
    if s.len() == 0 {
        (Seq::empty(), Seq::empty())
    } else {
        let (ls, cur) = lines_acc(s.drop_last());
        if s.last() == '\n' {
            (ls.push(strip_cr(cur)), Seq::empty())
        } else {
            (ls, cur.push(s.last()))
        }
    }
}

/// The lines of `s`: newline-separated, a trailing newline closing the
/// last line rather than opening an empty one.
pub open spec fn lines_spec(s: Seq<char>) -> Seq<Seq<char>> {
    let (ls, cur) = lines_acc(s);
    if cur.len() == 0 {
        ls
    } else {
        ls.push(cur)
    }
}

/// Splits text into its lines.
pub fn split_lines(text: &str) -> (r: Vec<String>)
    ensures
        r.deep_view() == lines_spec(text@),
{
    let v: Vec<char> = chars_of(text);
    let n: usize = v.len();
    let mut out: Vec<String> = Vec::new();
    let mut cur: Vec<char> = Vec::new();
    let mut i: usize = 0;
    proof {
        assert(v@.subrange(0, 0) =~= Seq::<char>::empty());
        assert(out.deep_view() =~= lines_acc(v@.subrange(0, 0)).0);
        assert(cur@ =~= lines_acc(v@.subrange(0, 0)).1);
    }
    while i < n
        invariant
            i <= n,
            n == v@.len(),
            out.deep_view() == lines_acc(v@.subrange(0, i as int)).0,
            cur@ == lines_acc(v@.subrange(0, i as int)).1,
        decreases n - i,
    {
        let c: char = v[i];
        proof {
            assert(v@.subrange(0, i as int + 1).drop_last() =~= v@.subrange(0, i as int));
            assert(v@.subrange(0, i as int + 1).last() == v@[i as int]);
        }
        if c == '\n' {
            if cur.len() > 0 && cur[cur.len() - 1] == '\r' {
                let _ = cur.pop();
            }
            let ghost oc: Seq<char> = cur@;
            let ghost od: Seq<Seq<char>> = out.deep_view();
            out.push(string_from_chars(cur));
            cur = Vec::new();
            proof {
                assert(out.deep_view() =~= od.push(oc));
                assert(cur@ =~= lines_acc(v@.subrange(0, i as int + 1)).1);
            }
        } else {
            cur.push(c);
        }
        i = i + 1;
    }
    proof {
        assert(v@.subrange(0, n as int) =~= v@);
    }
    if cur.len() > 0 {
        let ghost oc: Seq<char> = cur@;
        let ghost od: Seq<Seq<char>> = out.deep_view();
        out.push(string_from_chars(cur));
        proof {
            assert(out.deep_view() =~= od.push(oc));
        }
    }
    out
}

// ---------------------------------------------------------------------
// The three-way split around the managed block.
// ---------------------------------------------------------------------

/// Folds the first `n` lines into (before, inside, after, in-block):
/// a start line opens the block, an end line closes it; lines inside
/// go to the middle; lines outside go before the block until the
/// middle has content, and after it from then on.
pub open spec fn split_acc(
    ls: Seq<Seq<char>>,
    n: int,
    start: Seq<char>,
    end: Seq<char>,
) -> (Seq<Seq<char>>, Seq<Seq<char>>, Seq<Seq<char>>, bool)
    decreases n,
{
    if n <= 0 {
        (Seq::empty(), Seq::empty(), Seq::empty(), false)
    } else {
        let (pre, mid, post, ins) = split_acc(ls, n - 1, start, end);
        let l = ls[n - 1];
        if l == start {
            (pre, mid, post, true)
        } else if l == end {
            (pre, mid, post, false)
        } else if ins {
            (pre, mid.push(l), post, ins)
        } else if mid.len() == 0 {
            (pre.push(l), mid, post, ins)
        } else {
            (pre, mid, post.push(l), ins)
        }
    }
}

/// Maintains the delimited block this tool keeps in a project's
/// ignore file.
pub struct GitignoreManager {
    pub gitignore_path: String,
    pub section_start: String,
    pub section_end: String,
}

impl GitignoreManager {
    /// Points the manager at a project's ignore file, with the fixed
    /// block delimiters.
    pub fn new(project_path: &str) -> (r: GitignoreManager)
        ensures
            r.gitignore_path@ == project_path@ + "/.gitignore"@,
            r.section_start@
                == "# ---------------------------------- confguard-start -----------------------------------"@,
            r.section_end@
                == "# ---------------------------------- confguard-end -----------------------------------"@,
    {
        GitignoreManager {
            gitignore_path: String::from_str(project_path).concat("/.gitignore"),
            section_start: String::from_str(
                "# ---------------------------------- confguard-start -----------------------------------",
            ),
            section_end: String::from_str(
                "# ---------------------------------- confguard-end -----------------------------------",
            ),
        }
    }

    /// Splits a file's content into the lines before the managed
    /// block, inside it, and after it.
    pub fn split_sections(&self, content: &str) -> (r: (Vec<String>, Vec<String>, Vec<String>))
        ensures
            ({
                let ls = lines_spec(content@);
                let (pre, mid, post, ins) = split_acc(
                    ls,
                    ls.len() as int,
                    self.section_start@,
                    self.section_end@,
                );
                r.0.deep_view() == pre && r.1.deep_view() == mid && r.2.deep_view() == post
            }),
    {
        let lines: Vec<String> = split_lines(content);
        let n: usize = lines.len();
        let ghost ls = lines.deep_view();
        proof {
            assert(ls.len() == lines@.len());
        }
        let mut pre: Vec<String> = Vec::new();
        let mut mid: Vec<String> = Vec::new();
        let mut post: Vec<String> = Vec::new();
        let mut ins: bool = false;
        proof {
            assert(pre.deep_view() =~= split_acc(ls, 0, self.section_start@, self.section_end@).0);
            assert(mid.deep_view() =~= split_acc(ls, 0, self.section_start@, self.section_end@).1);
            assert(post.deep_view() =~= split_acc(ls, 0, self.section_start@, self.section_end@).2);
        }
        let mut i: usize = 0;
        while i < n
            invariant
                i <= n,
                n == lines@.len(),
                n == ls.len(),
                ls == lines.deep_view(),
                pre.deep_view() == split_acc(ls, i as int, self.section_start@, self.section_end@).0,
                mid.deep_view() == split_acc(ls, i as int, self.section_start@, self.section_end@).1,
                post.deep_view() == split_acc(ls, i as int, self.section_start@, self.section_end@).2,
                ins == split_acc(ls, i as int, self.section_start@, self.section_end@).3,
            decreases n - i,
        {
            let line: &String = &lines[i];
            proof {
                assert(ls[i as int] == lines@[i as int]@);
            }
            if crate::text::str_eq(line.as_str(), self.section_start.as_str()) {
                ins = true;
            } else if crate::text::str_eq(line.as_str(), self.section_end.as_str()) {
                ins = false;
            } else if ins {
                let ghost od: Seq<Seq<char>> = mid.deep_view();
                mid.push(line.clone());
                proof {
                    assert(mid.deep_view() =~= od.push(ls[i as int]));
                }
            } else if mid.len() == 0 {
                let ghost od: Seq<Seq<char>> = pre.deep_view();
                pre.push(line.clone());
                proof {
                    assert(pre.deep_view() =~= od.push(ls[i as int]));
                }
            } else {
                let ghost od: Seq<Seq<char>> = post.deep_view();
                post.push(line.clone());
                proof {
                    assert(post.deep_view() =~= od.push(ls[i as int]));
                }
            }
            i = i + 1;
        }
        (pre, mid, post)
    }
}

} // verus!
