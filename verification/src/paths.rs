//! Path utilities on plain path strings: segmentation, prefix
//! replacement, home-directory substitution, and containment checks.
//!
//! Paths are treated as `/`-separated character strings; the shell
//! around the crate resolves them against the real filesystem.

use vstd::prelude::*;
use crate::errors::ConfGuardError;
use crate::text::{chars_of, match_at, push_all, rfind_char_in, subvec, vec_eq};
use crate::trusted::string_from_chars;

verus! {

// ---------------------------------------------------------------------
// Segmentation.
// ---------------------------------------------------------------------

/// The nonempty `/`-separated segments of a path string, in order.
pub open spec fn raw_segs(s: Seq<char>) -> Seq<Seq<char>>
    decreases s.len(),
{
    if s.len() == 0 {
        Seq::empty()
    } else if s.last() == '/' {
        raw_segs(s.drop_last())
    } else if s.len() == 1 || s[s.len() - 2] == '/' {
        raw_segs(s.drop_last()).push(seq![s.last()])
    } else {
        let p = raw_segs(s.drop_last());
        p.update(p.len() - 1, p.last().push(s.last()))
    }
}

/// The path string is absolute.
pub open spec fn is_absolute(s: Seq<char>) -> bool {
    s.len() > 0 && s[0] == '/'
}

/// The path's segments with `.` entries dropped — except a leading
/// `.` on a relative path, which names the current directory and is
/// kept.
pub open spec fn visible_segs(segs: Seq<Seq<char>>, keep_lead_dot: bool) -> Seq<Seq<char>>
    decreases segs.len(),
{
    if segs.len() == 0 {
        Seq::empty()
    } else {
        let init = visible_segs(segs.drop_last(), keep_lead_dot);
        if segs.last() == "."@ && !(keep_lead_dot && segs.len() == 1) {
            init
        } else {
            init.push(segs.last())
        }
    }
}

/// The segments of a path that name directory entries.
pub open spec fn entry_segs(s: Seq<char>) -> Seq<Seq<char>> {
    visible_segs(raw_segs(s), !is_absolute(s))
}

/// The components of a path: a leading `/` component for an absolute
/// path, then its visible segments.
pub open spec fn components_of(s: Seq<char>) -> Seq<Seq<char>> {
    if is_absolute(s) {
        seq![seq!['/']] + entry_segs(s)
    } else {
        entry_segs(s)
    }
}

/// Collects the raw segments of a path.
fn raw_segments(path: &str) -> (r: Vec<String>)
    ensures
        r.deep_view() == raw_segs(path@),
{
    let v: Vec<char> = chars_of(path);
    let n: usize = v.len();
    let mut segs: Vec<String> = Vec::new();
    proof {
        assert(v@.subrange(0, 0) =~= Seq::<char>::empty());
        assert(segs.deep_view() =~= raw_segs(v@.subrange(0, 0)));
    }
    let mut cur: Vec<char> = Vec::new();
    let mut i: usize = 0;
    while i < n
        invariant
            i <= n,
            n == v@.len(),
            cur@.len() > 0 ==> {
                &&& i > 0
                &&& v@[i - 1] != '/'
                &&& raw_segs(v@.subrange(0, i as int)) == raw_segs(v@.subrange(0, i as int)).drop_last().push(cur@)
                &&& raw_segs(v@.subrange(0, i as int)).len() > 0
                &&& segs.deep_view() == raw_segs(v@.subrange(0, i as int)).drop_last()
            },
            cur@.len() == 0 ==> segs.deep_view() == raw_segs(v@.subrange(0, i as int)),
            cur@.len() == 0 ==> (i == 0 || v@[i - 1] == '/'),
            cur@.len() > 0 ==> cur@ == raw_segs(v@.subrange(0, i as int)).last(),
        decreases n - i,
    {
        let c: char = v[i];
        proof {
            assert(v@.subrange(0, i as int + 1).drop_last() =~= v@.subrange(0, i as int));
            assert(v@.subrange(0, i as int + 1).last() == v@[i as int]);
        }
        if c == '/' {
            if cur.len() > 0 {
                let ghost oc: Seq<char> = cur@;
                let ghost od: Seq<Seq<char>> = segs.deep_view();
                segs.push(string_from_chars(cur));
                cur = Vec::new();
                proof {
                    assert(segs.deep_view() =~= od.push(oc));
                    assert(raw_segs(v@.subrange(0, i as int + 1)) == raw_segs(
                        v@.subrange(0, i as int),
                    ));
                    assert(raw_segs(v@.subrange(0, i as int)) == raw_segs(
                        v@.subrange(0, i as int),
                    ).drop_last().push(oc));
                    assert(segs.deep_view() =~= raw_segs(v@.subrange(0, i as int + 1)));
                }
            } else {
                proof {
                    assert(raw_segs(v@.subrange(0, i as int + 1)) == raw_segs(
                        v@.subrange(0, i as int),
                    ));
                }
            }
        } else {
            if cur.len() == 0 {
                cur.push(c);
                proof {
                    let pre = v@.subrange(0, i as int + 1);
                    assert(i == 0 || v@[i - 1] == '/');
                    assert(raw_segs(pre) == raw_segs(v@.subrange(0, i as int)).push(
                        seq![v@[i as int]],
                    ));
                    assert(cur@ =~= seq![v@[i as int]]);
                    assert(raw_segs(pre).drop_last() =~= raw_segs(v@.subrange(0, i as int)));
                }
            } else {
                cur.push(c);
                proof {
                    let pre = v@.subrange(0, i as int + 1);
                    let old_rs = raw_segs(v@.subrange(0, i as int));
                    assert(v@[i - 1] != '/');
                    assert(pre.len() == 1 || pre[pre.len() - 2] == v@[i - 1]);
                    assert(raw_segs(pre) == old_rs.update(
                        old_rs.len() - 1,
                        old_rs.last().push(v@[i as int]),
                    ));
                    assert(raw_segs(pre).drop_last() =~= old_rs.drop_last());
                    assert(raw_segs(pre).last() == cur@);
                    assert(raw_segs(pre) == raw_segs(pre).drop_last().push(cur@)) by {
                        assert(raw_segs(pre) =~= raw_segs(pre).drop_last().push(
                            raw_segs(pre).last(),
                        ));
                    }
                }
            }
        }
        i = i + 1;
    }
    proof {
        assert(v@.subrange(0, n as int) =~= v@);
    }
    if cur.len() > 0 {
        let ghost oc: Seq<char> = cur@;
        let ghost od: Seq<Seq<char>> = segs.deep_view();
        segs.push(string_from_chars(cur));
        proof {
            assert(segs.deep_view() =~= od.push(oc));
            assert(raw_segs(v@) == raw_segs(v@).drop_last().push(oc));
            assert(segs.deep_view() =~= raw_segs(v@));
        }
    }
    segs
}

/// Splits a path into its components.
pub fn path_components(path: &str) -> (r: Vec<String>)
    ensures
        r.deep_view() == components_of(path@),
{
    let v: Vec<char> = chars_of(path);
    let absolute: bool = v.len() > 0 && v[0] == '/';
    proof {
        assert(absolute == is_absolute(path@));
    }
    let segs: Vec<String> = raw_segments(path);
    let n: usize = segs.len();
    let ghost keep: bool = !is_absolute(path@);
    let ghost dv: Seq<Seq<char>> = segs.deep_view();
    let mut out: Vec<String> = Vec::new();
    if absolute {
        out.push(String::from_str("/"));
    }
    let ghost lead: Seq<Seq<char>> = if is_absolute(path@) {
        seq![seq!['/']]
    } else {
        Seq::empty()
    };
    proof {
        if absolute {
            reveal_strlit("/");
            assert("/"@ =~= seq!['/']);
        }
        assert(dv.subrange(0, 0) =~= Seq::<Seq<char>>::empty());
        assert(out.deep_view() =~= lead + visible_segs(dv.subrange(0, 0), keep));
    }
    let mut i: usize = 0;
    while i < n
        invariant
            i <= n,
            n == segs@.len(),
            n == dv.len(),
            dv == segs.deep_view(),
            keep == !is_absolute(path@),
            absolute == is_absolute(path@),
            lead == if is_absolute(path@) {
                seq![seq!['/']]
            } else {
                Seq::<Seq<char>>::empty()
            },
            out.deep_view() == lead + visible_segs(dv.subrange(0, i as int), keep),
        decreases n - i,
    {
        proof {
            assert(dv.subrange(0, i as int + 1).drop_last() =~= dv.subrange(0, i as int));
            assert(dv.subrange(0, i as int + 1).last() == dv[i as int]);
            assert(dv[i as int] == segs@[i as int]@);
        }
        let is_dot: bool = crate::text::str_eq(segs[i].as_str(), ".");
        if !is_dot || (!absolute && i == 0) {
            let ghost od: Seq<Seq<char>> = out.deep_view();
            out.push(segs[i].clone());
            proof {
                assert(out.deep_view() =~= od.push(dv[i as int]));
                assert(out.deep_view() =~= lead + visible_segs(dv.subrange(0, i as int + 1), keep));
            }
        } else {
            proof {
                assert(visible_segs(dv.subrange(0, i as int + 1), keep) == visible_segs(
                    dv.subrange(0, i as int),
                    keep,
                ));
            }
        }
        i = i + 1;
    }
    proof {
        assert(dv.subrange(0, n as int) =~= dv);
        assert(out.deep_view() =~= components_of(path@));
    }
    out
}

// ---------------------------------------------------------------------
// Joining segments back together.
// ---------------------------------------------------------------------

/// The parts joined with the separator between them.
pub open spec fn join_with(parts: Seq<Seq<char>>, sep: Seq<char>) -> Seq<char>
    decreases parts.len(),
{
    if parts.len() == 0 {
        Seq::empty()
    } else if parts.len() == 1 {
        parts[0]
    } else {
        join_with(parts.drop_last(), sep) + sep + parts.last()
    }
}

/// Joins strings with a separator.
pub fn join_strings(parts: &Vec<String>, from: usize, sep: &str) -> (r: String)
    requires
        from <= parts@.len(),
    ensures
        r@ == join_with(parts.deep_view().subrange(from as int, parts.deep_view().len() as int), sep@),
{
    let n: usize = parts.len();
    let sv: Vec<char> = chars_of(sep);
    let mut out: Vec<char> = Vec::new();
    let mut i: usize = from;
    proof {
        assert(parts.deep_view().len() == parts@.len());
        assert(parts.deep_view().subrange(from as int, from as int) =~= Seq::<Seq<char>>::empty());
    }
    while i < n
        invariant
            from <= i <= n,
            n == parts@.len(),
            n == parts.deep_view().len(),
            sv@ == sep@,
            out@ == join_with(parts.deep_view().subrange(from as int, i as int), sep@),
        decreases n - i,
    {
        let piece: Vec<char> = chars_of(parts[i].as_str());
        if i > from {
            push_all(&mut out, &sv);
        }
        push_all(&mut out, &piece);
        proof {
            let dv = parts.deep_view();
            let pre = dv.subrange(from as int, i as int);
            let pre1 = dv.subrange(from as int, i as int + 1);
            assert(pre1.drop_last() =~= pre);
            assert(pre1.last() == dv[i as int]);
            assert(dv[i as int] == parts@[i as int].view());
            assert(piece@ == dv[i as int]);
            if i > from {
                assert(out@ == join_with(pre, sep@) + sep@ + piece@);
                assert(pre1.len() >= 2);
                assert(out@ == join_with(pre1, sep@));
            } else {
                assert(pre.len() == 0);
                assert(join_with(pre, sep@) =~= Seq::<char>::empty());
                assert(out@ =~= piece@);
                assert(pre1.len() == 1);
                assert(join_with(pre1, sep@) == pre1[0]);
            }
        }
        i = i + 1;
    }
    string_from_chars(out)
}

// ---------------------------------------------------------------------
// Extracting trailing segments.
// ---------------------------------------------------------------------

/// What `extract_segments` produces: the last `num` components joined
/// with the separator, between the prefix and the suffix; when more
/// segments are requested than exist, all components joined, after the
/// prefix and one `/`.
pub open spec fn extract_segments_spec(
    path: Seq<char>,
    num: int,
    sep: Seq<char>,
    prefix: Seq<char>,
    suffix: Seq<char>,
) -> Seq<char> {
    let comps = components_of(path);
    if num > comps.len() {
        prefix + seq!['/'] + join_with(comps, sep) + suffix
    } else {
        prefix + join_with(comps.subrange(comps.len() - num, comps.len() as int), sep) + suffix
    }
}

/// Takes the last `num_segments` components of a path and joins them
/// with `separator`, wrapped in `prefix` and `suffix`.  Requesting more
/// components than the path has takes them all, after a single `/`.
pub fn extract_segments(
    path: &str,
    num_segments: usize,
    separator: &str,
    prefix: &str,
    suffix: &str,
) -> (r: String)
    ensures
        r@ == extract_segments_spec(path@, num_segments as int, separator@, prefix@, suffix@),
{
    let comps: Vec<String> = path_components(path);
    let n: usize = comps.len();
    proof {
        assert(comps.deep_view().len() == comps@.len());
    }
    let mut out: Vec<char> = chars_of(prefix);
    if num_segments > n {
        out.push('/');
        let joined: String = join_strings(&comps, 0, separator);
        let jv: Vec<char> = chars_of(joined.as_str());
        push_all(&mut out, &jv);
        proof {
            assert(comps.deep_view().subrange(0, comps.deep_view().len() as int) =~= comps.deep_view());
        }
    } else {
        let joined: String = join_strings(&comps, n - num_segments, separator);
        let jv: Vec<char> = chars_of(joined.as_str());
        push_all(&mut out, &jv);
    }
    let sv: Vec<char> = chars_of(suffix);
    push_all(&mut out, &sv);
    string_from_chars(out)
}

// ---------------------------------------------------------------------
// Prefix replacement and containment.
// ---------------------------------------------------------------------

/// The string with its trailing `/` characters removed.
pub open spec fn trim_trailing_slashes(s: Seq<char>) -> Seq<char>
    decreases s.len(),
{
    if s.len() > 0 && s.last() == '/' {
        trim_trailing_slashes(s.drop_last())
    } else {
        s
    }
}

/// Finds where the trailing slashes of a directory string begin.
fn trimmed_dir_len(v: &Vec<char>) -> (n: usize)
    ensures
        n <= v@.len(),
        v@.subrange(0, n as int) == trim_trailing_slashes(v@),
{
    let mut n: usize = v.len();
    proof {
        assert(v@.subrange(0, n as int) =~= v@);
    }
    while n > 0 && v[n - 1] == '/'
        invariant
            n <= v@.len(),
            trim_trailing_slashes(v@) == trim_trailing_slashes(v@.subrange(0, n as int)),
        decreases n,
    {
        proof {
            assert(v@.subrange(0, n as int).drop_last() =~= v@.subrange(0, n as int - 1));
            assert(v@.subrange(0, n as int).last() == v@[n - 1]);
        }
        n = n - 1;
    }
    proof {
        if n > 0 {
            assert(v@.subrange(0, n as int).last() == v@[n - 1]);
        }
        assert(trim_trailing_slashes(v@.subrange(0, n as int)) == v@.subrange(0, n as int));
    }
    n
}

/// `path` lies at or under the directory `dir`: the directory (less
/// any trailing slashes, which mean nothing to the filesystem) is the
/// whole path or a `/`-bounded prefix of it.
pub open spec fn within_dir(path: Seq<char>, dir: Seq<char>) -> bool {
    let d = trim_trailing_slashes(dir);
    path == d || (match_at(path, d, 0) && d.len() < path.len() && path[d.len() as int] == '/')
}

/// Tests whether `path` equals `dir` or lies under it.
pub fn is_within_dir(path: &str, dir: &str) -> (r: bool)
    ensures
        r == within_dir(path@, dir@),
{
    let pv: Vec<char> = chars_of(path);
    let dv: Vec<char> = chars_of(dir);
    let dn: usize = trimmed_dir_len(&dv);
    let d: Vec<char> = subvec(&dv, 0, dn);
    if vec_eq(&pv, &d) {
        return true;
    }
    if d.len() < pv.len() && crate::text::is_match_at(&pv, &d, 0) && pv[d.len()] == '/' {
        return true;
    }
    proof {
        if within_dir(path@, dir@) {
            assert(pv@ == trim_trailing_slashes(dir@) || (match_at(
                pv@,
                trim_trailing_slashes(dir@),
                0,
            ) && trim_trailing_slashes(dir@).len() < pv@.len()));
        }
    }
    false
}

/// Replaces the leading `base` directory of `path` with `new_base`;
/// a path not under `base` is refused.
pub fn replace_prefix(path: &str, base: &str, new_base: &str) -> (r: Result<
    String,
    ConfGuardError,
>)
    ensures
        within_dir(path@, base@) ==> (r matches Ok(s) && s@ == new_base@ + path@.subrange(
            trim_trailing_slashes(base@).len() as int,
            path@.len() as int,
        )),
        !within_dir(path@, base@) ==> (r matches Err(e) && e is PathPrefixMismatch),
{
    let pv: Vec<char> = chars_of(path);
    let bv: Vec<char> = chars_of(base);
    if !is_within_dir(path, base) {
        return Err(ConfGuardError::PathPrefixMismatch(String::from_str(base)));
    }
    let bn: usize = trimmed_dir_len(&bv);
    proof {
        assert(trim_trailing_slashes(base@).len() == bn);
        assert(bn <= pv@.len());
    }
    let mut out: Vec<char> = chars_of(new_base);
    let rest: Vec<char> = subvec(&pv, bn, pv.len());
    push_all(&mut out, &rest);
    Ok(string_from_chars(out))
}

// ---------------------------------------------------------------------
// Home-directory substitution.
// ---------------------------------------------------------------------

/// What `to_home_based` produces for an absolute path: the leading
/// home directory replaced by `$HOME`.
pub open spec fn home_based_spec(path: Seq<char>, home: Seq<char>) -> Seq<char> {
    if home.len() > 0 && match_at(path, home, 0) {
        "$HOME"@ + path.subrange(home.len() as int, path.len() as int)
    } else {
        path
    }
}

/// Rewrites an absolute path with its leading home directory replaced
/// by `$HOME`, for portable recording; a relative path is refused.
pub fn to_home_based(path: &str, home: &str) -> (r: Result<String, ConfGuardError>)
    ensures
        !is_absolute(path@) ==> (r matches Err(e) && e is PathNotAbsolute),
        is_absolute(path@) ==> (r matches Ok(s) && s@ == home_based_spec(path@, home@)),
{
    let pv: Vec<char> = chars_of(path);
    let hv: Vec<char> = chars_of(home);
    if pv.len() == 0 || pv[0] != '/' {
        return Err(ConfGuardError::PathNotAbsolute(String::from_str(path)));
    }
    if hv.len() > 0 && hv.len() <= pv.len() && crate::text::is_match_at(&pv, &hv, 0) {
        let mut out: Vec<char> = chars_of("$HOME");
        let rest: Vec<char> = subvec(&pv, hv.len(), pv.len());
        push_all(&mut out, &rest);
        return Ok(string_from_chars(out));
    }
    proof {
        if home.len() > 0 && match_at(path@, home@, 0) {
            assert(hv@.len() <= pv@.len());
        }
    }
    Ok(String::from_str(path))
}

/// What `from_home_based` produces: a leading `$HOME` expanded to the
/// home directory.
pub open spec fn expanded_home_spec(path: Seq<char>, home: Seq<char>) -> Seq<char> {
    if match_at(path, "$HOME"@, 0) {
        home + path.subrange("$HOME"@.len() as int, path.len() as int)
    } else {
        path
    }
}

/// Expands a leading `$HOME` to the given home directory.
pub fn from_home_based(path: &str, home: &str) -> (r: String)
    ensures
        r@ == expanded_home_spec(path@, home@),
{
    let pv: Vec<char> = chars_of(path);
    let marker: Vec<char> = chars_of("$HOME");
    if marker.len() <= pv.len() && crate::text::is_match_at(&pv, &marker, 0) {
        let mut out: Vec<char> = chars_of(home);
        let rest: Vec<char> = subvec(&pv, marker.len(), pv.len());
        push_all(&mut out, &rest);
        return string_from_chars(out);
    }
    proof {
        if match_at(path@, "$HOME"@, 0) {
            assert(marker@.len() <= pv@.len());
        }
    }
    String::from_str(path)
}

// ---------------------------------------------------------------------
// Parents and base names.
// ---------------------------------------------------------------------

/// Position `k` holds the last `/` of the path.
pub open spec fn last_slash_at(s: Seq<char>, k: int) -> bool {
    &&& 0 <= k < s.len()
    &&& s[k] == '/'
    &&& forall|k2: int| k < k2 < s.len() ==> s[k2] != '/'
}

/// Finds the directory part of a path: everything before the last `/`,
/// with `/` itself for a top-level entry.  The root and the empty path
/// have no parent.
pub fn parent_dir(path: &str) -> (r: Option<String>)
    ensures
        match r {
            Some(p) => (exists|k: int|
                {
                    &&& #[trigger] last_slash_at(path@, k)
                    &&& path@.len() > 1
                    &&& p@ == if k == 0 {
                        seq!['/']
                    } else {
                        path@.subrange(0, k)
                    }
                }) || (p@.len() == 0 && path@.len() > 0 && (forall|k: int|
                0 <= k < path@.len() ==> path@[k] != '/')),
            None => path@.len() == 0 || path@ =~= seq!['/'],
        },
{
    let pv: Vec<char> = chars_of(path);
    let n: usize = pv.len();
    if n == 0 {
        return None;
    }
    if n == 1 && pv[0] == '/' {
        proof {
            assert(pv@ =~= seq!['/']);
        }
        return None;
    }
    match rfind_char_in(&pv, '/', 0, n) {
        Some(k) => {
            proof {
                assert(n >= 2) by {
                    if n == 1 {
                        assert(pv@[0] == '/');
                    }
                }
                assert(last_slash_at(path@, k as int));
            }
            if k == 0 {
                proof {
                    reveal_strlit("/");
                    assert("/"@ =~= seq!['/']);
                }
                Some(String::from_str("/"))
            } else {
                let head: Vec<char> = subvec(&pv, 0, k);
                Some(string_from_chars(head))
            }
        },
        None => {
            proof {
                reveal_strlit("");
            }
            Some(String::from_str(""))
        },
    }
}

/// Checks that the path holds none of the forbidden fragments; the
/// caller owes that, so the check can never fire.
pub fn assert_path_does_not_include(path: &str, forbidden: &Vec<String>)
    requires
        forall|i: int| #![trigger forbidden@[i]]
            0 <= i < forbidden@.len() ==> !crate::text::contains_seq(path@, forbidden@[i]@),
{
    let pv: Vec<char> = chars_of(path);
    let n: usize = forbidden.len();
    let mut i: usize = 0;
    while i < n
        invariant
            i <= n,
            n == forbidden@.len(),
            pv@ == path@,
            forall|k: int| #![trigger forbidden@[k]]
                0 <= k < forbidden@.len() ==> !crate::text::contains_seq(path@, forbidden@[k]@),
        decreases n - i,
    {
        let fv: Vec<char> = chars_of(forbidden[i].as_str());
        let found = crate::text::find_from(&pv, &fv, 0);
        if found.is_some() {
            proof {
                assert(false);
            }
        }
        i = i + 1;
    }
}

/// The entry a path names: its last visible segment.  The root, a
/// bare `.` and a `..` ending name none.
pub fn base_name(path: &str) -> (r: Option<String>)
    ensures
        match r {
            Some(b) => entry_segs(path@).len() > 0 && b@ == entry_segs(path@).last() && b@
                != "."@ && b@ != ".."@,
            None => entry_segs(path@).len() == 0 || entry_segs(path@).last() =~= "."@
                || entry_segs(path@).last() =~= ".."@,
        },
{
    let comps: Vec<String> = path_components(path);
    let n: usize = comps.len();
    let pv: Vec<char> = chars_of(path);
    let absolute: bool = pv.len() > 0 && pv[0] == '/';
    let start: usize = if absolute {
        1
    } else {
        0
    };
    proof {
        assert(comps.deep_view().len() == comps@.len());
        if absolute {
            assert(comps.deep_view() == seq![seq!['/']] + entry_segs(path@));
        } else {
            assert(comps.deep_view() == entry_segs(path@));
        }
    }
    if n <= start {
        proof {
            assert(entry_segs(path@).len() == 0);
        }
        return None;
    }
    let last: &String = &comps[n - 1];
    proof {
        assert(comps.deep_view()[n - 1] == entry_segs(path@).last());
        reveal_strlit(".");
        reveal_strlit("..");
    }
    if crate::text::str_eq(last.as_str(), ".") || crate::text::str_eq(last.as_str(), "..") {
        return None;
    }
    Some(last.clone())
}

} // verus!
