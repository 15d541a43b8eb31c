//! Sentinel names: the unique per-project identifier that names a
//! project's storage directory under the managed base.
//!
//! A sentinel is `<project-basename>-<8 lowercase hex digits>`.  A
//! directory name "matches" a project when it ends in the project's
//! basename, a dash and eight such characters; that suffix test is how
//! an existing sentinel is recognized at allocation time.

use vstd::prelude::*;
use crate::text::{chars_of, is_match_at, subvec, push_all, match_at};
use crate::trusted::{is_lower_hex, random_uuid_string, string_from_chars};

verus! {

/// The character may appear in a sentinel suffix.
pub open spec fn is_suffix_char(c: char) -> bool {
    ('a' <= c && c <= 'z') || ('0' <= c && c <= '9')
}

/// The name ends in `<base>-` followed by eight suffix characters.
pub open spec fn sentinel_matches(name: Seq<char>, base: Seq<char>) -> bool {
    &&& name.len() >= base.len() + 9
    &&& match_at(name, base, name.len() - base.len() - 9)
    &&& name[name.len() - 9] == '-'
    &&& forall|k: int| name.len() - 8 <= k < name.len() ==> is_suffix_char(name[k])
}

/// Tests whether a directory name carries a sentinel for `base`.
pub fn is_sentinel_for(name: &str, base: &str) -> (r: bool)
    ensures
        r == sentinel_matches(name@, base@),
{
    let nv: Vec<char> = chars_of(name);
    let bv: Vec<char> = chars_of(base);
    let n: usize = nv.len();
    let blen: usize = bv.len();
    if n < 9 || n - 9 < blen {
        return false;
    }
    if !is_match_at(&nv, &bv, n - blen - 9) {
        return false;
    }
    if nv[n - 9] != '-' {
        return false;
    }
    let mut k: usize = n - 8;
    while k < n
        invariant
            9 <= n,
            n - 8 <= k <= n,
            n == nv@.len(),
            nv@ == name@,
            forall|k2: int| n - 8 <= k2 < k ==> is_suffix_char(nv@[k2]),
        decreases n - k,
    {
        let c: char = nv[k];
        if !(('a' <= c && c <= 'z') || ('0' <= c && c <= '9')) {
            return false;
        }
        k = k + 1;
    }
    true
}

/// Draws a fresh eight-character lowercase-hex suffix.
pub fn fresh_suffix() -> (r: String)
    ensures
        r@.len() == 8,
        forall|k: int| 0 <= k < 8 ==> is_lower_hex(r@[k]),
{
    let u: String = random_uuid_string();
    let uv: Vec<char> = chars_of(u.as_str());
    let sv: Vec<char> = subvec(&uv, 0, 8);
    string_from_chars(sv)
}

/// Joins a basename and a suffix into a sentinel name.
pub fn join_sentinel(base: &str, suffix: &str) -> (r: String)
    ensures
        r@ == base@ + seq!['-'] + suffix@,
{
    let mut out: Vec<char> = chars_of(base);
    out.push('-');
    let sv: Vec<char> = chars_of(suffix);
    push_all(&mut out, &sv);
    string_from_chars(out)
}

/// Some name in the list carries a sentinel for `base`.
pub open spec fn some_name_matches(names: Seq<String>, base: Seq<char>) -> bool {
    exists|k: int| #![trigger names[k]] 0 <= k < names.len() && sentinel_matches(names[k]@, base)
}

/// A nonempty filtered sequence means some element satisfied the
/// predicate.
pub proof fn lemma_filter_nonempty_exists(s: Seq<Seq<char>>, pred: spec_fn(Seq<char>) -> bool)
    requires
        s.filter(pred).len() > 0,
    ensures
        exists|k: int| #![trigger s[k]] 0 <= k < s.len() && pred(s[k]),
    decreases s.len(),
{
    reveal(Seq::filter);
    if s.len() > 0 {
        if pred(s.last()) {
            assert(0 <= s.len() - 1 < s.len() && pred(s[s.len() - 1]));
        } else {
            lemma_filter_nonempty_exists(s.drop_last(), pred);
            let k = choose|k: int|
                #![trigger s.drop_last()[k]]
                0 <= k < s.drop_last().len() && pred(s.drop_last()[k]);
            assert(s[k] == s.drop_last()[k]);
        }
    }
}

/// An element satisfying the predicate makes the filtered sequence
/// nonempty.
pub proof fn lemma_filter_found(s: Seq<Seq<char>>, pred: spec_fn(Seq<char>) -> bool, k: int)
    requires
        0 <= k < s.len(),
        pred(s[k]),
    ensures
        s.filter(pred).len() > 0,
    decreases s.len(),
{
    reveal(Seq::filter);
    if k == s.len() - 1 {
        assert(pred(s.last()));
    } else {
        assert(s.drop_last()[k] == s[k]);
        lemma_filter_found(s.drop_last(), pred, k);
    }
}

/// Collects the directory names that carry a sentinel for `base`.
pub fn matching_sentinels(names: &Vec<String>, base: &str) -> (r: Vec<String>)
    ensures
        r.deep_view() == names.deep_view().filter(
            |n: Seq<char>| sentinel_matches(n, base@),
        ),
{
    let n: usize = names.len();
    let ghost pred = |nm: Seq<char>| sentinel_matches(nm, base@);
    let mut out: Vec<String> = Vec::new();
    proof {
        reveal(Seq::filter);
        assert(names.deep_view().len() == names@.len());
        assert(names.deep_view().subrange(0, 0) =~= Seq::<Seq<char>>::empty());
        assert(out.deep_view() =~= names.deep_view().subrange(0, 0).filter(pred));
    }
    let mut i: usize = 0;
    while i < n
        invariant
            i <= n,
            n == names@.len(),
            n == names.deep_view().len(),
            pred == (|nm: Seq<char>| sentinel_matches(nm, base@)),
            out.deep_view() == names.deep_view().subrange(0, i as int).filter(pred),
        decreases n - i,
    {
        let ghost od: Seq<Seq<char>> = out.deep_view();
        if is_sentinel_for(names[i].as_str(), base) {
            out.push(names[i].clone());
        }
        proof {
            reveal(Seq::filter);
            let dv = names.deep_view();
            let pre1 = dv.subrange(0, i as int + 1);
            assert(pre1.drop_last() =~= dv.subrange(0, i as int));
            assert(pre1.last() == dv[i as int]);
            assert(dv[i as int] == names@[i as int]@);
            if sentinel_matches(names@[i as int]@, base@) {
                assert(out.deep_view() =~= od.push(names@[i as int]@));
            }
            assert(out.deep_view() == pre1.filter(pred));
        }
        i = i + 1;
    }
    proof {
        assert(names.deep_view().subrange(0, n as int) =~= names.deep_view());
    }
    out
}

/// In any sentinel built from a lowercase-hex suffix, the characters
/// after the last dash are exactly that suffix: eight characters, each
/// a hexadecimal digit.
pub proof fn lemma_sentinel_suffix(sent: Seq<char>, base: Seq<char>, suffix: Seq<char>)
    requires
        sent == base + seq!['-'] + suffix,
        suffix.len() == 8,
        forall|k: int| 0 <= k < 8 ==> is_lower_hex(suffix[k]),
    ensures
        sent[base.len() as int] == '-',
        forall|k: int| base.len() < k < sent.len() ==> sent[k] != '-',
        sent.subrange(base.len() as int + 1, sent.len() as int) == suffix,
        sent.len() - (base.len() + 1) == 8,
        forall|k: int| base.len() < k < sent.len() ==> is_lower_hex(sent[k]),
{
    assert(sent.subrange(base.len() as int + 1, sent.len() as int) =~= suffix);
    assert forall|k: int| base.len() < k < sent.len() implies sent[k] != '-' && is_lower_hex(
        sent[k],
    ) by {
        assert(sent[k] == suffix[k - base.len() - 1]);
        assert(is_lower_hex(suffix[k - base.len() - 1]));
    }
}

} // verus!
