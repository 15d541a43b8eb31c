//! Character-level text utilities: substring search, extraction and
//! concatenation over `Vec<char>`, with specifications over `Seq<char>`.
//!
//! The section protocol and the path utilities are defined over these
//! primitives, so their contracts can speak of exact character sequences.

use vstd::prelude::*;

verus! {

/// The pattern `pat` occurs in `hay` starting at position `i`.
pub open spec fn match_at(hay: Seq<char>, pat: Seq<char>, i: int) -> bool {
    &&& 0 <= i
    &&& i + pat.len() <= hay.len()
    &&& hay.subrange(i, i + pat.len()) == pat
}

/// The pattern `pat` occurs somewhere in `hay`.
pub open spec fn contains_seq(hay: Seq<char>, pat: Seq<char>) -> bool {
    exists|i: int| match_at(hay, pat, i)
}

/// No character of `s` is a newline.
pub open spec fn newline_free(s: Seq<char>) -> bool {
    forall|k: int| 0 <= k < s.len() ==> s[k] != '\n'
}

/// Copies the characters of a string slice into a vector.
pub fn chars_of(s: &str) -> (v: Vec<char>)
    ensures
        v@ == s@,
{
    let n: usize = s.unicode_len();
    let mut v: Vec<char> = Vec::new();
    let mut i: usize = 0;
    while i < n
        invariant
            i <= n,
            n == s@.len(),
            v@ == s@.subrange(0, i as int),
        decreases n - i,
    {
        v.push(s.get_char(i));
        i = i + 1;
        proof {
            assert(v@ =~= s@.subrange(0, i as int));
        }
    }
    proof {
        assert(v@ =~= s@);
    }
    v
}

/// Tests whether `pat` occurs in `hay` at position `i`.
pub fn is_match_at(hay: &Vec<char>, pat: &Vec<char>, i: usize) -> (r: bool)
    requires
        i + pat@.len() <= hay@.len(),
    ensures
        r == match_at(hay@, pat@, i as int),
{
    let hlen: usize = hay.len();
    let plen: usize = pat.len();
    let mut j: usize = 0;
    while j < plen
        invariant
            j <= plen,
            plen == pat@.len(),
            hlen == hay@.len(),
            i + plen <= hlen,
            forall|k: int| 0 <= k < j ==> hay@[i + k] == pat@[k],
        decreases plen - j,
    {
        if hay[i + j] != pat[j] {
            proof {
                assert(!match_at(hay@, pat@, i as int)) by {
                    if match_at(hay@, pat@, i as int) {
                        assert(hay@.subrange(i as int, i + pat@.len())[j as int] == pat@[j as int]);
                    }
                }
            }
            return false;
        }
        j = j + 1;
    }
    proof {
        assert(hay@.subrange(i as int, i + pat@.len()) =~= pat@);
    }
    true
}

/// Finds the first occurrence of `pat` in `hay` at or after `start`.
pub fn find_from(hay: &Vec<char>, pat: &Vec<char>, start: usize) -> (r: Option<usize>)
    ensures
        match r {
            Some(i) => {
                &&& start <= i
                &&& match_at(hay@, pat@, i as int)
                &&& forall|k: int| start <= k < i ==> !match_at(hay@, pat@, k)
            },
            None => forall|k: int| start <= k ==> !match_at(hay@, pat@, k),
        },
{
    let hlen: usize = hay.len();
    let plen: usize = pat.len();
    if plen == 0 {
        if start <= hlen {
            proof {
                assert(hay@.subrange(start as int, start as int) =~= pat@);
            }
            return Some(start);
        }
        return None;
    }
    if plen > hlen || start > hlen - plen {
        return None;
    }
    let mut i: usize = start;
    while i <= hlen - plen
        invariant
            start <= i,
            0 < plen <= hlen,
            hlen == hay@.len(),
            plen == pat@.len(),
            i <= hlen,
            forall|k: int| start <= k < i ==> !match_at(hay@, pat@, k),
        decreases hlen - i,
    {
        if is_match_at(hay, pat, i) {
            return Some(i);
        }
        i = i + 1;
    }
    None
}

/// Finds the last occurrence of `pat` in `hay` at or after `min`.
pub fn find_last_from(hay: &Vec<char>, pat: &Vec<char>, min: usize) -> (r: Option<usize>)
    ensures
        match r {
            Some(i) => {
                &&& min <= i
                &&& match_at(hay@, pat@, i as int)
                &&& forall|k: int| i < k ==> !match_at(hay@, pat@, k)
            },
            None => forall|k: int| min <= k ==> !match_at(hay@, pat@, k),
        },
{
    let hlen: usize = hay.len();
    let plen: usize = pat.len();
    if plen == 0 {
        if min <= hlen {
            proof {
                assert(hay@.subrange(hlen as int, hlen as int) =~= pat@);
            }
            return Some(hlen);
        }
        return None;
    }
    if plen > hlen || min > hlen - plen {
        return None;
    }
    let mut best: Option<usize> = None;
    let mut i: usize = min;
    while i <= hlen - plen
        invariant
            min <= i,
            0 < plen <= hlen,
            hlen == hay@.len(),
            plen == pat@.len(),
            i <= hlen,
            match best {
                Some(b) => {
                    &&& min <= b < i
                    &&& match_at(hay@, pat@, b as int)
                    &&& forall|k: int| b < k < i ==> !match_at(hay@, pat@, k)
                },
                None => forall|k: int| min <= k < i ==> !match_at(hay@, pat@, k),
            },
        decreases hlen - i,
    {
        if is_match_at(hay, pat, i) {
            best = Some(i);
        }
        i = i + 1;
    }
    best
}

/// Finds the first occurrence of the character `c` at or after `start`;
/// returns the length of `hay` when there is none.
pub fn find_char_from(hay: &Vec<char>, c: char, start: usize) -> (r: usize)
    requires
        start <= hay@.len(),
    ensures
        start <= r <= hay@.len(),
        r < hay@.len() ==> hay@[r as int] == c,
        forall|k: int| start <= k < r ==> hay@[k] != c,
{
    let hlen: usize = hay.len();
    let mut i: usize = start;
    while i < hlen
        invariant
            start <= i <= hlen,
            hlen == hay@.len(),
            forall|k: int| start <= k < i ==> hay@[k] != c,
        decreases hlen - i,
    {
        if hay[i] == c {
            return i;
        }
        i = i + 1;
    }
    hlen
}

/// Finds the last occurrence of the character `c` in `[from, to)`.
pub fn rfind_char_in(hay: &Vec<char>, c: char, from: usize, to: usize) -> (r: Option<usize>)
    requires
        from <= to <= hay@.len(),
    ensures
        match r {
            Some(i) => {
                &&& from <= i < to
                &&& hay@[i as int] == c
                &&& forall|k: int| i < k < to ==> hay@[k] != c
            },
            None => forall|k: int| from <= k < to ==> hay@[k] != c,
        },
{
    let mut i: usize = to;
    while i > from
        invariant
            from <= i <= to <= hay@.len(),
            forall|k: int| i <= k < to ==> hay@[k] != c,
        decreases i,
    {
        i = i - 1;
        if hay[i] == c {
            return Some(i);
        }
    }
    None
}

/// Copies `hay[from..to]` into a fresh vector.
pub fn subvec(hay: &Vec<char>, from: usize, to: usize) -> (r: Vec<char>)
    requires
        from <= to <= hay@.len(),
    ensures
        r@ == hay@.subrange(from as int, to as int),
{
    let mut r: Vec<char> = Vec::new();
    let mut i: usize = from;
    while i < to
        invariant
            from <= i <= to <= hay@.len(),
            r@ == hay@.subrange(from as int, i as int),
        decreases to - i,
    {
        r.push(hay[i]);
        i = i + 1;
        proof {
            assert(r@ =~= hay@.subrange(from as int, i as int));
        }
    }
    r
}

/// Appends all characters of `src` to `dst`.
pub fn push_all(dst: &mut Vec<char>, src: &Vec<char>)
    ensures
        final(dst)@ == old(dst)@ + src@,
{
    let n: usize = src.len();
    let mut i: usize = 0;
    while i < n
        invariant
            i <= n,
            n == src@.len(),
            dst@ == old(dst)@ + src@.subrange(0, i as int),
        decreases n - i,
    {
        dst.push(src[i]);
        i = i + 1;
        proof {
            assert(dst@ =~= old(dst)@ + src@.subrange(0, i as int));
        }
    }
    proof {
        assert(dst@ =~= old(dst)@ + src@);
    }
}

/// Compares two character vectors for equality.
pub fn vec_eq(a: &Vec<char>, b: &Vec<char>) -> (r: bool)
    ensures
        r == (a@ == b@),
{
    let n: usize = a.len();
    if n != b.len() {
        return false;
    }
    let mut i: usize = 0;
    while i < n
        invariant
            i <= n,
            n == a@.len(),
            n == b@.len(),
            forall|k: int| 0 <= k < i ==> a@[k] == b@[k],
        decreases n - i,
    {
        if a[i] != b[i] {
            return false;
        }
        i = i + 1;
    }
    proof {
        assert(a@ =~= b@);
    }
    true
}

/// Compares two string slices for equality of their characters.
pub fn str_eq(a: &str, b: &str) -> (r: bool)
    ensures
        r == (a@ == b@),
{
    let va: Vec<char> = chars_of(a);
    let vb: Vec<char> = chars_of(b);
    vec_eq(&va, &vb)
}

} // verus!
