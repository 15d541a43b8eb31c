//! The encryption collaborator's verified side: its configuration, the
//! key holder, and the include-list rule that picks which files the
//! external encryption tool is run over.  Running that tool, walking
//! directories and the worker pool live in the unverified shell.

use vstd::prelude::*;
use crate::gitignore::GitignoreManager;
use crate::text::{chars_of, rfind_char_in, str_eq, subvec};
use crate::trusted::string_from_chars;

verus! {

/// The key identifier and file include-lists that drive bulk
/// encryption and decryption.
pub struct SopsConfig {
    pub file_extensions_enc: Vec<String>,
    pub file_names_enc: Vec<String>,
    pub file_extensions_dec: Vec<String>,
    pub file_names_dec: Vec<String>,
    pub gpg_key: String,
}

/// The key used when the configuration names none.
pub fn default_gpg_key() -> (r: String)
    ensures
        r@ == "SECRET-REDACTED"@,
{
    String::from_str("SECRET-REDACTED")
}

/// Holds the key that the external encryption tool is invoked with.
pub struct SopsCrypto {
    pub gpg_key: String,
}

impl SopsCrypto {
    pub fn new(gpg_key: String) -> (r: SopsCrypto)
        ensures
            r.gpg_key == gpg_key,
    {
        SopsCrypto { gpg_key }
    }
}

/// Drives bulk encryption over a base directory: the configuration,
/// the key holder and the ignore-file manager, assembled from a loaded
/// configuration.
pub struct SopsManager {
    pub config: SopsConfig,
    pub base_path: String,
    pub crypto: SopsCrypto,
    pub gitignore: GitignoreManager,
}

impl SopsManager {
    /// Assembles a manager from a loaded configuration and the
    /// directory that held it.
    pub fn new(config: SopsConfig, base_path: String) -> (r: SopsManager)
        ensures
            r.config == config,
            r.base_path == base_path,
            r.crypto.gpg_key@ == config.gpg_key@,
            r.gitignore.gitignore_path@ == base_path@ + "/.gitignore"@,
    {
        let crypto = SopsCrypto::new(String::from_str(config.gpg_key.as_str()));
        let gitignore = GitignoreManager::new(base_path.as_str());
        proof {
            assert(crypto.gpg_key@ == config.gpg_key@);
        }
        let r = SopsManager { config, base_path, crypto, gitignore };
        proof {
            assert(r.crypto.gpg_key@ == r.config.gpg_key@);
        }
        r
    }
}

// ---------------------------------------------------------------------
// The include-list rule.
// ---------------------------------------------------------------------

/// The characters after the last occurrence of `c`; the whole string
/// when `c` does not occur.
pub open spec fn after_last(s: Seq<char>, c: char) -> Seq<char>
    decreases s.len(),
{
    if s.len() == 0 {
        s
    } else if s.last() == c {
        Seq::empty()
    } else {
        after_last(s.drop_last(), c).push(s.last())
    }
}

/// The character occurs in the string.
pub open spec fn contains_char(s: Seq<char>, c: char) -> bool {
    exists|k: int| 0 <= k < s.len() && s[k] == c
}

/// The file-name part of a path: everything after the last `/`.
pub open spec fn file_name_spec(path: Seq<char>) -> Seq<char> {
    after_last(path, '/')
}

/// The extension of a file name: what follows its last dot, provided
/// something precedes that dot.
pub open spec fn extension_spec(name: Seq<char>) -> Option<Seq<char>> {
    if contains_char(name, '.') && name.len() - after_last(name, '.').len() - 1 > 0 {
        Some(after_last(name, '.'))
    } else {
        None
    }
}

/// The list holds the given string.
pub open spec fn list_has(list: Seq<String>, s: Seq<char>) -> bool {
    exists|k: int| #![trigger list[k]] 0 <= k < list.len() && list[k]@ == s
}

/// A file is selected for encryption work when its extension is on the
/// extension list or its file name is on the name list.
pub open spec fn selected_spec(path: Seq<char>, exts: Seq<String>, names: Seq<String>) -> bool {
    ||| (extension_spec(file_name_spec(path)) matches Some(e) && list_has(exts, e))
    ||| list_has(names, file_name_spec(path))
}

/// `after_last` is the tail after the last occurrence, and the whole
/// string when there is none.
proof fn lemma_after_last(s: Seq<char>, c: char)
    ensures
        !contains_char(s, c) ==> after_last(s, c) == s,
        forall|k: int|
            (0 <= k < s.len() && s[k] == c && (forall|k2: int| k < k2 < s.len() ==> s[k2] != c))
                ==> after_last(s, c) =~= s.subrange(k + 1, s.len() as int),
        contains_char(s, c) ==> s.len() - after_last(s, c).len() - 1 >= 0,
    decreases s.len(),
{
    if s.len() == 0 {
    } else if s.last() == c {
        assert(contains_char(s, c)) by {
            assert(s[s.len() - 1] == c);
        }
        assert forall|k: int|
            (0 <= k < s.len() && s[k] == c && (forall|k2: int| k < k2 < s.len() ==> s[k2] != c))
                implies after_last(s, c) =~= s.subrange(k + 1, s.len() as int) by {
            assert(k == s.len() - 1);
        }
    } else {
        lemma_after_last(s.drop_last(), c);
        if !contains_char(s, c) {
            assert(!contains_char(s.drop_last(), c)) by {
                if contains_char(s.drop_last(), c) {
                    let k = choose|k: int|
                        0 <= k < s.drop_last().len() && s.drop_last()[k] == c;
                    assert(s[k] == c);
                }
            }
            assert(after_last(s, c) =~= s);
        } else {
            let k0 = choose|k: int| 0 <= k < s.len() && s[k] == c;
            assert(contains_char(s.drop_last(), c)) by {
                assert(k0 != s.len() - 1);
                assert(s.drop_last()[k0] == c);
            }
        }
        assert forall|k: int|
            (0 <= k < s.len() && s[k] == c && (forall|k2: int| k < k2 < s.len() ==> s[k2] != c))
                implies after_last(s, c) =~= s.subrange(k + 1, s.len() as int) by {
            assert(k < s.len() - 1);
            assert(s.drop_last()[k] == c);
            assert(forall|k2: int| k < k2 < s.drop_last().len() ==> s.drop_last()[k2] != c);
            assert(after_last(s.drop_last(), c) =~= s.drop_last().subrange(
                k + 1,
                s.len() - 1,
            ));
            assert(after_last(s, c) =~= s.subrange(k + 1, s.len() as int));
        }
        if contains_char(s, c) {
            let k0 = choose|k: int| 0 <= k < s.len() && s[k] == c;
            assert(contains_char(s.drop_last(), c)) by {
                assert(k0 != s.len() - 1);
                assert(s.drop_last()[k0] == c);
            }
        }
    }
}

/// Computes the characters after the last occurrence of `c`.
fn after_last_exec(v: &Vec<char>, c: char) -> (r: Vec<char>)
    ensures
        r@ == after_last(v@, c),
{
    proof {
        lemma_after_last(v@, c);
    }
    match rfind_char_in(v, c, 0, v.len()) {
        Some(k) => {
            proof {
                assert(contains_char(v@, c)) by {
                    assert(v@[k as int] == c);
                }
            }
            subvec(v, k + 1, v.len())
        },
        None => {
            proof {
                assert(!contains_char(v@, c)) by {
                    if contains_char(v@, c) {
                        let k = choose|k: int| 0 <= k < v@.len() && v@[k] == c;
                    }
                }
            }
            subvec(v, 0, v.len())
        },
    }
}

/// Tests whether the list holds the string.
fn list_contains(list: &Vec<String>, s: &str) -> (r: bool)
    ensures
        r == list_has(list@, s@),
{
    let n: usize = list.len();
    let mut i: usize = 0;
    while i < n
        invariant
            i <= n,
            n == list@.len(),
            forall|k: int| #![trigger list@[k]] 0 <= k < i ==> list@[k]@ != s@,
        decreases n - i,
    {
        if str_eq(list[i].as_str(), s) {
            return true;
        }
        i = i + 1;
    }
    false
}

/// Decides whether one file falls under the encryption include-lists:
/// by extension, or by exact file name.
pub fn file_selected(path: &str, extensions: &Vec<String>, filenames: &Vec<String>) -> (r: bool)
    ensures
        r == selected_spec(path@, extensions@, filenames@),
{
    let pv: Vec<char> = chars_of(path);
    let name: Vec<char> = after_last_exec(&pv, '/');
    let ghost nm: Seq<char> = name@;
    let name_s: String = string_from_chars(name);
    let nv: Vec<char> = chars_of(name_s.as_str());
    let ext: Vec<char> = after_last_exec(&nv, '.');
    proof {
        lemma_after_last(nm, '.');
    }
    let has_dot: bool = rfind_char_in(&nv, '.', 0, nv.len()).is_some();
    proof {
        if has_dot {
            let k = choose|k: int| 0 <= k < nv@.len() && nv@[k] == '.';
        }
        if !has_dot && contains_char(nm, '.') {
            let k = choose|k: int| 0 <= k < nm.len() && nm[k] == '.';
        }
    }
    if has_dot && nv.len() - ext.len() >= 2 {
        let ext_s: String = string_from_chars(ext);
        if list_contains(extensions, ext_s.as_str()) {
            proof {
                assert(extension_spec(nm) == Some(ext_s@));
            }
            return true;
        }
        let r = list_contains(filenames, name_s.as_str());
        proof {
            assert(extension_spec(nm) == Some(ext_s@));
        }
        return r;
    }
    proof {
        assert(extension_spec(nm) is None);
    }
    list_contains(filenames, name_s.as_str())
}

} // verus!
