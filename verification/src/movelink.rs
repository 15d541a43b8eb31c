//! Move-and-link: moving a file to the managed store and linking its
//! old path back to it, as one reversible unit.  The decisions and the
//! link contents are computed here; the renames and the symlink call
//! are the shell's.

use vstd::prelude::*;
use crate::errors::ConfGuardError;
use crate::paths::{last_slash_at, parent_dir};
use crate::text::match_at;
use crate::trusted::{diff_of, has_dotdot_component, relative_path_between, starts_slash};

verus! {

/// The directory part a path's last slash cuts off: the root for a
/// top-level entry, the prefix before the slash otherwise.
pub open spec fn dir_before(s: Seq<char>, k: int) -> Seq<char> {
    if k == 0 {
        seq!['/']
    } else {
        s.subrange(0, k)
    }
}

/// A path's directory part keeps its freedom from `..` components.
proof fn lemma_parent_no_dotdot(s: Seq<char>, k: int)
    requires
        last_slash_at(s, k),
        !has_dotdot_component(s),
    ensures
        !has_dotdot_component(dir_before(s, k)),
{
    reveal_strlit("..");
    let p = dir_before(s, k);
    if has_dotdot_component(p) {
        let i = choose|i: int|
            {
                &&& match_at(p, ".."@, i)
                &&& (i == 0 || p[i - 1] == '/')
                &&& (i + 2 == p.len() || p[i + 2] == '/')
            };
        assert(k > 0);
        assert(match_at(s, ".."@, i)) by {
            assert(s.subrange(i, i + 2) =~= p.subrange(i, i + 2));
        }
        assert(i == 0 || s[i - 1] == '/') by {
            if i > 0 {
                assert(s[i - 1] == p[i - 1]);
            }
        }
        assert(i + 2 == s.len() || s[i + 2] == '/') by {
            if i + 2 == p.len() {
                assert(s[k] == '/');
            } else {
                assert(s[i + 2] == p[i + 2]);
            }
        }
        assert(has_dotdot_component(s));
    }
}

/// The link content the shell stores for a link at `link_path`
/// pointing to `target`: `target` itself, or the path to it relative
/// to the link's directory.  Shared by the move-and-link unit and by
/// link creation.
fn content_toward(target: &str, link_path: &str, relative: bool) -> (r: Result<
    String,
    ConfGuardError,
>)
    ensures
        !relative ==> (r matches Ok(c) && c@ == target@),
        relative ==> match r {
            Ok(c) => {
                &&& (link_path@.len() > 1 && (exists|k: int|
                    #[trigger] last_slash_at(link_path@, k))) ==> (exists|k: int|
                    #[trigger] last_slash_at(link_path@, k) && c@ == diff_of(
                        target@,
                        dir_before(link_path@, k),
                    ))
                &&& (link_path@.len() <= 1 || !(exists|k: int|
                    #[trigger] last_slash_at(link_path@, k))) ==> c@ == target@
            },
            Err(e) => e is FailedToCreateRelativePath,
        },
        relative && starts_slash(link_path@) && starts_slash(target@) && !has_dotdot_component(
            link_path@,
        ) ==> r is Ok,
{
    if !relative {
        return Ok(String::from_str(target));
    }
    let parent: String = match parent_dir(link_path) {
        Some(p) => p,
        None => {
            // a link path without a directory part resolves nowhere in
            // particular; link to the target as given
            proof {
                assert(link_path@.len() <= 1);
            }
            return Ok(String::from_str(target));
        },
    };
    if parent.as_str().unicode_len() == 0 {
        // a bare file name resolves against the working directory;
        // link to the target as given
        proof {
            if exists|k: int| #[trigger] last_slash_at(link_path@, k) {
                let k = choose|k: int| #[trigger] last_slash_at(link_path@, k);
                assert(link_path@[k] == '/');
            }
        }
        return Ok(String::from_str(target));
    }
    proof {
        if starts_slash(link_path@) && link_path@.len() > 1 && !has_dotdot_component(
            link_path@,
        ) {
            let k = choose|k: int| #[trigger] last_slash_at(link_path@, k) && parent@
                == dir_before(link_path@, k);
            assert(starts_slash(parent@)) by {
                if k > 0 {
                    assert(parent@[0] == link_path@[0]);
                }
            }
            lemma_parent_no_dotdot(link_path@, k);
        }
    }
    match relative_path_between(target, parent.as_str()) {
        Some(c) => {
            proof {
                let k = choose|k: int| #[trigger] last_slash_at(link_path@, k) && parent@
                    == dir_before(link_path@, k);
                assert(c@ == diff_of(target@, dir_before(link_path@, k)));
            }
            Ok(c)
        },
        None => Err(ConfGuardError::FailedToCreateRelativePath),
    }
}

/// A pending move of `source_path` to `destination_path`, with a link
/// left behind.
pub struct MoveAndLink {
    pub source_path: String,
    pub destination_path: String,
}

impl MoveAndLink {
    /// Accepts a move whose source exists and is a real file, not
    /// already a link; both paths are taken as resolved absolutes.
    pub fn new(
        source_path: &str,
        destination_path: &str,
        source_exists: bool,
        source_is_symlink: bool,
    ) -> (r: Result<MoveAndLink, ConfGuardError>)
        ensures
            !source_exists ==> (r matches Err(e) && e is SourcePathNotFound),
            source_exists && source_is_symlink ==> (r matches Err(e) && e is SourceIsSymlink),
            source_exists && !source_is_symlink ==> (r matches Ok(m) && m.source_path@
                == source_path@ && m.destination_path@ == destination_path@),
    {
        if !source_exists {
            return Err(ConfGuardError::SourcePathNotFound(String::from_str(source_path)));
        }
        if source_is_symlink {
            return Err(ConfGuardError::SourceIsSymlink(String::from_str(source_path)));
        }
        Ok(
            MoveAndLink {
                source_path: String::from_str(source_path),
                destination_path: String::from_str(destination_path),
            },
        )
    }

    pub fn source_path(&self) -> (r: &str)
        ensures
            r@ == self.source_path@,
    {
        self.source_path.as_str()
    }

    pub fn destination_path(&self) -> (r: &str)
        ensures
            r@ == self.destination_path@,
    {
        self.destination_path.as_str()
    }

    /// The content of the link that replaces the source after the
    /// move: the destination itself, or — for a source with a
    /// directory part — the path to the destination relative to that
    /// directory.  For an absolute, `..`-free source a relative
    /// content is always produced.
    pub fn link_content(&self, relative: bool) -> (r: Result<String, ConfGuardError>)
        ensures
            !relative ==> (r matches Ok(c) && c@ == self.destination_path@),
            relative ==> match r {
                Ok(c) => {
                    &&& (self.source_path@.len() > 1 && (exists|k: int|
                        #[trigger] last_slash_at(self.source_path@, k))) ==> (exists|k: int|
                        #[trigger] last_slash_at(self.source_path@, k) && c@ == diff_of(
                            self.destination_path@,
                            dir_before(self.source_path@, k),
                        ))
                    &&& (self.source_path@.len() <= 1 || !(exists|k: int|
                        #[trigger] last_slash_at(self.source_path@, k))) ==> c@
                        == self.destination_path@
                },
                Err(e) => e is FailedToCreateRelativePath,
            },
            relative && starts_slash(self.source_path@) && starts_slash(
                self.destination_path@,
            ) && !has_dotdot_component(self.source_path@) ==> r is Ok,
    {
        content_toward(self.destination_path.as_str(), self.source_path.as_str(), relative)
    }

    /// Accepts a revert: the source must once again be a link, to be
    /// removed and replaced by the moved file.
    pub fn revert_check(&self, source_exists: bool, source_is_symlink: bool) -> (r: Result<
        (),
        ConfGuardError,
    >)
        ensures
            !source_exists ==> (r matches Err(e) && e is SourceLinkNotFound),
            source_exists && !source_is_symlink ==> (r matches Err(e) && e is SourceNotSymlink),
            source_exists && source_is_symlink ==> r is Ok,
    {
        if !source_exists {
            return Err(ConfGuardError::SourceLinkNotFound(String::from_str(
                self.source_path.as_str(),
            )));
        }
        if !source_is_symlink {
            return Err(ConfGuardError::SourceNotSymlink(String::from_str(
                self.source_path.as_str(),
            )));
        }
        Ok(())
    }
}

/// The content for a link at `link_path` pointing to `original_path`:
/// absolute, or — for a link path with a directory part — relative to
/// that directory.  A missing target is refused, as link creation
/// would be; for an existing target and absolute, `..`-free paths a
/// content is always produced.
pub fn link_content_for(
    original_path: &str,
    link_path: &str,
    relative: bool,
    original_exists: bool,
) -> (r: Result<String, ConfGuardError>)
    ensures
        !original_exists ==> (r matches Err(e) && e is OriginalPathNotFound),
        original_exists && !relative ==> (r matches Ok(c) && c@ == original_path@),
        original_exists && relative ==> match r {
            Ok(c) => {
                &&& (link_path@.len() > 1 && (exists|k: int|
                    #[trigger] last_slash_at(link_path@, k))) ==> (exists|k: int|
                    #[trigger] last_slash_at(link_path@, k) && c@ == diff_of(
                        original_path@,
                        dir_before(link_path@, k),
                    ))
                &&& (link_path@.len() <= 1 || !(exists|k: int|
                    #[trigger] last_slash_at(link_path@, k))) ==> c@ == original_path@
            },
            Err(e) => e is FailedToCreateRelativePath,
        },
        original_exists && relative && starts_slash(link_path@) && starts_slash(original_path@)
            && !has_dotdot_component(link_path@) ==> r is Ok,
{
    if !original_exists {
        return Err(ConfGuardError::OriginalPathNotFound(String::from_str(original_path)));
    }
    content_toward(original_path, link_path, relative)
}

/// Accepts replacing a link with its target: the path must exist and
/// be a symbolic link.
pub fn replace_link_check(link_path: &str, link_exists: bool, link_is_symlink: bool) -> (r:
    Result<(), ConfGuardError>)
    ensures
        !link_exists ==> (r matches Err(e) && e is LinkNotFound),
        link_exists && !link_is_symlink ==> (r matches Err(e) && e is NotSymbolicLink),
        link_exists && link_is_symlink ==> r is Ok,
{
    if !link_exists {
        return Err(ConfGuardError::LinkNotFound(String::from_str(link_path)));
    }
    if !link_is_symlink {
        return Err(ConfGuardError::NotSymbolicLink(String::from_str(link_path)));
    }
    Ok(())
}

} // verus!
