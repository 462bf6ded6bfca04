//! Turning the path of a request into a path of the filesystem that lies
//! inside the hosted directory.

use crate::options::{entry_path, join_path, separates, Options, OptionsView};
use crate::staging::{is_staged, staging_root};
use crate::text::{from_chars, to_chars};
use crate::util::views;
use vstd::prelude::*;
use vstd::string::*;

verus! {

/// Why a requested path is not served.
#[derive(Debug, Clone, Copy, PartialEq, Eq, Structural)]
pub enum PathError {
    /// Nothing is there.
    NotFound,
    /// The path leads out of the hosted directory.
    Outside,
    /// A symlink lies on the way and symlinks are not followed.
    SymlinkDenied,
}

/// Whether `path` begins with `root`.
pub open spec fn has_prefix(path: Seq<char>, root: Seq<char>) -> bool {
    root.len() <= path.len() && path.take(root.len() as int) == root
}

/// Whether `path` is `root` or lies below it: `path` begins with `root`,
/// and what follows `root` in it, if anything, starts a new part.
pub open spec fn is_within(root: Seq<char>, path: Seq<char>) -> bool {
    &&& has_prefix(path, root)
    &&& (path.len() == root.len() || (root.len() > 0 && separates(root, root.last()))
        || separates(root, path[root.len() as int]))
}

/// The path that a request for `relative` stands for before it is made
/// canonical: the entry of `root`, or `relative` itself where it starts at
/// the root of the filesystem.
pub open spec fn target_of(root: Seq<char>, relative: Seq<char>) -> Seq<char> {
    if relative.len() > 0 && relative[0] == '/' {
        relative
    } else {
        entry_path(root, relative)
    }
}

fn holds_backslash(s: &Vec<char>) -> (held: bool)
    ensures
        held == s@.contains('\\'),
{
    let mut i: usize = 0;
    while i < s.len()
        invariant
            i <= s@.len(),
            forall|j: int| 0 <= j < i ==> s@[j] != '\\',
        decreases s@.len() - i,
    {
        if s[i] == '\\' {
            return true;
        }
        i += 1;
    }
    false
}

/// Tells whether `path` is `root` or lies below it.
pub fn within(root: &str, path: &str) -> (inside: bool)
    ensures
        inside == is_within(root@, path@),
{
    let r = to_chars(root);
    let p = to_chars(path);
    let n: usize = r.len();
    if n > p.len() {
        return false;
    }
    let mut i: usize = 0;
    while i < n
        invariant
            i <= n,
            r@ == root@,
            p@ == path@,
            n == r@.len(),
            n <= p@.len(),
            forall|j: int| 0 <= j < i ==> r@[j] == p@[j],
        decreases n - i,
    {
        if r[i] != p[i] {
            assert(p@.take(n as int)[i as int] != r@[i as int]);
            return false;
        }
        i += 1;
    }
    assert(p@.take(n as int) =~= r@);
    if p.len() == n {
        return true;
    }
    let backslash = holds_backslash(&r) && r[0] != '/';
    if n > 0 && (r[n - 1] == '/' || (r[n - 1] == '\\' && backslash)) {
        return true;
    }
    p[n] == '/' || (p[n] == '\\' && backslash)
}

/// Whether a part of `relative` ends just before position `k`.
pub open spec fn ends_part(relative: Seq<char>, k: int) -> bool {
    &&& 0 < k <= relative.len()
    &&& relative[k - 1] != '/'
    &&& (k == relative.len() || relative[k] == '/')
}

/// The paths below `root` at which a part of `relative` ends before
/// position `k`, from the first part down.
pub open spec fn checkpoints_upto(root: Seq<char>, relative: Seq<char>, k: nat) -> Seq<Seq<char>>
    decreases k,
{
    if k == 0 {
        Seq::empty()
    } else {
        let before = checkpoints_upto(root, relative, (k - 1) as nat);
        if ends_part(relative, k as int) {
            before.push(entry_path(root, relative.take(k as int)))
        } else {
            before
        }
    }
}

/// The paths that lie between `root` and the entry `relative` of it, the
/// entry included: one for each part of `relative`, from the first part
/// down.
pub open spec fn checkpoints_of(root: Seq<char>, relative: Seq<char>) -> Seq<Seq<char>> {
    checkpoints_upto(root, relative, relative.len())
}

/// The paths to ask the filesystem about before a request for `relative`
/// is served: a symlink at any of them lies on the way to the target.
pub fn checkpoints(options: &Options, relative: &str) -> (paths: Vec<String>)
    ensures
        views(paths@) == checkpoints_of(options@.hosted_directory.1, relative@),
{
    let rel = to_chars(relative);
    let ghost root = options@.hosted_directory.1;
    let mut paths: Vec<String> = Vec::new();
    let mut k: usize = 0;
    assert(views(paths@) =~= checkpoints_upto(root, rel@, 0));
    while k < rel.len()
        invariant
            k <= rel@.len(),
            rel@ == relative@,
            root == options@.hosted_directory.1,
            views(paths@) == checkpoints_upto(root, rel@, k as nat),
        decreases rel@.len() - k,
    {
        k += 1;
        if rel[k - 1] != '/' && (k == rel.len() || rel[k] == '/') {
            let mut part: Vec<char> = Vec::new();
            let mut j: usize = 0;
            while j < k
                invariant
                    j <= k <= rel@.len(),
                    part@ == rel@.take(j as int),
                decreases k - j,
            {
                part.push(rel[j]);
                j += 1;
                assert(part@ =~= rel@.take(j as int));
            }
            let name = from_chars(part.as_slice());
            let path = join_path(options.hosted_directory.1.as_str(), name.as_str());
            let ghost before = views(paths@);
            paths.push(path);
            assert(views(paths@) =~= before.push(path@));
        }
    }
    paths
}

/// The path to make canonical for a request of `relative`.
pub fn request_target(options: &Options, relative: &str) -> (target: String)
    ensures
        target@ == target_of(options@.hosted_directory.1, relative@),
{
    if relative.unicode_len() > 0 && relative.get_char(0) == '/' {
        String::from_str(relative)
    } else {
        join_path(options.hosted_directory.1.as_str(), relative)
    }
}

/// The verdict on a request by what the filesystem said of its target:
/// `canonical` is the target's canonical path, if there is one, and
/// `symlinks` says of each path between the hosted directory and the
/// target, in order, whether a symlink is there. A missing target is judged
/// first, then one outside the hosted directory, then a symlink, which is
/// refused wherever it points unless symlinks are followed. What lies in
/// the staging directory is never shown: it is answered as if nothing were
/// there.
pub open spec fn verdict(
    options: OptionsView,
    canonical: Option<Seq<char>>,
    symlinks: Seq<bool>,
) -> Result<Seq<char>, PathError> {
    match canonical {
        None => Err(PathError::NotFound),
        Some(path) => if !is_within(options.hosted_directory.1, path) {
            Err(PathError::Outside)
        } else if symlinks.contains(true) && !options.follow_symlinks {
            Err(PathError::SymlinkDenied)
        } else if is_hidden(options, path) {
            Err(PathError::NotFound)
        } else {
            Ok(path)
        },
    }
}

/// Whether `path` lies in the staging directory of the configuration.
pub open spec fn is_hidden(options: OptionsView, path: Seq<char>) -> bool {
    options.temp_directory is Some && is_within(staging_root(options), path)
}

/// The canonical path as plain text, where there is one.
pub open spec fn canonical_view(canonical: Option<String>) -> Option<Seq<char>> {
    match canonical {
        Some(c) => Some(c@),
        None => None,
    }
}

/// Judges a request; see `verdict`. A path that is returned lies in the
/// hosted directory.
pub fn resolve_path(options: &Options, canonical: Option<String>, symlinks: &[bool]) -> (r: Result<
    String,
    PathError,
>)
    ensures
        match r {
            Ok(path) => verdict(options@, canonical_view(canonical), symlinks@) == Ok::<
                Seq<char>,
                PathError,
            >(path@),
            Err(e) => verdict(options@, canonical_view(canonical), symlinks@) == Err::<
                Seq<char>,
                PathError,
            >(e),
        },
        r is Ok ==> has_prefix(r->Ok_0@, options@.hosted_directory.1),
{
    match canonical {
        None => Err(PathError::NotFound),
        Some(path) => {
            if !within(options.hosted_directory.1.as_str(), path.as_str()) {
                return Err(PathError::Outside);
            }
            if !options.follow_symlinks {
                let mut i: usize = 0;
                while i < symlinks.len()
                    invariant
                        i <= symlinks@.len(),
                        forall|j: int| 0 <= j < i ==> !symlinks@[j],
                        !options.follow_symlinks,
                        canonical_view(canonical) == Some(path@),
                        is_within(options@.hosted_directory.1, path@),
                    decreases symlinks@.len() - i,
                {
                    if symlinks[i] {
                        return Err(PathError::SymlinkDenied);
                    }
                    i += 1;
                }
            }
            if is_staged(options, path.as_str()) {
                return Err(PathError::NotFound);
            }
            Ok(path)
        },
    }
}

} // verus!
