//! Staging of writes: content lands in a private directory first and is
//! moved into the hosted directory only when all of it is there.

use crate::options::{entry_path, join_path, Options, OptionsView};
use crate::paths::{is_hidden, within};
use vstd::prelude::*;

verus! {

/// The path of the staging directory, where the configuration has one.
pub open spec fn staging_root(options: OptionsView) -> Seq<char> {
    match options.temp_directory {
        Some(temp) => temp.1,
        None => Seq::empty(),
    }
}

/// Where the content for `relative` is staged: the entry of that name in
/// the staging directory, if the configuration has one.
pub fn staged_path(options: &Options, relative: &str) -> (path: Option<String>)
    ensures
        match path {
            Some(p) => options@.temp_directory is Some && p@ == entry_path(staging_root(options@), relative@),
            None => options@.temp_directory is None,
        },
{
    match &options.temp_directory {
        Some(temp) => Some(join_path(temp.1.as_str(), relative)),
        None => None,
    }
}

/// Where the content for `relative` becomes visible: the entry of the same
/// name in the hosted directory.
pub fn destination_path(options: &Options, relative: &str) -> (path: String)
    ensures
        path@ == entry_path(options@.hosted_directory.1, relative@),
{
    join_path(options.hosted_directory.1.as_str(), relative)
}

/// Whether `path` lies in the staging directory, and so is never shown.
pub fn is_staged(options: &Options, path: &str) -> (hidden: bool)
    ensures
        hidden == is_hidden(options@, path@),
{
    match &options.temp_directory {
        Some(temp) => within(temp.1.as_str(), path),
        None => false,
    }
}

/// How the write of the staged file ended.
#[derive(Debug, Clone, Copy, PartialEq, Eq, Structural)]
pub enum StageEvent {
    /// This many bytes were written and the stream ended.
    Written(u64),
    /// Writing failed.
    Failed,
}

/// What to do with a staged file.
#[derive(Debug, Clone, Copy, PartialEq, Eq, Structural)]
pub enum StageStep {
    /// Keep it: it is whole and can be committed.
    Keep,
    /// Delete it and leave the hosted directory as it is.
    Discard,
}

/// A staged file is kept only if all `expected` bytes were written.
pub fn after_stage(expected: u64, event: StageEvent) -> (step: StageStep)
    ensures
        step == if event == StageEvent::Written(expected) {
            StageStep::Keep
        } else {
            StageStep::Discard
        },
{
    match event {
        StageEvent::Written(n) => if n == expected {
            StageStep::Keep
        } else {
            StageStep::Discard
        },
        StageEvent::Failed => StageStep::Discard,
    }
}

/// What to do after the attempt to rename a staged file to its destination.
#[derive(Debug, Clone, Copy, PartialEq, Eq, Structural)]
pub enum CommitStep {
    /// The file is in place.
    Done,
    /// Copy the staged file to its destination, then delete it.
    CopyThenDelete,
}

/// A rename that worked ends the commit; after one that failed the file is
/// copied and the staged one deleted.
pub fn after_rename(renamed: bool) -> (step: CommitStep)
    ensures
        step == if renamed {
            CommitStep::Done
        } else {
            CommitStep::CopyThenDelete
        },
{
    if renamed {
        CommitStep::Done
    } else {
        CommitStep::CopyThenDelete
    }
}

} // verus!
