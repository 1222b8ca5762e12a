//! What is written to and read from the target repository: the commit marker,
//! one line of text at its root that records the last commit synced into it,
//! and the operands of the tree copy.

use crate::text::{is_trimmed, lemma_trimmed_ignores_trailing_newline, lemma_trimmed_of_trimmed, trim, trimmed};
use vstd::prelude::*;

verus! {

/// Name of the marker file, relative to the root of the target repository.
pub const COMMIT_MARKER: &'static str = ".bootc-dev-infra-commit.txt";

/// The commit that a marker file with the given content records.
pub open spec fn marker_commit(content: Seq<char>) -> Seq<char> {
    trimmed(content)
}

/// The content of a marker file that records `commit`.
pub open spec fn marker_content(commit: Seq<char>) -> Seq<char> {
    commit + seq!['\n']
}

/// The directory that a copy of `source` reads: `source` followed by a `/`,
/// so that what is below it is copied, not the directory itself.
pub open spec fn copy_source(source: Seq<char>) -> Seq<char> {
    source + seq!['/']
}

/// The texts that go into the target repository and come out of it.
pub struct FileOps;

impl FileOps {
    /// The commit last synced, given the content of the marker file, or `None`
    /// for a target that has no marker file yet.
    pub fn read_commit_marker(content: Option<&str>) -> (commit: Option<String>)
        ensures
            content is None <==> commit is None,
            content matches Some(text) ==> commit matches Some(c) && c@ == marker_commit(text@),
    {
        match content {
            Some(text) => Some(trim(text)),
            None => None,
        }
    }

    /// The text to store in the marker file once `commit` has been synced.
    pub fn write_commit_marker(commit: &str) -> (content: String)
        ensures
            content@ == marker_content(commit@),
    {
        let mut content = commit.to_owned();
        content.push('\n');
        content
    }

    /// The two operands of the copy that mirrors the directory `source` into
    /// `target`: where to read and where to write.
    pub fn sync_directory(source: &str, target: &str) -> (operands: (String, String))
        ensures
            operands.0@ == copy_source(source@),
            operands.1@ == target@,
    {
        let mut from = source.to_owned();
        from.push('/');
        (from, target.to_owned())
    }
}

/// A marker that was written for `commit` reads back as `commit` without its
/// surrounding whitespace, and so as `commit` itself when it has none.
pub proof fn lemma_marker_round_trip(commit: Seq<char>)
    ensures
        marker_commit(marker_content(commit)) == trimmed(commit),
        is_trimmed(commit) ==> marker_commit(marker_content(commit)) == commit,
{
    lemma_trimmed_ignores_trailing_newline(commit);
    if is_trimmed(commit) {
        lemma_trimmed_of_trimmed(commit);
    }
}

} // verus!
