//! The sync run as a state machine.
//!
//! A run asks its driver for one thing at a time, a [`SyncRequest`], and
//! decides what to ask next from the [`SyncReply`] that comes back. The last
//! request of a run is [`SyncRequest::Finished`], which carries the result.

use crate::git::{diff_verdict, listed_paths, GitOps};
use crate::files::{copy_source, marker_commit, marker_content, FileOps, COMMIT_MARKER};
use crate::text::{has_prefix, join_path, joined, strip_prefix, texts};
use vstd::prelude::*;

verus! {

/// Why a run failed.
#[derive(Debug, PartialEq, Eq)]
pub enum SyncError {
    /// The infrastructure repository has no `common` directory at `path`.
    CommonDirNotFound { path: String },
    /// The marker file exists but could not be read.
    MarkerRead { cause: String },
    /// The marker file could not be written.
    MarkerWrite { cause: String },
    /// The file at `path`, deleted upstream, could not be removed.
    RemoveFile { path: String, cause: String },
    /// The copy of the tree did not complete.
    CopyTree { cause: String },
    /// A diff could not be run.
    GitDiff { cause: String },
    /// The quiet diff ended with a code that is neither 0 nor 1.
    GitDiffStatus { code: i32 },
    /// The driver sent a reply that does not answer the pending request.
    UnexpectedReply,
}

/// A [`SyncError`] over texts.
pub enum SyncErrorView {
    CommonDirNotFound { path: Seq<char> },
    MarkerRead { cause: Seq<char> },
    MarkerWrite { cause: Seq<char> },
    RemoveFile { path: Seq<char>, cause: Seq<char> },
    CopyTree { cause: Seq<char> },
    GitDiff { cause: Seq<char> },
    GitDiffStatus { code: i32 },
    UnexpectedReply,
}

impl View for SyncError {
    type V = SyncErrorView;

    open spec fn view(&self) -> SyncErrorView {
        match *self {
            SyncError::CommonDirNotFound { path } => SyncErrorView::CommonDirNotFound {
                path: path@,
            },
            SyncError::MarkerRead { cause } => SyncErrorView::MarkerRead { cause: cause@ },
            SyncError::MarkerWrite { cause } => SyncErrorView::MarkerWrite { cause: cause@ },
            SyncError::RemoveFile { path, cause } => SyncErrorView::RemoveFile {
                path: path@,
                cause: cause@,
            },
            SyncError::CopyTree { cause } => SyncErrorView::CopyTree { cause: cause@ },
            SyncError::GitDiff { cause } => SyncErrorView::GitDiff { cause: cause@ },
            SyncError::GitDiffStatus { code } => SyncErrorView::GitDiffStatus { code },
            SyncError::UnexpectedReply => SyncErrorView::UnexpectedReply,
        }
    }
}

/// The description of an error: what failed, and on which path where one is known.
pub open spec fn error_message(error: SyncErrorView) -> Seq<char> {
    match error {
        SyncErrorView::CommonDirNotFound { path } => "Common directory not found: "@ + path,
        SyncErrorView::MarkerRead { .. } => "Failed to read commit marker"@,
        SyncErrorView::MarkerWrite { .. } => "Failed to write commit marker"@,
        SyncErrorView::RemoveFile { path, .. } => "Failed to remove file: "@ + path,
        SyncErrorView::CopyTree { .. } => "Failed to sync directory with rsync"@,
        SyncErrorView::GitDiff { .. } => "Failed to run git diff"@,
        SyncErrorView::GitDiffStatus { .. } => "Failed to run git diff"@,
        SyncErrorView::UnexpectedReply => "Unexpected reply to a sync request"@,
    }
}

/// What the driver reported as the cause of an error, where it reported one.
pub open spec fn error_cause(error: SyncErrorView) -> Option<Seq<char>> {
    match error {
        SyncErrorView::MarkerRead { cause } => Some(cause),
        SyncErrorView::MarkerWrite { cause } => Some(cause),
        SyncErrorView::RemoveFile { cause, .. } => Some(cause),
        SyncErrorView::CopyTree { cause } => Some(cause),
        SyncErrorView::GitDiff { cause } => Some(cause),
        _ => None,
    }
}

impl SyncError {
    /// The description of this error.
    pub fn message(&self) -> (text: String)
        ensures
            text@ == error_message(self@),
    {
        match self {
            SyncError::CommonDirNotFound { path } => {
                let mut text = "Common directory not found: ".to_owned();
                text.append(path.as_str());
                text
            },
            SyncError::MarkerRead { .. } => "Failed to read commit marker".to_owned(),
            SyncError::MarkerWrite { .. } => "Failed to write commit marker".to_owned(),
            SyncError::RemoveFile { path, .. } => {
                let mut text = "Failed to remove file: ".to_owned();
                text.append(path.as_str());
                text
            },
            SyncError::CopyTree { .. } => "Failed to sync directory with rsync".to_owned(),
            SyncError::GitDiff { .. } => "Failed to run git diff".to_owned(),
            SyncError::GitDiffStatus { .. } => "Failed to run git diff".to_owned(),
            SyncError::UnexpectedReply => "Unexpected reply to a sync request".to_owned(),
        }
    }

    /// The cause that the driver reported, if it reported one.
    pub fn cause(&self) -> (text: Option<String>)
        ensures
            text is Some <==> error_cause(self@) is Some,
            text matches Some(t) ==> error_cause(self@) == Some(t@),
    {
        match self {
            SyncError::MarkerRead { cause } => Some(cause.clone()),
            SyncError::MarkerWrite { cause } => Some(cause.clone()),
            SyncError::RemoveFile { cause, .. } => Some(cause.clone()),
            SyncError::CopyTree { cause } => Some(cause.clone()),
            SyncError::GitDiff { cause } => Some(cause.clone()),
            _ => None,
        }
    }
}

/// What a run asks of its driver.
#[derive(Debug, PartialEq, Eq)]
pub enum SyncRequest {
    /// Does the directory `path` exist? Answered by `Exists`.
    CheckCommonDir { path: String },
    /// Does anything exist at `path`? Answered by `Exists`.
    CheckMarker { path: String },
    /// Read the text of the file at `path`. Answered by `Output` or `Failed`.
    ReadMarker { path: String },
    /// In the repository `repo`, do the commits `from` and `to` differ below
    /// `prefix`? Answered by `ExitCode`, the code of the quiet diff, or `Failed`.
    QueryChanges { repo: String, from: String, to: String, prefix: String },
    /// In the repository `repo`, which files below `prefix` were deleted between
    /// `from` and `to`? Answered by `Output`, one path a line, or `Failed`.
    ListDeleted { repo: String, from: String, to: String, prefix: String },
    /// Is `path`, the file `name` of the target, a regular file? Answered by `Exists`.
    CheckFile { path: String, name: String },
    /// Remove `path`, the file `name` of the target. Answered by `Done` or `Failed`.
    RemoveFile { path: String, name: String },
    /// Copy what is below `source` onto `target`, overwriting files of the same
    /// name and leaving all others. Answered by `Done` or `Failed`.
    CopyTree { source: String, target: String },
    /// Write `content` to the file at `path`, replacing it. Answered by `Done` or `Failed`.
    WriteMarker { path: String, content: String },
    /// The run is over: `Ok(true)` if the tree was copied, `Ok(false)` if there
    /// was nothing to do.
    Finished { result: Result<bool, SyncError> },
}

/// A [`SyncRequest`] over texts.
pub enum SyncRequestView {
    CheckCommonDir { path: Seq<char> },
    CheckMarker { path: Seq<char> },
    ReadMarker { path: Seq<char> },
    QueryChanges { repo: Seq<char>, from: Seq<char>, to: Seq<char>, prefix: Seq<char> },
    ListDeleted { repo: Seq<char>, from: Seq<char>, to: Seq<char>, prefix: Seq<char> },
    CheckFile { path: Seq<char>, name: Seq<char> },
    RemoveFile { path: Seq<char>, name: Seq<char> },
    CopyTree { source: Seq<char>, target: Seq<char> },
    WriteMarker { path: Seq<char>, content: Seq<char> },
    Finished { result: Result<bool, SyncErrorView> },
}

impl View for SyncRequest {
    type V = SyncRequestView;

    open spec fn view(&self) -> SyncRequestView {
        match *self {
            SyncRequest::CheckCommonDir { path } => SyncRequestView::CheckCommonDir { path: path@ },
            SyncRequest::CheckMarker { path } => SyncRequestView::CheckMarker { path: path@ },
            SyncRequest::ReadMarker { path } => SyncRequestView::ReadMarker { path: path@ },
            SyncRequest::QueryChanges { repo, from, to, prefix } => SyncRequestView::QueryChanges {
                repo: repo@,
                from: from@,
                to: to@,
                prefix: prefix@,
            },
            SyncRequest::ListDeleted { repo, from, to, prefix } => SyncRequestView::ListDeleted {
                repo: repo@,
                from: from@,
                to: to@,
                prefix: prefix@,
            },
            SyncRequest::CheckFile { path, name } => SyncRequestView::CheckFile {
                path: path@,
                name: name@,
            },
            SyncRequest::RemoveFile { path, name } => SyncRequestView::RemoveFile {
                path: path@,
                name: name@,
            },
            SyncRequest::CopyTree { source, target } => SyncRequestView::CopyTree {
                source: source@,
                target: target@,
            },
            SyncRequest::WriteMarker { path, content } => SyncRequestView::WriteMarker {
                path: path@,
                content: content@,
            },
            SyncRequest::Finished { result } => SyncRequestView::Finished {
                result: match result {
                    Ok(copied) => Ok(copied),
                    Err(error) => Err(error@),
                },
            },
        }
    }
}

/// What the driver answers.
#[derive(Debug, PartialEq, Eq)]
pub enum SyncReply {
    /// Whether what was asked about exists.
    Exists(bool),
    /// The exit code of a command that ran to its end.
    ExitCode(i32),
    /// The text that was read.
    Output(String),
    /// The operation succeeded.
    Done,
    /// The operation failed, with the cause in words.
    Failed(String),
}

/// A [`SyncReply`] over texts.
pub enum SyncReplyView {
    Exists(bool),
    ExitCode(i32),
    Output(Seq<char>),
    Done,
    Failed(Seq<char>),
}

impl View for SyncReply {
    type V = SyncReplyView;

    open spec fn view(&self) -> SyncReplyView {
        match *self {
            SyncReply::Exists(found) => SyncReplyView::Exists(found),
            SyncReply::ExitCode(code) => SyncReplyView::ExitCode(code),
            SyncReply::Output(text) => SyncReplyView::Output(text@),
            SyncReply::Done => SyncReplyView::Done,
            SyncReply::Failed(cause) => SyncReplyView::Failed(cause@),
        }
    }
}

/// Where a run stands: which reply it is waiting for.
#[derive(Debug, Clone, Copy, PartialEq, Eq)]
pub enum SyncPhase {
    /// Asked whether the `common` directory exists.
    CheckingCommon,
    /// Asked whether the target has a marker.
    CheckingMarker,
    /// Asked for the text of the marker.
    ReadingMarker,
    /// First sync: asked for the copy of the tree.
    InitialCopy,
    /// First sync: asked for the marker to be written.
    InitialMarker,
    /// Asked whether the previous and the current commit differ.
    QueryingChanges,
    /// Asked for the files deleted since the previous commit.
    ListingDeleted,
    /// Asked whether a deleted file is still in the target.
    CheckingFile,
    /// Asked for a deleted file to be removed from the target.
    RemovingFile,
    /// Asked for the copy of the tree.
    Copying,
    /// Asked for the marker to be written.
    WritingMarker,
    /// The run is over.
    Finished,
}

/// The directory of the infrastructure repository that is mirrored.
pub open spec fn common_dir(infra: Seq<char>) -> Seq<char> {
    joined(infra, "common"@)
}

/// The prefix, within the infrastructure repository, of the mirrored files.
pub open spec fn common_prefix() -> Seq<char> {
    "common/"@
}

/// The marker file of a target repository.
pub open spec fn marker_path(target: Seq<char>) -> Seq<char> {
    joined(target, COMMIT_MARKER@)
}

/// The names, relative to `prefix`, of those of `paths` that lie below it.
pub open spec fn names_below(paths: Seq<Seq<char>>, prefix: Seq<char>) -> Seq<Seq<char>> {
    paths.filter(|path: Seq<char>| has_prefix(path, prefix)).map_values(
        |path: Seq<char>| path.skip(prefix.len() as int),
    )
}

/// The state of a run over texts.
pub struct SyncerView {
    /// Root of the infrastructure repository.
    pub infra: Seq<char>,
    /// Root of the target repository.
    pub target: Seq<char>,
    /// The commit to sync to.
    pub commit: Seq<char>,
    /// The commit that the marker recorded, once it has been read.
    pub previous: Seq<char>,
    /// Names, relative to the target, of the files deleted upstream.
    pub removals: Seq<Seq<char>>,
    /// How many of `removals` have been dealt with.
    pub cursor: int,
    /// Which reply the run is waiting for.
    pub phase: SyncPhase,
}

impl SyncerView {
    /// The state in `phase`, all else unchanged.
    pub open spec fn at(self, phase: SyncPhase) -> SyncerView {
        SyncerView { phase, ..self }
    }

    /// The request for the tree copy.
    pub open spec fn copy_tree(self) -> SyncRequestView {
        SyncRequestView::CopyTree {
            source: copy_source(common_dir(self.infra)),
            target: self.target,
        }
    }

    /// The request to record the current commit in the marker.
    pub open spec fn write_marker(self) -> SyncRequestView {
        SyncRequestView::WriteMarker {
            path: marker_path(self.target),
            content: marker_content(self.commit),
        }
    }

    /// The end of the run with `result`.
    pub open spec fn finish(self, result: Result<bool, SyncErrorView>) -> (
        SyncerView,
        SyncRequestView,
    ) {
        (self.at(SyncPhase::Finished), SyncRequestView::Finished { result })
    }

    /// The end of the run on a reply that does not answer the pending request.
    pub open spec fn unexpected(self) -> (SyncerView, SyncRequestView) {
        self.finish(Err(SyncErrorView::UnexpectedReply))
    }

    /// What comes after `cursor` removals were dealt with: the check of the
    /// next deleted file, or the copy when none is left.
    pub open spec fn next_removal(self) -> (SyncerView, SyncRequestView) {
        if 0 <= self.cursor < self.removals.len() {
            let name = self.removals[self.cursor];
            (
                self.at(SyncPhase::CheckingFile),
                SyncRequestView::CheckFile { path: joined(self.target, name), name },
            )
        } else {
            (self.at(SyncPhase::Copying), self.copy_tree())
        }
    }

    /// The start of a first sync: the whole tree is copied.
    pub open spec fn enter_initial(self) -> (SyncerView, SyncRequestView) {
        (self.at(SyncPhase::InitialCopy), self.copy_tree())
    }

    /// The start of an incremental sync from the commit that the marker with
    /// the text `content` records: the two commits are compared.
    pub open spec fn enter_incremental(self, content: Seq<char>) -> (SyncerView, SyncRequestView) {
        let previous = marker_commit(content);
        (
            SyncerView { previous, phase: SyncPhase::QueryingChanges, ..self },
            SyncRequestView::QueryChanges {
                repo: self.infra,
                from: previous,
                to: self.commit,
                prefix: common_prefix(),
            },
        )
    }

    /// One step of a first sync.
    pub open spec fn step_initial(self, reply: SyncReplyView) -> (SyncerView, SyncRequestView) {
        match (self.phase, reply) {
            (SyncPhase::InitialCopy, SyncReplyView::Done) => (
                self.at(SyncPhase::InitialMarker),
                self.write_marker(),
            ),
            (SyncPhase::InitialCopy, SyncReplyView::Failed(cause)) => self.finish(
                Err(SyncErrorView::CopyTree { cause }),
            ),
            (SyncPhase::InitialMarker, SyncReplyView::Done) => self.finish(Ok(true)),
            (SyncPhase::InitialMarker, SyncReplyView::Failed(cause)) => self.finish(
                Err(SyncErrorView::MarkerWrite { cause }),
            ),
            _ => self.unexpected(),
        }
    }

    /// One step of an incremental sync.
    pub open spec fn step_incremental(self, reply: SyncReplyView) -> (
        SyncerView,
        SyncRequestView,
    ) {
        match (self.phase, reply) {
            (SyncPhase::QueryingChanges, SyncReplyView::ExitCode(code)) => match diff_verdict(
                code,
            ) {
                Some(false) => self.finish(Ok(false)),
                Some(true) => (
                    self.at(SyncPhase::ListingDeleted),
                    SyncRequestView::ListDeleted {
                        repo: self.infra,
                        from: self.previous,
                        to: self.commit,
                        prefix: common_prefix(),
                    },
                ),
                None => self.finish(Err(SyncErrorView::GitDiffStatus { code })),
            },
            (SyncPhase::QueryingChanges, SyncReplyView::Failed(cause)) => self.finish(
                Err(SyncErrorView::GitDiff { cause }),
            ),
            (SyncPhase::ListingDeleted, SyncReplyView::Output(listing)) => SyncerView {
                removals: names_below(listed_paths(listing), common_prefix()),
                cursor: 0,
                ..self
            }.next_removal(),
            (SyncPhase::ListingDeleted, SyncReplyView::Failed(cause)) => self.finish(
                Err(SyncErrorView::GitDiff { cause }),
            ),
            (SyncPhase::CheckingFile, SyncReplyView::Exists(true)) => {
                let name = self.removals[self.cursor];
                (
                    self.at(SyncPhase::RemovingFile),
                    SyncRequestView::RemoveFile { path: joined(self.target, name), name },
                )
            },
            (SyncPhase::CheckingFile, SyncReplyView::Exists(false)) => SyncerView {
                cursor: self.cursor + 1,
                ..self
            }.next_removal(),
            (SyncPhase::RemovingFile, SyncReplyView::Done) => SyncerView {
                cursor: self.cursor + 1,
                ..self
            }.next_removal(),
            (SyncPhase::RemovingFile, SyncReplyView::Failed(cause)) => self.finish(
                Err(
                    SyncErrorView::RemoveFile {
                        path: joined(self.target, self.removals[self.cursor]),
                        cause,
                    },
                ),
            ),
            (SyncPhase::Copying, SyncReplyView::Done) => (
                self.at(SyncPhase::WritingMarker),
                self.write_marker(),
            ),
            (SyncPhase::Copying, SyncReplyView::Failed(cause)) => self.finish(
                Err(SyncErrorView::CopyTree { cause }),
            ),
            (SyncPhase::WritingMarker, SyncReplyView::Done) => self.finish(Ok(true)),
            (SyncPhase::WritingMarker, SyncReplyView::Failed(cause)) => self.finish(
                Err(SyncErrorView::MarkerWrite { cause }),
            ),
            _ => self.unexpected(),
        }
    }

    /// One step of a run: the state after `reply` and the next request.
    pub open spec fn step(self, reply: SyncReplyView) -> (SyncerView, SyncRequestView) {
        match self.phase {
            SyncPhase::CheckingCommon => match reply {
                SyncReplyView::Exists(true) => (
                    self.at(SyncPhase::CheckingMarker),
                    SyncRequestView::CheckMarker { path: marker_path(self.target) },
                ),
                SyncReplyView::Exists(false) => self.finish(
                    Err(SyncErrorView::CommonDirNotFound { path: common_dir(self.infra) }),
                ),
                _ => self.unexpected(),
            },
            SyncPhase::CheckingMarker => match reply {
                SyncReplyView::Exists(true) => (
                    self.at(SyncPhase::ReadingMarker),
                    SyncRequestView::ReadMarker { path: marker_path(self.target) },
                ),
                SyncReplyView::Exists(false) => self.enter_initial(),
                _ => self.unexpected(),
            },
            SyncPhase::ReadingMarker => match reply {
                SyncReplyView::Output(content) => self.enter_incremental(content),
                SyncReplyView::Failed(cause) => self.finish(
                    Err(SyncErrorView::MarkerRead { cause }),
                ),
                _ => self.unexpected(),
            },
            SyncPhase::InitialCopy | SyncPhase::InitialMarker => self.step_initial(reply),
            SyncPhase::Finished => self.unexpected(),
            _ => self.step_incremental(reply),
        }
    }
}

/// The state in which a run begins.
pub open spec fn initial_state(infra: Seq<char>, target: Seq<char>, commit: Seq<char>) -> SyncerView {
    SyncerView {
        infra,
        target,
        commit,
        previous: Seq::empty(),
        removals: Seq::empty(),
        cursor: 0,
        phase: SyncPhase::CheckingCommon,
    }
}

/// The request with which a run begins.
pub open spec fn first_request(infra: Seq<char>) -> SyncRequestView {
    SyncRequestView::CheckCommonDir { path: common_dir(infra) }
}

/// The names, relative to `prefix`, of those of `paths` that lie below it.
pub fn removal_targets(paths: &Vec<String>, prefix: &str) -> (names: Vec<String>)
    ensures
        texts(names@) == names_below(texts(paths@), prefix@),
{
    let ghost below = |path: Seq<char>| has_prefix(path, prefix@);
    let ghost strip = |path: Seq<char>| path.skip(prefix@.len() as int);
    let mut names: Vec<String> = Vec::new();
    let mut i: usize = 0;
    proof {
        reveal(Seq::filter);
        assert(texts(paths@).take(0) == Seq::<Seq<char>>::empty());
        assert(texts(names@) == Seq::<Seq<char>>::empty().map_values(strip));
    }
    while i < paths.len()
        invariant
            i <= paths.len(),
            below == |path: Seq<char>| has_prefix(path, prefix@),
            strip == |path: Seq<char>| path.skip(prefix@.len() as int),
            texts(names@) == texts(paths@).take(i as int).filter(below).map_values(strip),
        decreases paths.len() - i,
    {
        let ghost before = texts(names@);
        let ghost seen = texts(paths@).take(i as int);
        let ghost path = paths@[i as int]@;
        proof {
            reveal(Seq::filter);
            let next = texts(paths@).take(i + 1);
            assert(next.drop_last() == seen);
            assert(next.last() == path);
            if has_prefix(path, prefix@) {
                assert(next.filter(below) == seen.filter(below).push(path));
                assert(next.filter(below).map_values(strip) == before.push(strip(path)));
            } else {
                assert(next.filter(below) == seen.filter(below));
            }
        }
        match strip_prefix(paths[i].as_str(), prefix) {
            Some(name) => {
                names.push(name);
                assert(texts(names@) == before.push(strip(path)));
            },
            None => {},
        }
        i += 1;
    }
    assert(texts(paths@).take(paths.len() as int) == texts(paths@));
    names
}

/// One run of the sync of `common/` from an infrastructure repository into a
/// target repository, up to the commit given.
pub struct CommonFileSyncer {
    infra_path: String,
    target_path: String,
    current_commit: String,
    previous_commit: String,
    removals: Vec<String>,
    cursor: usize,
    phase: SyncPhase,
}

impl View for CommonFileSyncer {
    type V = SyncerView;

    closed spec fn view(&self) -> SyncerView {
        SyncerView {
            infra: self.infra_path@,
            target: self.target_path@,
            commit: self.current_commit@,
            previous: self.previous_commit@,
            removals: texts(self.removals@),
            cursor: self.cursor as int,
            phase: self.phase,
        }
    }
}

impl CommonFileSyncer {
    #[verifier::type_invariant]
    spec fn well_formed(self) -> bool {
        &&& self.cursor <= self.removals.len()
        &&& (self.phase is CheckingFile || self.phase is RemovingFile) ==> self.cursor
            < self.removals.len()
    }

    /// A run that syncs the target at `target_path` to `current_commit` of the
    /// infrastructure repository at `infra_path`, with its first request.
    pub fn new(infra_path: &str, target_path: &str, current_commit: &str) -> (run: (
        CommonFileSyncer,
        SyncRequest,
    ))
        ensures
            run.0@ == initial_state(infra_path@, target_path@, current_commit@),
            run.1@ == first_request(infra_path@),
    {
        let syncer = CommonFileSyncer {
            infra_path: infra_path.to_owned(),
            target_path: target_path.to_owned(),
            current_commit: current_commit.to_owned(),
            previous_commit: String::new(),
            removals: Vec::new(),
            cursor: 0,
            phase: SyncPhase::CheckingCommon,
        };
        assert(texts(syncer.removals@) == Seq::<Seq<char>>::empty());
        (syncer, SyncRequest::CheckCommonDir { path: join_path(infra_path, "common") })
    }

    /// Whether the run is over.
    pub fn is_finished(&self) -> (over: bool)
        ensures
            over == (self@.phase is Finished),
    {
        match self.phase {
            SyncPhase::Finished => true,
            _ => false,
        }
    }

    fn finish(&mut self, result: Result<bool, SyncError>) -> (request: SyncRequest)
        ensures
            (final(self)@, request@) == old(self)@.finish(
                match result {
                    Ok(copied) => Ok(copied),
                    Err(error) => Err(error@),
                },
            ),
    {
        proof {
            use_type_invariant(&*self);
        }
        self.phase = SyncPhase::Finished;
        SyncRequest::Finished { result }
    }

    fn unexpected(&mut self) -> (request: SyncRequest)
        ensures
            (final(self)@, request@) == old(self)@.unexpected(),
    {
        self.finish(Err(SyncError::UnexpectedReply))
    }

    fn copy_tree(&self) -> (request: SyncRequest)
        ensures
            request@ == self@.copy_tree(),
    {
        let common = join_path(self.infra_path.as_str(), "common");
        let (source, target) = FileOps::sync_directory(common.as_str(), self.target_path.as_str());
        SyncRequest::CopyTree { source, target }
    }

    fn write_marker(&self) -> (request: SyncRequest)
        ensures
            request@ == self@.write_marker(),
    {
        SyncRequest::WriteMarker {
            path: join_path(self.target_path.as_str(), COMMIT_MARKER),
            content: FileOps::write_commit_marker(self.current_commit.as_str()),
        }
    }

    fn next_removal(&mut self) -> (request: SyncRequest)
        requires
            old(self).phase !is CheckingFile,
            old(self).phase !is RemovingFile,
        ensures
            (final(self)@, request@) == old(self)@.next_removal(),
    {
        proof {
            use_type_invariant(&*self);
        }
        if self.cursor < self.removals.len() {
            let name = self.removals[self.cursor].clone();
            let path = join_path(self.target_path.as_str(), name.as_str());
            self.phase = SyncPhase::CheckingFile;
            SyncRequest::CheckFile { path, name }
        } else {
            self.phase = SyncPhase::Copying;
            self.copy_tree()
        }
    }

    /// Takes the reply to the pending request and returns the next request.
    pub fn sync(&mut self, reply: SyncReply) -> (request: SyncRequest)
        ensures
            (final(self)@, request@) == old(self)@.step(reply@),
    {
        proof {
            use_type_invariant(&*self);
        }
        match self.phase {
            SyncPhase::CheckingCommon => match reply {
                SyncReply::Exists(true) => {
                    self.phase = SyncPhase::CheckingMarker;
                    SyncRequest::CheckMarker {
                        path: join_path(self.target_path.as_str(), COMMIT_MARKER),
                    }
                },
                SyncReply::Exists(false) => {
                    let path = join_path(self.infra_path.as_str(), "common");
                    self.finish(Err(SyncError::CommonDirNotFound { path }))
                },
                _ => self.unexpected(),
            },
            SyncPhase::CheckingMarker => match reply {
                SyncReply::Exists(true) => {
                    self.phase = SyncPhase::ReadingMarker;
                    SyncRequest::ReadMarker {
                        path: join_path(self.target_path.as_str(), COMMIT_MARKER),
                    }
                },
                SyncReply::Exists(false) => {
                    self.phase = SyncPhase::InitialCopy;
                    self.copy_tree()
                },
                _ => self.unexpected(),
            },
            SyncPhase::ReadingMarker => match reply {
                SyncReply::Output(content) => {
                    match FileOps::read_commit_marker(Some(content.as_str())) {
                        Some(previous) => {
                            self.previous_commit = previous;
                            self.phase = SyncPhase::QueryingChanges;
                            SyncRequest::QueryChanges {
                                repo: self.infra_path.clone(),
                                from: self.previous_commit.clone(),
                                to: self.current_commit.clone(),
                                prefix: "common/".to_owned(),
                            }
                        },
                        None => self.unexpected(),
                    }
                },
                SyncReply::Failed(cause) => self.finish(Err(SyncError::MarkerRead { cause })),
                _ => self.unexpected(),
            },
            SyncPhase::InitialCopy | SyncPhase::InitialMarker => self.sync_initial(reply),
            SyncPhase::Finished => self.unexpected(),
            _ => self.sync_incremental(reply),
        }
    }

    /// One step of a first sync: the tree is copied, then the marker written.
    pub fn sync_initial(&mut self, reply: SyncReply) -> (request: SyncRequest)
        ensures
            (final(self)@, request@) == old(self)@.step_initial(reply@),
    {
        proof {
            use_type_invariant(&*self);
        }
        match (self.phase, reply) {
            (SyncPhase::InitialCopy, SyncReply::Done) => {
                self.phase = SyncPhase::InitialMarker;
                self.write_marker()
            },
            (SyncPhase::InitialCopy, SyncReply::Failed(cause)) => self.finish(
                Err(SyncError::CopyTree { cause }),
            ),
            (SyncPhase::InitialMarker, SyncReply::Done) => self.finish(Ok(true)),
            (SyncPhase::InitialMarker, SyncReply::Failed(cause)) => self.finish(
                Err(SyncError::MarkerWrite { cause }),
            ),
            _ => self.unexpected(),
        }
    }

    /// One step of an incremental sync: the commits are compared; if they
    /// differ, the files deleted upstream are removed from the target where
    /// they are still there, the tree is copied and the marker written.
    pub fn sync_incremental(&mut self, reply: SyncReply) -> (request: SyncRequest)
        ensures
            (final(self)@, request@) == old(self)@.step_incremental(reply@),
    {
        proof {
            use_type_invariant(&*self);
        }
        match (self.phase, reply) {
            (SyncPhase::QueryingChanges, SyncReply::ExitCode(code)) => {
                match GitOps::has_changes(code) {
                    Some(false) => self.finish(Ok(false)),
                    Some(true) => {
                        self.phase = SyncPhase::ListingDeleted;
                        SyncRequest::ListDeleted {
                            repo: self.infra_path.clone(),
                            from: self.previous_commit.clone(),
                            to: self.current_commit.clone(),
                            prefix: "common/".to_owned(),
                        }
                    },
                    None => self.finish(Err(SyncError::GitDiffStatus { code })),
                }
            },
            (SyncPhase::QueryingChanges, SyncReply::Failed(cause)) => self.finish(
                Err(SyncError::GitDiff { cause }),
            ),
            (SyncPhase::ListingDeleted, SyncReply::Output(listing)) => {
                let deleted = GitOps::get_deleted_files(listing.as_str());
                self.cursor = 0;
                self.removals = removal_targets(&deleted, "common/");
                self.next_removal()
            },
            (SyncPhase::ListingDeleted, SyncReply::Failed(cause)) => self.finish(
                Err(SyncError::GitDiff { cause }),
            ),
            (SyncPhase::CheckingFile, SyncReply::Exists(true)) => {
                let name = self.removals[self.cursor].clone();
                let path = join_path(self.target_path.as_str(), name.as_str());
                self.phase = SyncPhase::RemovingFile;
                SyncRequest::RemoveFile { path, name }
            },
            (SyncPhase::CheckingFile, SyncReply::Exists(false)) => {
                self.phase = SyncPhase::Copying;
                self.cursor = self.cursor + 1;
                self.next_removal()
            },
            (SyncPhase::RemovingFile, SyncReply::Done) => {
                self.phase = SyncPhase::Copying;
                self.cursor = self.cursor + 1;
                self.next_removal()
            },
            (SyncPhase::RemovingFile, SyncReply::Failed(cause)) => {
                let path = join_path(
                    self.target_path.as_str(),
                    self.removals[self.cursor].as_str(),
                );
                self.finish(Err(SyncError::RemoveFile { path, cause }))
            },
            (SyncPhase::Copying, SyncReply::Done) => {
                self.phase = SyncPhase::WritingMarker;
                self.write_marker()
            },
            (SyncPhase::Copying, SyncReply::Failed(cause)) => self.finish(
                Err(SyncError::CopyTree { cause }),
            ),
            (SyncPhase::WritingMarker, SyncReply::Done) => self.finish(Ok(true)),
            (SyncPhase::WritingMarker, SyncReply::Failed(cause)) => self.finish(
                Err(SyncError::MarkerWrite { cause }),
            ),
            _ => self.unexpected(),
        }
    }
}

} // verus!
