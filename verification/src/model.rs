//! A model of what a run does to the target repository.
//!
//! The files of a repository are a map from names, relative to its root, to
//! contents. A request that the driver answered with `Done` has the effect
//! that its description promises; any other reply leaves the files as they
//! were. Names are compared as texts: two spellings of one path are two names.

use crate::files::COMMIT_MARKER;
use crate::syncer::{
    first_request, initial_state, SyncReplyView, SyncRequestView, SyncerView,
};
use vstd::prelude::*;
use vstd::utf8::encode_utf8;

verus! {

/// The files of `target` after `request`, answered with `reply`, where
/// `common` holds the files of the mirrored directory.
pub open spec fn effect(
    request: SyncRequestView,
    reply: SyncReplyView,
    common: Map<Seq<char>, Seq<u8>>,
    target: Map<Seq<char>, Seq<u8>>,
) -> Map<Seq<char>, Seq<u8>> {
    if reply is Done {
        match request {
            SyncRequestView::RemoveFile { name, .. } => target.remove(name),
            SyncRequestView::CopyTree { .. } => target.union_prefer_right(common),
            SyncRequestView::WriteMarker { content, .. } => target.insert(
                COMMIT_MARKER@,
                encode_utf8(content),
            ),
            _ => target,
        }
    } else {
        target
    }
}

/// Whether `request` asks for a change to the target.
pub open spec fn is_mutating(request: SyncRequestView) -> bool {
    request is RemoveFile || request is CopyTree || request is WriteMarker
}

/// A run so far: its state, the requests it made, the last of which is
/// pending unless the run is over, and the files of the target.
pub struct Play {
    pub state: SyncerView,
    pub asked: Seq<SyncRequestView>,
    pub files: Map<Seq<char>, Seq<u8>>,
}

/// The run to `commit` that received `replies`, one for each request in turn.
/// Replies that come after the run is over are not taken.
pub open spec fn play(
    infra: Seq<char>,
    target: Seq<char>,
    commit: Seq<char>,
    common: Map<Seq<char>, Seq<u8>>,
    files: Map<Seq<char>, Seq<u8>>,
    replies: Seq<SyncReplyView>,
) -> Play
    decreases replies.len(),
{
    if replies.len() == 0 {
        Play {
            state: initial_state(infra, target, commit),
            asked: seq![first_request(infra)],
            files,
        }
    } else {
        let before = play(infra, target, commit, common, files, replies.drop_last());
        if before.state.phase is Finished {
            before
        } else {
            let (state, request) = before.state.step(replies.last());
            Play {
                state,
                asked: before.asked.push(request),
                files: effect(before.asked.last(), replies.last(), common, before.files),
            }
        }
    }
}

/// Whether each reply to the question if a deleted file is still in the target
/// said what the files of the target were at that moment.
pub open spec fn honest_checks(
    infra: Seq<char>,
    target: Seq<char>,
    commit: Seq<char>,
    common: Map<Seq<char>, Seq<u8>>,
    files: Map<Seq<char>, Seq<u8>>,
    replies: Seq<SyncReplyView>,
) -> bool
    decreases replies.len(),
{
    if replies.len() == 0 {
        true
    } else {
        let before = play(infra, target, commit, common, files, replies.drop_last());
        &&& honest_checks(infra, target, commit, common, files, replies.drop_last())
        &&& before.asked.last() matches SyncRequestView::CheckFile { name, .. }
            ==> replies.last() == SyncReplyView::Exists(before.files.contains_key(name))
    }
}

/// Whether `name` is in `files` exactly if it is in `before`, with the same content.
pub open spec fn untouched(
    files: Map<Seq<char>, Seq<u8>>,
    before: Map<Seq<char>, Seq<u8>>,
    name: Seq<char>,
) -> bool {
    &&& files.contains_key(name) == before.contains_key(name)
    &&& before.contains_key(name) ==> files[name] == before[name]
}

} // verus!
