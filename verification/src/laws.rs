//! What holds of every run, proved over the model of the target's files.

use crate::files::{marker_content, COMMIT_MARKER};
use crate::git::listed_paths;
use crate::model::{effect, honest_checks, is_mutating, play, untouched, Play};
use crate::syncer::{
    common_dir, common_prefix, first_request, initial_state, marker_path, names_below,
    SyncErrorView, SyncPhase, SyncReplyView, SyncRequestView, SyncerView,
};
use crate::text::{has_prefix, joined};
use vstd::prelude::*;
use vstd::utf8::encode_utf8;

verus! {

/// The request that a run in a given state waits to have answered, if it is not over.
pub open spec fn pending(state: SyncerView) -> SyncRequestView {
    let name = state.removals[state.cursor];
    match state.phase {
        SyncPhase::CheckingCommon => first_request(state.infra),
        SyncPhase::CheckingMarker => SyncRequestView::CheckMarker {
            path: marker_path(state.target),
        },
        SyncPhase::ReadingMarker => SyncRequestView::ReadMarker { path: marker_path(state.target) },
        SyncPhase::QueryingChanges => SyncRequestView::QueryChanges {
            repo: state.infra,
            from: state.previous,
            to: state.commit,
            prefix: common_prefix(),
        },
        SyncPhase::ListingDeleted => SyncRequestView::ListDeleted {
            repo: state.infra,
            from: state.previous,
            to: state.commit,
            prefix: common_prefix(),
        },
        SyncPhase::CheckingFile => SyncRequestView::CheckFile {
            path: joined(state.target, name),
            name,
        },
        SyncPhase::RemovingFile => SyncRequestView::RemoveFile {
            path: joined(state.target, name),
            name,
        },
        SyncPhase::InitialCopy | SyncPhase::Copying => state.copy_tree(),
        SyncPhase::InitialMarker | SyncPhase::WritingMarker => state.write_marker(),
        SyncPhase::Finished => SyncRequestView::Finished {
            result: Err(SyncErrorView::UnexpectedReply),
        },
    }
}

/// Whether none of `asked` asks for a change to the target.
pub open spec fn changes_nothing(asked: Seq<SyncRequestView>) -> bool {
    forall|i: int| 0 <= i < asked.len() ==> !is_mutating(#[trigger] asked[i])
}

/// Whether `files` holds every file of `common`, with its content.
pub open spec fn mirrors(files: Map<Seq<char>, Seq<u8>>, common: Map<Seq<char>, Seq<u8>>) -> bool {
    forall|name: Seq<char>| #[trigger]
        common.contains_key(name) ==> files.contains_key(name) && files[name] == common[name]
}

/// Whether `files` holds none of `names` but those that `common` holds.
pub open spec fn cleared(
    files: Map<Seq<char>, Seq<u8>>,
    common: Map<Seq<char>, Seq<u8>>,
    names: Seq<Seq<char>>,
) -> bool {
    forall|j: int|
        0 <= j < names.len() && !common.contains_key(#[trigger] names[j]) ==> !files.contains_key(
            names[j],
        )
}

/// Whether every file that is neither of `common`, nor the marker, nor one of
/// `removals`, is in `files` as it is in `before`.
pub open spec fn foreign_untouched(
    files: Map<Seq<char>, Seq<u8>>,
    before: Map<Seq<char>, Seq<u8>>,
    common: Map<Seq<char>, Seq<u8>>,
    removals: Seq<Seq<char>>,
) -> bool {
    forall|name: Seq<char>|
        !common.contains_key(name) && name != COMMIT_MARKER@ && !removals.contains(name)
            ==> #[trigger] untouched(files, before, name)
}

/// The listing of deleted files that the request at `index` was answered with,
/// if that request asked for one and got it.
pub open spec fn listing_at(
    asked: Seq<SyncRequestView>,
    replies: Seq<SyncReplyView>,
    index: int,
) -> Option<Seq<char>> {
    if 0 <= index < asked.len() && index < replies.len() && asked[index] is ListDeleted {
        match replies[index] {
            SyncReplyView::Output(listing) => Some(listing),
            _ => None,
        }
    } else {
        None
    }
}

/// Whether `removals` are the names, below `common/`, of the paths of the
/// listing that the run was given, or none where it was given no listing.
pub open spec fn removals_listed(
    removals: Seq<Seq<char>>,
    asked: Seq<SyncRequestView>,
    replies: Seq<SyncReplyView>,
) -> bool {
    ||| removals.len() == 0
    ||| exists|index: int|
        (#[trigger] listing_at(asked, replies, index)) matches Some(listing) && removals
            == names_below(listed_paths(listing), common_prefix())
}

/// What holds of a run at every moment.
pub open spec fn consistent(
    infra: Seq<char>,
    target: Seq<char>,
    commit: Seq<char>,
    common: Map<Seq<char>, Seq<u8>>,
    files: Map<Seq<char>, Seq<u8>>,
    honest: bool,
    replies: Seq<SyncReplyView>,
    p: Play,
) -> bool {
    let state = p.state;
    let removals = state.removals;
    &&& state.infra == infra
    &&& state.target == target
    &&& state.commit == commit
    &&& p.asked.len() >= 1
    &&& 0 <= state.cursor <= removals.len()
    &&& state.phase is CheckingFile || state.phase is RemovingFile ==> state.cursor
        < removals.len()
    &&& !(state.phase is Finished) ==> p.asked.last() == pending(state) && p.asked.len()
        == replies.len() + 1
    &&& foreign_untouched(p.files, files, common, removals)
    &&& removals_listed(removals, p.asked, replies)
    &&& match state.phase {
        SyncPhase::CheckingCommon
        | SyncPhase::CheckingMarker
        | SyncPhase::ReadingMarker
        | SyncPhase::QueryingChanges
        | SyncPhase::ListingDeleted => {
            &&& p.files == files
            &&& changes_nothing(p.asked)
            &&& removals.len() == 0
        },
        SyncPhase::InitialCopy => p.files == files && removals.len() == 0,
        SyncPhase::CheckingFile | SyncPhase::RemovingFile => honest ==> cleared(
            p.files,
            common,
            removals.take(state.cursor),
        ),
        SyncPhase::Copying => honest ==> cleared(p.files, common, removals),
        SyncPhase::InitialMarker | SyncPhase::WritingMarker => {
            &&& mirrors(p.files, common)
            &&& honest ==> cleared(p.files, common, removals)
        },
        SyncPhase::Finished => p.asked.last() matches SyncRequestView::Finished { result }
            && match result {
            Ok(true) => {
                &&& p.files.contains_key(COMMIT_MARKER@)
                &&& p.files[COMMIT_MARKER@] == encode_utf8(marker_content(commit))
                &&& forall|name: Seq<char>|
                    name != COMMIT_MARKER@ && #[trigger] common.contains_key(name)
                        ==> p.files.contains_key(name) && p.files[name] == common[name]
                &&& honest ==> forall|j: int|
                    0 <= j < removals.len() && !common.contains_key(#[trigger] removals[j])
                        && removals[j] != COMMIT_MARKER@ ==> !p.files.contains_key(removals[j])
                &&& p.asked.len() >= 2
                &&& p.asked[p.asked.len() - 2] == state.write_marker()
            },
            Ok(false) => p.files == files && changes_nothing(p.asked),
            Err(SyncErrorView::CommonDirNotFound { path }) => {
                &&& path == common_dir(infra)
                &&& p.files == files
                &&& changes_nothing(p.asked)
            },
            _ => true,
        },
    }
}

proof fn lemma_step(
    infra: Seq<char>,
    target: Seq<char>,
    commit: Seq<char>,
    common: Map<Seq<char>, Seq<u8>>,
    files: Map<Seq<char>, Seq<u8>>,
    honest: bool,
    replies: Seq<SyncReplyView>,
    before: Play,
    after: Play,
)
    requires
        replies.len() > 0,
        consistent(infra, target, commit, common, files, honest, replies.drop_last(), before),
        !(before.state.phase is Finished),
        after.state == before.state.step(replies.last()).0,
        after.asked == before.asked.push(before.state.step(replies.last()).1),
        after.files == effect(before.asked.last(), replies.last(), common, before.files),
        honest ==> (before.asked.last() matches SyncRequestView::CheckFile { name, .. }
            ==> replies.last() == SyncReplyView::Exists(before.files.contains_key(name))),
    ensures
        consistent(infra, target, commit, common, files, honest, replies, after),
{
    let reply = replies.last();
    let s = before.state;
    let t = after.state;
    let request = s.step(reply).1;
    let earlier = replies.drop_last();
    assert(after.asked.last() == request);
    assert(after.asked[after.asked.len() - 2] == before.asked.last());
    assert(before.asked.last() == pending(s));
    assert(before.asked.len() == replies.len());
    assert forall|i: int| 0 <= i < before.asked.len() implies after.asked[i]
        == before.asked[i] by {}
    // The requests made so far change nothing where they changed nothing before
    // and the new one asks for no change.
    if changes_nothing(before.asked) && !is_mutating(request) {
        assert forall|i: int| 0 <= i < after.asked.len() implies !is_mutating(
            #[trigger] after.asked[i],
        ) by {
            if i < before.asked.len() {
                assert(after.asked[i] == before.asked[i]);
            }
        }
    }
    if t.removals == s.removals {
        if s.removals.len() > 0 {
            let index = choose|index: int|
                (#[trigger] listing_at(before.asked, earlier, index)) matches Some(listing)
                    && s.removals == names_below(listed_paths(listing), common_prefix());
            assert(after.asked[index] == before.asked[index]);
            assert(replies[index] == earlier[index]);
            assert(listing_at(after.asked, replies, index) == listing_at(
                before.asked,
                earlier,
                index,
            ));
        }
    } else {
        assert(s.phase is ListingDeleted);
        assert(reply is Output);
        let index = replies.len() - 1;
        assert(after.asked[index] == before.asked.last());
        assert(listing_at(after.asked, replies, index) is Some);
    }
    assert(removals_listed(t.removals, after.asked, replies));
    match s.phase {
        SyncPhase::CheckingFile => {
            let name = s.removals[s.cursor];
            assert(after.files == before.files);
            if reply == SyncReplyView::Exists(false) {
                if honest {
                    let done = s.removals.take(s.cursor + 1);
                    assert forall|j: int|
                        0 <= j < done.len() && !common.contains_key(
                            #[trigger] done[j],
                        ) implies !after.files.contains_key(done[j]) by {
                        if j < s.cursor {
                            assert(s.removals.take(s.cursor)[j] == done[j]);
                        }
                    }
                    assert(s.removals.take(s.removals.len() as int) == s.removals);
                }
            }
        },
        SyncPhase::RemovingFile => {
            let name = s.removals[s.cursor];
            if reply is Done {
                assert(after.files == before.files.remove(name));
                assert(s.removals.contains(name));
                if honest {
                    let done = s.removals.take(s.cursor + 1);
                    assert forall|j: int|
                        0 <= j < done.len() && !common.contains_key(
                            #[trigger] done[j],
                        ) implies !after.files.contains_key(done[j]) by {
                        if j < s.cursor {
                            assert(s.removals.take(s.cursor)[j] == done[j]);
                        }
                    }
                    assert(s.removals.take(s.removals.len() as int) == s.removals);
                }
                assert forall|n: Seq<char>|
                    !common.contains_key(n) && n != COMMIT_MARKER@ && !t.removals.contains(
                        n,
                    ) implies #[trigger] untouched(after.files, files, n) by {
                    assert(untouched(before.files, files, n));
                }
            } else {
                assert(after.files == before.files);
            }
        },
        SyncPhase::Copying | SyncPhase::InitialCopy => {
            if reply is Done {
                assert(after.files == before.files.union_prefer_right(common));
                if honest {
                    assert forall|j: int|
                        0 <= j < s.removals.len() && !common.contains_key(
                            #[trigger] s.removals[j],
                        ) implies !after.files.contains_key(s.removals[j]) by {
                        assert(!before.files.contains_key(s.removals[j]));
                    }
                }
                assert forall|n: Seq<char>|
                    !common.contains_key(n) && n != COMMIT_MARKER@ && !t.removals.contains(
                        n,
                    ) implies #[trigger] untouched(after.files, files, n) by {
                    assert(untouched(before.files, files, n));
                }
            } else {
                assert(after.files == before.files);
            }
        },
        SyncPhase::WritingMarker | SyncPhase::InitialMarker => {
            if reply is Done {
                assert(after.files == before.files.insert(
                    COMMIT_MARKER@,
                    encode_utf8(marker_content(commit)),
                ));
                assert forall|n: Seq<char>|
                    !common.contains_key(n) && n != COMMIT_MARKER@ && !t.removals.contains(
                        n,
                    ) implies #[trigger] untouched(after.files, files, n) by {
                    assert(untouched(before.files, files, n));
                }
            } else {
                assert(after.files == before.files);
            }
        },
        SyncPhase::ListingDeleted => {
            assert(after.files == files);
            assert(t.removals.take(0) == Seq::<Seq<char>>::empty());
            assert forall|n: Seq<char>|
                !common.contains_key(n) && n != COMMIT_MARKER@ && !t.removals.contains(
                    n,
                ) implies #[trigger] untouched(after.files, files, n) by {
            }
        },
        _ => {
            assert(after.files == files);
        },
    }
}

/// Every run is consistent at every moment.
pub proof fn lemma_play_consistent(
    infra: Seq<char>,
    target: Seq<char>,
    commit: Seq<char>,
    common: Map<Seq<char>, Seq<u8>>,
    files: Map<Seq<char>, Seq<u8>>,
    replies: Seq<SyncReplyView>,
)
    ensures
        consistent(
            infra,
            target,
            commit,
            common,
            files,
            honest_checks(infra, target, commit, common, files, replies),
            replies,
            play(infra, target, commit, common, files, replies),
        ),
    decreases replies.len(),
{
    let honest = honest_checks(infra, target, commit, common, files, replies);
    let after = play(infra, target, commit, common, files, replies);
    if replies.len() == 0 {
        assert(after.state.removals.take(0) == Seq::<Seq<char>>::empty());
    } else {
        let earlier = replies.drop_last();
        let before = play(infra, target, commit, common, files, earlier);
        lemma_play_consistent(infra, target, commit, common, files, earlier);
        let was_honest = honest_checks(infra, target, commit, common, files, earlier);
        assert(honest ==> was_honest);
        lemma_weaken(infra, target, commit, common, files, was_honest, honest, earlier, before);
        if before.state.phase is Finished {
            lemma_more_replies(infra, target, commit, common, files, honest, replies, before);
        } else {
            lemma_step(infra, target, commit, common, files, honest, replies, before, after);
        }
    }
}

proof fn lemma_weaken(
    infra: Seq<char>,
    target: Seq<char>,
    commit: Seq<char>,
    common: Map<Seq<char>, Seq<u8>>,
    files: Map<Seq<char>, Seq<u8>>,
    was_honest: bool,
    honest: bool,
    replies: Seq<SyncReplyView>,
    p: Play,
)
    requires
        consistent(infra, target, commit, common, files, was_honest, replies, p),
        honest ==> was_honest,
    ensures
        consistent(infra, target, commit, common, files, honest, replies, p),
{
}

proof fn lemma_more_replies(
    infra: Seq<char>,
    target: Seq<char>,
    commit: Seq<char>,
    common: Map<Seq<char>, Seq<u8>>,
    files: Map<Seq<char>, Seq<u8>>,
    honest: bool,
    replies: Seq<SyncReplyView>,
    p: Play,
)
    requires
        replies.len() > 0,
        p.state.phase is Finished,
        consistent(infra, target, commit, common, files, honest, replies.drop_last(), p),
    ensures
        consistent(infra, target, commit, common, files, honest, replies, p),
{
    let earlier = replies.drop_last();
    if p.state.removals.len() > 0 {
        let index = choose|index: int|
            (#[trigger] listing_at(p.asked, earlier, index)) matches Some(listing)
                && p.state.removals == names_below(listed_paths(listing), common_prefix());
        assert(replies[index] == earlier[index]);
        assert(listing_at(p.asked, replies, index) == listing_at(p.asked, earlier, index));
    }
}

/// Each name that `names_below` gives stands in `paths` behind the prefix.
pub proof fn lemma_names_below_listed(paths: Seq<Seq<char>>, prefix: Seq<char>, name: Seq<char>)
    requires
        names_below(paths, prefix).contains(name),
    ensures
        paths.contains(prefix + name),
{
    let below = |path: Seq<char>| has_prefix(path, prefix);
    let kept = paths.filter(below);
    let i = choose|i: int| 0 <= i < names_below(paths, prefix).len() && names_below(paths, prefix)[i] == name;
    let path = kept[i];
    paths.lemma_filter_pred(below, i);
    assert(kept.contains(path));
    assert(below(path));
    assert(paths.contains(path)) by {
        paths.lemma_filter_contains_rev(below, path);
    }
    assert(path == prefix + name) by {
        assert(path.take(prefix.len() as int) == prefix);
        assert(path == path.take(prefix.len() as int) + path.skip(prefix.len() as int));
    }
}

/// A run against an infrastructure repository without a `common` directory
/// asks nothing but whether it exists, fails with the error that names the
/// directory, and leaves the target as it was.
pub proof fn law_missing_common_dir(
    infra: Seq<char>,
    target: Seq<char>,
    commit: Seq<char>,
    common: Map<Seq<char>, Seq<u8>>,
    files: Map<Seq<char>, Seq<u8>>,
    replies: Seq<SyncReplyView>,
)
    requires
        replies.len() > 0,
        replies[0] == SyncReplyView::Exists(false),
    ensures
        play(infra, target, commit, common, files, replies).state.phase is Finished,
        play(infra, target, commit, common, files, replies).asked == seq![
            first_request(infra),
            SyncRequestView::Finished {
                result: Err(SyncErrorView::CommonDirNotFound { path: common_dir(infra) }),
            },
        ],
        play(infra, target, commit, common, files, replies).files == files,
    decreases replies.len(),
{
    let earlier = replies.drop_last();
    if earlier.len() == 0 {
        let before = play(infra, target, commit, common, files, earlier);
        assert(replies.last() == replies[0]);
        assert(before.asked.push(before.state.step(replies.last()).1) == seq![
            first_request(infra),
            SyncRequestView::Finished {
                result: Err(SyncErrorView::CommonDirNotFound { path: common_dir(infra) }),
            },
        ]);
    } else {
        assert(earlier[0] == replies[0]);
        law_missing_common_dir(infra, target, commit, common, files, earlier);
    }
}

/// A first sync whose copy and marker write succeed asks for exactly these:
/// whether `common` exists, whether there is a marker, the copy of the tree,
/// the marker for the commit given; and it ends with `Ok(true)`.
pub proof fn law_first_sync(
    infra: Seq<char>,
    target: Seq<char>,
    commit: Seq<char>,
    common: Map<Seq<char>, Seq<u8>>,
    files: Map<Seq<char>, Seq<u8>>,
)
    ensures
        play(
            infra,
            target,
            commit,
            common,
            files,
            seq![
                SyncReplyView::Exists(true),
                SyncReplyView::Exists(false),
                SyncReplyView::Done,
                SyncReplyView::Done,
            ],
        ).asked == seq![
            first_request(infra),
            SyncRequestView::CheckMarker { path: marker_path(target) },
            initial_state(infra, target, commit).copy_tree(),
            initial_state(infra, target, commit).write_marker(),
            SyncRequestView::Finished { result: Ok(true) },
        ],
{
    let first4 = seq![
        SyncReplyView::Exists(true),
        SyncReplyView::Exists(false),
        SyncReplyView::Done,
        SyncReplyView::Done,
    ];
    let first3 = first4.drop_last();
    let first2 = first3.drop_last();
    let first1 = first2.drop_last();
    let first0 = first1.drop_last();
    assert(first0.len() == 0);
    let at0 = play(infra, target, commit, common, files, first0);
    let at1 = play(infra, target, commit, common, files, first1);
    let at2 = play(infra, target, commit, common, files, first2);
    let at3 = play(infra, target, commit, common, files, first3);
    let at4 = play(infra, target, commit, common, files, first4);
    assert(at0.state.phase is CheckingCommon);
    assert(first1.last() == SyncReplyView::Exists(true));
    assert(at1.state.phase is CheckingMarker);
    assert(first2.last() == SyncReplyView::Exists(false));
    assert(at2.state.phase is InitialCopy);
    assert(first3.last() == SyncReplyView::Done);
    assert(at3.state.phase is InitialMarker);
    assert(first4.last() == SyncReplyView::Done);
    assert(at4.asked =~= seq![
        first_request(infra),
        SyncRequestView::CheckMarker { path: marker_path(target) },
        initial_state(infra, target, commit).copy_tree(),
        initial_state(infra, target, commit).write_marker(),
        SyncRequestView::Finished { result: Ok(true) },
    ]);
}

/// When the quiet diff finds no difference between the recorded and the
/// current commit, the run ends there with `Ok(false)`.
pub proof fn law_no_difference_ends_run(state: SyncerView)
    requires
        state.phase is QueryingChanges,
    ensures
        state.step(SyncReplyView::ExitCode(0)).1 == (SyncRequestView::Finished {
            result: Ok(false),
        }),
        state.step(SyncReplyView::ExitCode(0)).0.phase is Finished,
{
}

/// A run that ends with `Ok(false)` has asked for no change, and the target is
/// as it was.
pub proof fn law_nothing_to_do_changes_nothing(
    infra: Seq<char>,
    target: Seq<char>,
    commit: Seq<char>,
    common: Map<Seq<char>, Seq<u8>>,
    files: Map<Seq<char>, Seq<u8>>,
    replies: Seq<SyncReplyView>,
)
    requires
        play(infra, target, commit, common, files, replies).asked.last()
            == (SyncRequestView::Finished { result: Ok(false) }),
    ensures
        changes_nothing(play(infra, target, commit, common, files, replies).asked),
        play(infra, target, commit, common, files, replies).files == files,
{
    lemma_play_consistent(infra, target, commit, common, files, replies);
}

/// After a run that ends with `Ok(true)`, the marker holds the commit given
/// and a line feed, written by the last request before the end, and every file
/// of `common` but one named like the marker is in the target with its content.
pub proof fn law_success_mirrors_common(
    infra: Seq<char>,
    target: Seq<char>,
    commit: Seq<char>,
    common: Map<Seq<char>, Seq<u8>>,
    files: Map<Seq<char>, Seq<u8>>,
    replies: Seq<SyncReplyView>,
)
    requires
        play(infra, target, commit, common, files, replies).asked.last()
            == (SyncRequestView::Finished { result: Ok(true) }),
    ensures
        ({
            let end = play(infra, target, commit, common, files, replies);
            &&& end.files.contains_key(COMMIT_MARKER@)
            &&& end.files[COMMIT_MARKER@] == encode_utf8(marker_content(commit))
            &&& end.asked.len() >= 2
            &&& end.asked[end.asked.len() - 2] == (SyncRequestView::WriteMarker {
                path: marker_path(target),
                content: marker_content(commit),
            })
            &&& forall|name: Seq<char>|
                name != COMMIT_MARKER@ && #[trigger] common.contains_key(name)
                    ==> end.files.contains_key(name) && end.files[name] == common[name]
        }),
{
    lemma_play_consistent(infra, target, commit, common, files, replies);
}

/// Whatever a run is told and however it ends, a file of the target that is
/// not a file of `common`, is not the marker, and is not named by the listing
/// of deleted files that the run was given, is there afterwards exactly if it
/// was there before, with the same content. The names that a run takes from
/// a listing are those of its paths below `common/`.
pub proof fn law_foreign_files_untouched(
    infra: Seq<char>,
    target: Seq<char>,
    commit: Seq<char>,
    common: Map<Seq<char>, Seq<u8>>,
    files: Map<Seq<char>, Seq<u8>>,
    replies: Seq<SyncReplyView>,
    name: Seq<char>,
)
    requires
        !common.contains_key(name),
        name != COMMIT_MARKER@,
        forall|index: int|
            (#[trigger] listing_at(
                play(infra, target, commit, common, files, replies).asked,
                replies,
                index,
            )) matches Some(listing) ==> !listed_paths(listing).contains(common_prefix() + name),
    ensures
        untouched(play(infra, target, commit, common, files, replies).files, files, name),
{
    lemma_play_consistent(infra, target, commit, common, files, replies);
    let end = play(infra, target, commit, common, files, replies);
    let removals = end.state.removals;
    if removals.contains(name) {
        let index = choose|index: int|
            (#[trigger] listing_at(end.asked, replies, index)) matches Some(listing) && removals
                == names_below(listed_paths(listing), common_prefix());
        let listing = listing_at(end.asked, replies, index).unwrap();
        lemma_names_below_listed(listed_paths(listing), common_prefix(), name);
    }
}

/// After a run that ends with `Ok(true)` and was told the truth about which
/// of the deleted files were still in the target, none of them is there any
/// more, but for those that `common` holds again and one named like the marker.
pub proof fn law_deleted_files_removed(
    infra: Seq<char>,
    target: Seq<char>,
    commit: Seq<char>,
    common: Map<Seq<char>, Seq<u8>>,
    files: Map<Seq<char>, Seq<u8>>,
    replies: Seq<SyncReplyView>,
    name: Seq<char>,
)
    requires
        play(infra, target, commit, common, files, replies).asked.last()
            == (SyncRequestView::Finished { result: Ok(true) }),
        honest_checks(infra, target, commit, common, files, replies),
        play(infra, target, commit, common, files, replies).state.removals.contains(name),
        !common.contains_key(name),
        name != COMMIT_MARKER@,
    ensures
        !play(infra, target, commit, common, files, replies).files.contains_key(name),
{
    lemma_play_consistent(infra, target, commit, common, files, replies);
}

/// The files that a run removes are named by the listing it was given: once a
/// listing has come, the removals are the names of its paths below `common/`.
pub proof fn law_removals_come_from_listing(state: SyncerView, listing: Seq<char>)
    requires
        state.phase is ListingDeleted,
    ensures
        state.step(SyncReplyView::Output(listing)).0.removals == names_below(
            listed_paths(listing),
            common_prefix(),
        ),
{
}

/// A run that is over after its first `taken` replies is not changed by the
/// replies that follow.
pub proof fn lemma_finished_run_stays(
    infra: Seq<char>,
    target: Seq<char>,
    commit: Seq<char>,
    common: Map<Seq<char>, Seq<u8>>,
    files: Map<Seq<char>, Seq<u8>>,
    replies: Seq<SyncReplyView>,
    taken: int,
)
    requires
        0 <= taken <= replies.len(),
        play(infra, target, commit, common, files, replies.take(taken)).state.phase is Finished,
    ensures
        play(infra, target, commit, common, files, replies) == play(
            infra,
            target,
            commit,
            common,
            files,
            replies.take(taken),
        ),
    decreases replies.len(),
{
    if taken == replies.len() {
        assert(replies.take(taken) == replies);
    } else {
        let earlier = replies.drop_last();
        assert(earlier.take(taken) == replies.take(taken));
        lemma_finished_run_stays(infra, target, commit, common, files, earlier, taken);
    }
}

/// A second sync to the commit that the first one recorded, for which the
/// quiet diff of the commit with itself finds no difference, reads the marker,
/// compares the commit with itself, ends with `Ok(false)` and leaves the
/// target as it was. The commit is taken to have no whitespace around it, as
/// the marker is read without.
pub proof fn law_repeated_sync(
    infra: Seq<char>,
    target: Seq<char>,
    commit: Seq<char>,
    common: Map<Seq<char>, Seq<u8>>,
    files: Map<Seq<char>, Seq<u8>>,
    replies: Seq<SyncReplyView>,
)
    requires
        crate::text::is_trimmed(commit),
        replies.len() >= 4,
        replies[0] == SyncReplyView::Exists(true),
        replies[1] == SyncReplyView::Exists(true),
        replies[2] == SyncReplyView::Output(marker_content(commit)),
        replies[3] == SyncReplyView::ExitCode(0),
    ensures
        play(infra, target, commit, common, files, replies).asked == seq![
            first_request(infra),
            SyncRequestView::CheckMarker { path: marker_path(target) },
            SyncRequestView::ReadMarker { path: marker_path(target) },
            SyncRequestView::QueryChanges {
                repo: infra,
                from: commit,
                to: commit,
                prefix: common_prefix(),
            },
            SyncRequestView::Finished { result: Ok(false) },
        ],
        play(infra, target, commit, common, files, replies).files == files,
{
    let first4 = replies.take(4);
    let first3 = first4.drop_last();
    let first2 = first3.drop_last();
    let first1 = first2.drop_last();
    let first0 = first1.drop_last();
    assert(first0.len() == 0);
    let at0 = play(infra, target, commit, common, files, first0);
    let at1 = play(infra, target, commit, common, files, first1);
    let at2 = play(infra, target, commit, common, files, first2);
    let at3 = play(infra, target, commit, common, files, first3);
    let at4 = play(infra, target, commit, common, files, first4);
    crate::files::lemma_marker_round_trip(commit);
    assert(at0.state.phase is CheckingCommon);
    assert(first1.last() == replies[0]);
    assert(at1.state.phase is CheckingMarker);
    assert(first2.last() == replies[1]);
    assert(at2.state.phase is ReadingMarker);
    assert(first3.last() == replies[2]);
    assert(at3.state.phase is QueryingChanges);
    assert(at3.state.previous == commit);
    assert(first4.last() == replies[3]);
    assert(at4.state.phase is Finished);
    assert(at4.asked =~= seq![
        first_request(infra),
        SyncRequestView::CheckMarker { path: marker_path(target) },
        SyncRequestView::ReadMarker { path: marker_path(target) },
        SyncRequestView::QueryChanges {
            repo: infra,
            from: commit,
            to: commit,
            prefix: common_prefix(),
        },
        SyncRequestView::Finished { result: Ok(false) },
    ]);
    assert(at4.files == files);
    lemma_finished_run_stays(infra, target, commit, common, files, replies, 4);
}

} // verus!
