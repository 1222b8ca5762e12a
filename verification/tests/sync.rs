//! Runs of the syncer against an in-memory infrastructure repository and target.

use std::collections::BTreeMap;

use sync_common::files::{FileOps, COMMIT_MARKER};
use sync_common::syncer::{CommonFileSyncer, SyncError, SyncReply, SyncRequest};

type Tree = BTreeMap<String, String>;

/// An infrastructure repository with its history, and a target directory.
struct Host {
    infra: String,
    target: String,
    /// The files of `common/` at each commit, oldest first.
    history: Vec<(String, Tree)>,
    /// The files of `common/` in the working tree, if the directory exists.
    common: Option<Tree>,
    /// The files of the target, by name relative to its root.
    files: Tree,
    /// Every request that was performed, in order.
    log: Vec<SyncRequest>,
}

impl Host {
    fn new(infra: &str, target: &str) -> Host {
        Host {
            infra: infra.to_string(),
            target: target.to_string(),
            history: Vec::new(),
            common: None,
            files: Tree::new(),
            log: Vec::new(),
        }
    }

    /// Records the working tree of `common/` as a new commit and returns its id.
    fn commit(&mut self) -> String {
        let id = format!("c{:039}", self.history.len() + 1);
        self.history.push((id.clone(), self.common.clone().unwrap_or_default()));
        id
    }

    fn tree_at(&self, commit: &str) -> Option<&Tree> {
        self.history.iter().find(|(id, _)| id == commit).map(|(_, tree)| tree)
    }

    fn perform(&mut self, request: SyncRequest) -> SyncReply {
        let reply = match &request {
            SyncRequest::CheckCommonDir { path } => {
                assert_eq!(path, &format!("{}/common", self.infra));
                SyncReply::Exists(self.common.is_some())
            }
            SyncRequest::CheckMarker { path } => {
                assert_eq!(path, &format!("{}/{}", self.target, COMMIT_MARKER));
                SyncReply::Exists(self.files.contains_key(COMMIT_MARKER))
            }
            SyncRequest::ReadMarker { path } => {
                assert_eq!(path, &format!("{}/{}", self.target, COMMIT_MARKER));
                SyncReply::Output(self.files[COMMIT_MARKER].clone())
            }
            SyncRequest::QueryChanges { repo, from, to, prefix } => {
                assert_eq!(repo, &self.infra);
                assert_eq!(prefix, "common/");
                match (self.tree_at(from), self.tree_at(to)) {
                    (Some(old), Some(new)) => SyncReply::ExitCode(if old == new { 0 } else { 1 }),
                    _ => SyncReply::ExitCode(128),
                }
            }
            SyncRequest::ListDeleted { repo, from, to, prefix } => {
                assert_eq!(repo, &self.infra);
                assert_eq!(prefix, "common/");
                let old = self.tree_at(from).unwrap();
                let new = self.tree_at(to).unwrap();
                let gone: Vec<String> = old
                    .keys()
                    .filter(|name| !new.contains_key(*name))
                    .map(|name| format!("common/{}", name))
                    .collect();
                SyncReply::Output(gone.join("\n"))
            }
            SyncRequest::CheckFile { path, name } => {
                assert_eq!(path, &format!("{}/{}", self.target, name));
                SyncReply::Exists(self.files.contains_key(name))
            }
            SyncRequest::RemoveFile { path, name } => {
                assert_eq!(path, &format!("{}/{}", self.target, name));
                assert!(self.files.remove(name).is_some());
                SyncReply::Done
            }
            SyncRequest::CopyTree { source, target } => {
                assert_eq!(source, &format!("{}/common/", self.infra));
                assert_eq!(target, &self.target);
                for (name, content) in self.common.as_ref().unwrap() {
                    self.files.insert(name.clone(), content.clone());
                }
                SyncReply::Done
            }
            SyncRequest::WriteMarker { path, content } => {
                assert_eq!(path, &format!("{}/{}", self.target, COMMIT_MARKER));
                self.files.insert(COMMIT_MARKER.to_string(), content.clone());
                SyncReply::Done
            }
            SyncRequest::Finished { .. } => panic!("a finished run asks nothing"),
        };
        self.log.push(request);
        reply
    }

    /// Runs one sync to `commit` and returns how it ended.
    fn sync(&mut self, commit: &str) -> Result<bool, SyncError> {
        let (mut syncer, mut request) = CommonFileSyncer::new(&self.infra, &self.target, commit);
        loop {
            if let SyncRequest::Finished { result } = request {
                assert!(syncer.is_finished());
                return result;
            }
            assert!(!syncer.is_finished());
            let reply = self.perform(request);
            request = syncer.sync(reply);
        }
    }

    fn mutations(&self) -> usize {
        self.log
            .iter()
            .filter(|request| {
                matches!(
                    request,
                    SyncRequest::RemoveFile { .. }
                        | SyncRequest::CopyTree { .. }
                        | SyncRequest::WriteMarker { .. }
                )
            })
            .count()
    }
}

/// A host whose infrastructure repository has `common/file1.txt` and
/// `common/file2.txt` committed, with the id of that commit.
fn setup_infra_repo() -> (Host, String) {
    let mut host = Host::new("/work/infra", "/work/target");
    let mut common = Tree::new();
    common.insert("file1.txt".to_string(), "content1".to_string());
    common.insert("file2.txt".to_string(), "content2".to_string());
    host.common = Some(common);
    let commit = host.commit();
    (host, commit)
}

/// Feeds `replies` to a fresh run and returns every request it made.
fn requests_for(commit: &str, replies: Vec<SyncReply>) -> Vec<SyncRequest> {
    let (mut syncer, first) = CommonFileSyncer::new("infra", "target", commit);
    let mut asked = vec![first];
    for reply in replies {
        asked.push(syncer.sync(reply));
    }
    asked
}

fn finished(result: Result<bool, SyncError>) -> SyncRequest {
    SyncRequest::Finished { result }
}

#[test]
fn test_read_commit_marker_exists() {
    let result = FileOps::read_commit_marker(Some("abc123\n"));
    assert_eq!(result, Some("abc123".to_string()));
}

#[test]
fn test_read_commit_marker_not_exists() {
    let result = FileOps::read_commit_marker(None);
    assert_eq!(result, None);
}

#[test]
fn test_write_commit_marker() {
    let content = FileOps::write_commit_marker("def456");
    assert_eq!(content, "def456\n");
}

#[test]
fn test_remove_file_exists() {
    let mut host = Host::new("/work/infra", "/work/target");
    let mut common = Tree::new();
    common.insert("test.txt".to_string(), "content".to_string());
    host.common = Some(common);
    let first = host.commit();
    host.sync(&first).unwrap();
    assert!(host.files.contains_key("test.txt"));

    host.common = Some(Tree::new());
    let second = host.commit();
    assert_eq!(host.sync(&second), Ok(true));
    assert!(!host.files.contains_key("test.txt"));
    assert!(host.log.contains(&SyncRequest::RemoveFile {
        path: "/work/target/test.txt".to_string(),
        name: "test.txt".to_string(),
    }));
}

#[test]
fn test_remove_file_not_exists() {
    let mut host = Host::new("/work/infra", "/work/target");
    let mut common = Tree::new();
    common.insert("nonexistent.txt".to_string(), "content".to_string());
    host.common = Some(common);
    let first = host.commit();
    host.sync(&first).unwrap();
    host.files.remove("nonexistent.txt");

    host.common = Some(Tree::new());
    let second = host.commit();
    // Should not error
    assert_eq!(host.sync(&second), Ok(true));
    assert!(host.log.contains(&SyncRequest::CheckFile {
        path: "/work/target/nonexistent.txt".to_string(),
        name: "nonexistent.txt".to_string(),
    }));
    assert!(!host.log.iter().any(|request| matches!(request, SyncRequest::RemoveFile { .. })));
}

#[test]
fn test_sync_common_not_found() {
    let mut host = Host::new("/work/infra", "/work/target");

    let result = host.sync("abc123");

    assert!(result.is_err());
    assert!(result.unwrap_err().message().contains("Common directory not found"));
    assert!(host.files.is_empty());
    assert_eq!(host.mutations(), 0);
}

#[test]
fn test_initial_sync_with_git() {
    let (mut host, commit) = setup_infra_repo();

    // Perform initial sync
    let result = host.sync(&commit);

    assert!(result.is_ok());
    assert!(result.unwrap());

    // Verify files were synced
    assert!(host.files.contains_key("file1.txt"));
    assert!(host.files.contains_key("file2.txt"));
    assert_eq!(host.files["file1.txt"], "content1");

    // Verify marker was created
    let marker = host.files[COMMIT_MARKER].clone();
    assert_eq!(marker.trim(), commit);
    assert_eq!(marker, format!("{}\n", commit));
}

#[test]
fn test_incremental_sync_with_new_file() {
    let (mut host, initial_commit) = setup_infra_repo();

    // Initial sync
    host.sync(&initial_commit).unwrap();

    // Add a new file to common/
    host.common.as_mut().unwrap().insert("file3.txt".to_string(), "content3".to_string());
    let new_commit = host.commit();

    // Perform incremental sync
    let result = host.sync(&new_commit);

    assert!(result.is_ok());
    assert!(result.unwrap());

    // Verify new file exists
    assert!(host.files.contains_key("file3.txt"));
    assert_eq!(host.files["file3.txt"], "content3");
    assert_eq!(host.files[COMMIT_MARKER], format!("{}\n", new_commit));
}

#[test]
fn test_incremental_sync_with_deleted_file() {
    let (mut host, initial_commit) = setup_infra_repo();

    // Initial sync
    host.sync(&initial_commit).unwrap();

    // Verify file2.txt exists
    assert!(host.files.contains_key("file2.txt"));

    // Delete file2.txt from common/
    host.common.as_mut().unwrap().remove("file2.txt");
    let new_commit = host.commit();

    // Perform incremental sync
    let result = host.sync(&new_commit);

    assert!(result.is_ok());
    assert!(result.unwrap());

    // Verify file2.txt was deleted
    assert!(!host.files.contains_key("file2.txt"));
    // But file1.txt should still exist
    assert!(host.files.contains_key("file1.txt"));
}

#[test]
fn test_sync_no_changes() {
    let (mut host, commit) = setup_infra_repo();

    // Initial sync
    host.sync(&commit).unwrap();
    let files = host.files.clone();
    let mutations = host.mutations();

    // Sync again with same commit (no changes)
    let result = host.sync(&commit);

    assert!(result.is_ok());
    assert!(!result.unwrap()); // Should return false for no changes
    assert_eq!(host.files, files);
    assert_eq!(host.mutations(), mutations);
}

#[test]
fn test_sync_preserves_repo_specific_files() {
    let (mut host, initial_commit) = setup_infra_repo();

    // Create a repo-specific file in target before sync
    host.files.insert("repo-specific.txt".to_string(), "local content".to_string());

    // Initial sync
    host.sync(&initial_commit).unwrap();

    // Verify repo-specific file still exists
    assert!(host.files.contains_key("repo-specific.txt"));
    assert_eq!(host.files["repo-specific.txt"], "local content");

    // Verify synced files exist
    assert!(host.files.contains_key("file1.txt"));
    assert!(host.files.contains_key("file2.txt"));
}

#[test]
fn incremental_sync_preserves_repo_specific_files() {
    let (mut host, first) = setup_infra_repo();
    host.files.insert("repo-specific.txt".to_string(), "local content".to_string());
    host.sync(&first).unwrap();

    host.common.as_mut().unwrap().remove("file1.txt");
    host.common.as_mut().unwrap().insert("file2.txt".to_string(), "changed".to_string());
    let second = host.commit();
    assert_eq!(host.sync(&second), Ok(true));

    assert_eq!(host.files["repo-specific.txt"], "local content");
    assert_eq!(host.files["file2.txt"], "changed");
    assert!(!host.files.contains_key("file1.txt"));
    assert_eq!(host.files.len(), 3);
}

#[test]
fn first_sync_asks_for_copy_then_marker() {
    let asked = requests_for(
        "abc123",
        vec![SyncReply::Exists(true), SyncReply::Exists(false), SyncReply::Done, SyncReply::Done],
    );
    assert_eq!(
        asked,
        vec![
            SyncRequest::CheckCommonDir { path: "infra/common".to_string() },
            SyncRequest::CheckMarker { path: "target/.bootc-dev-infra-commit.txt".to_string() },
            SyncRequest::CopyTree {
                source: "infra/common/".to_string(),
                target: "target".to_string(),
            },
            SyncRequest::WriteMarker {
                path: "target/.bootc-dev-infra-commit.txt".to_string(),
                content: "abc123\n".to_string(),
            },
            finished(Ok(true)),
        ]
    );
}

#[test]
fn incremental_sync_asks_in_order() {
    let asked = requests_for(
        "new",
        vec![
            SyncReply::Exists(true),
            SyncReply::Exists(true),
            SyncReply::Output("  old \n".to_string()),
            SyncReply::ExitCode(1),
            SyncReply::Output("common/a.txt\n\nother/b.txt\r\ncommon/dir/c.txt".to_string()),
            SyncReply::Exists(false),
            SyncReply::Exists(true),
            SyncReply::Done,
            SyncReply::Done,
            SyncReply::Done,
        ],
    );
    let marker = "target/.bootc-dev-infra-commit.txt".to_string();
    assert_eq!(
        asked,
        vec![
            SyncRequest::CheckCommonDir { path: "infra/common".to_string() },
            SyncRequest::CheckMarker { path: marker.clone() },
            SyncRequest::ReadMarker { path: marker.clone() },
            SyncRequest::QueryChanges {
                repo: "infra".to_string(),
                from: "old".to_string(),
                to: "new".to_string(),
                prefix: "common/".to_string(),
            },
            SyncRequest::ListDeleted {
                repo: "infra".to_string(),
                from: "old".to_string(),
                to: "new".to_string(),
                prefix: "common/".to_string(),
            },
            SyncRequest::CheckFile { path: "target/a.txt".to_string(), name: "a.txt".to_string() },
            SyncRequest::CheckFile {
                path: "target/dir/c.txt".to_string(),
                name: "dir/c.txt".to_string(),
            },
            SyncRequest::RemoveFile {
                path: "target/dir/c.txt".to_string(),
                name: "dir/c.txt".to_string(),
            },
            SyncRequest::CopyTree {
                source: "infra/common/".to_string(),
                target: "target".to_string(),
            },
            SyncRequest::WriteMarker { path: marker, content: "new\n".to_string() },
            finished(Ok(true)),
        ]
    );
}

#[test]
fn no_difference_ends_with_false() {
    let asked = requests_for(
        "abc",
        vec![
            SyncReply::Exists(true),
            SyncReply::Exists(true),
            SyncReply::Output("abc\n".to_string()),
            SyncReply::ExitCode(0),
        ],
    );
    assert_eq!(asked.len(), 5);
    assert_eq!(
        asked[3],
        SyncRequest::QueryChanges {
            repo: "infra".to_string(),
            from: "abc".to_string(),
            to: "abc".to_string(),
            prefix: "common/".to_string(),
        }
    );
    assert_eq!(asked[4], finished(Ok(false)));
}

#[test]
fn missing_common_dir_names_the_directory() {
    let asked = requests_for("abc", vec![SyncReply::Exists(false)]);
    let error = SyncError::CommonDirNotFound { path: "infra/common".to_string() };
    assert_eq!(error.message(), "Common directory not found: infra/common");
    assert_eq!(error.cause(), None);
    assert_eq!(
        asked,
        vec![SyncRequest::CheckCommonDir { path: "infra/common".to_string() }, finished(Err(error))]
    );
}

#[test]
fn marker_read_failure_is_reported() {
    let asked = requests_for(
        "abc",
        vec![
            SyncReply::Exists(true),
            SyncReply::Exists(true),
            SyncReply::Failed("permission denied".to_string()),
        ],
    );
    let error = SyncError::MarkerRead { cause: "permission denied".to_string() };
    assert_eq!(error.message(), "Failed to read commit marker");
    assert_eq!(error.cause(), Some("permission denied".to_string()));
    assert_eq!(asked.last(), Some(&finished(Err(error))));
}

#[test]
fn marker_write_failure_is_reported() {
    let asked = requests_for(
        "abc",
        vec![
            SyncReply::Exists(true),
            SyncReply::Exists(false),
            SyncReply::Done,
            SyncReply::Failed("read-only file system".to_string()),
        ],
    );
    let error = SyncError::MarkerWrite { cause: "read-only file system".to_string() };
    assert_eq!(error.message(), "Failed to write commit marker");
    assert_eq!(error.cause(), Some("read-only file system".to_string()));
    assert_eq!(asked.last(), Some(&finished(Err(error))));
}

#[test]
fn copy_failure_is_reported_and_marker_not_written() {
    let asked = requests_for(
        "abc",
        vec![
            SyncReply::Exists(true),
            SyncReply::Exists(false),
            SyncReply::Failed("rsync exited with 23".to_string()),
        ],
    );
    let error = SyncError::CopyTree { cause: "rsync exited with 23".to_string() };
    assert_eq!(error.message(), "Failed to sync directory with rsync");
    assert_eq!(asked.last(), Some(&finished(Err(error))));
    assert!(!asked.iter().any(|request| matches!(request, SyncRequest::WriteMarker { .. })));
}

#[test]
fn incremental_copy_and_marker_failures_are_reported() {
    let start = || {
        vec![
            SyncReply::Exists(true),
            SyncReply::Exists(true),
            SyncReply::Output("old".to_string()),
            SyncReply::ExitCode(1),
            SyncReply::Output(String::new()),
        ]
    };
    let mut replies = start();
    replies.push(SyncReply::Failed("no space".to_string()));
    let asked = requests_for("new", replies);
    assert_eq!(
        asked.last(),
        Some(&finished(Err(SyncError::CopyTree { cause: "no space".to_string() })))
    );

    let mut replies = start();
    replies.push(SyncReply::Done);
    replies.push(SyncReply::Failed("denied".to_string()));
    let asked = requests_for("new", replies);
    assert_eq!(
        asked.last(),
        Some(&finished(Err(SyncError::MarkerWrite { cause: "denied".to_string() })))
    );
}

#[test]
fn removal_failure_names_the_file() {
    let asked = requests_for(
        "new",
        vec![
            SyncReply::Exists(true),
            SyncReply::Exists(true),
            SyncReply::Output("old".to_string()),
            SyncReply::ExitCode(1),
            SyncReply::Output("common/gone.txt".to_string()),
            SyncReply::Exists(true),
            SyncReply::Failed("busy".to_string()),
        ],
    );
    let error =
        SyncError::RemoveFile { path: "target/gone.txt".to_string(), cause: "busy".to_string() };
    assert_eq!(error.message(), "Failed to remove file: target/gone.txt");
    assert_eq!(error.cause(), Some("busy".to_string()));
    assert_eq!(asked.last(), Some(&finished(Err(error))));
    assert!(!asked.iter().any(|request| matches!(request, SyncRequest::CopyTree { .. })));
}

#[test]
fn diff_failures_are_reported() {
    let start = || {
        vec![
            SyncReply::Exists(true),
            SyncReply::Exists(true),
            SyncReply::Output("old".to_string()),
        ]
    };
    let mut replies = start();
    replies.push(SyncReply::ExitCode(128));
    let asked = requests_for("new", replies);
    let error = SyncError::GitDiffStatus { code: 128 };
    assert_eq!(error.message(), "Failed to run git diff");
    assert_eq!(error.cause(), None);
    assert_eq!(asked.last(), Some(&finished(Err(error))));

    let mut replies = start();
    replies.push(SyncReply::Failed("git: not found".to_string()));
    let asked = requests_for("new", replies);
    let error = SyncError::GitDiff { cause: "git: not found".to_string() };
    assert_eq!(error.message(), "Failed to run git diff");
    assert_eq!(error.cause(), Some("git: not found".to_string()));
    assert_eq!(asked.last(), Some(&finished(Err(error))));

    let mut replies = start();
    replies.push(SyncReply::ExitCode(1));
    replies.push(SyncReply::Failed("killed".to_string()));
    let asked = requests_for("new", replies);
    assert_eq!(
        asked.last(),
        Some(&finished(Err(SyncError::GitDiff { cause: "killed".to_string() })))
    );
}

#[test]
fn unexpected_reply_ends_the_run() {
    let asked = requests_for("abc", vec![SyncReply::Done]);
    assert_eq!(asked.last(), Some(&finished(Err(SyncError::UnexpectedReply))));
    assert_eq!(SyncError::UnexpectedReply.message(), "Unexpected reply to a sync request");

    let asked =
        requests_for("abc", vec![SyncReply::Exists(true), SyncReply::Output("x".to_string())]);
    assert_eq!(asked.last(), Some(&finished(Err(SyncError::UnexpectedReply))));

    let asked = requests_for(
        "abc",
        vec![SyncReply::Exists(true), SyncReply::Exists(false), SyncReply::Exists(true)],
    );
    assert_eq!(asked.last(), Some(&finished(Err(SyncError::UnexpectedReply))));
}

#[test]
fn finished_run_takes_no_more_replies() {
    let asked = requests_for("abc", vec![SyncReply::Exists(false), SyncReply::Exists(true)]);
    assert_eq!(asked.len(), 3);
    assert_eq!(asked[2], finished(Err(SyncError::UnexpectedReply)));
}

#[test]
fn unknown_previous_commit_is_an_error() {
    let (mut host, commit) = setup_infra_repo();
    host.files.insert(COMMIT_MARKER.to_string(), "deadbeef\n".to_string());
    let before = host.files.clone();
    assert_eq!(host.sync(&commit), Err(SyncError::GitDiffStatus { code: 128 }));
    assert_eq!(host.files, before);
}

#[test]
fn sync_directory_reads_below_the_source() {
    let (source, target) = FileOps::sync_directory("/infra/common", "/target");
    assert_eq!(source, "/infra/common/");
    assert_eq!(target, "/target");
}

#[test]
fn marker_round_trip() {
    for commit in ["abc123", "0123456789abcdef0123456789abcdef01234567", "v1.2", ""] {
        let content = FileOps::write_commit_marker(commit);
        assert_eq!(FileOps::read_commit_marker(Some(&content)), Some(commit.to_string()));
    }
    let content = FileOps::write_commit_marker(" padded\t");
    assert_eq!(content, " padded\t\n");
    assert_eq!(FileOps::read_commit_marker(Some(&content)), Some("padded".to_string()));
}

#[test]
fn marker_name_is_fixed() {
    assert_eq!(COMMIT_MARKER, ".bootc-dev-infra-commit.txt");
}

#[test]
fn file_named_like_a_deleted_one_is_removed() {
    let (mut host, first) = setup_infra_repo();
    host.sync(&first).unwrap();

    // The target replaces its copy of file2.txt by a file of its own.
    host.files.insert("file2.txt".to_string(), "local".to_string());
    host.common.as_mut().unwrap().remove("file2.txt");
    let second = host.commit();
    assert_eq!(host.sync(&second), Ok(true));
    assert!(!host.files.contains_key("file2.txt"));
}

#[test]
fn paths_outside_common_are_never_removed() {
    let asked = requests_for(
        "new",
        vec![
            SyncReply::Exists(true),
            SyncReply::Exists(true),
            SyncReply::Output("old".to_string()),
            SyncReply::ExitCode(1),
            SyncReply::Output("README.md\ncommon\nuncommon/x\ncommonx/y".to_string()),
            SyncReply::Done,
            SyncReply::Done,
        ],
    );
    assert_eq!(asked.len(), 8);
    assert!(matches!(asked[5], SyncRequest::CopyTree { .. }));
    assert!(!asked
        .iter()
        .any(|r| matches!(r, SyncRequest::CheckFile { .. } | SyncRequest::RemoveFile { .. })));
    assert_eq!(asked[7], finished(Ok(true)));
}
