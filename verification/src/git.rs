//! Reading what the version-control system answered.

use crate::text::{lines, split_lines, texts};
use vstd::prelude::*;

verus! {

/// The paths that a listing of names holds: its non-empty lines, in order.
pub open spec fn listed_paths(output: Seq<char>) -> Seq<Seq<char>> {
    lines(output).filter(|line: Seq<char>| line.len() > 0)
}

/// What the exit code of a quiet diff says: `Some(false)` for no difference
/// (code 0), `Some(true)` for a difference (code 1), `None` for a diff that
/// did not complete.
pub open spec fn diff_verdict(exit_code: i32) -> Option<bool> {
    if exit_code == 0 {
        Some(false)
    } else if exit_code == 1 {
        Some(true)
    } else {
        None
    }
}

/// Interpreting the answers to the two diff queries made of a repository.
pub struct GitOps;

impl GitOps {
    /// The files deleted between two commits, from the output of a name-only
    /// diff that was filtered for deletions.
    pub fn get_deleted_files(output: &str) -> (files: Vec<String>)
        ensures
            texts(files@) == listed_paths(output@),
    {
        let all = split_lines(output);
        let ghost keep = |line: Seq<char>| line.len() > 0;
        let mut files: Vec<String> = Vec::new();
        let mut i: usize = 0;
        proof {
            reveal(Seq::filter);
            assert(texts(all@).take(0) == Seq::<Seq<char>>::empty());
            assert(texts(files@) == Seq::<Seq<char>>::empty());
        }
        while i < all.len()
            invariant
                i <= all.len(),
                keep == |line: Seq<char>| line.len() > 0,
                texts(files@) == texts(all@).take(i as int).filter(keep),
            decreases all.len() - i,
        {
            let ghost before = texts(files@);
            let ghost done = texts(all@).take(i as int);
            let ghost line = all@[i as int]@;
            proof {
                reveal(Seq::filter);
                let next = texts(all@).take(i + 1);
                assert(next.drop_last() == done);
                assert(next.last() == line);
            }
            if !all[i].as_str().is_empty() {
                files.push(all[i].clone());
                assert(texts(files@) == before.push(line));
            }
            i += 1;
        }
        assert(texts(all@).take(all.len() as int) == texts(all@));
        files
    }

    /// Whether two commits differ, from the exit code of a quiet diff.
    pub fn has_changes(exit_code: i32) -> (changed: Option<bool>)
        ensures
            changed == diff_verdict(exit_code),
    {
        if exit_code == 0 {
            Some(false)
        } else if exit_code == 1 {
            Some(true)
        } else {
            None
        }
    }
}

} // verus!
