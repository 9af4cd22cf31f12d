//! Selection of candidate files from the results of a directory walk.

use crate::paths::{extension, extension_of, TreePath};
use vstd::prelude::*;
use vstd::string::*;

verus! {

/// The extension that marks a candidate file.
pub open spec fn audio_extension() -> Seq<char> {
    seq!['w', 'a', 'v']
}

/// One result of a directory walk.
#[derive(Debug, PartialEq, Eq)]
pub enum WalkResult {
    /// An entry that the walk could read.
    Entry { path: TreePath, is_file: bool },
    /// An entry that the walk could not read; it is passed over.
    Failed,
}

/// A path names a candidate when its last component has the audio
/// extension, compared letter for letter.
pub open spec fn names_candidate(path: Seq<Seq<char>>) -> bool {
    path.len() > 0 && extension_of(path.last()) == Some(audio_extension())
}

/// The candidate that a walk result contributes, if any: the path of a
/// readable entry that is a file and names a candidate.
pub open spec fn candidate_of(result: WalkResult) -> Option<Seq<Seq<char>>> {
    match result {
        WalkResult::Entry { path, is_file } => if is_file && names_candidate(path@) {
            Some(path@)
        } else {
            None
        },
        WalkResult::Failed => None,
    }
}

/// The candidates among the results of a walk, in the order of the walk.
pub open spec fn candidates_of(results: Seq<WalkResult>) -> Seq<Seq<Seq<char>>> {
    results.filter_map(|result: WalkResult| candidate_of(result))
}

/// Whether the last component of a path has the audio extension.
pub fn is_candidate_name(path: &TreePath) -> (r: bool)
    ensures
        r == names_candidate(path@),
{
    match path.file_name() {
        Some(name) => match extension(name.as_str()) {
            Some(ext) => {
                proof {
                    reveal_strlit("wav");
                }
                assert("wav"@ =~= audio_extension());
                ext == String::from_str("wav")
            },
            None => false,
        },
        None => false,
    }
}

/// Keeps the candidates of a walk: the readable entries that are files and
/// carry the audio extension. Unreadable entries are dropped without error.
pub fn collect_candidates(results: &Vec<WalkResult>) -> (candidates: Vec<TreePath>)
    ensures
        candidates.deep_view() == candidates_of(results@),
{
    let ghost pick = |result: WalkResult| candidate_of(result);
    let mut candidates: Vec<TreePath> = Vec::new();
    let mut i: usize = 0;
    while i < results.len()
        invariant
            i <= results.len(),
            pick == |result: WalkResult| candidate_of(result),
            candidates.deep_view() == results@.take(i as int).filter_map(pick),
        decreases results.len() - i,
    {
        proof {
            results@.lemma_filter_map_take_succ(pick, i as int);
        }
        let ghost before = candidates.deep_view();
        match &results[i] {
            WalkResult::Entry { path, is_file } => {
                if *is_file && is_candidate_name(path) {
                    let copy = path.clone();
                    candidates.push(copy);
                    assert(candidates.deep_view() =~= before.push(path@));
                    assert(candidates.deep_view() =~= before + seq![path@]);
                }
            },
            WalkResult::Failed => {},
        }
        i = i + 1;
    }
    assert(results@.take(results@.len() as int) =~= results@);
    candidates
}

} // verus!
