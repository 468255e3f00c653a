//! The walk through the sources directory: which entries it reaches, and which of
//! them are source files in scope.

use crate::error::DerivationError;
use crate::input::ProjectConfigInput;
use crate::path::{any_prefix, extension, path_extension, starts_with_any};
use crate::text::{lemma_texts_push, texts};
use vstd::prelude::*;

verus! {

/// One entry of the listing of a directory tree. A listing names every directory
/// before what lies in it, and what lies in a directory before what follows the
/// directory.
#[derive(Debug)]
pub struct WalkEntry {
    /// The path of the entry.
    pub path: String,
    /// How many directories deep the entry lies below the top of the tree; 0 for the
    /// top itself.
    pub depth: usize,
    /// Whether the entry is a directory.
    pub is_dir: bool,
    /// Whether the entry is a regular file.
    pub is_file: bool,
    /// Whether a skip pattern of the configuration matches the path.
    pub skip_matched: bool,
}

/// Whether all that the listing names after entry `j` and before place `i` lies
/// deeper than entry `j`: at place `i` the listing may still be inside entry `j`.
pub open spec fn open_above(entries: Seq<WalkEntry>, j: int, i: int) -> bool {
    &&& 0 <= j < i <= entries.len()
    &&& forall|k: int| j < k < i ==> (#[trigger] entries[k]).depth > entries[j].depth
}

/// Whether entry `j` is a directory in which entry `i` lies, directly or further
/// down.
pub open spec fn lies_above(entries: Seq<WalkEntry>, j: int, i: int) -> bool {
    &&& i < entries.len()
    &&& open_above(entries, j, i)
    &&& entries[j].is_dir
    &&& entries[i].depth > entries[j].depth
}

impl ProjectConfigInput {
    /// Whether a walk through the sources goes on at the entry at `path`: not where
    /// a skip pattern matches the path, nor where the path lies under an excluded
    /// path.
    pub open spec fn descends_spec(&self, path: Seq<char>, skip_matched: bool) -> bool {
        !skip_matched && !any_prefix(self.exclude_starting@, path)
    }

    /// Whether a walk through the sources goes on at the entry at `path`: into it, if
    /// it is a directory, and on to the other rules, if it is a file. `skip_matched`
    /// says whether a skip pattern of the configuration matches the path.
    pub fn descends(&self, path: &str, skip_matched: bool) -> (r: bool)
        ensures
            r == self.descends_spec(path@, skip_matched),
    {
        !skip_matched && !starts_with_any(path, &self.exclude_starting)
    }

    /// Whether the entry is a directory that the walk does not enter.
    pub open spec fn blocks(&self, entry: WalkEntry) -> bool {
        entry.is_dir && !self.descends_spec(entry.path@, entry.skip_matched)
    }

    /// Whether the walk reaches entry `i` of the listing: it goes on at the entry, and
    /// it enters every directory in which the entry lies.
    pub open spec fn reaches(&self, entries: Seq<WalkEntry>, i: int) -> bool {
        &&& self.descends_spec(entries[i].path@, entries[i].skip_matched)
        &&& forall|j: int| #[trigger] lies_above(entries, j, i) ==> !self.blocks(entries[j])
    }

    /// Whether the entry is a regular file with the extension `sol`.
    pub open spec fn is_source(&self, entry: WalkEntry) -> bool {
        entry.is_file && path_extension(entry.path@) == Some("sol"@)
    }

    /// Whether entry `i` of the listing is a source file that the walk reaches.
    pub open spec fn finds(&self, entries: Seq<WalkEntry>, i: int) -> bool {
        self.reaches(entries, i) && self.is_source(entries[i])
    }

    /// The paths of the source files in scope that the walk reaches among the first
    /// `n` entries of the listing, in their order.
    pub open spec fn yielded(&self, entries: Seq<WalkEntry>, n: int) -> Seq<Seq<char>>
        decreases n,
    {
        if n <= 0 {
            Seq::<Seq<char>>::empty()
        } else {
            let before = self.yielded(entries, n - 1);
            let last = entries[n - 1];
            if self.finds(entries, n - 1) && self.included(last.path@, last.skip_matched) {
                before.push(last.path@)
            } else {
                before
            }
        }
    }

    /// Whether entry `i` of the listing is a source file that the walk reaches and
    /// that has no path relative to the root where the rules ask for it.
    pub open spec fn strays(&self, entries: Seq<WalkEntry>, i: int) -> bool {
        self.finds(entries, i) && !self.relative_known(entries[i].path@, entries[i].skip_matched)
    }
}

/// What the walk yields among the first `n` entries are exactly the paths of the
/// source files among them that it reaches and that are in scope.
pub proof fn lemma_yielded(config: ProjectConfigInput, entries: Seq<WalkEntry>, n: int)
    requires
        0 <= n <= entries.len(),
    ensures
        forall|p: Seq<char>|
            config.yielded(entries, n).contains(p) <==> exists|i: int|
                0 <= i < n && #[trigger] config.finds(entries, i) && config.included(
                    entries[i].path@,
                    entries[i].skip_matched,
                ) && entries[i].path@ == p,
    decreases n,
{
    if n > 0 {
        lemma_yielded(config, entries, n - 1);
        let before = config.yielded(entries, n - 1);
        let now = config.yielded(entries, n);
        let last = entries[n - 1];
        let takes = config.finds(entries, n - 1) && config.included(last.path@, last.skip_matched);
        assert forall|p: Seq<char>| now.contains(p) implies exists|i: int|
            0 <= i < n && #[trigger] config.finds(entries, i) && config.included(
                entries[i].path@,
                entries[i].skip_matched,
            ) && entries[i].path@ == p by {
            let k = choose|k: int| 0 <= k < now.len() && now[k] == p;
            if takes && k == before.len() {
                assert(config.finds(entries, n - 1));
            } else {
                assert(before[k] == p);
                assert(before.contains(p));
            }
        }
        assert forall|p: Seq<char>|
            (exists|i: int|
                0 <= i < n && #[trigger] config.finds(entries, i) && config.included(
                    entries[i].path@,
                    entries[i].skip_matched,
                ) && entries[i].path@ == p) implies now.contains(p) by {
            let i = choose|i: int|
                0 <= i < n && #[trigger] config.finds(entries, i) && config.included(
                    entries[i].path@,
                    entries[i].skip_matched,
                ) && entries[i].path@ == p;
            if i == n - 1 {
                assert(now[before.len() as int] == p);
            } else {
                assert(before.contains(p));
                let k = choose|k: int| 0 <= k < before.len() && before[k] == p;
                assert(now[k] == p);
            }
        }
    }
}

/// The walk reaches nothing in a directory that it does not enter, so that no file
/// in such a directory is yielded by its own merits.
pub proof fn lemma_blocked_directory_hides(
    config: ProjectConfigInput,
    entries: Seq<WalkEntry>,
    j: int,
    i: int,
)
    requires
        lies_above(entries, j, i),
        config.blocks(entries[j]),
    ensures
        !config.reaches(entries, i),
        !config.finds(entries, i),
{
}

/// The source files in scope of a directory tree, from the listing of the tree: the
/// regular files with the extension `sol` that the walk reaches and the rules take,
/// in the order of the listing. The walk leaves out an entry that a skip pattern
/// matches or that lies under an excluded path, and with such a directory all that
/// lies in it. The call fails at the first source file that the walk reaches and that
/// is in scope by its place without lying under the resolved root; with a sources
/// directory under the resolved root there is no such file, and the call succeeds.
pub fn source_files_iter(entries: &Vec<WalkEntry>, config: &ProjectConfigInput) -> (r: Result<
    Vec<String>,
    DerivationError,
>)
    ensures
        config.rooted() ==> r is Ok,
        match r {
            Ok(files) => texts(files@) == config.yielded(entries@, entries@.len() as int)
                && forall|i: int| 0 <= i < entries@.len() ==> !config.strays(entries@, i),
            Err(why) => exists|i: int|
                0 <= i < entries@.len() && #[trigger] config.strays(entries@, i) && why
                    == DerivationError::OutsideRoot(entries@[i].path) && forall|k: int|
                    0 <= k < i ==> !config.strays(entries@, k),
        },
{
    let sol = "sol".to_owned();
    let mut files: Vec<String> = Vec::new();
    let mut pruned: Option<usize> = None;
    let mut i: usize = 0;
    assert(texts(files@) =~= Seq::<Seq<char>>::empty());
    while i < entries.len()
        invariant
            i <= entries@.len(),
            sol@ == "sol"@,
            texts(files@) == config.yielded(entries@, i as int),
            forall|k: int| 0 <= k < i ==> !config.strays(entries@, k),
            match pruned {
                Some(d) => (exists|j: int| #[trigger]
                    open_above(entries@, j, i as int) && config.blocks(entries@[j])
                        && entries@[j].depth == d) && forall|j: int| #[trigger]
                    open_above(entries@, j, i as int) && config.blocks(entries@[j])
                        ==> entries@[j].depth >= d,
                None => forall|j: int| #[trigger]
                    open_above(entries@, j, i as int) ==> !config.blocks(entries@[j]),
            },
        decreases entries.len() - i,
    {
        let entry = &entries[i];
        let ghost at = i as int;
        let inside = match pruned {
            Some(d) => entry.depth > d,
            None => false,
        };
        proof {
            // What is open at the next place was open here and lies above this entry.
            assert forall|j: int| #[trigger] open_above(entries@, j, at + 1) && j < at implies open_above(
                entries@,
                j,
                at,
            ) && entries@[at].depth > entries@[j].depth by {}
            assert forall|j: int| #[trigger]
                open_above(entries@, j, at) && entries@[at].depth > entries@[j].depth implies open_above(
                entries@,
                j,
                at + 1,
            ) by {}
            assert(open_above(entries@, at, at + 1));
        }
        if inside {
            proof {
                let d = pruned->Some_0;
                let j = choose|j: int| #[trigger]
                    open_above(entries@, j, at) && config.blocks(entries@[j]) && entries@[j].depth
                        == d;
                assert(lies_above(entries@, j, at));
                assert(!config.reaches(entries@, at));
                assert(open_above(entries@, j, at + 1));
            }
        } else {
            assert forall|j: int| #[trigger] lies_above(entries@, j, at) implies !config.blocks(
                entries@[j],
            ) by {
                assert(open_above(entries@, j, at));
            }
            let goes_on = config.descends(entry.path.as_str(), entry.skip_matched);
            assert(goes_on == config.reaches(entries@, at));
            if goes_on {
                let is_source = entry.is_file && match extension(entry.path.as_str()) {
                    Some(ext) => ext == sol,
                    None => false,
                };
                if is_source {
                    match config.try_is_included(entry.path.as_str(), entry.skip_matched) {
                        None => {
                            assert(config.strays(entries@, at));
                            return Err(DerivationError::OutsideRoot(entry.path.clone()));
                        },
                        Some(true) => {
                            let kept = entry.path.clone();
                            proof {
                                lemma_texts_push(files@, kept);
                            }
                            files.push(kept);
                        },
                        Some(false) => {},
                    }
                }
                pruned = None;
            } else if entry.is_dir {
                pruned = Some(entry.depth);
            } else {
                pruned = None;
            }
        }
        i += 1;
    }
    Ok(files)
}

} // verus!
