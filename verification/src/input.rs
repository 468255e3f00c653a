//! The resolved configuration of a project, and the rule that says which files of the
//! project are in scope.

use crate::artifacts::Remapping;
use crate::path::{
    is_absolute, path_absolute, any_prefix, any_substring, contains_any, is_substring, lemma_empty_is_substring,
    path_has_prefix,
    path_remainder, starts_with, starts_with_any, strip_prefix,
};
use crate::solc::Solc;
use crate::text::texts;
use foundry_compilers::artifacts::EvmVersion;
use vstd::prelude::*;

verus! {

/// The directories of a project and what the compiler is told about them.
#[derive(Debug, PartialEq, Eq)]
pub struct ProjectPaths {
    /// The project root.
    pub root: String,
    /// The directory that holds the sources of the project.
    pub sources: String,
    /// The directory that holds the tests.
    pub tests: String,
    /// The directory that holds the scripts.
    pub scripts: String,
    /// The directories that hold libraries.
    pub libraries: Vec<String>,
    /// The remappings of the project.
    pub remappings: Vec<Remapping>,
    /// The directories in which the compiler is to look for imports, in the order
    /// in which they are passed to it.
    pub include_paths: Vec<String>,
    /// The directories from which the compiler may load files, in the order in which
    /// they are passed to it.
    pub allowed_paths: Vec<String>,
}

/// How the compiler version of a project is chosen.
#[derive(Debug, PartialEq, Eq)]
pub enum SolcCompilerConfigInput {
    /// By the version pragmas of the sources and the imports among them.
    AutoDetect,
    /// This binary, for every source.
    Specific(Solc),
}

/// The resolved configuration of a project. It is built once and read from then on.
#[derive(Debug)]
pub struct ProjectConfigInput {
    /// The project root, as it was given.
    pub root: String,
    /// The project root with its symbolic links resolved.
    pub canonical_root: String,
    /// The directories of the project.
    pub project_paths: ProjectPaths,
    /// A file is in scope only if its path relative to the root holds one of these
    /// texts.
    pub include_containing: Vec<String>,
    /// A file is out of scope if its path relative to the root holds one of these
    /// texts.
    pub exclude_containing: Vec<String>,
    /// Absolute paths inside the sources directory; what lies under one of them is
    /// out of scope.
    pub exclude_starting: Vec<String>,
    /// The skip patterns of the layered configuration, as texts.
    pub skip: Vec<String>,
    /// How the compiler version is chosen.
    pub solc_compiler: SolcCompilerConfigInput,
    /// The EVM version of the project.
    pub evm_version: EvmVersion,
}

impl ProjectConfigInput {
    /// Whether `path` passes the rules that need no relative path: it lies in the
    /// sources directory, under no excluded path, and no skip pattern matched it.
    pub open spec fn in_scope(&self, path: Seq<char>, skip_matched: bool) -> bool {
        &&& path_has_prefix(path, self.project_paths.sources@)
        &&& !any_prefix(self.exclude_starting@, path)
        &&& !skip_matched
    }

    /// Whether a path relative to the root passes the two lists of the caller: it
    /// holds none of the excluded texts, and one of the included texts. With no
    /// included text at all no path passes; a builder never leaves the list empty.
    pub open spec fn selected(&self, relative: Seq<char>) -> bool {
        &&& !any_substring(self.exclude_containing@, relative)
        &&& any_substring(self.include_containing@, relative)
    }

    /// Whether the file at `path` is in scope, `skip_matched` saying whether a skip
    /// pattern of the configuration matches the path. The rules, in their order: the
    /// path lies in the sources directory; it lies under no excluded path; no skip
    /// pattern matches it; its path relative to the root holds none of the excluded
    /// texts; that relative path holds one of the included texts.
    pub open spec fn included(&self, path: Seq<char>, skip_matched: bool) -> bool {
        &&& self.in_scope(path, skip_matched)
        &&& self.selected(path_remainder(path, self.canonical_root@))
    }

    /// Whether the relative path of `path` can be taken where the rules ask for it.
    pub open spec fn relative_known(&self, path: Seq<char>, skip_matched: bool) -> bool {
        self.in_scope(path, skip_matched) ==> path_has_prefix(path, self.canonical_root@)
    }

    /// Whether the sources directory lies under the resolved root. Then every path in
    /// the sources directory has a path relative to the root.
    pub open spec fn rooted(&self) -> bool {
        path_has_prefix(self.project_paths.sources@, self.canonical_root@)
    }

    /// Whether the rules can be applied to `path`: the sources directory lies under
    /// the resolved root, or else the path itself does where the rules ask for its
    /// relative path.
    pub open spec fn admits(&self, path: Seq<char>, skip_matched: bool) -> bool {
        self.rooted() || self.relative_known(path, skip_matched)
    }

    /// Whether the sources directory is an absolute path.
    pub fn has_absolute_sources(&self) -> (r: bool)
        ensures
            r == path_absolute(self.project_paths.sources@),
    {
        is_absolute(self.project_paths.sources.as_str())
    }

    /// Whether the sources directory lies under the resolved root.
    pub fn is_rooted(&self) -> (r: bool)
        ensures
            r == self.rooted(),
    {
        starts_with(self.project_paths.sources.as_str(), self.canonical_root.as_str())
    }

    /// Whether the file at the absolute path `path` is in scope. `skip_matched` says
    /// whether a skip pattern of the configuration matches the path. With a sources
    /// directory under the resolved root the answer is owed for every path.
    pub fn is_included(&self, path: &str, skip_matched: bool) -> (r: bool)
        requires
            self.admits(path@, skip_matched),
        ensures
            r == self.included(path@, skip_matched),
    {
        if !starts_with(path, self.project_paths.sources.as_str()) {
            return false;
        }
        if starts_with_any(path, &self.exclude_starting) {
            return false;
        }
        if skip_matched {
            return false;
        }
        match strip_prefix(path, self.canonical_root.as_str()) {
            Some(relative) => {
                if contains_any(relative.as_str(), &self.exclude_containing) {
                    return false;
                }
                contains_any(relative.as_str(), &self.include_containing)
            },
            None => {
                assert(!path_has_prefix(path@, self.project_paths.sources@) || !path_has_prefix(
                    self.project_paths.sources@,
                    self.canonical_root@,
                ));
                false
            },
        }
    }

    /// Whether the file at the absolute path `path` is in scope; `None` where the
    /// first three rules let the path pass and it does not lie under the resolved
    /// root, so that it has no relative path. With a sources directory under the
    /// resolved root there is an answer for every path.
    pub fn try_is_included(&self, path: &str, skip_matched: bool) -> (r: Option<bool>)
        ensures
            r.is_some() == self.relative_known(path@, skip_matched),
            self.rooted() ==> r.is_some(),
            r matches Some(b) ==> b == self.included(path@, skip_matched),
    {
        if !starts_with(path, self.project_paths.sources.as_str()) {
            return Some(false);
        }
        if starts_with_any(path, &self.exclude_starting) {
            return Some(false);
        }
        if skip_matched {
            return Some(false);
        }
        match strip_prefix(path, self.canonical_root.as_str()) {
            Some(_) => Some(self.is_included(path, skip_matched)),
            None => {
                assert(!path_has_prefix(path@, self.project_paths.sources@) || !path_has_prefix(
                    self.project_paths.sources@,
                    self.canonical_root@,
                ));
                None
            },
        }
    }

    /// Whether the caller gave no lists of its own: nothing is excluded, and the one
    /// included text is the empty text, which every path holds.
    pub open spec fn default_selection(&self) -> bool {
        &&& self.exclude_containing@.len() == 0
        &&& texts(self.include_containing@) == seq![Seq::<char>::empty()]
    }

    /// What lies under an excluded path is out of scope, whatever the lists of the
    /// caller hold.
    pub proof fn lemma_exclusion_precedence(&self, path: Seq<char>, skip_matched: bool)
        requires
            any_prefix(self.exclude_starting@, path),
        ensures
            !self.included(path, skip_matched),
    {
    }

    /// A path that a skip pattern matches is out of scope, whatever the lists of the
    /// caller hold.
    pub proof fn lemma_skip_precedence(&self, path: Seq<char>)
        ensures
            !self.included(path, true),
    {
    }

    /// Whether `other` leaves out at least what this configuration leaves out, and
    /// takes at most what it takes: the same sources directory and resolved root,
    /// every excluded path and every excluded text of this one, and no included text
    /// that this one lacks.
    pub open spec fn narrowed_by(&self, other: ProjectConfigInput) -> bool {
        &&& other.project_paths.sources@ == self.project_paths.sources@
        &&& other.canonical_root@ == self.canonical_root@
        &&& forall|t: Seq<char>| #[trigger]
            texts(self.exclude_starting@).contains(t) ==> texts(other.exclude_starting@).contains(t)
        &&& forall|t: Seq<char>| #[trigger]
            texts(self.exclude_containing@).contains(t) ==> texts(
                other.exclude_containing@,
            ).contains(t)
        &&& forall|t: Seq<char>| #[trigger]
            texts(other.include_containing@).contains(t) ==> texts(
                self.include_containing@,
            ).contains(t)
    }

    /// More exclusions and fewer inclusions admit no path that was rejected: what
    /// the narrower configuration takes, this one takes too, even where a further
    /// skip pattern matches for the narrower one only.
    pub proof fn lemma_narrowing(
        &self,
        other: ProjectConfigInput,
        path: Seq<char>,
        skip_matched: bool,
        other_skip_matched: bool,
    )
        requires
            self.narrowed_by(other),
            skip_matched ==> other_skip_matched,
            other.included(path, other_skip_matched),
        ensures
            self.included(path, skip_matched),
    {
        let relative = path_remainder(path, self.canonical_root@);
        if any_prefix(self.exclude_starting@, path) {
            let i = choose|i: int|
                0 <= i < self.exclude_starting@.len() && path_has_prefix(
                    path,
                    (#[trigger] self.exclude_starting@[i])@,
                );
            let t = self.exclude_starting@[i]@;
            assert(texts(self.exclude_starting@)[i] == t);
            assert(texts(self.exclude_starting@).contains(t));
            let j = choose|j: int|
                0 <= j < texts(other.exclude_starting@).len() && texts(other.exclude_starting@)[j]
                    == t;
            assert(other.exclude_starting@[j]@ == t);
            assert(any_prefix(other.exclude_starting@, path));
        }
        if any_substring(self.exclude_containing@, relative) {
            let i = choose|i: int|
                0 <= i < self.exclude_containing@.len() && is_substring(
                    (#[trigger] self.exclude_containing@[i])@,
                    relative,
                );
            let t = self.exclude_containing@[i]@;
            assert(texts(self.exclude_containing@)[i] == t);
            assert(texts(self.exclude_containing@).contains(t));
            let j = choose|j: int|
                0 <= j < texts(other.exclude_containing@).len() && texts(
                    other.exclude_containing@,
                )[j] == t;
            assert(other.exclude_containing@[j]@ == t);
            assert(any_substring(other.exclude_containing@, relative));
        }
        let i = choose|i: int|
            0 <= i < other.include_containing@.len() && is_substring(
                (#[trigger] other.include_containing@[i])@,
                relative,
            );
        let t = other.include_containing@[i]@;
        assert(texts(other.include_containing@)[i] == t);
        assert(texts(other.include_containing@).contains(t));
        let j = choose|j: int|
            0 <= j < texts(self.include_containing@).len() && texts(self.include_containing@)[j]
                == t;
        assert(self.include_containing@[j]@ == t);
        assert(any_substring(self.include_containing@, relative));
    }

    /// Without lists of the caller, a path is in scope exactly if it lies in the
    /// sources directory, under no excluded path, and no skip pattern matches it.
    pub proof fn lemma_default_inclusion(&self, path: Seq<char>, skip_matched: bool)
        requires
            self.default_selection(),
        ensures
            self.included(path, skip_matched) == self.in_scope(path, skip_matched),
    {
        let relative = path_remainder(path, self.canonical_root@);
        lemma_empty_is_substring(relative);
        let included = self.include_containing@;
        assert(texts(included).len() == 1);
        assert(texts(included)[0] == included[0]@);
        assert(is_substring(included[0]@, relative));
        assert(any_substring(self.include_containing@, relative));
    }
}

} // verus!
