//! A compiler binary and the options it is started with.

use crate::text::{
    dedup, duplicate_texts, first_occurrences, lemma_first_occurrences_of_distinct, texts,
};
use crate::version::Version;
use vstd::prelude::*;

verus! {

/// A compiler binary: where it is, which version it is, and the paths and arguments it
/// is to be started with.
#[derive(Debug, PartialEq, Eq)]
pub struct Solc {
    /// The path of the executable.
    pub solc: String,
    /// The version of the compiler.
    pub version: Version,
    /// The base path, if one is to be passed.
    pub base_path: Option<String>,
    /// The paths from which the compiler may load files, in the order in which they
    /// are passed to it.
    pub allow_paths: Vec<String>,
    /// The paths in which the compiler looks for imports, beside the base path, in
    /// the order in which they are passed to it.
    pub include_paths: Vec<String>,
    /// Further arguments, passed as they are.
    pub extra_args: Vec<String>,
}

impl Solc {
    /// Neither list of paths holds a path twice.
    pub open spec fn wf(&self) -> bool {
        &&& texts(self.allow_paths@).no_duplicates()
        &&& texts(self.include_paths@).no_duplicates()
    }

    /// The binary at `solc` of the given version, with no base path, no paths and no
    /// further arguments.
    pub fn new(solc: String, version: Version) -> (r: Solc)
        ensures
            r.solc == solc,
            r.version == version,
            r.base_path.is_none(),
            r.allow_paths@.len() == 0,
            r.include_paths@.len() == 0,
            r.extra_args@.len() == 0,
            r.wf(),
    {
        let r = Solc {
            solc,
            version,
            base_path: None,
            allow_paths: Vec::new(),
            include_paths: Vec::new(),
            extra_args: Vec::new(),
        };
        assert(texts(r.allow_paths@) =~= Seq::<Seq<char>>::empty());
        assert(texts(r.include_paths@) =~= Seq::<Seq<char>>::empty());
        r
    }

    /// Whether the compiler takes `--base-path`: releases from 0.6.9 on.
    pub open spec fn supports_base_path_spec(&self) -> bool {
        self.version@.meets(0, 6, 9)
    }

    /// Whether the compiler takes `--include-path`: releases from 0.8.8 on.
    pub open spec fn supports_include_path_spec(&self) -> bool {
        self.version@.meets(0, 8, 8)
    }

    /// Whether the compiler takes `--base-path`: releases from 0.6.9 on.
    pub fn supports_base_path(&self) -> (r: bool)
        ensures
            r == self.supports_base_path_spec(),
    {
        self.version.at_least(0, 6, 9)
    }

    /// Whether the compiler takes `--include-path`: releases from 0.8.8 on.
    pub fn supports_include_path(&self) -> (r: bool)
        ensures
            r == self.supports_include_path_spec(),
    {
        self.version.at_least(0, 8, 8)
    }

    /// The same binary, started from `base_path` with the given include and allow
    /// paths. Each list stands for a set: a path that is repeated stays where it
    /// first occurs, and the other paths keep their order, so that a list without
    /// repetitions is taken as it is, in the order in which it is handed in.
    pub fn with_paths(
        self,
        base_path: String,
        include_paths: &Vec<String>,
        allow_paths: &Vec<String>,
    ) -> (r: Solc)
        ensures
            r.solc == self.solc,
            r.version == self.version,
            r.extra_args == self.extra_args,
            r.base_path == Some(base_path),
            texts(r.include_paths@) == first_occurrences(texts(include_paths@)),
            texts(r.allow_paths@) == first_occurrences(texts(allow_paths@)),
            texts(include_paths@).no_duplicates() ==> texts(r.include_paths@) == texts(
                include_paths@,
            ),
            texts(allow_paths@).no_duplicates() ==> texts(r.allow_paths@) == texts(allow_paths@),
            r.wf(),
    {
        proof {
            if texts(include_paths@).no_duplicates() {
                lemma_first_occurrences_of_distinct(texts(include_paths@));
            }
            if texts(allow_paths@).no_duplicates() {
                lemma_first_occurrences_of_distinct(texts(allow_paths@));
            }
        }
        Solc {
            solc: self.solc,
            version: self.version,
            base_path: Some(base_path),
            allow_paths: dedup(duplicate_texts(allow_paths)),
            include_paths: dedup(duplicate_texts(include_paths)),
            extra_args: self.extra_args,
        }
    }
}

} // verus!
