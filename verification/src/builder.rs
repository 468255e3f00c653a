//! The builder of a project configuration: what the caller asks for, what the root
//! directory and its layered configuration were found to hold, and the configuration
//! that follows from the two.

use crate::artifacts::Remapping;
use crate::error::DerivationError;
use crate::input::{ProjectConfigInput, ProjectPaths, SolcCompilerConfigInput};
use crate::path::{extension, path_absolute, path_extension, path_has_prefix, starts_with};
use crate::solc::Solc;
use crate::text::{dedup, first_occurrences, lemma_first_occurrences, lemma_texts_push, texts};
use crate::version::Version;
use foundry_compilers::artifacts::EvmVersion;
use vstd::prelude::*;

verus! {

/// Which compiler version a project is compiled with.
#[derive(Debug, PartialEq, Eq)]
pub enum SolcVersionConfig {
    /// The version that the sources ask for, or the one that the layered configuration
    /// pins.
    Auto,
    /// This version, whatever the sources and the layered configuration say.
    Specific(Version),
}

/// Where the sources of a project are.
#[derive(Debug, PartialEq, Eq)]
pub enum SourcesConfig {
    /// Where the build tool of the project keeps them; in a project without a known
    /// build tool, in the root or in a conventional directory under it.
    AutoDetect,
    /// In this directory, given relative to the root.
    Specific(String),
}

/// Which files are left out, beside those that are always left out.
#[derive(Debug, PartialEq, Eq)]
pub enum ExcludeConfig {
    /// No file.
    Nothing,
    /// The files whose path relative to the root holds one of these texts.
    Specific(Vec<String>),
}

/// Which files are taken, among those that are not left out.
#[derive(Debug, PartialEq, Eq)]
pub enum IncludeConfig {
    /// Every file.
    All,
    /// The files whose path relative to the root holds one of these texts. A build
    /// reads an empty list as every file.
    Specific(Vec<String>),
}

impl Default for SolcVersionConfig {
    fn default() -> (r: SolcVersionConfig)
        ensures
            r is Auto,
    {
        SolcVersionConfig::Auto
    }
}

impl Default for SourcesConfig {
    fn default() -> (r: SourcesConfig)
        ensures
            r is AutoDetect,
    {
        SourcesConfig::AutoDetect
    }
}

impl Default for ExcludeConfig {
    fn default() -> (r: ExcludeConfig)
        ensures
            r is Nothing,
    {
        ExcludeConfig::Nothing
    }
}

impl Default for IncludeConfig {
    fn default() -> (r: IncludeConfig)
        ensures
            r is All,
    {
        IncludeConfig::All
    }
}

impl ExcludeConfig {
    /// The texts that put a path out of scope: none, or those of the caller.
    pub open spec fn containing(self) -> Seq<Seq<char>> {
        match self {
            ExcludeConfig::Nothing => Seq::<Seq<char>>::empty(),
            ExcludeConfig::Specific(list) => texts(list@),
        }
    }
}

impl IncludeConfig {
    /// The texts that put a path in scope: those of the caller; and the empty text
    /// alone, which every path holds, where the caller asks for every file or gives
    /// an empty list.
    pub open spec fn containing(self) -> Seq<Seq<char>> {
        match self {
            IncludeConfig::All => seq![Seq::<char>::empty()],
            IncludeConfig::Specific(list) => if list@.len() == 0 {
                seq![Seq::<char>::empty()]
            } else {
                texts(list@)
            },
        }
    }
}

/// What the layered configuration of a root says, as far as a derivation reads it,
/// with the directories as the configuration names them.
#[derive(Debug)]
pub struct LayeredConfig {
    /// The sources directory.
    pub src: String,
    /// The tests directory.
    pub test: String,
    /// The scripts directory.
    pub script: String,
    /// The library directories.
    pub libs: Vec<String>,
    /// The skip patterns, as texts.
    pub skip: Vec<String>,
    /// The EVM version.
    pub evm_version: EvmVersion,
    /// Whether compiler binaries may not be fetched.
    pub offline: bool,
}

/// The directories of a layered configuration as whoever resolved them gives them,
/// and what the configuration tells the compiler about them. The directories are
/// meant to be absolute paths; a build takes them as they come, and
/// `has_absolute_sources` tests the sources directory of its result.
#[derive(Debug)]
pub struct ResolvedPaths {
    /// The sources directory as the configuration names it: the directory that
    /// `sources` is the absolute path of.
    pub src_named: String,
    /// The sources directory.
    pub sources: String,
    /// The tests directory.
    pub tests: String,
    /// The scripts directory.
    pub scripts: String,
    /// The library directories.
    pub libraries: Vec<String>,
    /// The remappings.
    pub remappings: Vec<Remapping>,
    /// The directories in which the compiler is to look for imports, in the order
    /// in which they are to be passed to it.
    pub include_paths: Vec<String>,
    /// The directories from which the compiler may load files, in the order in which
    /// they are to be passed to it.
    pub allowed_paths: Vec<String>,
}

/// What was found in a root directory that tells which build tool governs it.
#[derive(Debug)]
pub struct RootLayout {
    /// Whether `foundry.toml` exists.
    pub foundry_toml: bool,
    /// Whether `hardhat.config.js` exists.
    pub hardhat_config_js: bool,
    /// Whether `hardhat.config.ts` exists.
    pub hardhat_config_ts: bool,
    /// The paths of what lies directly in the root; or why the root could not be
    /// listed. Read only where none of the three files exists.
    pub root_entries: Result<Vec<String>, String>,
    /// Whether `src` is a directory.
    pub src_is_dir: bool,
    /// Whether `contracts` is a directory.
    pub contracts_is_dir: bool,
}

/// What was found of a directory that may have to be left out.
#[derive(Debug)]
pub enum DirProbe {
    /// It is no directory.
    NotADirectory,
    /// It is a directory; this is its path with symbolic links resolved.
    Resolved(String),
    /// It is a directory, and its path could not be resolved; this is why.
    Failed(String),
}

/// What was found at a root: all that a build reads besides what the caller asked
/// for.
#[derive(Debug)]
pub struct Survey {
    /// Whether the root exists. Where it does not, nothing else is read.
    pub root_exists: bool,
    /// The root with its symbolic links resolved.
    pub canonical_root: String,
    /// The layered configuration of the root as it was loaded, or why it could not
    /// be loaded.
    pub loaded: Result<LayeredConfig, String>,
    /// Which build tool governs the root.
    pub layout: RootLayout,
    /// The directories of the configuration that the build reads, as absolute paths.
    pub resolved: ResolvedPaths,
    /// Whether `soldeer.lock` is a file in the root.
    pub soldeer_lock: bool,
    /// The directory `dependencies` in the root. Read only where `soldeer.lock` is a
    /// file.
    pub dependencies: DirProbe,
    /// The directory `node_modules` in the root.
    pub node_modules: DirProbe,
    /// The directory `contracts/forge-std` in the root.
    pub forge_std: DirProbe,
    /// Where the binary of the pinned version is, or why it could not be had. Read
    /// only where the builder pins a version.
    pub pinned_binary: Result<String, String>,
    /// The compiler that the layered configuration chooses, or why it could not be
    /// had. Read only where the builder pins no version.
    pub configured_compiler: Result<SolcCompilerConfigInput, String>,
}

/// The paths of `paths` that lie in the directory `src`, in their order.
pub open spec fn nested_in(paths: Seq<Seq<char>>, src: Seq<char>) -> Seq<Seq<char>>
    decreases paths.len(),
{
    if paths.len() == 0 {
        Seq::<Seq<char>>::empty()
    } else {
        let before = nested_in(paths.drop_last(), src);
        if path_has_prefix(paths.last(), src) {
            before.push(paths.last())
        } else {
            before
        }
    }
}

/// The path itself, if it lies in the directory `src`; else nothing.
pub open spec fn nested_path(path: Seq<char>, src: Seq<char>) -> Seq<Seq<char>> {
    if path_has_prefix(path, src) {
        seq![path]
    } else {
        Seq::<Seq<char>>::empty()
    }
}

/// Every path of `nested_in` lies in the directory.
pub proof fn lemma_nested_in(paths: Seq<Seq<char>>, src: Seq<char>)
    ensures
        forall|t: Seq<char>| nested_in(paths, src).contains(t) ==> path_has_prefix(t, src),
    decreases paths.len(),
{
    if paths.len() > 0 {
        lemma_nested_in(paths.drop_last(), src);
        let before = nested_in(paths.drop_last(), src);
        assert forall|t: Seq<char>| nested_in(paths, src).contains(t) implies path_has_prefix(
            t,
            src,
        ) by {
            let k = choose|k: int| 0 <= k < nested_in(paths, src).len() && nested_in(paths, src)[k]
                == t;
            if k < before.len() {
                assert(before[k] == t);
                assert(before.contains(t));
            }
        }
    }
}

impl DirProbe {
    /// The resolved path of the directory, if it is one and lies in `src`; else
    /// nothing.
    pub open spec fn nested(self, src: Seq<char>) -> Seq<Seq<char>> {
        match self {
            DirProbe::Resolved(path) => nested_path(path@, src),
            _ => Seq::<Seq<char>>::empty(),
        }
    }
}

/// Whether one of the entries has the extension `sol`.
pub open spec fn holds_solidity_file(entries: Seq<String>) -> bool {
    exists|i: int|
        0 <= i < entries.len() && path_extension((#[trigger] entries[i])@) == Some("sol"@)
}

/// Whether one of the entries has the extension `sol`.
pub fn solidity_file_among(entries: &Vec<String>) -> (r: bool)
    ensures
        r == holds_solidity_file(entries@),
{
    let sol = "sol".to_owned();
    let mut i: usize = 0;
    while i < entries.len()
        invariant
            i <= entries.len(),
            sol@ == "sol"@,
            forall|j: int| 0 <= j < i ==> path_extension((#[trigger] entries@[j])@) != Some("sol"@),
        decreases entries.len() - i,
    {
        let found = match extension(entries[i].as_str()) {
            Some(ext) => ext == sol,
            None => false,
        };
        if found {
            return true;
        }
        i += 1;
    }
    false
}

impl RootLayout {
    /// Whether a file of a known build tool lies in the root.
    pub open spec fn has_marker(&self) -> bool {
        self.foundry_toml || self.hardhat_config_js || self.hardhat_config_ts
    }

    /// The sources directory of a root without a known build tool whose listing
    /// found `solidity_file` : the root itself if a Solidity file lies in it, else
    /// `src` if that is a directory, else `contracts` if that is one, else the root.
    pub open spec fn fallback_src(&self, solidity_file: bool) -> Seq<char> {
        if solidity_file {
            "."@
        } else if self.src_is_dir {
            "src"@
        } else if self.contracts_is_dir {
            "contracts"@
        } else {
            "."@
        }
    }
}

/// The layered configuration of a root, with the sources directory corrected where no
/// known build tool governs the root. `loaded` is what loading the layered
/// configuration gave.
pub fn load_baseline_config(loaded: Result<LayeredConfig, String>, layout: &RootLayout) -> (r:
    Result<LayeredConfig, DerivationError>)
    ensures
        match loaded {
            Err(why) => r == Err::<LayeredConfig, DerivationError>(
                DerivationError::ConfigLoad(why),
            ),
            Ok(config) => if layout.has_marker() {
                r == Ok::<LayeredConfig, DerivationError>(config)
            } else {
                match layout.root_entries {
                    Err(why) => r matches Err(DerivationError::Io(text)) && text@ == why@,
                    Ok(entries) => r matches Ok(c) && c.src@ == layout.fallback_src(
                        holds_solidity_file(entries@),
                    )
                        && c.test == config.test && c.script == config.script && c.libs
                        == config.libs && c.skip == config.skip && c.evm_version
                        == config.evm_version && c.offline == config.offline,
                }
            },
        },
{
    let mut config = match loaded {
        Ok(config) => config,
        Err(why) => {
            return Err(DerivationError::ConfigLoad(why));
        },
    };
    if !layout.foundry_toml && !layout.hardhat_config_js && !layout.hardhat_config_ts {
        config.src = ".".to_owned();
        let found = match &layout.root_entries {
            Ok(entries) => solidity_file_among(entries),
            Err(why) => {
                return Err(DerivationError::Io(why.clone()));
            },
        };
        if !found {
            if layout.src_is_dir {
                config.src = "src".to_owned();
            } else if layout.contracts_is_dir {
                config.src = "contracts".to_owned();
            }
        }
    }
    Ok(config)
}

/// Collects what a caller asks of a project configuration, and builds the
/// configuration from it and from what was found at the root.
#[derive(Debug)]
pub struct ProjectConfigInputBuilder {
    /// The root directory.
    pub root: String,
    /// Where the sources are.
    pub sources: SourcesConfig,
    /// Which files are left out.
    pub exclusion: ExcludeConfig,
    /// Which files are taken.
    pub inclusion: IncludeConfig,
    /// Which compiler version is used.
    pub solc_version: SolcVersionConfig,
}

impl Survey {
    /// The candidates for the paths that are always left out, as far as they lie in
    /// the sources directory: the library directories, the tests directory, the
    /// scripts directory, the dependencies of a root with `soldeer.lock`,
    /// `node_modules`, and `contracts/forge-std`; in this order.
    pub open spec fn unwanted(&self) -> Seq<Seq<char>> {
        let src = self.resolved.sources@;
        nested_in(texts(self.resolved.libraries@), src) + nested_path(self.resolved.tests@, src)
            + nested_path(self.resolved.scripts@, src) + (if self.soldeer_lock {
            self.dependencies.nested(src)
        } else {
            Seq::<Seq<char>>::empty()
        }) + self.node_modules.nested(src) + self.forge_std.nested(src)
    }

    /// The paths that are always left out: the candidates, each once.
    pub open spec fn auto_excluded(&self) -> Seq<Seq<char>> {
        first_occurrences(self.unwanted())
    }

    /// Every path that is always left out lies in the sources directory, and none
    /// is listed twice.
    pub proof fn lemma_auto_excluded(&self)
        ensures
            forall|t: Seq<char>| #[trigger]
                self.auto_excluded().contains(t) ==> path_has_prefix(t, self.resolved.sources@),
            self.auto_excluded().no_duplicates(),
    {
        let src = self.resolved.sources@;
        lemma_nested_in(texts(self.resolved.libraries@), src);
        lemma_first_occurrences(self.unwanted());
        let a = nested_in(texts(self.resolved.libraries@), src);
        let b = nested_path(self.resolved.tests@, src);
        let c = nested_path(self.resolved.scripts@, src);
        let d = if self.soldeer_lock {
            self.dependencies.nested(src)
        } else {
            Seq::<Seq<char>>::empty()
        };
        let e = self.node_modules.nested(src);
        let f = self.forge_std.nested(src);
        assert forall|t: Seq<char>| self.unwanted().contains(t) implies path_has_prefix(
            t,
            src,
        ) by {
            let all = self.unwanted();
            let k = choose|k: int| 0 <= k < all.len() && all[k] == t;
            if k < a.len() {
                assert(a[k] == t);
                assert(a.contains(t));
            } else if k < a.len() + b.len() {
                assert(b[k - a.len()] == t);
            } else if k < a.len() + b.len() + c.len() {
                assert(c[k - a.len() - b.len()] == t);
            } else if k < a.len() + b.len() + c.len() + d.len() {
                assert(d[k - a.len() - b.len() - c.len()] == t);
            } else if k < a.len() + b.len() + c.len() + d.len() + e.len() {
                assert(e[k - a.len() - b.len() - c.len() - d.len()] == t);
            } else {
                assert(f[k - a.len() - b.len() - c.len() - d.len() - e.len()] == t);
            }
        }
    }

    /// Why the first of the three directories whose path could not be resolved
    /// failed, if one did.
    pub open spec fn probe_failure(&self) -> Option<Seq<char>> {
        if self.soldeer_lock && self.dependencies is Failed {
            Some(self.dependencies->Failed_0@)
        } else if self.node_modules is Failed {
            Some(self.node_modules->Failed_0@)
        } else if self.forge_std is Failed {
            Some(self.forge_std->Failed_0@)
        } else {
            None
        }
    }

    /// Whether the layered configuration gives the build nothing to read: it could
    /// not be loaded, or the root has no file of a known build tool and could not be
    /// listed.
    pub open spec fn baseline_fails(&self) -> bool {
        match self.loaded {
            Err(_) => true,
            Ok(_) => !self.layout.has_marker() && self.layout.root_entries is Err,
        }
    }

    /// Whether `why` is the failure of the layered configuration.
    pub open spec fn baseline_failure(&self, why: DerivationError) -> bool {
        match self.loaded {
            Err(text) => why == DerivationError::ConfigLoad(text),
            Ok(_) => why matches DerivationError::Io(text) && self.layout.root_entries
                is Err && text@ == self.layout.root_entries->Err_0@,
        }
    }

    /// The sources directory that the layered configuration and the layout of the
    /// root give, as the configuration names it.
    pub open spec fn baseline_src(&self) -> Seq<char> {
        if self.layout.has_marker() {
            self.loaded->Ok_0.src@
        } else {
            self.layout.fallback_src(holds_solidity_file(self.layout.root_entries->Ok_0@))
        }
    }
}

/// Whether every path of the list is absolute, if the directory `src` is.
pub open spec fn all_absolute_in(list: Seq<String>, src: Seq<char>) -> bool {
    path_absolute(src) ==> forall|k: int| 0 <= k < list.len() ==> path_absolute((#[trigger] list[k])@)
}

/// Appends the resolved path of the directory to `list` if it lies in `src`; fails
/// with the reason if the path could not be resolved.
fn push_nested_dir(list: &mut Vec<String>, probe: DirProbe, src: &String) -> (r: Result<
    (),
    DerivationError,
>)
    ensures
        probe is Failed ==> (r matches Err(DerivationError::Io(text)) && text@
            == probe->Failed_0@),
        !(probe is Failed) ==> r is Ok,
        texts(final(list)@) == texts(old(list)@) + probe.nested(src@),
        all_absolute_in(old(list)@, src@) ==> all_absolute_in(final(list)@, src@),
{
    match probe {
        DirProbe::NotADirectory => {
            assert(texts(list@) =~= texts(list@) + Seq::<Seq<char>>::empty());
            Ok(())
        },
        DirProbe::Resolved(path) => {
            push_nested_path(list, path, src);
            Ok(())
        },
        DirProbe::Failed(why) => {
            assert(texts(list@) =~= texts(list@) + Seq::<Seq<char>>::empty());
            Err(DerivationError::Io(why))
        },
    }
}

/// Appends `path` to `list` if it lies in `src`.
fn push_nested_path(list: &mut Vec<String>, path: String, src: &String)
    ensures
        texts(final(list)@) == texts(old(list)@) + nested_path(path@, src@),
        all_absolute_in(old(list)@, src@) ==> all_absolute_in(final(list)@, src@),
{
    if starts_with(path.as_str(), src.as_str()) {
        proof {
            lemma_texts_push(list@, path);
        }
        let ghost before = texts(list@);
        list.push(path);
        assert(texts(list@) =~= before + seq![path@]);
    } else {
        assert(texts(list@) =~= texts(list@) + Seq::<Seq<char>>::empty());
    }
}

/// The paths of `paths` that lie in `src`, in their order.
fn nested_paths(paths: &Vec<String>, src: &String) -> (r: Vec<String>)
    ensures
        texts(r@) == nested_in(texts(paths@), src@),
        all_absolute_in(r@, src@),
{
    let mut out: Vec<String> = Vec::new();
    let mut i: usize = 0;
    assert(texts(paths@).take(0) =~= Seq::<Seq<char>>::empty());
    assert(texts(out@) =~= Seq::<Seq<char>>::empty());
    while i < paths.len()
        invariant
            i <= paths.len(),
            texts(out@) == nested_in(texts(paths@).take(i as int), src@),
            all_absolute_in(out@, src@),
        decreases paths.len() - i,
    {
        let ghost upto = texts(paths@).take(i as int + 1);
        assert(upto.drop_last() =~= texts(paths@).take(i as int));
        assert(upto.last() == paths@[i as int]@);
        if starts_with(paths[i].as_str(), src.as_str()) {
            let path = paths[i].clone();
            proof {
                lemma_texts_push(out@, path);
            }
            out.push(path);
        }
        i += 1;
    }
    assert(texts(paths@).take(paths.len() as int) =~= texts(paths@));
    out
}

impl ProjectConfigInputBuilder {
    /// A builder for the project at `root` that asks for nothing special: sources
    /// where the build tool keeps them, every file, the compiler version that the
    /// project asks for.
    pub fn new(root: &str) -> (r: ProjectConfigInputBuilder)
        ensures
            r.root@ == root@,
            r.sources is AutoDetect,
            r.exclusion is Nothing,
            r.inclusion is All,
            r.solc_version is Auto,
    {
        ProjectConfigInputBuilder {
            root: root.to_owned(),
            sources: SourcesConfig::AutoDetect,
            exclusion: ExcludeConfig::Nothing,
            inclusion: IncludeConfig::All,
            solc_version: SolcVersionConfig::Auto,
        }
    }

    /// The same builder with the sources at `sources`.
    pub fn with_sources(self, sources: SourcesConfig) -> (r: ProjectConfigInputBuilder)
        ensures
            r == (ProjectConfigInputBuilder { sources, ..self }),
    {
        ProjectConfigInputBuilder { sources, ..self }
    }

    /// The same builder with `exclusion` as what is left out.
    pub fn with_exclude(self, exclusion: ExcludeConfig) -> (r: ProjectConfigInputBuilder)
        ensures
            r == (ProjectConfigInputBuilder { exclusion, ..self }),
    {
        ProjectConfigInputBuilder { exclusion, ..self }
    }

    /// The same builder with `inclusion` as what is taken.
    pub fn with_include(self, inclusion: IncludeConfig) -> (r: ProjectConfigInputBuilder)
        ensures
            r == (ProjectConfigInputBuilder { inclusion, ..self }),
    {
        ProjectConfigInputBuilder { inclusion, ..self }
    }

    /// The same builder with `version` as the compiler version.
    pub fn with_solc_version(self, version: SolcVersionConfig) -> (r:
        ProjectConfigInputBuilder)
        ensures
            r == (ProjectConfigInputBuilder { solc_version: version, ..self }),
    {
        ProjectConfigInputBuilder { solc_version: version, ..self }
    }

    /// The layered configuration as the build reads it: with the sources directory
    /// of the caller, where the caller named one, and free to fetch compiler binaries.
    pub fn adjust(&self, config: LayeredConfig) -> (r: LayeredConfig)
        ensures
            r.src@ == (match self.sources {
                SourcesConfig::Specific(src) => src@,
                SourcesConfig::AutoDetect => config.src@,
            }),
            !r.offline,
            r.test == config.test,
            r.script == config.script,
            r.libs == config.libs,
            r.skip == config.skip,
            r.evm_version == config.evm_version,
    {
        let mut config = config;
        match &self.sources {
            SourcesConfig::Specific(src) => {
                config.src = src.clone();
            },
            SourcesConfig::AutoDetect => {},
        }
        config.offline = false;
        config
    }

    /// The sources directory of the project, as the configuration names it: the
    /// directory of the caller, where the caller named one; else the directory that
    /// the layered configuration and the layout of the root give.
    pub open spec fn planned_src(&self, survey: Survey) -> Seq<char> {
        match self.sources {
            SourcesConfig::Specific(src) => src@,
            SourcesConfig::AutoDetect => survey.baseline_src(),
        }
    }

    /// Whether the survey was taken for this builder: its absolute paths are those of
    /// the sources directory that the builder chooses. Nothing is asked of a survey
    /// that gives the build no configuration to read.
    pub open spec fn surveyed(&self, survey: Survey) -> bool {
        survey.root_exists && !survey.baseline_fails() ==> survey.resolved.src_named@
            == self.planned_src(survey)
    }

    /// The layered configuration that the build reads, from what was loaded and from
    /// the layout of the root: the sources directory is that of the caller, where the
    /// caller named one, else that of a known build tool, else the root or a
    /// conventional directory in it; and compiler binaries may be fetched. The
    /// directories of this configuration are the ones to make absolute for the
    /// survey.
    pub fn plan(&self, loaded: Result<LayeredConfig, String>, layout: &RootLayout) -> (r: Result<
        LayeredConfig,
        DerivationError,
    >)
        ensures
            match loaded {
                Err(why) => r == Err::<LayeredConfig, DerivationError>(
                    DerivationError::ConfigLoad(why),
                ),
                Ok(config) => if !layout.has_marker() && layout.root_entries is Err {
                    r matches Err(DerivationError::Io(text)) && text@
                        == layout.root_entries->Err_0@
                } else {
                    r matches Ok(c) && c.src@ == (match self.sources {
                        SourcesConfig::Specific(src) => src@,
                        SourcesConfig::AutoDetect => if layout.has_marker() {
                            config.src@
                        } else {
                            layout.fallback_src(
                                holds_solidity_file(layout.root_entries->Ok_0@),
                            )
                        },
                    }) && !c.offline && c.test == config.test && c.script == config.script
                        && c.libs == config.libs && c.skip == config.skip && c.evm_version
                        == config.evm_version
                },
            },
    {
        match load_baseline_config(loaded, layout) {
            Ok(config) => Ok(self.adjust(config)),
            Err(why) => Err(why),
        }
    }

    /// The compiler of the configuration that a build gives: for a pinned version the
    /// binary at the path that was found for it; else what the layered configuration
    /// chooses.
    pub open spec fn compiler_chosen(&self, survey: Survey, chosen: SolcCompilerConfigInput)
        -> bool {
        match self.solc_version {
            SolcVersionConfig::Specific(version) => chosen matches SolcCompilerConfigInput::Specific(
                solc,
            ) && survey.pinned_binary is Ok && solc.solc == survey.pinned_binary->Ok_0
                && solc.version == version && solc.base_path.is_none()
                && solc.allow_paths@.len() == 0 && solc.include_paths@.len() == 0
                && solc.extra_args@.len() == 0,
            SolcVersionConfig::Auto => survey.configured_compiler == Ok::<
                SolcCompilerConfigInput,
                String,
            >(chosen),
        }
    }

    /// Why the compiler could not be had, if it could not.
    pub open spec fn compiler_failure(&self, survey: Survey) -> Option<Seq<char>> {
        match self.solc_version {
            SolcVersionConfig::Specific(_) => match survey.pinned_binary {
                Err(why) => Some(why@),
                Ok(_) => None,
            },
            SolcVersionConfig::Auto => match survey.configured_compiler {
                Err(why) => Some(why@),
                Ok(_) => None,
            },
        }
    }

    /// Whether `built` is the configuration that follows from what the caller asked
    /// for and from the survey.
    pub open spec fn builds(&self, survey: Survey, built: ProjectConfigInput) -> bool {
        &&& built.root == self.root
        &&& built.canonical_root == survey.canonical_root
        &&& built.project_paths.root@ == survey.canonical_root@
        &&& built.project_paths.sources == survey.resolved.sources
        &&& survey.resolved.src_named@ == self.planned_src(survey)
        &&& built.project_paths.tests == survey.resolved.tests
        &&& built.project_paths.scripts == survey.resolved.scripts
        &&& built.project_paths.libraries == survey.resolved.libraries
        &&& built.project_paths.remappings == survey.resolved.remappings
        &&& built.project_paths.include_paths == survey.resolved.include_paths
        &&& built.project_paths.allowed_paths == survey.resolved.allowed_paths
        &&& texts(built.include_containing@) == self.inclusion.containing()
        &&& texts(built.exclude_containing@) == self.exclusion.containing()
        &&& texts(built.exclude_starting@) == survey.auto_excluded()
        &&& texts(built.exclude_starting@).no_duplicates()
        &&& forall|i: int|
            0 <= i < built.exclude_starting@.len() ==> path_has_prefix(
                (#[trigger] built.exclude_starting@[i])@,
                built.project_paths.sources@,
            )
        &&& all_absolute_in(built.exclude_starting@, built.project_paths.sources@)
        &&& built.skip == survey.loaded->Ok_0.skip
        &&& built.evm_version == survey.loaded->Ok_0.evm_version
        &&& self.compiler_chosen(survey, built.solc_compiler)
    }

    /// The configuration of the project, from what the caller asked for and what
    /// `survey` found at the root. The sources directory of the result is the absolute
    /// path that the survey gives for the directory that the builder chooses. The
    /// call fails, in this order: if the root does not exist; with the failure of the
    /// layered configuration; if the path of a directory that is to be left out could
    /// not be resolved; if the compiler could not be had.
    pub fn build(self, survey: Survey) -> (r: Result<ProjectConfigInput, DerivationError>)
        requires
            self.surveyed(survey),
        ensures
            !survey.root_exists ==> r == Err::<ProjectConfigInput, DerivationError>(
                DerivationError::NonExistentRoot,
            ),
            survey.root_exists && survey.baseline_fails() ==> (r matches Err(why)
                && survey.baseline_failure(why)),
            survey.root_exists && !survey.baseline_fails() && survey.probe_failure() is Some ==> (r
                matches Err(DerivationError::Io(text)) && Some(text@) == survey.probe_failure()),
            survey.root_exists && !survey.baseline_fails() && survey.probe_failure() is None
                && self.compiler_failure(survey) is Some ==> (r matches Err(
                DerivationError::CompilerInstall(text),
            ) && Some(text@) == self.compiler_failure(survey)),
            survey.root_exists && !survey.baseline_fails() && survey.probe_failure() is None
                && self.compiler_failure(survey) is None ==> (r matches Ok(built) && self.builds(
                survey,
                built,
            )),
    {
        if !survey.root_exists {
            return Err(DerivationError::NonExistentRoot);
        }
        let config = match self.plan(survey.loaded, &survey.layout) {
            Ok(config) => config,
            Err(why) => {
                return Err(why);
            },
        };
        let resolved = survey.resolved;
        let mut unwanted = nested_paths(&resolved.libraries, &resolved.sources);
        push_nested_path(&mut unwanted, resolved.tests.clone(), &resolved.sources);
        push_nested_path(&mut unwanted, resolved.scripts.clone(), &resolved.sources);
        if survey.soldeer_lock {
            match push_nested_dir(&mut unwanted, survey.dependencies, &resolved.sources) {
                Err(why) => {
                    return Err(why);
                },
                Ok(()) => {},
            }
        } else {
            assert(texts(unwanted@) =~= texts(unwanted@) + Seq::<Seq<char>>::empty());
        }
        match push_nested_dir(&mut unwanted, survey.node_modules, &resolved.sources) {
            Err(why) => {
                return Err(why);
            },
            Ok(()) => {},
        }
        match push_nested_dir(&mut unwanted, survey.forge_std, &resolved.sources) {
            Err(why) => {
                return Err(why);
            },
            Ok(()) => {},
        }
        let ghost candidates = unwanted@;
        let exclude_starting = dedup(unwanted);
        proof {
            if path_absolute(resolved.sources@) {
                assert forall|k: int| 0 <= k < exclude_starting@.len() implies path_absolute(
                    (#[trigger] exclude_starting@[k])@,
                ) by {
                    assert(texts(exclude_starting@)[k] == exclude_starting@[k]@);
                    assert(texts(exclude_starting@).contains(exclude_starting@[k]@));
                    assert(texts(candidates).contains(exclude_starting@[k]@));
                    let j = choose|j: int|
                        0 <= j < texts(candidates).len() && texts(candidates)[j]
                            == exclude_starting@[k]@;
                    assert(candidates[j]@ == exclude_starting@[k]@);
                    assert(path_absolute(candidates[j]@));
                }
            }
            survey.lemma_auto_excluded();
            assert forall|i: int| 0 <= i < exclude_starting@.len() implies path_has_prefix(
                (#[trigger] exclude_starting@[i])@,
                resolved.sources@,
            ) by {
                assert(texts(exclude_starting@)[i] == exclude_starting@[i]@);
                assert(survey.auto_excluded().contains(exclude_starting@[i]@));
            }
        }
        let exclude_containing = match self.exclusion {
            ExcludeConfig::Nothing => Vec::new(),
            ExcludeConfig::Specific(list) => list,
        };
        assert(texts(exclude_containing@) =~= self.exclusion.containing());
        let include_containing = match self.inclusion {
            IncludeConfig::All => vec![String::new()],
            IncludeConfig::Specific(list) => if list.len() == 0 {
                vec![String::new()]
            } else {
                list
            },
        };
        assert(texts(include_containing@) =~= self.inclusion.containing());
        let solc_compiler = match self.solc_version {
            SolcVersionConfig::Specific(version) => match survey.pinned_binary {
                Ok(path) => SolcCompilerConfigInput::Specific(Solc::new(path, version)),
                Err(why) => {
                    return Err(DerivationError::CompilerInstall(why));
                },
            },
            SolcVersionConfig::Auto => match survey.configured_compiler {
                Ok(chosen) => chosen,
                Err(why) => {
                    return Err(DerivationError::CompilerInstall(why));
                },
            },
        };
        Ok(
            ProjectConfigInput {
                root: self.root,
                canonical_root: survey.canonical_root.clone(),
                project_paths: ProjectPaths {
                    root: survey.canonical_root,
                    sources: resolved.sources,
                    tests: resolved.tests,
                    scripts: resolved.scripts,
                    libraries: resolved.libraries,
                    remappings: resolved.remappings,
                    include_paths: resolved.include_paths,
                    allowed_paths: resolved.allowed_paths,
                },
                include_containing,
                exclude_containing,
                exclude_starting,
                skip: config.skip,
                solc_compiler,
                evm_version: config.evm_version,
            },
        )
    }
}

} // verus!
