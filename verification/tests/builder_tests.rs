use foundry_compilers::artifacts::EvmVersion;
use solidity_ast::artifacts::Remapping;
use solidity_ast::builder::{
    load_baseline_config, solidity_file_among, DirProbe, ExcludeConfig, IncludeConfig, LayeredConfig,
    ProjectConfigInputBuilder, ResolvedPaths, RootLayout, SolcVersionConfig, SourcesConfig, Survey,
};
use solidity_ast::error::DerivationError;
use solidity_ast::input::{ProjectPaths, SolcCompilerConfigInput};
use solidity_ast::solc::Solc;
use solidity_ast::version::Version;

fn texts(list: &[&str]) -> Vec<String> {
    list.iter().map(|s| s.to_string()).collect()
}

fn layered(src: &str) -> LayeredConfig {
    LayeredConfig {
        src: src.to_string(),
        test: "test".to_string(),
        script: "script".to_string(),
        libs: texts(&["lib"]),
        skip: texts(&["**/mocks/**"]),
        evm_version: EvmVersion::Shanghai,
        offline: true,
    }
}

fn layout(foundry: bool, js: bool, ts: bool, sol: Result<bool, String>, src: bool, contracts: bool) -> RootLayout {
    RootLayout {
        foundry_toml: foundry,
        hardhat_config_js: js,
        hardhat_config_ts: ts,
        root_entries: sol.map(|found| {
            if found {
                texts(&["/proj/README.md", "/proj/Counter.sol", "/proj/src"])
            } else {
                texts(&["/proj/README.md", "/proj/src", "/proj/.sol", "/proj/notes.sol.txt"])
            }
        }),
        src_is_dir: src,
        contracts_is_dir: contracts,
    }
}

fn remapping() -> Remapping {
    Remapping { context: None, name: "forge-std/".to_string(), path: "/proj/lib/forge-std/src/".to_string() }
}

/// The absolute paths of a project at `/proj` whose sources directory is named
/// `src_named`.
fn resolved(src_named: &str) -> ResolvedPaths {
    ResolvedPaths {
        src_named: src_named.to_string(),
        sources: if src_named == "." { "/proj".to_string() } else { format!("/proj/{src_named}") },
        tests: "/proj/test".to_string(),
        scripts: "/proj/script".to_string(),
        libraries: texts(&["/proj/lib"]),
        remappings: vec![remapping()],
        include_paths: texts(&["/proj/lib"]),
        allowed_paths: texts(&["/proj"]),
    }
}

fn paths(sources: &str) -> ProjectPaths {
    ProjectPaths {
        root: "/proj".to_string(),
        sources: sources.to_string(),
        tests: "/proj/test".to_string(),
        scripts: "/proj/script".to_string(),
        libraries: texts(&["/proj/lib"]),
        remappings: vec![remapping()],
        include_paths: texts(&["/proj/lib"]),
        allowed_paths: texts(&["/proj"]),
    }
}

/// The survey of a foundry project at `/proj` whose configuration names the sources
/// directory `src_named`.
fn survey(src_named: &str) -> Survey {
    Survey {
        root_exists: true,
        canonical_root: "/proj".to_string(),
        loaded: Ok(layered(src_named)),
        layout: layout(true, false, false, Ok(false), true, false),
        resolved: resolved(src_named),
        soldeer_lock: false,
        dependencies: DirProbe::NotADirectory,
        node_modules: DirProbe::NotADirectory,
        forge_std: DirProbe::NotADirectory,
        pinned_binary: Err("no version pinned".to_string()),
        configured_compiler: Ok(SolcCompilerConfigInput::AutoDetect),
    }
}

#[test]
fn marker_file_keeps_the_configured_sources() {
    for (f, j, t) in [(true, false, false), (false, true, false), (false, false, true), (true, true, true)] {
        let c = load_baseline_config(Ok(layered("src")), &layout(f, j, t, Err("unread".to_string()), false, true))
            .unwrap();
        assert_eq!(c.src, "src");
        assert_eq!(c.test, "test");
        assert!(c.offline);
    }
}

#[test]
fn without_marker_a_solidity_file_in_the_root_makes_the_root_the_sources() {
    let c = load_baseline_config(Ok(layered("src")), &layout(false, false, false, Ok(true), true, true)).unwrap();
    assert_eq!(c.src, ".");
    assert_eq!(c.libs, texts(&["lib"]));
    assert_eq!(c.skip, texts(&["**/mocks/**"]));
    assert_eq!(c.evm_version, EvmVersion::Shanghai);
}

#[test]
fn without_marker_and_solidity_file_src_is_preferred() {
    let c = load_baseline_config(Ok(layered("x")), &layout(false, false, false, Ok(false), true, true)).unwrap();
    assert_eq!(c.src, "src");
    let c = load_baseline_config(Ok(layered("x")), &layout(false, false, false, Ok(false), false, true)).unwrap();
    assert_eq!(c.src, "contracts");
    let c = load_baseline_config(Ok(layered("x")), &layout(false, false, false, Ok(false), false, false)).unwrap();
    assert_eq!(c.src, ".");
}

#[test]
fn baseline_fails_with_the_loader_and_with_the_listing() {
    let r = load_baseline_config(Err("bad toml".to_string()), &layout(true, false, false, Ok(false), true, true));
    assert_eq!(r.unwrap_err(), DerivationError::ConfigLoad("bad toml".to_string()));
    let r = load_baseline_config(Ok(layered("src")), &layout(false, false, false, Err("denied".to_string()), true, true));
    assert_eq!(r.unwrap_err(), DerivationError::Io("denied".to_string()));
    let r = load_baseline_config(Err("bad toml".to_string()), &layout(false, false, false, Err("denied".to_string()), true, true));
    assert_eq!(r.unwrap_err(), DerivationError::ConfigLoad("bad toml".to_string()));
}

#[test]
fn new_builder_asks_for_nothing_special() {
    let b = ProjectConfigInputBuilder::new("/proj");
    assert_eq!(b.root, "/proj");
    assert_eq!(b.sources, SourcesConfig::AutoDetect);
    assert_eq!(b.exclusion, ExcludeConfig::Nothing);
    assert_eq!(b.inclusion, IncludeConfig::All);
    assert_eq!(b.solc_version, SolcVersionConfig::Auto);
    assert_eq!(SourcesConfig::default(), SourcesConfig::AutoDetect);
    assert_eq!(ExcludeConfig::default(), ExcludeConfig::Nothing);
    assert_eq!(IncludeConfig::default(), IncludeConfig::All);
    assert_eq!(SolcVersionConfig::default(), SolcVersionConfig::Auto);
}

#[test]
fn setters_change_one_field() {
    let b = ProjectConfigInputBuilder::new("/proj")
        .with_sources(SourcesConfig::Specific("contracts".to_string()))
        .with_exclude(ExcludeConfig::Specific(texts(&[".t.sol"])))
        .with_include(IncludeConfig::Specific(texts(&["core/"])))
        .with_solc_version(SolcVersionConfig::Specific(Version::new(0, 8, 15)));
    assert_eq!(b.root, "/proj");
    assert_eq!(b.sources, SourcesConfig::Specific("contracts".to_string()));
    assert_eq!(b.exclusion, ExcludeConfig::Specific(texts(&[".t.sol"])));
    assert_eq!(b.inclusion, IncludeConfig::Specific(texts(&["core/"])));
    assert_eq!(b.solc_version, SolcVersionConfig::Specific(Version::new(0, 8, 15)));
    let b = b.with_include(IncludeConfig::All);
    assert_eq!(b.inclusion, IncludeConfig::All);
    assert_eq!(b.exclusion, ExcludeConfig::Specific(texts(&[".t.sol"])));
}

#[test]
fn adjust_overrides_sources_and_goes_online() {
    let b = ProjectConfigInputBuilder::new("/proj");
    let c = b.adjust(layered("src"));
    assert_eq!(c.src, "src");
    assert!(!c.offline);
    let b = b.with_sources(SourcesConfig::Specific("contracts".to_string()));
    let c = b.adjust(layered("src"));
    assert_eq!(c.src, "contracts");
    assert!(!c.offline);
    assert_eq!(c.test, "test");
    assert_eq!(c.script, "script");
}

#[test]
fn plan_chooses_the_sources_directory() {
    let marker = layout(true, false, false, Ok(false), true, true);
    let bare = layout(false, false, false, Ok(false), false, true);
    let b = ProjectConfigInputBuilder::new("/proj");
    let c = b.plan(Ok(layered("sources")), &marker).unwrap();
    assert_eq!(c.src, "sources");
    assert!(!c.offline);
    assert_eq!(c.skip, texts(&["**/mocks/**"]));
    assert_eq!(b.plan(Ok(layered("sources")), &bare).unwrap().src, "contracts");
    let b = b.with_sources(SourcesConfig::Specific("custom".to_string()));
    assert_eq!(b.plan(Ok(layered("sources")), &marker).unwrap().src, "custom");
    assert_eq!(b.plan(Ok(layered("sources")), &bare).unwrap().src, "custom");
    assert_eq!(
        b.plan(Err("bad toml".to_string()), &marker).unwrap_err(),
        DerivationError::ConfigLoad("bad toml".to_string())
    );
    let unlisted = layout(false, false, false, Err("denied".to_string()), true, true);
    assert_eq!(b.plan(Ok(layered("src")), &unlisted).unwrap_err(), DerivationError::Io("denied".to_string()));
}

#[test]
fn missing_root_fails_before_anything_else() {
    let mut s = survey("src");
    s.root_exists = false;
    s.loaded = Err("bad".to_string());
    s.node_modules = DirProbe::Failed("loop".to_string());
    let r = ProjectConfigInputBuilder::new("/proj").build(s);
    assert_eq!(r.unwrap_err(), DerivationError::NonExistentRoot);
}

#[test]
fn failures_come_in_order() {
    let mut s = survey("src");
    s.loaded = Err("bad".to_string());
    s.node_modules = DirProbe::Failed("loop".to_string());
    s.configured_compiler = Err("no solc".to_string());
    assert_eq!(
        ProjectConfigInputBuilder::new("/proj").build(s).unwrap_err(),
        DerivationError::ConfigLoad("bad".to_string())
    );

    let mut s = survey("src");
    s.layout = layout(false, false, false, Err("denied".to_string()), true, true);
    s.node_modules = DirProbe::Failed("loop".to_string());
    assert_eq!(
        ProjectConfigInputBuilder::new("/proj").build(s).unwrap_err(),
        DerivationError::Io("denied".to_string())
    );

    let mut s = survey("src");
    s.soldeer_lock = true;
    s.dependencies = DirProbe::Failed("deps".to_string());
    s.node_modules = DirProbe::Failed("modules".to_string());
    s.forge_std = DirProbe::Failed("forge".to_string());
    s.configured_compiler = Err("no solc".to_string());
    assert_eq!(
        ProjectConfigInputBuilder::new("/proj").build(s).unwrap_err(),
        DerivationError::Io("deps".to_string())
    );

    let mut s = survey("src");
    s.soldeer_lock = false;
    s.dependencies = DirProbe::Failed("deps".to_string());
    s.forge_std = DirProbe::Failed("forge".to_string());
    s.configured_compiler = Err("no solc".to_string());
    assert_eq!(
        ProjectConfigInputBuilder::new("/proj").build(s).unwrap_err(),
        DerivationError::Io("forge".to_string())
    );

    let mut s = survey("src");
    s.configured_compiler = Err("no solc".to_string());
    s.pinned_binary = Ok("/bin/solc".to_string());
    assert_eq!(
        ProjectConfigInputBuilder::new("/proj").build(s).unwrap_err(),
        DerivationError::CompilerInstall("no solc".to_string())
    );

    let mut s = survey("src");
    s.pinned_binary = Err("not found".to_string());
    let b = ProjectConfigInputBuilder::new("/proj")
        .with_solc_version(SolcVersionConfig::Specific(Version::new(0, 8, 15)));
    assert_eq!(b.build(s).unwrap_err(), DerivationError::CompilerInstall("not found".to_string()));
}

#[test]
fn plain_project_builds() {
    let c = ProjectConfigInputBuilder::new("proj").build(survey("src")).unwrap();
    assert_eq!(c.root, "proj");
    assert_eq!(c.canonical_root, "/proj");
    assert_eq!(c.project_paths, paths("/proj/src"));
    assert_eq!(c.include_containing, texts(&[""]));
    assert_eq!(c.exclude_containing, Vec::<String>::new());
    assert_eq!(c.exclude_starting, Vec::<String>::new());
    assert_eq!(c.skip, texts(&["**/mocks/**"]));
    assert_eq!(c.solc_compiler, SolcCompilerConfigInput::AutoDetect);
    assert_eq!(c.evm_version, EvmVersion::Shanghai);
    assert!(c.is_rooted());
}

#[test]
fn sources_directory_of_the_caller_decides() {
    let b = ProjectConfigInputBuilder::new("/proj").with_sources(SourcesConfig::Specific("contracts".to_string()));
    // The configuration names `src`; the survey is taken for the directory of the caller.
    let mut s = survey("src");
    s.resolved = resolved("contracts");
    let c = b.build(s).unwrap();
    assert_eq!(c.project_paths.sources, "/proj/contracts");
    assert_eq!(c.root, "/proj");
    assert!(c.is_included("/proj/contracts/A.sol", false));
    assert!(!c.is_included("/proj/src/A.sol", false));
}

#[test]
fn without_a_build_tool_the_layout_decides() {
    let mut s = survey("src");
    s.layout = layout(false, false, false, Ok(false), false, true);
    s.resolved = resolved("contracts");
    let c = ProjectConfigInputBuilder::new("/proj").build(s).unwrap();
    assert_eq!(c.project_paths.sources, "/proj/contracts");

    let mut s = survey("src");
    s.layout = layout(false, false, false, Ok(true), true, true);
    s.resolved = resolved(".");
    let c = ProjectConfigInputBuilder::new("/proj").build(s).unwrap();
    assert_eq!(c.project_paths.sources, "/proj");
}

#[test]
fn lists_of_the_caller_are_taken_as_they_are() {
    let c = ProjectConfigInputBuilder::new("/proj")
        .with_exclude(ExcludeConfig::Specific(texts(&[".t.sol", ".t.sol", "mock"])))
        .with_include(IncludeConfig::Specific(texts(&["a", "b", "a"])))
        .build(survey("src"))
        .unwrap();
    assert_eq!(c.exclude_containing, texts(&[".t.sol", ".t.sol", "mock"]));
    assert_eq!(c.include_containing, texts(&["a", "b", "a"]));
    let c = ProjectConfigInputBuilder::new("/proj")
        .with_exclude(ExcludeConfig::Specific(vec![]))
        .build(survey("src"))
        .unwrap();
    assert_eq!(c.exclude_containing, Vec::<String>::new());
}

#[test]
fn empty_include_list_includes_everything() {
    let all = ProjectConfigInputBuilder::new("/proj").build(survey("src")).unwrap();
    let empty = ProjectConfigInputBuilder::new("/proj")
        .with_include(IncludeConfig::Specific(vec![]))
        .build(survey("src"))
        .unwrap();
    assert_eq!(empty.include_containing, vec![String::new()]);
    assert_eq!(empty.include_containing, all.include_containing);
    for path in ["/proj/src/A.sol", "/proj/src/deep/B.sol", "/proj/lib/C.sol", "/proj/src"] {
        assert_eq!(empty.is_included(path, false), all.is_included(path, false));
    }
    assert!(empty.is_included("/proj/src/A.sol", false));
}

#[test]
fn directories_in_the_sources_are_left_out() {
    let mut s = survey(".");
    s.resolved.libraries = texts(&["/proj/lib", "/elsewhere/lib", "/proj/node_modules", "/project/lib"]);
    s.soldeer_lock = true;
    s.dependencies = DirProbe::Resolved("/proj/dependencies".to_string());
    s.node_modules = DirProbe::Resolved("/proj/node_modules".to_string());
    s.forge_std = DirProbe::Resolved("/proj/contracts/forge-std".to_string());
    let c = ProjectConfigInputBuilder::new("/proj").build(s).unwrap();
    assert_eq!(
        c.exclude_starting,
        texts(&[
            "/proj/lib",
            "/proj/node_modules",
            "/proj/test",
            "/proj/script",
            "/proj/dependencies",
            "/proj/contracts/forge-std",
        ])
    );
    for excluded in &c.exclude_starting {
        assert!(std::path::Path::new(excluded).starts_with(&c.project_paths.sources));
    }
}

#[test]
fn directories_outside_the_sources_are_not_listed() {
    let mut s = survey("src");
    s.soldeer_lock = true;
    s.dependencies = DirProbe::Resolved("/proj/dependencies".to_string());
    s.node_modules = DirProbe::Resolved("/proj/node_modules".to_string());
    s.forge_std = DirProbe::Resolved("/proj/contracts/forge-std".to_string());
    let c = ProjectConfigInputBuilder::new("/proj").build(s).unwrap();
    assert_eq!(c.exclude_starting, Vec::<String>::new());
}

#[test]
fn dependencies_count_only_with_a_lock_file() {
    let mut s = survey(".");
    s.soldeer_lock = false;
    s.dependencies = DirProbe::Resolved("/proj/dependencies".to_string());
    let c = ProjectConfigInputBuilder::new("/proj").build(s).unwrap();
    assert_eq!(c.exclude_starting, texts(&["/proj/lib", "/proj/test", "/proj/script"]));
}

#[test]
fn repeated_directories_are_listed_once() {
    let mut s = survey(".");
    s.resolved.libraries = texts(&["/proj/lib", "/proj/test", "/proj/lib"]);
    s.resolved.scripts = "/proj/test".to_string();
    s.node_modules = DirProbe::Resolved("/proj/lib".to_string());
    let c = ProjectConfigInputBuilder::new("/proj").build(s).unwrap();
    assert_eq!(c.exclude_starting, texts(&["/proj/lib", "/proj/test"]));
}

#[test]
fn pinned_version_gives_that_binary() {
    let mut s = survey("src");
    s.pinned_binary = Ok("/svm/0.8.15/solc".to_string());
    s.configured_compiler = Ok(SolcCompilerConfigInput::Specific(Solc::new(
        "/other/solc".to_string(),
        Version::new(0, 7, 6),
    )));
    let c = ProjectConfigInputBuilder::new("/proj")
        .with_solc_version(SolcVersionConfig::Specific(Version::new(0, 8, 15)))
        .build(s)
        .unwrap();
    assert_eq!(
        c.solc_compiler,
        SolcCompilerConfigInput::Specific(Solc::new("/svm/0.8.15/solc".to_string(), Version::new(0, 8, 15)))
    );
}

#[test]
fn without_pin_the_configuration_chooses() {
    let mut s = survey("src");
    s.pinned_binary = Ok("/svm/0.8.15/solc".to_string());
    s.configured_compiler = Ok(SolcCompilerConfigInput::Specific(Solc::new(
        "/other/solc".to_string(),
        Version::new(0, 7, 6),
    )));
    let c = ProjectConfigInputBuilder::new("/proj").build(s).unwrap();
    assert_eq!(
        c.solc_compiler,
        SolcCompilerConfigInput::Specific(Solc::new("/other/solc".to_string(), Version::new(0, 7, 6)))
    );
}

#[test]
fn dependency_directory_is_out_of_scope_after_the_build() {
    // A root with a lock file of the dependency manager and its directory inside the
    // sources directory.
    let mut s = survey(".");
    s.soldeer_lock = true;
    s.dependencies = DirProbe::Resolved("/proj/dependencies".to_string());
    let c = ProjectConfigInputBuilder::new("/proj").build(s).unwrap();
    assert!(c.exclude_starting.contains(&"/proj/dependencies".to_string()));
    assert!(!c.is_included("/proj/dependencies/forge-std/src/Test.sol", false));
    assert!(c.is_included("/proj/Counter.sol", false));
}

#[test]
fn excluded_directories_are_absolute_with_the_sources() {
    let mut s = survey(".");
    s.soldeer_lock = true;
    s.dependencies = DirProbe::Resolved("/proj/dependencies".to_string());
    s.resolved.libraries = texts(&["/proj/lib", "lib", "proj/lib"]);
    let c = ProjectConfigInputBuilder::new("/proj").build(s).unwrap();
    assert!(c.has_absolute_sources());
    assert_eq!(c.exclude_starting, texts(&["/proj/lib", "/proj/test", "/proj/script", "/proj/dependencies"]));
    for excluded in &c.exclude_starting {
        assert!(std::path::Path::new(excluded).is_absolute());
    }
    let mut relative = c;
    relative.project_paths.sources = "src".to_string();
    assert!(!relative.has_absolute_sources());
}

#[test]
fn solidity_file_is_told_by_its_extension() {
    assert!(solidity_file_among(&texts(&["/proj/a.txt", "/proj/Counter.sol"])));
    assert!(solidity_file_among(&texts(&["Counter.sol"])));
    assert!(solidity_file_among(&texts(&["/proj/dir.sol"])));
    assert!(solidity_file_among(&texts(&["/proj/a.b.sol"])));
    assert!(!solidity_file_among(&texts(&["/proj/.sol", "/proj/sol", "/proj/a.sol.bak", "/proj/a.SOL"])));
    assert!(!solidity_file_among(&texts(&["/proj/src.sol/readme"])));
    assert!(!solidity_file_among(&Vec::new()));
}
