use foundry_compilers::artifacts::EvmVersion;
use solidity_ast::artifacts::{Remapping, SourceFile, Sources};
use solidity_ast::builder::{
    DirProbe, ExcludeConfig, LayeredConfig, ProjectConfigInputBuilder, ResolvedPaths, RootLayout,
    Survey,
};
use solidity_ast::derive_ast_and_evm_info;
use solidity_ast::input::{ProjectConfigInput, SolcCompilerConfigInput};
use solidity_ast::output::{AstSourceEntry, AstSourceFile, DerivedAstEvmInfo, SolcCompilerOutput};
use solidity_ast::solc::Solc;
use solidity_ast::utils::{CompilerRun, Resolution, VersionGroup, VersionedSources};
use solidity_ast::version::Version;
use solidity_ast::walk::{source_files_iter, WalkEntry};

/// A project on disk, as plain values: its root, the marker file of its build tool,
/// the directories that its configuration names, and the listing of its sources.
struct Project {
    root: &'static str,
    foundry_toml: bool,
    hardhat_config: bool,
    src: &'static str,
    libs: Vec<&'static str>,
    remappings: Vec<(&'static str, &'static str)>,
    soldeer: bool,
    node_modules: bool,
    pinned_in_config: Option<Version>,
    /// The files of the project, by their path relative to the root.
    files: Vec<&'static str>,
    /// The files outside the sources directory that the sources import.
    imported: Vec<&'static str>,
}

fn absolute(root: &str, relative: &str) -> String {
    if relative == "." {
        root.to_string()
    } else {
        format!("{root}/{relative}")
    }
}

fn build(project: &Project, builder: ProjectConfigInputBuilder) -> ProjectConfigInput {
    let root = project.root;
    let layout = || RootLayout {
        foundry_toml: project.foundry_toml,
        hardhat_config_js: false,
        hardhat_config_ts: project.hardhat_config,
        root_entries: Ok(project
            .files
            .iter()
            .map(|f| absolute(project.root, f.split('/').next().unwrap_or(f)))
            .collect()),
        src_is_dir: project.files.iter().any(|f| f.starts_with("src/")),
        contracts_is_dir: project.files.iter().any(|f| f.starts_with("contracts/")),
    };
    let loaded = || LayeredConfig {
        src: project.src.to_string(),
        test: "test".to_string(),
        script: "script".to_string(),
        libs: project.libs.iter().map(|l| l.to_string()).collect(),
        skip: vec![],
        evm_version: EvmVersion::Cancun,
        offline: true,
    };
    // What making the directories of the planned configuration absolute gives.
    let config = builder.plan(Ok(loaded()), &layout()).unwrap();
    let resolved = ResolvedPaths {
        sources: absolute(root, &config.src),
        src_named: config.src,
        tests: absolute(root, &config.test),
        scripts: absolute(root, &config.script),
        libraries: config.libs.iter().map(|l| absolute(root, l)).collect(),
        remappings: project
            .remappings
            .iter()
            .map(|(name, path)| Remapping { context: None, name: name.to_string(), path: absolute(root, path) })
            .collect(),
        include_paths: vec![],
        allowed_paths: vec![],
    };
    let probe = |present: bool, name: &str| {
        if present {
            DirProbe::Resolved(absolute(root, name))
        } else {
            DirProbe::NotADirectory
        }
    };
    let survey = Survey {
        root_exists: true,
        canonical_root: root.to_string(),
        loaded: Ok(loaded()),
        layout: layout(),
        resolved,
        soldeer_lock: project.soldeer,
        dependencies: probe(project.soldeer, "dependencies"),
        node_modules: probe(project.node_modules, "node_modules"),
        forge_std: DirProbe::NotADirectory,
        pinned_binary: Ok("/svm/solc".to_string()),
        configured_compiler: Ok(match &project.pinned_in_config {
            Some(version) => SolcCompilerConfigInput::Specific(Solc::new("/svm/solc".to_string(), version.clone())),
            None => SolcCompilerConfigInput::AutoDetect,
        }),
    };
    builder.build(survey).unwrap()
}

/// The listing of the tree under the sources directory of the configuration.
fn listing(project: &Project, config: &ProjectConfigInput) -> Vec<WalkEntry> {
    let top = config.project_paths.sources.clone();
    let mut paths: Vec<String> = vec![top.clone()];
    for file in &project.files {
        let path = absolute(project.root, file);
        if !path.starts_with(&format!("{top}/")) {
            continue;
        }
        let mut dir = top.clone();
        let inner: Vec<&str> = path[top.len() + 1..].split('/').collect();
        for part in &inner[..inner.len() - 1] {
            dir = format!("{dir}/{part}");
            if !paths.contains(&dir) {
                paths.push(dir.clone());
            }
        }
        paths.push(path);
    }
    paths.sort();
    paths
        .iter()
        .map(|path| {
            let is_file = project.files.iter().any(|f| &absolute(project.root, f) == path);
            WalkEntry {
                path: path.clone(),
                depth: path[top.len()..].matches('/').count(),
                is_dir: !is_file,
                is_file,
                skip_matched: false,
            }
        })
        .collect()
}

fn sources_at(mut paths: Vec<String>) -> Sources {
    paths.sort();
    Sources {
        files: paths
            .into_iter()
            .map(|path| SourceFile { path, content: "pragma solidity ^0.8.0;\n".to_string() })
            .collect(),
    }
}

/// The requests for the project: its sources are read from the listing, and the
/// resolution of their imports gives all of them, with the files of
/// `project.imported`, to the one version given.
fn compiler_input(project: &Project, builder: ProjectConfigInputBuilder, resolved: Version) -> (ProjectConfigInput, Vec<VersionGroup>) {
    let config = build(project, builder);
    let files = source_files_iter(&listing(project, &config), &config).unwrap();
    let mut with_imports = files.clone();
    with_imports.extend(project.imported.iter().map(|p| absolute(project.root, p)));
    let resolution = if files.is_empty() {
        Resolution::NoSources
    } else {
        Resolution::Resolved(vec![VersionedSources {
            version: resolved,
            sources: sources_at(with_imports),
            install_failure: None,
        }])
    };
    let groups = config.solc_input_for_ast_generation(sources_at(files), resolution).unwrap();
    (config, groups)
}

fn foundry_basic() -> Project {
    Project {
        root: "/test-configs/foundry-basic",
        foundry_toml: true,
        hardhat_config: false,
        src: "src",
        libs: vec!["lib"],
        remappings: vec![("forge-std/", "lib/forge-std/src/")],
        soldeer: false,
        node_modules: false,
        pinned_in_config: None,
        files: vec!["src/Counter.sol", "test/Counter.t.sol", "script/Counter.s.sol", "lib/forge-std/src/Test.sol"],
        imported: vec![],
    }
}

fn foundry_soldeer_basic() -> Project {
    Project {
        root: "/test-configs/foundry-soldeer-basic",
        soldeer: true,
        libs: vec!["dependencies"],
        files: vec!["src/Counter.sol", "dependencies/forge-std-1.9.4/src/Test.sol"],
        ..foundry_basic()
    }
}

fn soldeer_basic() -> Project {
    Project {
        root: "/test-configs/soldeer-basic",
        foundry_toml: false,
        soldeer: true,
        libs: vec![],
        files: vec!["src/Counter.sol", "dependencies/forge-std-1.9.4/src/Test.sol"],
        ..foundry_basic()
    }
}

fn foundry_soldeer_dep() -> Project {
    Project {
        root: "/test-configs/foundry-soldeer-dep",
        soldeer: true,
        libs: vec!["dependencies"],
        remappings: vec![("@openzeppelin/", "dependencies/@openzeppelin-contracts-5.0.2/")],
        files: vec!["src/Token.sol", "dependencies/@openzeppelin-contracts-5.0.2/token/ERC20.sol"],
        ..foundry_basic()
    }
}

fn hardhat_basic() -> Project {
    Project {
        root: "/test-configs/hardhat-basic",
        foundry_toml: false,
        hardhat_config: true,
        src: "contracts",
        libs: vec!["node_modules"],
        remappings: vec![],
        node_modules: true,
        files: vec!["contracts/Lock.sol", "contracts/Vault.sol", "node_modules/hardhat/console.sol"],
        ..foundry_basic()
    }
}

fn hardhat_mini() -> Project {
    Project {
        root: "/test-configs/hardhat-mini",
        files: vec![
            "contracts/Counter.sol",
            "contracts/Counter.t.sol",
            "contracts/ReverseCounter.sol",
            "contracts/ReverseCounter.t.sol",
            "node_modules/hardhat/console.sol",
            "src/console.sol",
            "src/console2.sol",
        ],
        imported: vec!["src/console.sol", "src/console2.sol"],
        ..hardhat_basic()
    }
}

fn foundry_fix_version() -> Project {
    Project {
        root: "/test-configs/foundry-fix-version",
        pinned_in_config: Some(Version::new(0, 8, 15)),
        files: vec!["src/Counter.sol"],
        ..foundry_basic()
    }
}

fn check_inputs(project: Project, groups_expected: usize, sources_expected: Option<usize>) {
    let builder = ProjectConfigInputBuilder::new(project.root);
    let (_, c) = compiler_input(&project, builder, Version::new(0, 8, 28));
    assert_eq!(c.len(), groups_expected); // 1 version group
    if let Some(expected) = sources_expected {
        let values = c.first().expect("No files found");
        assert_eq!(values.input.sources.len(), expected);
    }
}

fn check_fixed_version() {
    let project = foundry_fix_version();
    let (_, c) = compiler_input(&project, ProjectConfigInputBuilder::new(project.root), Version::new(0, 8, 28));
    assert_eq!(c.len(), 1); // 1 version group
    let version = &c.first().expect("no version group found").version;
    assert_eq!(version.major(), 0); // as the layered configuration declares
    assert_eq!(version.minor(), 8);
    assert_eq!(version.patch(), 15);
    let values = c.first().expect("No files found");
    assert_eq!(values.input.sources.len(), 1);
}

#[test]
fn project_config_tests_compiler_input() {
    check_inputs(foundry_basic(), 1, None);
    check_inputs(foundry_soldeer_basic(), 1, None);
    check_inputs(soldeer_basic(), 1, None);
    check_inputs(foundry_soldeer_dep(), 1, Some(1));
    check_inputs(Project { remappings: vec![], ..foundry_soldeer_dep() }, 1, Some(1));
    check_inputs(hardhat_basic(), 1, Some(2));
    check_fixed_version();
}

#[test]
fn pre_ast_tests_compiler_input() {
    check_inputs(foundry_basic(), 1, None);
    check_inputs(foundry_soldeer_basic(), 1, None);
    check_inputs(soldeer_basic(), 1, None);
    check_inputs(foundry_soldeer_dep(), 1, Some(1));
    check_inputs(Project { remappings: vec![], ..foundry_soldeer_dep() }, 1, Some(1));
    check_inputs(hardhat_basic(), 1, Some(2));

    // A project without a known build tool, with files left out by text.
    let project = hardhat_mini();
    let builder = ProjectConfigInputBuilder::new(project.root)
        .with_exclude(ExcludeConfig::Specific(vec![".t.sol".to_string()]));
    let (_, c) = compiler_input(&project, builder, Version::new(0, 8, 28));
    assert_eq!(c.len(), 1); // 1 version group
    let values = c.first().expect("No files found");
    let source_files: Vec<&String> = values.input.sources.files.iter().map(|f| &f.path).collect();
    assert!(source_files[0].ends_with("contracts/Counter.sol"));
    assert!(source_files[1].ends_with("contracts/ReverseCounter.sol"));
    assert!(source_files[2].ends_with("src/console.sol"));
    assert!(source_files[3].ends_with("src/console2.sol"));
    assert_eq!(source_files.len(), 4);

    check_fixed_version();
}

/// The derivation for the project, with a compiler that answers with a syntax tree
/// for every file of its request.
fn ast_info(project: Project) -> DerivedAstEvmInfo {
    let builder = ProjectConfigInputBuilder::new(project.root);
    let (config, groups) = compiler_input(&project, builder, Version::new(0, 8, 28));
    let runs = groups
        .into_iter()
        .map(|group| {
            let paths: Vec<String> = group.input.sources.files.iter().map(|f| f.path.clone()).collect();
            let output = SolcCompilerOutput {
                errors: vec![],
                sources: paths
                    .into_iter()
                    .enumerate()
                    .map(|(id, path)| AstSourceEntry {
                        path,
                        file: AstSourceFile { id: id as u32, ast: Some("{\"nodeType\":\"SourceUnit\"}".to_string()) },
                    })
                    .collect(),
            };
            CompilerRun { version: group.version, solc_input: group.input, outcome: Ok(output), skipped: vec![] }
        })
        .collect();
    derive_ast_and_evm_info(&config, runs).unwrap()
}

#[test]
fn ast_tests_ast_info_function() {
    let ast_info_basic = ast_info(foundry_basic());
    assert_eq!(ast_info_basic.versioned_asts.len(), 1);
    let ast_group = ast_info_basic.versioned_asts.first().expect("no group found");
    let sources = &ast_group.compiler_output.sources;
    assert!(!sources.is_empty());
    for ast_file in sources.iter().map(|e| &e.file) {
        assert!(ast_file.ast.as_ref().is_some_and(|s| !s.is_empty()));
    }
    assert_eq!(ast_group.included_files, vec!["/test-configs/foundry-basic/src/Counter.sol".to_string()]);

    // A project whose source imports a file that is reached through a link.
    let symlink = Project {
        root: "/test-configs/foundry-symlink",
        files: vec!["src/Counter.sol", "lib/linked/Helper.sol"],
        imported: vec!["lib/linked/Helper.sol"],
        ..foundry_basic()
    };
    let ast_info_symlink = ast_info(symlink);
    let ast_group = ast_info_symlink.versioned_asts.first().expect("no group found");
    let sources = &ast_group.compiler_output.sources;
    assert_eq!(sources.len(), 2);
    for ast_file in sources.iter().map(|e| &e.file) {
        assert!(ast_file.ast.as_ref().is_some_and(|s| !s.is_empty()));
    }
    assert_eq!(ast_group.included_files, vec!["/test-configs/foundry-symlink/src/Counter.sol".to_string()]);

    // A project with two sources of the same name in different directories.
    let dupsource = Project {
        root: "/test-configs/hardhat-dupsource",
        files: vec!["contracts/Lock.sol", "contracts/a/Lock.sol", "node_modules/hardhat/console.sol"],
        imported: vec!["node_modules/hardhat/console.sol"],
        ..hardhat_basic()
    };
    let ast_info_dupsource = ast_info(dupsource);
    let ast_group = ast_info_dupsource.versioned_asts.first().expect("no group found");
    let sources = &ast_group.compiler_output.sources;
    assert_eq!(sources.len(), 3);
    for ast_file in sources.iter().map(|e| &e.file) {
        assert!(ast_file.ast.as_ref().is_some_and(|s| !s.is_empty()));
    }
    assert_eq!(ast_group.included_files.len(), 2);
}
