//! What goes to the compiler and what the project hands through to it: sources,
//! remappings, and the compiler's own settings.

use crate::version::{Version, VersionView};
use foundry_compilers::artifacts::output_selection::OutputSelection;
use foundry_compilers::artifacts::{
    EvmVersion, Settings, SolcLanguage, Source, StandardJsonCompilerInput,
};
use std::path::PathBuf;
use vstd::prelude::*;

verus! {

/// The EVM version of a project, as the compiler crate names it. The library hands it
/// through and never looks inside.
#[verifier::external_type_specification]
#[verifier::external_body]
pub struct ExEvmVersion(EvmVersion);

/// `clone` of the EVM version, a type that is `Copy`: the copy is the value itself.
pub assume_specification[ <EvmVersion as Clone>::clone ](version: &EvmVersion) -> (r: EvmVersion)
    ensures
        r == *version,
;

/// The settings object of a compiler request. The library builds it by the compiler
/// crate's own functions and never looks inside.
#[verifier::external_type_specification]
#[verifier::external_body]
pub struct ExSettings(Settings);

/// The output selection of a compiler request.
#[verifier::external_type_specification]
#[verifier::external_body]
pub struct ExOutputSelection(OutputSelection);

/// A compiler request in the form that lists the sources in a fixed order. The library
/// builds it by the compiler crate's own conversion and never looks inside.
#[verifier::external_type_specification]
#[verifier::external_body]
pub struct ExStandardJsonCompilerInput(StandardJsonCompilerInput);

/// A diagnostic that the compiler reported for a source. The library hands it through
/// and never looks inside.
#[verifier::external_type_specification]
#[verifier::external_body]
pub struct ExCompilerDiagnostic(foundry_compilers::artifacts::Error);

/// A rule that rewrites the prefix of an import path to a place on disk.
#[derive(Clone, Debug, PartialEq, Eq)]
pub struct Remapping {
    /// The importing files that the rule is limited to, if any.
    pub context: Option<String>,
    /// The prefix that is rewritten.
    pub name: String,
    /// What the prefix is rewritten to.
    pub path: String,
}

/// One source file: where it is, and what it holds.
#[derive(Clone, Debug, PartialEq, Eq)]
pub struct SourceFile {
    /// The absolute path of the file.
    pub path: String,
    /// The text of the file.
    pub content: String,
}

/// A set of source files, keyed by path.
#[derive(Clone, Debug, PartialEq, Eq)]
pub struct Sources {
    /// The files.
    pub files: Vec<SourceFile>,
}

/// A request to the compiler for the syntax trees of a set of sources.
#[derive(Debug)]
pub struct SolcInput {
    /// The sources to compile.
    pub sources: Sources,
    /// The settings: syntax trees as the only output, the remappings, and whatever the
    /// compiler version asks to leave out.
    pub settings: Settings,
}

/// What a remapping is, as plain values.
pub struct RemappingView {
    /// The importing files that the rule is limited to, if any.
    pub context: Option<Seq<char>>,
    /// The prefix that is rewritten.
    pub name: Seq<char>,
    /// What the prefix is rewritten to.
    pub path: Seq<char>,
}

impl View for Remapping {
    type V = RemappingView;

    open spec fn view(&self) -> RemappingView {
        RemappingView {
            context: match self.context {
                Some(c) => Some(c@),
                None => None,
            },
            name: self.name@,
            path: self.path@,
        }
    }
}

/// The remappings of a list, each as plain values.
pub open spec fn remapping_views(list: Seq<Remapping>) -> Seq<RemappingView> {
    list.map_values(|r: Remapping| r@)
}

/// What an output selection holds: for each file pattern, and under it for each
/// contract pattern, the outputs that are asked for.
pub uninterp spec fn selection_entries(selection: OutputSelection) -> Map<
    Seq<char>,
    Map<Seq<char>, Seq<Seq<char>>>,
>;

/// The settings that `Settings::new` makes for an output selection: the defaults of
/// the compiler crate, with that selection.
pub uninterp spec fn settings_selecting(selection: OutputSelection) -> Settings;

/// The settings with the given remappings in place of their own.
pub uninterp spec fn settings_remapped(settings: Settings, remappings: Seq<RemappingView>)
    -> Settings;

/// The settings as `Settings::sanitized` leaves them for Solidity sources and the
/// compiler of the given version.
pub uninterp spec fn settings_sanitized(settings: Settings, version: VersionView) -> Settings;

/// The standard JSON form of the request for Solidity with the given sources, each a
/// path and a content, and the given settings.
pub uninterp spec fn standard_json_form(sources: Seq<(Seq<char>, Seq<char>)>, settings: Settings)
    -> StandardJsonCompilerInput;

/// The selection that asks for syntax trees only: for every file, no output for any
/// contract, and the syntax tree for the file itself.
pub open spec fn ast_only_selection() -> Map<Seq<char>, Map<Seq<char>, Seq<Seq<char>>>> {
    map!["*"@ => map!["*"@ => Seq::<Seq<char>>::empty(), ""@ => seq!["ast"@]]]
}

/// Whether the settings are those of a request for syntax trees: the defaults of the
/// compiler crate with the selection of syntax trees only, then the given
/// remappings, then sanitized for the compiler of the given version.
pub open spec fn is_ast_settings(
    settings: Settings,
    remappings: Seq<Remapping>,
    version: VersionView,
) -> bool {
    exists|selection: OutputSelection| #[trigger]
        selection_entries(selection) == ast_only_selection() && settings == settings_sanitized(
            settings_remapped(settings_selecting(selection), remapping_views(remappings)),
            version,
        )
}

impl Sources {
    /// The files, each as its path and its content, in their order.
    pub open spec fn entries(&self) -> Seq<(Seq<char>, Seq<char>)> {
        self.files@.map_values(|f: SourceFile| (f.path@, f.content@))
    }

    /// The paths of the files, in their order.
    pub open spec fn paths(&self) -> Seq<Seq<char>> {
        self.files@.map_values(|f: SourceFile| f.path@)
    }

    /// No path is held twice.
    pub open spec fn wf(&self) -> bool {
        self.paths().no_duplicates()
    }

    /// No sources.
    pub fn new() -> (r: Sources)
        ensures
            r.files@.len() == 0,
            r.wf(),
    {
        Sources { files: Vec::new() }
    }

    /// How many files there are.
    pub fn len(&self) -> (r: usize)
        ensures
            r == self.files@.len(),
    {
        self.files.len()
    }

    /// Whether there is no file.
    pub fn is_empty(&self) -> (r: bool)
        ensures
            r == (self.files@.len() == 0),
    {
        self.files.len() == 0
    }
}

/// Calls `OutputSelection::ast_output_selection`: the selection that asks for the
/// syntax tree of every source and for nothing else. It holds one file pattern, `*`,
/// and under it the contract pattern `*` with no output and the empty pattern with
/// the output `ast`.
#[verifier::external_body]
fn ast_output_selection() -> (r: OutputSelection)
    ensures
        selection_entries(r) == ast_only_selection(),
{
    OutputSelection::ast_output_selection()
}

/// Calls `Settings::new`: default settings with the given output selection.
#[verifier::external_body]
fn new_settings(selection: OutputSelection) -> (r: Settings)
    ensures
        r == settings_selecting(selection),
{
    Settings::new(selection)
}

/// Writes the remappings into the `remappings` field of the settings, each as the
/// compiler crate's own remapping with the same three fields.
#[verifier::external_body]
fn with_remappings(settings: Settings, remappings: &Vec<Remapping>) -> (r: Settings)
    ensures
        r == settings_remapped(settings, remapping_views(remappings@)),
{
    let mut settings = settings;
    settings.remappings = remappings
        .iter()
        .map(|r| foundry_compilers::artifacts::remappings::Remapping {
            context: r.context.clone(),
            name: r.name.clone(),
            path: r.path.clone(),
        })
        .collect();
    settings
}

/// Calls `Settings::sanitized` for Solidity sources: the settings without what the
/// compiler of the given version does not know. The version goes to it as a value of
/// semver with the same five parts: every version holds a tag and metadata that
/// semver accepts.
#[verifier::external_body]
fn sanitized(settings: Settings, version: &Version) -> (r: Settings)
    ensures
        r == settings_sanitized(settings, version@),
{
    let version = semver::Version {
        major: version.major(),
        minor: version.minor(),
        patch: version.patch(),
        pre: semver::Prerelease::new(version.pre()).unwrap_or_default(),
        build: semver::BuildMetadata::new(version.build()).unwrap_or_default(),
    };
    settings.sanitized(&version, SolcLanguage::Solidity)
}

/// Calls the compiler crate's conversion of a request into its standard JSON form,
/// on the request for Solidity with the same sources and settings.
#[verifier::external_body]
pub(crate) fn standard_json_of(input: SolcInput) -> (r: StandardJsonCompilerInput)
    ensures
        r == standard_json_form(input.sources.entries(), input.settings),
{
    let sources = input.sources.files.into_iter().map(
        |f| (PathBuf::from(f.path), Source::new(f.content)),
    ).collect();
    StandardJsonCompilerInput::from(
        foundry_compilers::artifacts::SolcInput {
            language: SolcLanguage::Solidity,
            sources,
            settings: input.settings,
        },
    )
}

/// The request for the syntax trees of `sources` from the compiler of the given
/// version: the sources as they are, and settings that ask for syntax trees only,
/// carry the given remappings and are sanitized for the version.
pub fn create_standard_json_for_ast(
    sources: Sources,
    remappings: &Vec<Remapping>,
    version: &Version,
) -> (r: SolcInput)
    ensures
        r.sources == sources,
        is_ast_settings(r.settings, remappings@, version@),
{
    let selection = ast_output_selection();
    let ghost asked = selection;
    let settings = new_settings(selection);
    let settings = with_remappings(settings, remappings);
    let settings = sanitized(settings, version);
    assert(selection_entries(asked) == ast_only_selection());
    SolcInput { sources, settings }
}

} // verus!
