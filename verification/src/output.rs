//! What a derivation gives back: per compiler version the compiler's answer and the
//! files of it that are in scope.

use crate::artifacts::Sources;
use crate::error::DerivationError;
use crate::text::texts;
use crate::version::Version;
use foundry_compilers::artifacts::EvmVersion;
use vstd::prelude::*;
use vstd::utf8::{decode_utf8, valid_utf8};

verus! {

/// The syntax tree of one source file, as the compiler gave it.
#[derive(Clone, Debug, PartialEq, Eq)]
pub struct AstSourceFile {
    /// The number that the compiler gave the file.
    pub id: u32,
    /// The syntax tree as JSON text; `None` where the compiler gave `null`.
    pub ast: Option<String>,
}

/// One entry of the compiler's answer: a file, by the path under which the compiler
/// reports it, and its syntax tree.
#[derive(Clone, Debug, PartialEq, Eq)]
pub struct AstSourceEntry {
    /// The path under which the compiler reports the file.
    pub path: String,
    /// The syntax tree of the file.
    pub file: AstSourceFile,
}

/// The answer of one compiler run.
#[derive(Clone, Debug, PartialEq, Eq)]
pub struct SolcCompilerOutput {
    /// What the compiler reported: errors, warnings and notes.
    pub errors: Vec<foundry_compilers::artifacts::Error>,
    /// The syntax trees, one entry per file.
    pub sources: Vec<AstSourceEntry>,
}

/// The outcome for the sources of one compiler version.
#[derive(Clone, Debug, PartialEq, Eq)]
pub struct VersionedAstOutputs {
    /// The compiler version that compiled the sources.
    pub version: Version,
    /// The answer of the compiler.
    pub compiler_output: SolcCompilerOutput,
    /// The files of the answer that are in scope, each once.
    pub included_files: Vec<String>,
    /// The sources that went to the compiler.
    pub sources: Sources,
}

/// The outcome of a derivation.
#[derive(Clone, Debug, PartialEq, Eq)]
pub struct DerivedAstEvmInfo {
    /// The outcomes, one per compiler version.
    pub versioned_asts: Vec<VersionedAstOutputs>,
    /// The EVM version of the project.
    pub evm_version: EvmVersion,
}

/// The text with which `String::from_utf8` refuses bytes that are not UTF-8.
pub uninterp spec fn utf8_failure(bytes: Seq<u8>) -> Seq<char>;

/// Calls `String::from_utf8`: the text that the bytes encode, if they are UTF-8; else
/// the text of the refusal.
#[verifier::external_body]
fn utf8_text(bytes: Vec<u8>) -> (r: Result<String, String>)
    ensures
        r.is_ok() == valid_utf8(bytes@),
        r matches Ok(text) ==> text@ == decode_utf8(bytes@),
        r matches Err(why) ==> why@ == utf8_failure(bytes@),
{
    String::from_utf8(bytes).map_err(|e| e.to_string())
}

/// The output of a compiler run as text: the text that the bytes encode, if they are
/// UTF-8; else the failure.
pub fn decode_output(bytes: Vec<u8>) -> (r: Result<String, DerivationError>)
    ensures
        valid_utf8(bytes@) ==> (r matches Ok(text) && text@ == decode_utf8(bytes@)),
        !valid_utf8(bytes@) ==> (r matches Err(DerivationError::MalformedOutput(why)) && why@
            == utf8_failure(bytes@)),
{
    match utf8_text(bytes) {
        Ok(text) => Ok(text),
        Err(why) => Err(DerivationError::MalformedOutput(why)),
    }
}

impl SolcCompilerOutput {
    /// The paths of the entries, in their order.
    pub open spec fn paths(&self) -> Seq<Seq<char>> {
        self.sources@.map_values(|e: AstSourceEntry| e.path@)
    }

    /// No path is held twice: the entries are a map from paths to syntax trees.
    pub open spec fn wf(&self) -> bool {
        self.paths().no_duplicates()
    }
}

impl VersionedAstOutputs {
    /// The answer and the sources each hold no path twice, and no file is listed
    /// twice as in scope.
    pub open spec fn wf(&self) -> bool {
        &&& self.compiler_output.wf()
        &&& self.sources.wf()
        &&& texts(self.included_files@).no_duplicates()
    }
}

/// The syntax tree of a source as the answer of the compiler holds it: nothing where
/// the compiler gave `null`, else the JSON text of what it gave.
pub fn ast_payload(is_null: bool, text: String) -> (r: Option<String>)
    ensures
        r == (if is_null {
            None::<String>
        } else {
            Some(text)
        }),
{
    if is_null {
        None
    } else {
        Some(text)
    }
}

} // verus!
