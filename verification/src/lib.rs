//! Resolution of Solidity project configurations and grouping of their sources by
//! compiler version, for the derivation of syntax trees.

pub mod artifacts;
pub mod builder;
pub mod case;
pub mod command;
pub mod error;
pub mod input;
pub mod output;
pub mod path;
pub mod solc;
pub mod text;
pub mod utils;
pub mod version;
pub mod walk;

pub use crate::builder::{
    ExcludeConfig, IncludeConfig, ProjectConfigInputBuilder, SolcVersionConfig, SourcesConfig,
};
pub use crate::case::Case;
pub use crate::command::compile_output;
pub use crate::input::{ProjectConfigInput, SolcCompilerConfigInput};
pub use crate::output::{
    AstSourceFile, DerivedAstEvmInfo, SolcCompilerOutput, VersionedAstOutputs,
};
pub use crate::walk::source_files_iter;

use crate::error::DerivationError;
use crate::utils::CompilerRun;
use vstd::prelude::*;

verus! {

/// The outcome of a derivation for the project of `config`, from the runs of the
/// compilers: the outcomes of all runs, in their order, with the EVM version of the
/// project; or the failure of the first run that has no outcome, if there is such a
/// run. With a sources directory under the resolved root, the call succeeds where
/// every run has an answer.
pub fn derive_ast_and_evm_info(config: &ProjectConfigInput, runs: Vec<CompilerRun>) -> (r: Result<
    DerivedAstEvmInfo,
    DerivationError,
>)
    ensures
        config.rooted() && (forall|k: int|
            0 <= k < runs@.len() ==> (#[trigger] runs@[k]).outcome is Ok) ==> r is Ok,
        match r {
            Ok(info) => info.evm_version == config.evm_version && info.versioned_asts@.len()
                == runs@.len() && forall|k: int|
                0 <= k < runs@.len() ==> config.run_tagged(
                    runs@[k],
                    #[trigger] info.versioned_asts@[k],
                ),
            Err(why) => exists|i: int|
                0 <= i < runs@.len() && #[trigger] config.run_fails(runs@[i])
                    && config.run_failure(runs@[i], why) && forall|k: int|
                    0 <= k < i ==> !config.run_fails(runs@[k]),
        },
{
    match config.make_asts(runs) {
        Ok(asts) => Ok(DerivedAstEvmInfo { versioned_asts: asts, evm_version: config.evm_version }),
        Err(why) => Err(why),
    }
}

} // verus!
