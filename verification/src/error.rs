//! The ways in which a derivation fails.

use vstd::prelude::*;

verus! {

/// Why a derivation stopped. The texts are those of the part that failed, kept as they
/// came.
#[derive(Clone, Debug, PartialEq, Eq)]
pub enum DerivationError {
    /// The root directory does not exist.
    NonExistentRoot,
    /// The layered configuration of the root could not be read.
    ConfigLoad(String),
    /// The imports of the sources could not be resolved to compiler versions.
    GraphResolution(String),
    /// A compiler binary could not be found or fetched.
    CompilerInstall(String),
    /// The compiler ended with a failure; the text is what it wrote to its error
    /// stream.
    CompilerInvocation(String),
    /// The compiler's output is not UTF-8, or not JSON of the expected shape.
    MalformedOutput(String),
    /// A file or directory could not be read.
    Io(String),
    /// The file at this path lies in the sources directory, is not left out, and does
    /// not lie under the resolved root, so that it has no path relative to the root.
    OutsideRoot(String),
}

impl DerivationError {
    /// The text that describes the failure.
    pub open spec fn message_spec(self) -> Seq<char> {
        match self {
            DerivationError::NonExistentRoot => "Non existent root"@,
            DerivationError::ConfigLoad(m) => m@,
            DerivationError::GraphResolution(m) => m@,
            DerivationError::CompilerInstall(m) => m@,
            DerivationError::CompilerInvocation(m) => m@,
            DerivationError::MalformedOutput(m) => m@,
            DerivationError::Io(m) => m@,
            DerivationError::OutsideRoot(path) => path@,
        }
    }

    /// The text that describes the failure.
    pub fn message(&self) -> (r: String)
        ensures
            r@ == self.message_spec(),
    {
        match self {
            DerivationError::NonExistentRoot => "Non existent root".to_owned(),
            DerivationError::ConfigLoad(m) => m.clone(),
            DerivationError::GraphResolution(m) => m.clone(),
            DerivationError::CompilerInstall(m) => m.clone(),
            DerivationError::CompilerInvocation(m) => m.clone(),
            DerivationError::MalformedOutput(m) => m.clone(),
            DerivationError::Io(m) => m.clone(),
            DerivationError::OutsideRoot(path) => path.clone(),
        }
    }
}

} // verus!
