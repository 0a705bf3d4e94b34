//! Typed failures, one per pipeline stage.

use vstd::prelude::*;
use vstd::string::StringExecFns;

verus! {

/// A probe failure, classified by the stage that produced it. The three
/// environment failures carry the runtime's diagnostic text; the three
/// build-stage failures carry the sandboxed command's captured output with
/// the sentinel token stripped.
#[derive(Debug)]
pub enum CheckError {
    ImagePullError,
    ContainerCreateError { output: String },
    ContainerStartError { output: String },
    UnzipError { output: String },
    MakeError { output: String },
    FindError { output: String },
}

impl CheckError {
    /// The human-readable diagnostic for this failure: a fixed prefix naming
    /// the stage, followed by the stage's captured output where one exists.
    pub open spec fn spec_message(self) -> Seq<char> {
        match self {
            CheckError::ImagePullError => "Failed to pull image"@,
            CheckError::ContainerCreateError { output } => "Failed to create container: "@
                + output@,
            CheckError::ContainerStartError { output } => "Failed to start container: "@ + output@,
            CheckError::UnzipError { output } => "Failed to unzip: "@ + output@,
            CheckError::MakeError { output } => "Failed to make: "@ + output@,
            CheckError::FindError { output } => "Failed to find executables: "@ + output@,
        }
    }

    /// Renders the diagnostic text for this failure.
    pub fn message(&self) -> (r: String)
        ensures
            r@ == self.spec_message(),
    {
        match self {
            CheckError::ImagePullError => "Failed to pull image".to_owned(),
            CheckError::ContainerCreateError { output } => "Failed to create container: "
                .to_owned()
                .concat(output.as_str()),
            CheckError::ContainerStartError { output } => "Failed to start container: "
                .to_owned()
                .concat(output.as_str()),
            CheckError::UnzipError { output } => "Failed to unzip: ".to_owned().concat(
                output.as_str(),
            ),
            CheckError::MakeError { output } => "Failed to make: ".to_owned().concat(
                output.as_str(),
            ),
            CheckError::FindError { output } => "Failed to find executables: ".to_owned().concat(
                output.as_str(),
            ),
        }
    }
}

} // verus!
