//! The pipeline's error taxonomy.
//!
//! Every failure of the library is one of these variants; the variant carries
//! the diagnostic text verbatim so the caller can surface the underlying
//! toolchain's output, not just this pipeline's view of it.

use vstd::prelude::*;
use vstd::string::StringExecFns;

verus! {

broadcast use vstd::string::group_string_axioms;

/// A typed failure of the debug-launch resolution pipeline.
#[derive(Debug, Clone, PartialEq, Eq)]
pub enum PipelineError {
    /// A structurally unterminated construct in markup descriptor text.
    Parse { detail: String },
    /// The debugger binary was not found anywhere in the resolution chain.
    Lookup,
    /// A required configuration field is missing.
    Config { detail: String },
    /// The build exited with a non-zero status; carries the captured stderr.
    Build { exit_code: Option<i32>, stderr: String },
    /// The build succeeded but no artifact was located; carries the full
    /// captured stdout for diagnosis.
    ArtifactNotFound { stdout: String },
}

/// The rendered message of each error variant.
pub open spec fn message_model(e: PipelineError) -> Seq<char> {
    match e {
        PipelineError::Parse { detail } => "Invalid XML: "@ + detail@,
        PipelineError::Lookup => {
            "vsdbg not found. Please install .NET SDK or download vsdbg manually."@
        },
        PipelineError::Config { detail } => detail@,
        PipelineError::Build { exit_code, stderr } => {
            "dotnet build failed\nstderr: "@ + stderr@
        },
        PipelineError::ArtifactNotFound { stdout } => {
            "Could not find compiled assembly in dotnet build output.\nBuild output was:\n"@
                + stdout@
        },
    }
}

impl PipelineError {
    /// A human-readable message; diagnostic text captured from the toolchain
    /// is included verbatim.
    pub fn message(&self) -> (r: String)
        ensures
            r@ == message_model(*self),
    {
        match self {
            PipelineError::Parse { detail } => {
                String::from_str("Invalid XML: ").concat(detail.as_str())
            },
            PipelineError::Lookup => {
                String::from_str(
                    "vsdbg not found. Please install .NET SDK or download vsdbg manually.",
                )
            },
            PipelineError::Config { detail } => detail.clone(),
            PipelineError::Build { exit_code: _, stderr } => {
                String::from_str("dotnet build failed\nstderr: ").concat(stderr.as_str())
            },
            PipelineError::ArtifactNotFound { stdout } => {
                String::from_str(
                    "Could not find compiled assembly in dotnet build output.\nBuild output was:\n",
                ).concat(stdout.as_str())
            },
        }
    }
}

} // verus!
