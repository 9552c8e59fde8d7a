//! The failures that end a pipeline run.

use vstd::prelude::*;

verus! {

/// Why a run of the pipeline was given up.
#[derive(Debug, PartialEq, Eq)]
pub enum PipelineError {
    /// The flags string has unbalanced quoting or a dangling escape.
    MalformedInput,
    /// No compile command was given.
    EmptyInput,
    /// Two compile commands name different compilers.
    InconsistentCompiler,
    /// A compile command starts its flags with a token that is no flag, so
    /// the token belongs to no group.
    UngroupedArgument,
    /// A flag holds a NUL character and cannot be quoted for a shell.
    UnquotableFlag,
    /// A parameter of a macro wrapper is declared without a name.
    UnnamedParameter,
    /// The compiler is not one whose flags the extractor understands.
    UnsupportedCompiler,
    /// The declaration extractor rejected the header; holds its reason.
    GenerationFailed(String),
    /// The transpiler exited unsuccessfully; holds its exit code.
    TranspileFailed(i32),
}

impl PipelineError {
    /// A one-line description for the person running the build.
    pub fn message(&self) -> (text: String)
        ensures
            text@ == match *self {
                PipelineError::MalformedInput => "the compiler flags are not valid shell words"@,
                PipelineError::EmptyInput => "no compile commands were given"@,
                PipelineError::InconsistentCompiler => "the compile commands name different compilers"@,
                PipelineError::UngroupedArgument => "compiler flags must start with a dash"@,
                PipelineError::UnquotableFlag => "a compiler flag holds a NUL character"@,
                PipelineError::UnnamedParameter => "the parameters of a macro wrapper need names"@,
                PipelineError::UnsupportedCompiler => "only clang style compiler flags are accepted"@,
                PipelineError::GenerationFailed(reason) => "unable to generate bindings: "@ + reason@,
                PipelineError::TranspileFailed(_) => "the transpiler failed"@,
            },
    {
        match self {
            PipelineError::MalformedInput => "the compiler flags are not valid shell words".to_owned(),
            PipelineError::EmptyInput => "no compile commands were given".to_owned(),
            PipelineError::InconsistentCompiler => "the compile commands name different compilers".to_owned(),
            PipelineError::UngroupedArgument => "compiler flags must start with a dash".to_owned(),
            PipelineError::UnquotableFlag => "a compiler flag holds a NUL character".to_owned(),
            PipelineError::UnnamedParameter => "the parameters of a macro wrapper need names".to_owned(),
            PipelineError::UnsupportedCompiler => "only clang style compiler flags are accepted".to_owned(),
            PipelineError::GenerationFailed(reason) => {
                let mut text = "unable to generate bindings: ".to_owned();
                text.append(reason.as_str());
                text
            },
            PipelineError::TranspileFailed(_) => "the transpiler failed".to_owned(),
        }
    }
}

} // verus!
