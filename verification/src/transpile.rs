//! What the transpiler is asked to do, and what its outcome means.

use crate::consensus::{CommandModel, CompileCommandEntry};
use crate::error::PipelineError;
use crate::text::{chars_of, contains, occurs, strings_view};
use vstd::prelude::*;

verus! {

/// The compiler named in the transpiler's compile command. The transpiler
/// reads the flags and the file and never runs the compiler.
pub open spec fn placeholder_compiler() -> Seq<char> {
    "any-cc"@
}

/// The compile command that describes the augmented header to the
/// transpiler: the flags, then the header itself.
pub open spec fn transpile_command(
    flags: Seq<Seq<char>>,
    header: Seq<char>,
    directory: Seq<char>,
) -> CommandModel {
    CommandModel {
        compiler: placeholder_compiler(),
        arguments: flags.push(header),
        directory,
        file: header,
    }
}

/// What the transpiler is started with: the subcommand, the compile
/// commands file, and the requests to keep functions that look unused, to
/// write modules, to write for a freestanding target, to turn object-like
/// macros into constants, to overwrite earlier output and to fail on errors.
pub open spec fn transpiler_arguments(compile_commands: Seq<char>) -> Seq<Seq<char>> {
    seq![
        "transpile"@,
        compile_commands,
        "--preserve-unused-functions"@,
        "--emit-modules"@,
        "--emit-no-std"@,
        "--translate-const-macros"@,
        "--overwrite-existing"@,
        "--fail-on-error"@,
    ]
}

/// What the end of the transpiler's process means for the pipeline: an
/// unsuccessful end is fatal and carries the exit code, or 1 where the
/// process has none.
pub open spec fn transpile_outcome(succeeded: bool, exit_code: Option<i32>) -> Result<
    (),
    PipelineError,
> {
    if succeeded {
        Ok(())
    } else {
        Err(
            PipelineError::TranspileFailed(
                match exit_code {
                    Some(code) => code,
                    None => 1,
                },
            ),
        )
    }
}

/// The line of a compile command as the build system records it: the
/// compiler, then the arguments.
pub open spec fn command_line(command: CommandModel) -> Seq<Seq<char>> {
    seq![command.compiler] + command.arguments
}

/// Builds the compile command that describes the augmented header to the
/// transpiler.
pub fn describe_header(flags: &Vec<String>, header: &str, directory: &str) -> (entry:
    CompileCommandEntry)
    ensures
        entry@ == transpile_command(strings_view(flags@), header@, directory@),
{
    let mut arguments: Vec<String> = Vec::new();
    let mut i: usize = 0;
    while i < flags.len()
        invariant
            i <= flags.len(),
            strings_view(arguments@) == strings_view(flags@).take(i as int),
        decreases flags.len() - i,
    {
        let ghost before = strings_view(arguments@);
        arguments.push(flags[i].clone());
        assert(strings_view(arguments@) =~= before.push(flags[i as int]@));
        assert(strings_view(flags@).take(i + 1) =~= strings_view(flags@).take(i as int).push(
            flags[i as int]@,
        ));
        i += 1;
    }
    assert(strings_view(flags@).take(flags.len() as int) =~= strings_view(flags@));
    let ghost copied = strings_view(arguments@);
    arguments.push(header.to_owned());
    assert(strings_view(arguments@) =~= copied.push(header@));
    CompileCommandEntry {
        compiler: "any-cc".to_owned(),
        arguments,
        directory: directory.to_owned(),
        file: header.to_owned(),
    }
}

/// The line of a compile command: the compiler, then the arguments.
pub fn render_command_line(entry: &CompileCommandEntry) -> (line: Vec<String>)
    ensures
        strings_view(line@) == command_line(entry@),
{
    let mut line: Vec<String> = Vec::new();
    line.push(entry.compiler.clone());
    assert(strings_view(line@) =~= seq![entry.compiler@]);
    let mut i: usize = 0;
    while i < entry.arguments.len()
        invariant
            i <= entry.arguments.len(),
            strings_view(line@) == seq![entry.compiler@] + entry@.arguments.take(i as int),
        decreases entry.arguments.len() - i,
    {
        let ghost before = strings_view(line@);
        line.push(entry.arguments[i].clone());
        assert(strings_view(line@) =~= before.push(entry.arguments[i as int]@));
        assert(entry@.arguments.take(i + 1) =~= entry@.arguments.take(i as int).push(
            entry.arguments[i as int]@,
        ));
        i += 1;
    }
    assert(entry@.arguments.take(entry.arguments.len() as int) =~= entry@.arguments);
    line
}

/// Lists what the transpiler is started with.
pub fn render_transpiler_arguments(compile_commands: &str) -> (arguments: Vec<String>)
    ensures
        strings_view(arguments@) == transpiler_arguments(compile_commands@),
{
    let mut arguments: Vec<String> = Vec::new();
    arguments.push("transpile".to_owned());
    arguments.push(compile_commands.to_owned());
    arguments.push("--preserve-unused-functions".to_owned());
    arguments.push("--emit-modules".to_owned());
    arguments.push("--emit-no-std".to_owned());
    arguments.push("--translate-const-macros".to_owned());
    arguments.push("--overwrite-existing".to_owned());
    arguments.push("--fail-on-error".to_owned());
    assert(strings_view(arguments@) =~= transpiler_arguments(compile_commands@));
    arguments
}

/// Judges the end of the transpiler's process.
pub fn judge_transpiler(succeeded: bool, exit_code: Option<i32>) -> (result: Result<
    (),
    PipelineError,
>)
    ensures
        result == transpile_outcome(succeeded, exit_code),
{
    if succeeded {
        Ok(())
    } else {
        match exit_code {
            Some(code) => Err(PipelineError::TranspileFailed(code)),
            None => Err(PipelineError::TranspileFailed(1)),
        }
    }
}

/// Whether the compiler is one whose flags the tools understand: its path
/// holds `clang`.
pub open spec fn is_supported_compiler(compiler: Seq<char>) -> bool {
    occurs(compiler, "clang"@)
}

/// Accepts the compiler when the tools understand its flags and fails with
/// `UnsupportedCompiler` otherwise.
pub fn check_compiler(compiler: &str) -> (result: Result<(), PipelineError>)
    ensures
        result == if is_supported_compiler(compiler@) {
            Ok::<(), PipelineError>(())
        } else {
            Err::<(), PipelineError>(PipelineError::UnsupportedCompiler)
        },
{
    let path = chars_of(compiler);
    let family = chars_of("clang");
    if contains(path.as_slice(), family.as_slice()) {
        Ok(())
    } else {
        Err(PipelineError::UnsupportedCompiler)
    }
}

} // verus!
