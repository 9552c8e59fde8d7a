use riot_sys_build::error::PipelineError;
use riot_sys_build::extractor::{judge_extractor, request_declarations};
use riot_sys_build::transpile::{
    check_compiler, describe_header, judge_transpiler, render_command_line,
    render_transpiler_arguments,
};

fn strings(words: &[&str]) -> Vec<String> {
    words.iter().map(|w| w.to_string()).collect()
}

#[test]
fn header_is_described_with_a_placeholder_compiler() {
    let entry = describe_header(&strings(&["-Wall", "-I/inc"]), "riot-c2rust.h", "/out");
    assert_eq!(entry.compiler, "any-cc");
    assert_eq!(entry.arguments, strings(&["-Wall", "-I/inc", "riot-c2rust.h"]));
    assert_eq!(entry.directory, "/out");
    assert_eq!(entry.file, "riot-c2rust.h");
    assert_eq!(render_command_line(&entry), strings(&["any-cc", "-Wall", "-I/inc", "riot-c2rust.h"]));
    let bare = describe_header(&vec![], "h.h", ".");
    assert_eq!(render_command_line(&bare), strings(&["any-cc", "h.h"]));
}

#[test]
fn transpiler_is_asked_for_freestanding_modules() {
    assert_eq!(
        render_transpiler_arguments("/out/compile_commands.json"),
        strings(&[
            "transpile",
            "/out/compile_commands.json",
            "--preserve-unused-functions",
            "--emit-modules",
            "--emit-no-std",
            "--translate-const-macros",
            "--overwrite-existing",
            "--fail-on-error",
        ])
    );
}

#[test]
fn failed_transpiler_is_fatal() {
    assert_eq!(judge_transpiler(true, Some(0)), Ok(()));
    assert_eq!(judge_transpiler(true, None), Ok(()));
    assert_eq!(judge_transpiler(false, Some(3)), Err(PipelineError::TranspileFailed(3)));
    assert_eq!(judge_transpiler(false, Some(-11)), Err(PipelineError::TranspileFailed(-11)));
    assert_eq!(judge_transpiler(false, None), Err(PipelineError::TranspileFailed(1)));
}

#[test]
fn only_clang_is_supported() {
    assert_eq!(check_compiler("clang"), Ok(()));
    assert_eq!(check_compiler("/usr/lib/llvm-15/bin/clang-15"), Ok(()));
    assert_eq!(check_compiler("arm-none-eabi-gcc"), Err(PipelineError::UnsupportedCompiler));
    assert_eq!(check_compiler("clan"), Err(PipelineError::UnsupportedCompiler));
    assert_eq!(check_compiler(""), Err(PipelineError::UnsupportedCompiler));
}

#[test]
fn extractor_request_keeps_the_size_type_apart() {
    let request = request_declarations("riot-bindgen.h", strings(&["-Wall", "-I/inc"]));
    assert_eq!(request.header, "riot-bindgen.h");
    assert_eq!(request.flags, strings(&["-Wall", "-I/inc"]));
    assert!(request.use_core);
    assert_eq!(request.ctypes_prefix, "libc");
    assert!(!request.size_t_is_usize);
    assert!(request.implement_debug);
    assert!(request.derive_default);
    assert_eq!(request.without_debug.len(), 18);
    assert_eq!(request.without_debug[0], "ble_hci_cmd");
    assert_eq!(request.without_debug[9], "ble_hci_iso_data");
    assert_eq!(request.without_debug[17], "ext_adv_report");
}

#[test]
fn extractor_failure_carries_the_reason() {
    assert_eq!(judge_extractor(Ok("pub type a = u8;".to_string())), Ok("pub type a = u8;".to_string()));
    assert_eq!(
        judge_extractor(Err("clang diagnosed compilation errors".to_string())),
        Err(PipelineError::GenerationFailed("clang diagnosed compilation errors".to_string()))
    );
}

#[test]
fn error_messages() {
    assert_eq!(PipelineError::MalformedInput.message(), "the compiler flags are not valid shell words");
    assert_eq!(PipelineError::EmptyInput.message(), "no compile commands were given");
    assert_eq!(PipelineError::InconsistentCompiler.message(), "the compile commands name different compilers");
    assert_eq!(PipelineError::UngroupedArgument.message(), "compiler flags must start with a dash");
    assert_eq!(PipelineError::UnquotableFlag.message(), "a compiler flag holds a NUL character");
    assert_eq!(PipelineError::UnnamedParameter.message(), "the parameters of a macro wrapper need names");
    assert_eq!(PipelineError::UnsupportedCompiler.message(), "only clang style compiler flags are accepted");
    assert_eq!(PipelineError::GenerationFailed("no header".to_string()).message(), "unable to generate bindings: no header");
    assert_eq!(PipelineError::TranspileFailed(2).message(), "the transpiler failed");
}
