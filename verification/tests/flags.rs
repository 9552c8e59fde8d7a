use riot_sys_build::consensus::{ConsensusFlagSet, FlagGroup};
use riot_sys_build::error::PipelineError;
use riot_sys_build::flags::{
    flatten_groups, is_denied, normalize_flags, publish_flags, quote_flags, render_module_flag,
    render_module_flags, strip_denied, DenyRule,
};

fn strings(words: &[&str]) -> Vec<String> {
    words.iter().map(|w| w.to_string()).collect()
}

fn consensus(groups: &[&[&str]]) -> ConsensusFlagSet {
    ConsensusFlagSet {
        compiler: "clang".to_string(),
        groups: groups.iter().map(|g| FlagGroup { tokens: strings(g) }).collect(),
    }
}

#[test]
fn flags_are_split_like_shell_words() {
    let flags = normalize_flags(&vec![], "-Wall  '-I/path with space' -DNAME=\\\"x\\\" \"-O2\"").ok().unwrap();
    assert_eq!(flags, strings(&["-Wall", "-I/path with space", "-DNAME=\"x\"", "-O2"]));
}

#[test]
fn denied_flags_are_dropped() {
    let flags = normalize_flags(&DenyRule::known(), "-DFOO=1 -Wall -MD -MDX -I/inc -D -mcpu=cortex-m3").ok().unwrap();
    assert_eq!(flags, strings(&["-Wall", "-MDX", "-I/inc", "-mcpu=cortex-m3"]));
}

#[test]
fn empty_flags_string_has_no_flags() {
    assert_eq!(normalize_flags(&DenyRule::known(), "").ok().unwrap(), Vec::<String>::new());
    assert_eq!(normalize_flags(&DenyRule::known(), "   \n").ok().unwrap(), Vec::<String>::new());
}

#[test]
fn unbalanced_quoting_is_malformed() {
    assert_eq!(normalize_flags(&DenyRule::known(), "-Wall \"-I/x").err(), Some(PipelineError::MalformedInput));
    assert_eq!(normalize_flags(&DenyRule::known(), "'").err(), Some(PipelineError::MalformedInput));
    assert_eq!(normalize_flags(&vec![], "-Wall \\").err(), Some(PipelineError::MalformedInput));
}

#[test]
fn deny_rules() {
    let rules = DenyRule::known();
    assert_eq!(rules.len(), 2);
    assert!(is_denied(&rules, "-D"));
    assert!(is_denied(&rules, "-DMODULE_CORE"));
    assert!(is_denied(&rules, "-MD"));
    assert!(!is_denied(&rules, "-MDX"));
    assert!(!is_denied(&rules, "-M"));
    assert!(!is_denied(&rules, "D"));
    assert!(!is_denied(&rules, ""));
    assert!(!is_denied(&vec![], "-DX"));
    let chars: Vec<char> = "-Werror=x".chars().collect();
    assert!(DenyRule::Prefix("-Werror".to_string()).denies(&chars));
    assert!(!DenyRule::Exact("-Werror".to_string()).denies(&chars));
}

#[test]
fn strip_denied_keeps_order() {
    let rules = vec![DenyRule::Exact("-Werror".to_string()), DenyRule::Prefix("-m".to_string())];
    assert_eq!(
        strip_denied(&rules, &strings(&["-O2", "-Werror", "-mthumb", "-Wall", "-march=x", "-O2"])),
        strings(&["-O2", "-Wall", "-O2"])
    );
}

#[test]
fn module_flags_are_upper_case_with_underscores() {
    assert_eq!(render_module_flags("core periph-gpio ztimer_msec"), " -DMODULE_CORE -DMODULE_PERIPH_GPIO -DMODULE_ZTIMER_MSEC");
    assert_eq!(render_module_flags("boards_common_samdx1-arduino-bootloader"), " -DMODULE_BOARDS_COMMON_SAMDX1_ARDUINO_BOOTLOADER");
}

#[test]
fn empty_module_list_names_one_empty_module() {
    assert_eq!(render_module_flags(""), " -DMODULE_");
    assert_eq!(render_module_flags("a  b"), " -DMODULE_A -DMODULE_ -DMODULE_B");
}

#[test]
fn module_flag_of_an_upper_case_name() {
    assert_eq!(render_module_flag("A-B-C"), " -DMODULE_A_B_C");
    assert_eq!(render_module_flag(""), " -DMODULE_");
}

#[test]
fn groups_are_flattened_in_order() {
    let set = consensus(&[&["-Wall"], &["-isystem", "/x"], &[], &["-I/y"]]);
    assert_eq!(flatten_groups(&set.groups), strings(&["-Wall", "-isystem", "/x", "-I/y"]));
    assert_eq!(flatten_groups(&vec![]), Vec::<String>::new());
}

#[test]
fn flags_are_quoted_for_a_shell() {
    assert_eq!(quote_flags(&strings(&["-Wall", "-I/a b", "-DX=\"y\""])).ok().unwrap(), "-Wall '-I/a b' '-DX=\"y\"'");
    assert_eq!(quote_flags(&vec![]).ok().unwrap(), "");
}

#[test]
fn flag_with_nul_cannot_be_quoted() {
    assert_eq!(quote_flags(&strings(&["-Wall", "-I/a\0b"])).err(), Some(PipelineError::UnquotableFlag));
    let set = consensus(&[&["-I/a\0b"]]);
    assert_eq!(publish_flags(&set, "core").err(), Some(PipelineError::UnquotableFlag));
}

#[test]
fn published_flags_hold_quoted_flags_and_module_flags() {
    let set = consensus(&[&["-Wall"], &["-isystem", "/a b"], &["-DX"]]);
    let text = publish_flags(&set, "core shell-commands").ok().unwrap();
    assert_eq!(text, "-Wall -isystem '/a b' -DX -DMODULE_CORE -DMODULE_SHELL_COMMANDS");
    assert_eq!(normalize_flags(&DenyRule::known(), &text).ok().unwrap(), strings(&["-Wall", "-isystem", "/a b"]));
}
