use riot_sys_build::consensus::{
    is_flag, is_include_flag, is_sentinel, merge_groups, normalize_flag, partition_flags,
    resolve_consensus, CompileCommandEntry, FlagGroup,
};
use riot_sys_build::error::PipelineError;

fn entry(compiler: &str, arguments: &[&str]) -> CompileCommandEntry {
    CompileCommandEntry {
        compiler: compiler.to_string(),
        arguments: arguments.iter().map(|a| a.to_string()).collect(),
        directory: "/build".to_string(),
        file: "main.c".to_string(),
    }
}

fn strings(words: &[&str]) -> Vec<String> {
    words.iter().map(|w| w.to_string()).collect()
}

fn groups_of(arguments: &[&str]) -> Vec<Vec<String>> {
    partition_flags(&strings(arguments)).unwrap().into_iter().map(|g| g.tokens).collect()
}

fn resolved_groups(entries: &Vec<CompileCommandEntry>) -> Vec<Vec<String>> {
    resolve_consensus(entries).ok().unwrap().groups.into_iter().map(|g| g.tokens).collect()
}

fn group(words: &[&str]) -> FlagGroup {
    FlagGroup { tokens: strings(words) }
}

#[test]
fn partition_groups_flags_with_their_arguments() {
    assert_eq!(
        groups_of(&["-Wall", "-isystem", "/usr/include", "-I/opt/inc///", "-DX=1", "-c", "-o", "x.o"]),
        vec![
            strings(&["-Wall"]),
            strings(&["-isystem", "/usr/include"]),
            strings(&["-I/opt/inc"]),
            strings(&["-DX=1"]),
        ]
    );
}

#[test]
fn partition_stops_at_dependency_target() {
    assert_eq!(groups_of(&["-O2", "-MQ", "x.o", "-Wall"]), vec![strings(&["-O2"])]);
}

#[test]
fn partition_of_nothing_is_empty() {
    assert_eq!(groups_of(&[]), Vec::<Vec<String>>::new());
    assert_eq!(groups_of(&["-c", "main.c"]), Vec::<Vec<String>>::new());
}

#[test]
fn partition_trims_only_include_flags() {
    assert_eq!(
        groups_of(&["-I", "/a/", "-isystem/", "-L/lib/", "-I/"]),
        vec![strings(&["-I", "/a/"]), strings(&["-isystem/"]), strings(&["-L/lib/"]), strings(&["-I"])]
    );
}

#[test]
fn partition_rejects_leading_argument() {
    assert!(partition_flags(&strings(&["main.c", "-Wall"])).is_none());
}

#[test]
fn sentinel_before_leading_argument_is_accepted() {
    assert_eq!(groups_of(&["-c", "main.c", "stray"]), Vec::<Vec<String>>::new());
}

#[test]
fn token_kinds() {
    assert!(is_flag("-Wall"));
    assert!(is_flag("-"));
    assert!(!is_flag(""));
    assert!(!is_flag("file.c"));
    assert!(is_include_flag("-I/usr"));
    assert!(is_include_flag("-I"));
    assert!(!is_include_flag("-isystem"));
    assert!(is_sentinel("-c"));
    assert!(is_sentinel("-MQ"));
    assert!(!is_sentinel("-MD"));
    assert!(!is_sentinel("-cc"));
}

#[test]
fn normalize_flag_strips_trailing_slashes_of_include_paths() {
    assert_eq!(normalize_flag("-I/opt/inc/"), "-I/opt/inc");
    assert_eq!(normalize_flag("-I///"), "-I");
    assert_eq!(normalize_flag("-Wall/"), "-Wall/");
    assert_eq!(normalize_flag("-I/a/b"), "-I/a/b");
}

#[test]
fn empty_input_is_rejected() {
    assert_eq!(resolve_consensus(&vec![]).err(), Some(PipelineError::EmptyInput));
}

#[test]
fn different_compilers_are_rejected() {
    let entries = vec![
        entry("clang", &["-Wall"]),
        entry("clang", &["-Wall"]),
        entry("gcc", &["-Wall"]),
    ];
    assert_eq!(resolve_consensus(&entries).err(), Some(PipelineError::InconsistentCompiler));
}

#[test]
fn different_compilers_win_over_ungrouped_arguments() {
    let entries = vec![entry("clang", &["stray", "-Wall"]), entry("gcc", &["-Wall"])];
    assert_eq!(resolve_consensus(&entries).err(), Some(PipelineError::InconsistentCompiler));
}

#[test]
fn ungrouped_argument_is_rejected() {
    let entries = vec![entry("clang", &["-Wall"]), entry("clang", &["stray", "-Wall"])];
    assert_eq!(resolve_consensus(&entries).err(), Some(PipelineError::UngroupedArgument));
}

#[test]
fn single_entry_resolves_to_its_partition() {
    let arguments = ["-Wall", "-isystem", "/x", "-I/inc/", "-Os", "-c", "a.c"];
    let entries = vec![entry("/usr/bin/clang", &arguments)];
    let consensus = resolve_consensus(&entries).ok().unwrap();
    assert_eq!(consensus.compiler, "/usr/bin/clang");
    let groups: Vec<Vec<String>> = consensus.groups.into_iter().map(|g| g.tokens).collect();
    assert_eq!(groups, groups_of(&arguments));
}

#[test]
fn identical_arguments_resolve_to_the_common_partition() {
    let arguments = ["-Wall", "-Wall", "-isystem", "/x", "-I/inc", "-Os", "-c", "a.c"];
    let entries = vec![
        entry("clang", &arguments),
        entry("clang", &arguments),
        entry("clang", &arguments),
    ];
    assert_eq!(resolved_groups(&entries), groups_of(&arguments));
}

#[test]
fn retained_groups_do_not_depend_on_order() {
    let a = entry("clang", &["-Wall", "-Os", "-I/a", "-mcpu=x", "-c", "a.c"]);
    let b = entry("clang", &["-Os", "-Wall", "-I/b", "-c", "b.c"]);
    let c = entry("clang", &["-Wall", "-g", "-Os", "-c", "c.c"]);
    let orders: Vec<Vec<&CompileCommandEntry>> = vec![
        vec![&a, &b, &c],
        vec![&a, &c, &b],
        vec![&b, &a, &c],
        vec![&b, &c, &a],
        vec![&c, &a, &b],
        vec![&c, &b, &a],
    ];
    for order in orders {
        let entries: Vec<CompileCommandEntry> =
            order.iter().map(|e| entry(&e.compiler, &e.arguments.iter().map(|s| s.as_str()).collect::<Vec<_>>())).collect();
        let mut groups = resolved_groups(&entries);
        groups.sort();
        assert_eq!(
            groups,
            vec![strings(&["-I/a"]), strings(&["-I/b"]), strings(&["-Os"]), strings(&["-Wall"])]
        );
    }
}

#[test]
fn first_entry_gives_the_order() {
    let entries = vec![
        entry("clang", &["-Wall", "-I/a", "-Os", "-g"]),
        entry("clang", &["-g", "-I/b", "-Wall", "-I/c/"]),
    ];
    assert_eq!(
        resolved_groups(&entries),
        vec![strings(&["-Wall"]), strings(&["-I/a"]), strings(&["-g"]), strings(&["-I/b"]), strings(&["-I/c"])]
    );
}

#[test]
fn include_path_of_a_single_entry_survives() {
    let entries = vec![
        entry("clang", &["-Wall"]),
        entry("clang", &["-Wall"]),
        entry("clang", &["-Wall", "-I", "/only/here"]),
        entry("clang", &["-Wall"]),
    ];
    assert_eq!(resolved_groups(&entries), vec![strings(&["-Wall"]), strings(&["-I", "/only/here"])]);
}

#[test]
fn groups_are_dropped_as_a_whole() {
    let entries = vec![
        entry("clang", &["-isystem", "/a", "-include", "x.h"]),
        entry("clang", &["-isystem", "/b", "-include", "x.h"]),
    ];
    assert_eq!(resolved_groups(&entries), vec![strings(&["-include", "x.h"])]);
}

#[test]
fn extra_include_path_is_kept_once() {
    let entries = vec![
        entry("clang", &["-Wall", "-I/opt/extra", "-c", "a.c"]),
        entry("clang", &["-Wall", "-c", "b.c"]),
    ];
    let consensus = resolve_consensus(&entries).ok().unwrap();
    let groups: Vec<Vec<String>> = consensus.groups.into_iter().map(|g| g.tokens).collect();
    let hits = groups.iter().filter(|g| **g == strings(&["-I/opt/extra"])).count();
    assert_eq!(hits, 1);
    assert_eq!(consensus.compiler, "clang");
}

#[test]
fn extra_include_path_of_the_second_entry_is_kept_once() {
    let entries = vec![
        entry("clang", &["-Wall", "-c", "b.c"]),
        entry("clang", &["-Wall", "-I/opt/extra", "-I/opt/extra/", "-c", "a.c"]),
    ];
    assert_eq!(resolved_groups(&entries), vec![strings(&["-Wall"]), strings(&["-I/opt/extra"])]);
}

#[test]
fn merge_keeps_common_and_include_groups() {
    let consensus = vec![group(&["-Wall"]), group(&["-I/a"]), group(&["-Os"])];
    let current = vec![group(&["-Os"]), group(&["-I/b"]), group(&["-g"])];
    let merged: Vec<Vec<String>> =
        merge_groups(&consensus, &current).into_iter().map(|g| g.tokens).collect();
    assert_eq!(merged, vec![strings(&["-I/a"]), strings(&["-Os"]), strings(&["-I/b"])]);
}

#[test]
fn group_comparison_and_copy() {
    let a = group(&["-isystem", "/x"]);
    assert!(a.same_as(&a.duplicate()));
    assert!(!a.same_as(&group(&["-isystem"])));
    assert!(!a.same_as(&group(&["-isystem", "/y"])));
    assert!(!a.is_include_path());
    assert!(group(&["-I/x"]).is_include_path());
    assert!(!group(&[]).is_include_path());
}
