use riot_sys_build::macros::MacroSpec;
use riot_sys_build::reconcile::{
    decide_prefix, needs_legacy_assembly, reconcile, redeclare, DeclarationPrefix,
    FunctionRewriteRule, ReconcileSettings, RuleKind, Substitution,
};
use riot_sys_build::words::{
    all_word_chars, comment_out_extern_types, find_word_end, is_repeatable, rename_identifiers,
    render_placeholders, word_char,
};

fn chars(text: &str) -> Vec<char> {
    text.chars().collect()
}

fn text(chars: Vec<char>) -> String {
    chars.into_iter().collect()
}

fn settings() -> ReconcileSettings {
    ReconcileSettings {
        legacy_assembly: false,
        keep_extern_types: false,
        rules: FunctionRewriteRule::known(),
        macros: MacroSpec::known(),
        colliding_names: vec![],
        collision_prefix: String::new(),
    }
}

fn redeclared(source: &str) -> String {
    text(redeclare(&FunctionRewriteRule::known(), &MacroSpec::known(), &chars(source)))
}

fn prefix_of(function: &str) -> DeclarationPrefix {
    decide_prefix(&FunctionRewriteRule::known(), &MacroSpec::known(), &chars(function))
}

#[test]
fn ordinary_function_becomes_public_without_foreign_linkage() {
    let out = redeclared("unsafe extern \"C\" fn irq_disable() -> u32 { 0 }\n");
    assert_eq!(out, "pub unsafe fn irq_disable() -> u32 { 0 }\n");
    assert!(!out.contains("extern"));
    let prefix = prefix_of("irq_disable");
    assert!(prefix.public);
    assert!(!prefix.foreign_linkage);
    assert!(!prefix.constant);
    assert!(!prefix.gated);
}

#[test]
fn callbacks_keep_their_declaration() {
    let source = "unsafe extern \"C\" fn _evtimer_msg_handler(e: *mut evtimer_event_t) {}\n";
    assert_eq!(redeclared(source), source);
    let source = "unsafe extern \"C\" fn _evtimer_mbox_handler(e: *mut evtimer_event_t) {}\n";
    assert_eq!(redeclared(source), source);
}

#[test]
fn linker_overrides_keep_their_declaration() {
    for name in ["__masked_builtin_arm_get_fpscr", "__masked_builtin_arm_set_fpscr", "__NVIC_SetPriority"] {
        let source = format!("pub unsafe extern \"C\" fn {}() {{}}\n", name);
        assert_eq!(redeclared(&source), source);
    }
}

#[test]
fn constant_macro_wrappers_become_const() {
    assert_eq!(
        redeclared("pub unsafe extern \"C\" fn macro_MUTEX_INIT() -> mutex_t {\n"),
        "pub const unsafe fn macro_MUTEX_INIT() -> mutex_t {\n"
    );
    assert_eq!(
        redeclared("pub unsafe extern \"C\" fn macro_LED4_IS_PRESENT() -> i32 {\n"),
        "pub const unsafe fn macro_LED4_IS_PRESENT() -> i32 {\n"
    );
}

#[test]
fn other_macro_wrappers_lose_only_the_linkage() {
    assert_eq!(
        redeclared("pub unsafe extern \"C\" fn macro_GPIO_PIN(port: u32, pin: u32) -> gpio_t {\n"),
        "pub unsafe fn macro_GPIO_PIN(port: u32, pin: u32) -> gpio_t {\n"
    );
    assert_eq!(
        redeclared("pub unsafe extern \"C\" fn macro_LED0_ON() {\n"),
        "pub unsafe fn macro_LED0_ON() {\n"
    );
}

#[test]
fn wrapper_of_an_unknown_macro_is_an_ordinary_function() {
    assert_eq!(
        redeclared("unsafe extern \"C\" fn macro_UNKNOWN() {\n"),
        "pub unsafe fn macro_UNKNOWN() {\n"
    );
    assert_eq!(redeclared("unsafe extern \"C\" fn macro_() {\n"), "pub unsafe fn macro_() {\n");
    assert_eq!(redeclared("unsafe extern \"C\" fn macro() {\n"), "pub unsafe fn macro() {\n");
}

#[test]
fn mistranspiled_functions_are_gated() {
    for name in ["__SMLALD", "__SMLALDX", "__SMLSLD", "__SMLSLDX"] {
        assert_eq!(
            redeclared(&format!("unsafe extern \"C\" fn {}(a: u32) -> u64 {{\n", name)),
            format!("#[cfg(c2rust_fixed_309)]\npub unsafe fn {}(a: u32) -> u64 {{\n", name)
        );
    }
}

#[test]
fn callback_rule_wins_over_macro_rule() {
    let rules = vec![FunctionRewriteRule::new("macro_MUTEX_INIT", RuleKind::Callback)];
    let prefix = decide_prefix(&rules, &MacroSpec::known(), &chars("macro_MUTEX_INIT"));
    assert!(prefix.foreign_linkage);
    assert!(!prefix.public);
    assert_eq!(prefix.render(), "unsafe extern \"C\" fn ");
}

#[test]
fn macro_rule_wins_over_mistranspiled_rule() {
    let rules = vec![FunctionRewriteRule::new("macro_MUTEX_INIT", RuleKind::Mistranspiled)];
    let prefix = decide_prefix(&rules, &MacroSpec::known(), &chars("macro_MUTEX_INIT"));
    assert_eq!(prefix.render(), "const unsafe fn ");
}

#[test]
fn first_macro_of_a_name_decides() {
    let mut first = MacroSpec::statement("X".to_string());
    first.constant_evaluable = true;
    let second = MacroSpec::statement("X".to_string());
    let prefix = decide_prefix(&vec![], &vec![first, second], &chars("macro_X"));
    assert!(prefix.constant);
}

#[test]
fn prefix_texts() {
    let render = |public, foreign_linkage, constant, gated| {
        DeclarationPrefix { public, foreign_linkage, constant, gated }.render()
    };
    assert_eq!(render(false, true, false, false), "unsafe extern \"C\" fn ");
    assert_eq!(render(false, false, true, false), "const unsafe fn ");
    assert_eq!(render(false, false, false, false), "unsafe fn ");
    assert_eq!(render(true, false, false, true), "#[cfg(c2rust_fixed_309)]\npub unsafe fn ");
    assert_eq!(render(true, false, false, false), "pub unsafe fn ");
}

#[test]
fn text_before_the_first_declaration_is_kept() {
    let source = "use core::arch::asm;\n\npub unsafe extern \"C\" fn a() {}\nunsafe extern \"C\" fn b() {}\n";
    assert_eq!(
        redeclared(source),
        "use core::arch::asm;\n\npub pub unsafe fn a() {}\npub unsafe fn b() {}\n"
    );
    assert_eq!(redeclared("nothing to see"), "nothing to see");
    assert_eq!(redeclared(""), "");
}

#[test]
fn declaration_without_parenthesis_is_left_alone() {
    let source = "unsafe extern \"C\" fn broken";
    assert_eq!(redeclared(source), source);
    let source = "unsafe extern \"C\" fn broken unsafe extern \"C\" fn fine() {}";
    assert_eq!(redeclared(source), "unsafe extern \"C\" fn broken pub unsafe fn fine() {}");
}

#[test]
fn type_alias_import_is_removed() {
    let pass = Substitution::type_alias_import();
    assert_eq!(pass.apply_to_str("#![no_std]\nuse ::libc;\nuse ::core;\n"), "#![no_std]\nuse ::core;\n");
    assert_eq!(pass.apply_to_str("use ::libc;"), "use ::libc;");
}

#[test]
fn legacy_assembly_is_routed_to_its_macro() {
    let pass = Substitution::legacy_assembly();
    assert_eq!(
        pass.apply_to_str("    asm!(\"cpsid i\" : : : \"memory\" : \"volatile\");"),
        "    llvm_asm!(\"cpsid i\" : : : \"memory\" : \"volatile\");"
    );
    assert_eq!(pass.apply_to_str("llvm_asm!(x)"), "llvm_asm!(x)");
}

#[test]
fn intrinsics_are_redirected() {
    let pass = Substitution::intrinsics_polyfill();
    assert_eq!(
        pass.apply_to_str("::core::intrinsics::atomic_or_relaxed(a, b)"),
        "crate::intrinsics_replacements::atomic_or_relaxed(a, b)"
    );
}

#[test]
fn variadic_argument_list_is_replaced() {
    assert_eq!(
        Substitution::variadic_placeholder().apply_to_str("mut __arg: ::core::ffi::VaList) {"),
        "mut __arg: ::core::convert::Infallible) {"
    );
    assert_eq!(
        Substitution::variadic_access().apply_to_str("vprintf(fmt, __arg.as_va_list())"),
        "vprintf(fmt, __arg)"
    );
}

#[test]
fn substitution_takes_occurrences_leftmost_and_without_overlap() {
    let pass = Substitution { from: "aa".to_string(), to: "b".to_string() };
    assert_eq!(pass.apply_to_str("aaaaa"), "bba");
    assert_eq!(pass.apply_to_str(""), "");
    assert_eq!(pass.apply_to_str("a"), "a");
    let same = Substitution { from: "x".to_string(), to: "xx".to_string() };
    assert_eq!(same.apply_to_str("axbx"), "axxbxx");
    let empty = Substitution { from: String::new(), to: "-".to_string() };
    assert_eq!(empty.apply_to_str("abc"), "abc");
    assert_eq!(text(pass.apply(&chars("caab"))), "cbb");
}

#[test]
fn stable_passes_change_nothing_the_second_time() {
    for pass in [Substitution::legacy_assembly(), Substitution::variadic_placeholder()] {
        for source in [
            " asm!( asm!(x)  llvm_asm!( asm!",
            "::core::ffi::VaList::core::ffi::VaList ::core::ffi::::core::ffi::VaListVaList",
            "",
        ] {
            let once = pass.apply_to_str(source);
            assert_eq!(pass.apply_to_str(&once), once);
        }
    }
}

#[test]
fn passes_repeat_where_no_occurrence_is_left() {
    for pass in [
        Substitution::type_alias_import(),
        Substitution::intrinsics_polyfill(),
        Substitution::variadic_access(),
    ] {
        let source = "use ::libc;\nlet x = ::core::intrinsics::f(__arg.as_va_list());\n";
        let once = pass.apply_to_str(source);
        assert!(!once.contains(pass.from.as_str()));
        assert_eq!(pass.apply_to_str(&once), once);
    }
}

#[test]
fn removal_can_bring_the_pattern_together() {
    let pass = Substitution::type_alias_import();
    let once = pass.apply_to_str("use ::luse ::libc;\nibc;\n");
    assert_eq!(once, "use ::libc;\n");
    assert_eq!(pass.apply_to_str(&once), "");
}

#[test]
fn legacy_assembly_is_written_by_the_unpatched_old_release() {
    assert!(needs_legacy_assembly("C2Rust 0.15.1\n"));
    assert!(!needs_legacy_assembly("C2Rust 0.15.1+git-for-riot\n"));
    assert!(!needs_legacy_assembly("C2Rust 0.18.0\n"));
    assert!(!needs_legacy_assembly(""));
}

#[test]
fn whole_identifiers_are_renamed() {
    let names = vec![chars("GPIO_PIN"), chars("x")];
    let out = rename_identifiers(
        &chars("GPIO_PIN GPIO_PINS xGPIO_PIN (GPIO_PIN) x.x_x 9x"),
        &names,
        &chars("inline_"),
    );
    assert_eq!(text(out), "inline_GPIO_PIN GPIO_PINS xGPIO_PIN (inline_GPIO_PIN) inline_x.x_x 9x");
}

#[test]
fn renaming_twice_does_not_prefix_twice() {
    let names = vec![chars("ADC_RES"), chars("PWM")];
    let prefix = chars("c2rust_");
    let once = rename_identifiers(&chars("let ADC_RES = PWM + PWM_A;"), &names, &prefix);
    assert_eq!(text(once.clone()), "let c2rust_ADC_RES = c2rust_PWM + PWM_A;");
    assert_eq!(rename_identifiers(&once, &names, &prefix), once);
}

#[test]
fn renaming_without_names_changes_nothing() {
    let source = chars("fn f(a: u8) -> u8 { a }");
    assert_eq!(rename_identifiers(&source, &vec![], &chars("p_")), source);
    assert_eq!(rename_identifiers(&vec![], &vec![chars("a")], &chars("p_")), vec![]);
}

#[test]
fn identifier_characters() {
    for c in ['a', 'z', 'A', 'Z', '0', '9', '_'] {
        assert!(word_char(c));
    }
    for c in [' ', '-', '(', ';', ':', '\n', 'é', '`', '{', '@', '[', '/'] {
        assert!(!word_char(c));
    }
}

#[test]
fn types_without_definition_are_commented_out() {
    let source = "pub type __locale_t;\npub type foo = u8;\n    pub type _IO_marker;pub type ;pub type a b;";
    let (patched, names) = comment_out_extern_types(&chars(source));
    assert_eq!(
        text(patched),
        "/* pub type __locale_t; */\npub type foo = u8;\n    /* pub type _IO_marker; */pub type ;pub type a b;"
    );
    assert_eq!(names, vec![chars("__locale_t"), chars("_IO_marker")]);
}

#[test]
fn placeholders_are_arrays_without_values() {
    assert_eq!(
        render_placeholders(&vec!["__locale_t".to_string(), "netq_t".to_string()]),
        "pub type __locale_t = [u8; isize::MAX as _];\npub type netq_t = [u8; isize::MAX as _];\n"
    );
    assert_eq!(render_placeholders(&vec![]), "");
}

#[test]
fn all_passes_in_order() {
    let source = "use ::libc;\nextern \"C\" {\n    pub type netq_t;\n}\npub unsafe extern \"C\" fn macro_MUTEX_INIT() -> mutex_t {\n    ::core::intrinsics::atomic_or_relaxed(a, b);\n}\nunsafe extern \"C\" fn vprintf(mut __arg: ::core::ffi::VaList) {\n    asm!(\"nop\");\n    f(__arg.as_va_list());\n}\n";
    let out = reconcile(source, &settings());
    assert_eq!(
        out.source,
        "extern \"C\" {\n    /* pub type netq_t; */\n}\npub const unsafe fn macro_MUTEX_INIT() -> mutex_t {\n    crate::intrinsics_replacements::atomic_or_relaxed(a, b);\n}\npub unsafe fn vprintf(mut __arg: ::core::convert::Infallible) {\n    asm!(\"nop\");\n    f(__arg);\n}\n"
    );
    assert_eq!(out.extern_types, vec!["netq_t".to_string()]);
}

#[test]
fn settings_switch_passes() {
    let source = "pub type netq_t;\n asm!(\"nop\"); let PWM = 1;\n";
    let mut with = settings();
    with.legacy_assembly = true;
    with.keep_extern_types = true;
    with.colliding_names = vec!["PWM".to_string()];
    with.collision_prefix = "inline_".to_string();
    let out = reconcile(source, &with);
    assert_eq!(out.source, "pub type netq_t;\n llvm_asm!(\"nop\"); let inline_PWM = 1;\n");
    assert!(out.extern_types.is_empty());
}

#[test]
fn known_rules_table() {
    let rules = FunctionRewriteRule::known();
    assert_eq!(rules.len(), 9);
    assert_eq!(rules[0].name, "_evtimer_msg_handler");
    assert_eq!(rules[0].kind, RuleKind::Callback);
    assert_eq!(rules[4].name, "__NVIC_SetPriority");
    assert_eq!(rules[4].kind, RuleKind::LinkerOverride);
    assert_eq!(rules[8].name, "__SMLSLDX");
    assert_eq!(rules[8].kind, RuleKind::Mistranspiled);
}

#[test]
fn stable_passes_are_recognised() {
    assert!(Substitution::legacy_assembly().is_stable());
    assert!(Substitution::variadic_placeholder().is_stable());
    assert!(!Substitution::type_alias_import().is_stable());
    assert!(!Substitution::intrinsics_polyfill().is_stable());
    assert!(!Substitution::variadic_access().is_stable());
    let pass = |from: &str, to: &str| Substitution { from: from.to_string(), to: to.to_string() };
    assert!(pass("x", "").is_stable());
    assert!(!pass("ab", "").is_stable());
    assert!(!pass("", "x").is_stable());
    assert!(!pass("a", "a").is_stable());
    assert!(pass("a", "b").is_stable());
    assert!(!pass("ab", "ba").is_stable());
    assert!(!pass("ab", "xa").is_stable());
    assert!(!pass("ab", "bx").is_stable());
    assert!(pass("ab", "xy").is_stable());
    assert!(pass("aXa", "Y").is_stable());
    assert!(!pass("aXa", "a").is_stable());
}

#[test]
fn repeatable_renames_are_recognised() {
    assert!(is_repeatable(&vec![chars("PWM"), chars("ADC")], &chars("inline_")));
    assert!(is_repeatable(&vec![], &chars("inline_")));
    assert!(is_repeatable(&vec![], &chars("")));
    assert!(!is_repeatable(&vec![chars("PWM")], &chars("")));
    assert!(!is_repeatable(&vec![chars("PWM")], &chars("x-")));
    assert!(!is_repeatable(&vec![chars("PWM"), chars("x_PWM")], &chars("x_")));
    assert!(is_repeatable(&vec![chars("PWM"), chars("x_PWM")], &chars("y_")));
    let mut with = settings();
    assert!(with.renames_once());
    with.colliding_names = vec!["PWM".to_string()];
    assert!(!with.renames_once());
    with.collision_prefix = "inline_".to_string();
    assert!(with.renames_once());
}

#[test]
fn unrepeatable_rename_prefixes_twice() {
    let names = vec![chars("PWM")];
    let prefix = chars("x-");
    let once = rename_identifiers(&chars("PWM"), &names, &prefix);
    assert_eq!(text(once.clone()), "x-PWM");
    assert_eq!(text(rename_identifiers(&once, &names, &prefix)), "x-x-PWM");
}

#[test]
fn words_end_where_identifier_characters_end() {
    assert_eq!(find_word_end(&chars("ab_1 c"), 0), 4);
    assert_eq!(find_word_end(&chars("ab_1 c"), 2), 4);
    assert_eq!(find_word_end(&chars("ab_1 c"), 4), 4);
    assert_eq!(find_word_end(&chars("ab_1 c"), 5), 6);
    assert_eq!(find_word_end(&chars("ab_1 c"), 6), 6);
    assert_eq!(find_word_end(&chars("ab_1 c"), 9), 9);
    assert!(all_word_chars(&chars("ab_1")));
    assert!(all_word_chars(&chars("")));
    assert!(!all_word_chars(&chars("ab 1")));
}
