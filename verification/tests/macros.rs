use riot_sys_build::error::PipelineError;
use riot_sys_build::macro_table::materialize_known;
use riot_sys_build::macros::{
    append_strings, call_arguments, is_void, materialize, render_block, Guard, MacroSpec,
};

fn mutex_init() -> MacroSpec {
    MacroSpec {
        name: "MUTEX_INIT".to_string(),
        return_type: "mutex_t".to_string(),
        argument_list: None,
        requires_definition_guard: false,
        constant_evaluable: true,
        fallback_literal: None,
    }
}

fn count_of(text: &str, needle: &str) -> usize {
    text.matches(needle).count()
}

#[test]
fn object_like_macro_is_wrapped_under_its_guard() {
    let header = "#define MUTEX_INIT { { NULL } }\n";
    let out = materialize(header, &vec![mutex_init()]).ok().unwrap();
    assert_eq!(
        out,
        "#define MUTEX_INIT { { NULL } }\n\n\n#ifdef MUTEX_INIT\nmutex_t macro_MUTEX_INIT(void) {\n    mutex_t result = MUTEX_INIT;\n    return result;\n}\n#endif\n"
    );
    assert!(out.contains("#ifdef MUTEX_INIT\nmutex_t macro_MUTEX_INIT("));
    assert!(!out.contains("#else"));
}

#[test]
fn fallback_gives_two_definitions_with_one_signature() {
    let spec = MacroSpec::presence("LED0_IS_PRESENT".to_string());
    let definitions = spec.definitions().ok().unwrap();
    assert_eq!(definitions.len(), 2);
    assert_eq!(definitions[0].guard, Guard::IfDefined);
    assert_eq!(definitions[1].guard, Guard::IfNotDefined);
    assert_eq!(definitions[0].signature, "int macro_LED0_IS_PRESENT(void)");
    assert_eq!(definitions[0].signature, definitions[1].signature);
    assert_eq!(definitions[0].body, vec!["    int result = 1;", "    return result;"]);
    assert_eq!(definitions[1].body, vec!["    return -1;"]);
    assert_eq!(
        definitions[1].lines(),
        vec!["int macro_LED0_IS_PRESENT(void) {", "    return -1;", "}"]
    );
    assert_eq!(
        definitions[1].branch(),
        vec!["#else", "int macro_LED0_IS_PRESENT(void) {", "    return -1;", "}"]
    );
    assert_eq!(definitions[0].branch(), definitions[0].lines());
    let block = spec.block().ok().unwrap();
    assert_eq!(
        block,
        "\n\n#ifdef LED0_IS_PRESENT\nint macro_LED0_IS_PRESENT(void) {\n    int result = 1;\n    return result;\n}\n#else\nint macro_LED0_IS_PRESENT(void) {\n    return -1;\n}\n#endif\n"
    );
    assert_eq!(count_of(&block, "int macro_LED0_IS_PRESENT(void) {"), 2);
    assert_eq!(block.split('\n').filter(|line| *line == "int macro_LED0_IS_PRESENT(void) {").count(), 2);
    assert_eq!(count_of(&block, "#else"), 1);
}

#[test]
fn no_fallback_gives_one_definition() {
    let definitions = mutex_init().definitions().ok().unwrap();
    assert_eq!(definitions.len(), 1);
    assert_eq!(definitions[0].guard, Guard::IfDefined);
    let block = mutex_init().block().ok().unwrap();
    assert_eq!(count_of(&block, "mutex_t macro_MUTEX_INIT(void) {"), 1);
    assert_eq!(count_of(&block, "#else"), 0);
}

#[test]
fn void_macro_is_a_statement() {
    let spec = MacroSpec::statement("LED3_TOGGLE".to_string());
    assert_eq!(
        spec.block().ok().unwrap(),
        "\n\n#ifdef LED3_TOGGLE\nvoid macro_LED3_TOGGLE(void) {\n    LED3_TOGGLE;\n}\n#endif\n"
    );
}

#[test]
fn parameters_are_handed_on_by_name() {
    let spec = MacroSpec::peripheral("GPIO_PIN", "gpio_t", "unsigned port, unsigned pin");
    assert_eq!(spec.invocation().ok().unwrap(), "GPIO_PIN( port,  pin)");
    assert_eq!(spec.signature(), "gpio_t macro_GPIO_PIN(unsigned port, unsigned pin)");
    assert_eq!(
        spec.block().ok().unwrap(),
        "\n\n#ifdef GPIO_PIN\ngpio_t macro_GPIO_PIN(unsigned port, unsigned pin) {\n    gpio_t result = GPIO_PIN( port,  pin);\n    return result;\n}\n#endif\n"
    );
}

#[test]
fn empty_parentheses_for_void_argument_list() {
    let spec = MacroSpec::peripheral("NOW", "uint32_t", "void");
    assert_eq!(spec.invocation().ok().unwrap(), "NOW()");
    assert_eq!(spec.signature(), "uint32_t macro_NOW(void)");
}

#[test]
fn definedness_check_never_expands_the_macro() {
    let mut spec = MacroSpec::presence("HAS_X".to_string());
    spec.argument_list = Some("unsigned ignored".to_string());
    assert_eq!(spec.invocation().ok().unwrap(), "1");
    assert_eq!(spec.signature(), "int macro_HAS_X(void)");
}

#[test]
fn parameter_without_a_name_is_rejected() {
    let spec = MacroSpec::peripheral("I2C_DEV", "i2c_t", "unsigned");
    assert_eq!(spec.invocation().err(), Some(PipelineError::UnnamedParameter));
    assert_eq!(spec.definitions().err(), Some(PipelineError::UnnamedParameter));
    assert_eq!(spec.block().err(), Some(PipelineError::UnnamedParameter));
    let table = vec![mutex_init(), spec];
    assert_eq!(materialize("", &table).err(), Some(PipelineError::UnnamedParameter));
}

#[test]
fn call_arguments_of_parameter_lists() {
    let chars: Vec<char> = "unsigned num".chars().collect();
    assert_eq!(call_arguments(&chars), Some(" num".chars().collect()));
    let chars: Vec<char> = "const char *name, int n".chars().collect();
    assert_eq!(call_arguments(&chars), Some(" char *name,  n".chars().collect()));
    let chars: Vec<char> = "int a, b".chars().collect();
    assert_eq!(call_arguments(&chars), None);
}

#[test]
fn materialize_appends_in_table_order() {
    let table = vec![MacroSpec::statement("A".to_string()), MacroSpec::statement("B".to_string())];
    let out = materialize("/* header */", &table).ok().unwrap();
    assert_eq!(
        out,
        "/* header */\n\n#ifdef A\nvoid macro_A(void) {\n    A;\n}\n#endif\n\n\n#ifdef B\nvoid macro_B(void) {\n    B;\n}\n#endif\n"
    );
    assert_eq!(materialize("/* header */", &vec![]).ok().unwrap(), "/* header */");
}

#[test]
fn fallback_on_several_lines_can_hide_a_third_definition() {
    let mut spec = MacroSpec::presence("X".to_string());
    spec.fallback_literal = Some("0;\n}\nint macro_X(void) {\n    return 1".to_string());
    let block = spec.block().ok().unwrap();
    assert_eq!(spec.definitions().ok().unwrap().len(), 2);
    assert_eq!(block.split('\n').filter(|line| *line == "int macro_X(void) {").count(), 3);
}

#[test]
fn strings_are_appended() {
    let mut all = vec!["a".to_string()];
    append_strings(&mut all, &vec!["b".to_string(), "c".to_string()]);
    assert_eq!(all, vec!["a", "b", "c"]);
    append_strings(&mut all, &vec![]);
    assert_eq!(all, vec!["a", "b", "c"]);
}

#[test]
fn render_block_of_no_definitions() {
    assert_eq!(render_block("X", &vec![]), "\n\n#ifdef X\n#endif\n");
}

#[test]
fn known_table_lists_values_and_lights() {
    let table = MacroSpec::known();
    assert_eq!(table.len(), 13 + 8 * 4);
    assert_eq!(table[0].name, "SOCK_IPV4_EP_ANY");
    assert!(table[0].constant_evaluable);
    assert_eq!(table[2].name, "MUTEX_INIT");
    assert_eq!(table[2].return_type, "mutex_t");
    assert_eq!(table[4].name, "GPIO_PIN");
    assert_eq!(table[4].argument_list, Some("unsigned port, unsigned pin".to_string()));
    assert!(!table[4].constant_evaluable);
    assert_eq!(table[12].name, "DAC_LINE");
    assert_eq!(table[13].name, "LED0_ON");
    assert_eq!(table[14].name, "LED0_OFF");
    assert_eq!(table[15].name, "LED0_TOGGLE");
    assert_eq!(table[16].name, "LED0_IS_PRESENT");
    assert!(table[16].requires_definition_guard);
    assert!(table[16].constant_evaluable);
    assert_eq!(table[16].fallback_literal, Some("-1".to_string()));
    assert_eq!(table[16].return_type, "int");
    assert_eq!(table[44].name, "LED7_IS_PRESENT");
    assert_eq!(table[41].name, "LED7_ON");
    assert_eq!(table[41].return_type, "void");
    assert!(materialize("", &table).is_ok());
}

#[test]
fn void_is_recognised() {
    assert!(is_void("void"));
    assert!(!is_void("void "));
    assert!(!is_void("voi"));
    assert!(!is_void(""));
}

#[test]
fn known_macros_always_materialize() {
    let header = "#include <mutex.h>\n";
    let out = materialize_known(header);
    assert_eq!(Ok(out.clone()), materialize(header, &MacroSpec::known()));
    assert!(out.starts_with("#include <mutex.h>\n\n\n#ifdef SOCK_IPV4_EP_ANY\n"));
    assert!(out.contains("\n#ifdef I2C_DEV\ni2c_t macro_I2C_DEV(unsigned num) {\n    i2c_t result = I2C_DEV( num);\n    return result;\n}\n#endif\n"));
    assert!(out.ends_with("#ifdef LED7_IS_PRESENT\nint macro_LED7_IS_PRESENT(void) {\n    int result = 1;\n    return result;\n}\n#else\nint macro_LED7_IS_PRESENT(void) {\n    return -1;\n}\n#endif\n"));
    assert_eq!(out.matches("#ifdef ").count(), 45);
    assert_eq!(out.matches("#else\n").count(), 8);
    assert_eq!(out.matches("#endif\n").count(), 45);
}
