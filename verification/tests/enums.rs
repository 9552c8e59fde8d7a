use riot_sys_build::enums::{
    collect_variants, find_digits_end, generate_enum, render_enum, Variant,
};

fn pairs(variants: Vec<Variant>) -> Vec<(String, String)> {
    variants.into_iter().map(|v| (v.name, v.value)).collect()
}

fn pair(name: &str, value: &str) -> (String, String) {
    (name.to_string(), value.to_string())
}

#[test]
fn enum_is_gathered_from_constants() {
    let declarations = "pub type senml_unit_t = u32;\npub const senml_unit_t_SENML_UNIT_NONE: senml_unit_t = 0;\npub const senml_unit_t_SENML_UNIT_METER: senml_unit_t = 1;\npub const other_t_X: other_t = 5;\npub const senml_unit_t_SENML_UNIT_KILOGRAM: senml_unit_t = 12;\n";
    assert_eq!(
        generate_enum(declarations, "senml_unit_t", "SenmlUnit"),
        "pub enum SenmlUnit {\n    SENML_UNIT_NONE = 0,\n    SENML_UNIT_METER = 1,\n    SENML_UNIT_KILOGRAM = 12,\n}\n\n"
    );
}

#[test]
fn enum_without_constants_is_empty() {
    assert_eq!(generate_enum("pub const a_t_X: a_t = 1;", "senml_unit_t", "SenmlUnit"), "pub enum SenmlUnit {\n}\n\n");
    assert_eq!(generate_enum("", "senml_unit_t", "SenmlUnit"), "pub enum SenmlUnit {\n}\n\n");
}

#[test]
fn constant_shapes() {
    assert_eq!(pairs(collect_variants("pub const e_A: e = 7;", "e")), vec![pair("A", "7")]);
    assert_eq!(pairs(collect_variants("pub const e_A: e = x;", "e")), vec![pair("A", "")]);
    assert_eq!(pairs(collect_variants("pub const e_A: e =7;", "e")), vec![]);
    assert_eq!(pairs(collect_variants("pub const e_A e = 7;", "e")), vec![]);
    assert_eq!(pairs(collect_variants("pub const e_A: e", "e")), vec![]);
    assert_eq!(pairs(collect_variants("pub const e_: e = 42", "e")), vec![pair("", "42")]);
    assert_eq!(
        pairs(collect_variants("pub const e_A: e = 1;pub const e_B: e = 2;", "e")),
        vec![pair("A", "1"), pair("B", "2")]
    );
    assert_eq!(
        pairs(collect_variants("pub const e_A pub const e_B: e = 2;", "e")),
        vec![pair("A pub const e_B", "2")]
    );
}

#[test]
fn enum_text() {
    let variants = vec![
        Variant { name: "A".to_string(), value: "0".to_string() },
        Variant { name: "B".to_string(), value: "10".to_string() },
    ];
    assert_eq!(render_enum("E", &variants), "pub enum E {\n    A = 0,\n    B = 10,\n}\n\n");
}

#[test]
fn digits_end_where_digits_end() {
    let text: Vec<char> = "12a3".chars().collect();
    assert_eq!(find_digits_end(&text, 0), 2);
    assert_eq!(find_digits_end(&text, 2), 2);
    assert_eq!(find_digits_end(&text, 3), 4);
    assert_eq!(find_digits_end(&text, 4), 4);
    assert_eq!(find_digits_end(&text, 7), 7);
}
