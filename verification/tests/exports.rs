use riot_sys_build::exports::{export_candidates, has_item, render_exports, select_exports};
use riot_sys_build::macros::MacroSpec;

fn strings(words: &[&str]) -> Vec<String> {
    words.iter().map(|w| w.to_string()).collect()
}

#[test]
fn candidates_are_the_known_names_and_the_wrappers() {
    let names = export_candidates(&MacroSpec::known());
    assert_eq!(names.len(), 26 + 45);
    assert_eq!(names[0], "bluetil_ad_add_flags");
    assert_eq!(names[20], "ztimer_spin");
    assert_eq!(names[25], "AF_INET6");
    assert_eq!(names[26], "macro_SOCK_IPV4_EP_ANY");
    assert_eq!(names[70], "macro_LED7_IS_PRESENT");
    assert_eq!(export_candidates(&vec![]).len(), 26);
}

#[test]
fn items_of_the_source_are_found() {
    let source: Vec<char> = "pub unsafe fn irq_disable() -> u32 {}\npub const AF_INET: u32 = 2;\nextern \"C\" { fn mutex_lock(m: *mut mutex_t); }\npub fn thread_get(pid: i16) {}\n"
        .chars()
        .collect();
    assert!(has_item(&source, "irq_disable"));
    assert!(has_item(&source, "AF_INET"));
    assert!(has_item(&source, "thread_get"));
    assert!(!has_item(&source, "mutex_lock"));
    assert!(!has_item(&source, "irq"));
    assert!(!has_item(&source, "AF_INET6"));
    assert!(!has_item(&[], "irq_disable"));
}

#[test]
fn exports_are_selected_in_candidate_order() {
    let source = "pub unsafe fn mutex_lock() {}\npub unsafe fn irq_disable() {}\npub const unsafe fn macro_MUTEX_INIT() {}\n";
    let names = select_exports(&export_candidates(&MacroSpec::known()), source);
    assert_eq!(names, strings(&["irq_disable", "mutex_lock", "macro_MUTEX_INIT"]));
    assert_eq!(select_exports(&vec![], source), Vec::<String>::new());
}

#[test]
fn export_statement() {
    assert_eq!(render_exports(&strings(&["irq_disable", "AF_INET"])), "pub use inline::{ irq_disable,\nAF_INET };\n");
    assert_eq!(render_exports(&strings(&["irq_disable"])), "pub use inline::{ irq_disable };\n");
    assert_eq!(render_exports(&vec![]), "pub use inline::{  };\n");
}
