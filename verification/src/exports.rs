//! The inline functions that are re-exported at the top level.
//!
//! A function of the target system may be linked on one platform and
//! `static inline` on another. The names listed here are re-exported from
//! the transpiled module wherever that module has them, so that users find
//! them in one place on every platform.

use crate::macros::{macros_view, MacroModel, MacroSpec};
use crate::text::{append_chars, chars_of, contains, join, joined, occurs, strings_view};
use vstd::prelude::*;

verus! {

/// Whether the transpiled source has an item of the given name: a public
/// function, an unsafe function, or a constant.
pub open spec fn is_exported(source: Seq<char>, name: Seq<char>) -> bool {
    ||| occurs(source, "pub fn "@ + name + "("@)
    ||| occurs(source, "unsafe fn "@ + name + "("@)
    ||| occurs(source, " "@ + name + ": "@)
}

/// The candidates that the transpiled source has, in their order.
pub open spec fn exported(candidates: Seq<Seq<char>>, source: Seq<char>) -> Seq<Seq<char>>
    decreases candidates.len(),
{
    if candidates.len() == 0 {
        Seq::empty()
    } else {
        let before = exported(candidates.drop_last(), source);
        if is_exported(source, candidates.last()) {
            before.push(candidates.last())
        } else {
            before
        }
    }
}

/// The functions and constants that are re-exported wherever they are inline.
pub open spec fn known_candidates() -> Seq<Seq<char>> {
    seq![
        "bluetil_ad_add_flags"@,
        "coap_get_code_raw"@,
        "coap_get_total_hdr_len"@,
        "gnrc_netapi_dispatch_send"@,
        "gnrc_netif_ipv6_addrs_get"@,
        "gnrc_netreg_entry_init_pid"@,
        "gpio_is_valid"@,
        "irq_disable"@,
        "irq_is_enabled"@,
        "irq_is_in"@,
        "irq_restore"@,
        "mutex_trylock"@,
        "mutex_lock"@,
        "pid_is_valid"@,
        "shell_run_forever"@,
        "sock_udp_recv"@,
        "sock_udp_send"@,
        "thread_get"@,
        "thread_getpid"@,
        "thread_get_unchecked"@,
        "ztimer_spin"@,
        "AF_UNSPEC"@,
        "AF_UNIX"@,
        "AF_PACKET"@,
        "AF_INET"@,
        "AF_INET6"@,
    ]
}

/// The names of the wrappers of the macros of a table.
pub open spec fn wrapper_names(macros: Seq<MacroModel>) -> Seq<Seq<char>> {
    macros.map_values(|m: MacroModel| "macro_"@ + m.name)
}

/// The source line that re-exports the names from the transpiled module.
pub open spec fn export_statement(names: Seq<Seq<char>>) -> Seq<char> {
    "pub use inline::{ "@ + joined(names, ",\n"@) + " };\n"@
}

/// The candidates for re-export: the known functions and constants, then
/// the wrapper of every macro of the table.
pub fn export_candidates(macros: &Vec<MacroSpec>) -> (names: Vec<String>)
    ensures
        strings_view(names@) == known_candidates() + wrapper_names(macros_view(macros@)),
{
    let mut names: Vec<String> = Vec::new();
    names.push("bluetil_ad_add_flags".to_owned());
    names.push("coap_get_code_raw".to_owned());
    names.push("coap_get_total_hdr_len".to_owned());
    names.push("gnrc_netapi_dispatch_send".to_owned());
    names.push("gnrc_netif_ipv6_addrs_get".to_owned());
    names.push("gnrc_netreg_entry_init_pid".to_owned());
    names.push("gpio_is_valid".to_owned());
    names.push("irq_disable".to_owned());
    names.push("irq_is_enabled".to_owned());
    names.push("irq_is_in".to_owned());
    names.push("irq_restore".to_owned());
    names.push("mutex_trylock".to_owned());
    names.push("mutex_lock".to_owned());
    names.push("pid_is_valid".to_owned());
    names.push("shell_run_forever".to_owned());
    names.push("sock_udp_recv".to_owned());
    names.push("sock_udp_send".to_owned());
    names.push("thread_get".to_owned());
    names.push("thread_getpid".to_owned());
    names.push("thread_get_unchecked".to_owned());
    names.push("ztimer_spin".to_owned());
    names.push("AF_UNSPEC".to_owned());
    names.push("AF_UNIX".to_owned());
    names.push("AF_PACKET".to_owned());
    names.push("AF_INET".to_owned());
    names.push("AF_INET6".to_owned());
    assert(strings_view(names@) =~= known_candidates());
    let ghost wrappers = wrapper_names(macros_view(macros@));
    let mut i: usize = 0;
    while i < macros.len()
        invariant
            i <= macros.len(),
            wrappers == wrapper_names(macros_view(macros@)),
            strings_view(names@) == known_candidates() + wrappers.take(i as int),
        decreases macros.len() - i,
    {
        let ghost before = strings_view(names@);
        let mut name = "macro_".to_owned();
        name.append(macros[i].name.as_str());
        names.push(name);
        assert(strings_view(names@) =~= before.push("macro_"@ + macros[i as int].name@));
        assert(wrappers.take(i + 1) =~= wrappers.take(i as int).push(wrappers[i as int]));
        assert(strings_view(names@) =~= known_candidates() + wrappers.take(i + 1));
        i += 1;
    }
    assert(wrappers.take(macros.len() as int) =~= wrappers);
    names
}

/// Whether the transpiled source has an item of the given name.
pub fn has_item(source: &[char], name: &str) -> (hit: bool)
    ensures
        hit == is_exported(source@, name@),
{
    let name = chars_of(name);
    let mut public = chars_of("pub fn ");
    append_chars(&mut public, name.as_slice());
    append_chars(&mut public, chars_of("(").as_slice());
    if contains(source, public.as_slice()) {
        return true;
    }
    let mut private = chars_of("unsafe fn ");
    append_chars(&mut private, name.as_slice());
    append_chars(&mut private, chars_of("(").as_slice());
    if contains(source, private.as_slice()) {
        return true;
    }
    let mut constant = chars_of(" ");
    append_chars(&mut constant, name.as_slice());
    append_chars(&mut constant, chars_of(": ").as_slice());
    contains(source, constant.as_slice())
}

/// Picks the candidates that the transpiled source has.
pub fn select_exports(candidates: &Vec<String>, source: &str) -> (names: Vec<String>)
    ensures
        strings_view(names@) == exported(strings_view(candidates@), source@),
{
    let ghost all = strings_view(candidates@);
    let text = chars_of(source);
    let mut names: Vec<String> = Vec::new();
    let mut i: usize = 0;
    while i < candidates.len()
        invariant
            i <= candidates.len(),
            all == strings_view(candidates@),
            text@ == source@,
            strings_view(names@) == exported(all.take(i as int), source@),
        decreases candidates.len() - i,
    {
        let ghost before = strings_view(names@);
        assert(all.take(i + 1).drop_last() =~= all.take(i as int));
        assert(all.take(i + 1).last() == candidates[i as int]@);
        if has_item(text.as_slice(), candidates[i].as_str()) {
            names.push(candidates[i].clone());
            assert(strings_view(names@) =~= before.push(candidates[i as int]@));
        }
        i += 1;
    }
    assert(all.take(candidates.len() as int) =~= all);
    names
}

/// Writes the source line that re-exports the names.
pub fn render_exports(names: &Vec<String>) -> (text: String)
    ensures
        text@ == export_statement(strings_view(names@)),
{
    let list = join(names, ",\n");
    let mut text = "pub use inline::{ ".to_owned();
    text.append(list.as_str());
    text.append(" };\n");
    text
}

} // verus!
