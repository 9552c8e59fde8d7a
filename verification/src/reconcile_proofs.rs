//! What holds of the passes of the transform when they are applied again
//! to their own output.

use crate::macros::MacroModel;
use crate::reconcile::{
    clash_at, declaration_prefix, has_rule, legacy_assembly_pass, never_aligned, prefix_text,
    substituted, variadic_placeholder_pass, wrapped_macro, DeclarationPrefix, RuleKind, RuleModel,
    SubstitutionModel,
};
use crate::text::{
    lemma_occurs_iff_found, lemma_search_from, occurs, occurs_at, replaced_from, search_from,
};
use crate::words::{
    is_word_char, lemma_word_end, renamed, renamed_from, repeatable_rename, word_end,
};
use vstd::prelude::*;

verus! {

/// An occurrence in the text from `at` on is an occurrence in the text.
pub proof fn lemma_occurrence_in_suffix(text: Seq<char>, pat: Seq<char>, at: int, p: int)
    requires
        0 <= at <= text.len(),
        occurs_at(text.skip(at), pat, p),
    ensures
        occurs_at(text, pat, at + p),
{
    assert(text.subrange(at + p, at + p + pat.len()) =~= text.skip(at).subrange(p, p + pat.len()));
}

/// A pass leaves a text without an occurrence of its pattern as it is.
pub proof fn lemma_unchanged_without_occurrence(text: Seq<char>, pass: SubstitutionModel)
    requires
        pass.from.len() == 0 || !occurs(text, pass.from),
    ensures
        substituted(text, pass) == text,
{
    lemma_occurs_iff_found(text, pass.from);
    assert(text.skip(0) =~= text);
}

/// Applying a pass twice gives what applying it once gives, whenever the
/// first application leaves no occurrence of the pattern behind.
pub proof fn lemma_substitution_idempotent(text: Seq<char>, pass: SubstitutionModel)
    requires
        pass.from.len() == 0 || !occurs(substituted(text, pass), pass.from),
    ensures
        substituted(substituted(text, pass), pass) == substituted(text, pass),
{
    lemma_unchanged_without_occurrence(substituted(text, pass), pass);
}

/// Where the pattern can never be laid over the replacement, the output of
/// a pass holds no occurrence of the pattern.
pub proof fn lemma_no_occurrence_left(text: Seq<char>, from: Seq<char>, to: Seq<char>, at: int)
    requires
        from.len() > 0,
        never_aligned(from, to),
        0 <= at <= text.len(),
    ensures
        !occurs(replaced_from(text, from, to, at), from),
    decreases text.len() - at,
{
    let out = replaced_from(text, from, to, at);
    lemma_search_from(text, from, at);
    match search_from(text, from, at) {
        None => {
            assert forall|p: int| !occurs_at(out, from, p) by {
                if occurs_at(out, from, p) {
                    lemma_occurrence_in_suffix(text, from, at, p);
                }
            }
        },
        Some(found) => {
            let kept = text.subrange(at, found);
            let rest = replaced_from(text, from, to, found + from.len());
            lemma_no_occurrence_left(text, from, to, found + from.len());
            assert(out == kept + to + rest);
            assert forall|p: int| !occurs_at(out, from, p) by {
                if occurs_at(out, from, p) {
                    let hit = out.subrange(p, p + from.len());
                    if p + from.len() <= kept.len() {
                        assert(text.subrange(at + p, at + p + from.len()) =~= hit);
                        assert(occurs_at(text, from, at + p));
                    } else if p >= kept.len() + to.len() {
                        let q = p - kept.len() - to.len();
                        assert(rest.subrange(q, q + from.len()) =~= hit);
                        assert(occurs_at(rest, from, q));
                    } else {
                        let shift = kept.len() - p;
                        assert(-to.len() < shift < from.len());
                        assert(clash_at(from, to, shift));
                        let k = choose|k: int|
                            0 <= k < from.len() && 0 <= k - shift < to.len() && from[k] != to[k
                                - shift];
                        assert(hit[k] == out[p + k]);
                        assert(out[p + k] == to[k - shift]);
                    }
                }
            }
        },
    }
}

/// Where the pattern can never be laid over the replacement, applying the
/// pass twice gives what applying it once gives, for every text.
pub proof fn lemma_stable_substitution(text: Seq<char>, pass: SubstitutionModel)
    requires
        pass.from.len() > 0,
        never_aligned(pass.from, pass.to),
    ensures
        !occurs(substituted(text, pass), pass.from),
        substituted(substituted(text, pass), pass) == substituted(text, pass),
{
    lemma_no_occurrence_left(text, pass.from, pass.to, 0);
    lemma_substitution_idempotent(text, pass);
}

/// The pattern of the pass can never be laid over its replacement.
pub proof fn lemma_legacy_assembly_never_aligned()
    ensures
        legacy_assembly_pass().from.len() > 0,
        never_aligned(legacy_assembly_pass().from, legacy_assembly_pass().to),
{
    reveal_strlit(" asm!(");
    reveal_strlit(" llvm_asm!(");
    let from = legacy_assembly_pass().from;
    let to = legacy_assembly_pass().to;
    assert(from.len() == 6 && to.len() == 11);
    assert forall|d: int| -to.len() < d < from.len() implies clash_at(from, to, d) by {
        if d == -10 {
            assert(from[0] != to[10]);
        } else if d == -9 {
            assert(from[0] != to[9]);
        } else if d == -8 {
            assert(from[0] != to[8]);
        } else if d == -7 {
            assert(from[0] != to[7]);
        } else if d == -6 {
            assert(from[0] != to[6]);
        } else if d == -5 {
            assert(from[0] != to[5]);
        } else if d == -4 {
            assert(from[0] != to[4]);
        } else if d == -3 {
            assert(from[0] != to[3]);
        } else if d == -2 {
            assert(from[0] != to[2]);
        } else if d == -1 {
            assert(from[0] != to[1]);
        } else if d == 0 {
            assert(from[1] != to[1]);
        } else if d == 1 {
            assert(from[1] != to[0]);
        } else if d == 2 {
            assert(from[2] != to[0]);
        } else if d == 3 {
            assert(from[3] != to[0]);
        } else if d == 4 {
            assert(from[4] != to[0]);
        } else if d == 5 {
            assert(from[5] != to[0]);
        }
    }
}

/// Applying the pass twice gives what applying it once gives, for every text.
pub proof fn lemma_legacy_assembly_idempotent(text: Seq<char>)
    ensures
        substituted(substituted(text, legacy_assembly_pass()), legacy_assembly_pass()) == substituted(
            text,
            legacy_assembly_pass(),
        ),
{
    lemma_legacy_assembly_never_aligned();
    lemma_stable_substitution(text, legacy_assembly_pass());
}

/// The pattern of the pass can never be laid over its replacement.
pub proof fn lemma_variadic_placeholder_never_aligned()
    ensures
        variadic_placeholder_pass().from.len() > 0,
        never_aligned(variadic_placeholder_pass().from, variadic_placeholder_pass().to),
{
    reveal_strlit("::core::ffi::VaList");
    reveal_strlit("::core::convert::Infallible");
    let from = variadic_placeholder_pass().from;
    let to = variadic_placeholder_pass().to;
    assert(from.len() == 19 && to.len() == 27);
    assert forall|d: int| -to.len() < d < from.len() implies clash_at(from, to, d) by {
        if d == -26 {
            assert(from[0] != to[26]);
        } else if d == -25 {
            assert(from[0] != to[25]);
        } else if d == -24 {
            assert(from[0] != to[24]);
        } else if d == -23 {
            assert(from[0] != to[23]);
        } else if d == -22 {
            assert(from[0] != to[22]);
        } else if d == -21 {
            assert(from[0] != to[21]);
        } else if d == -20 {
            assert(from[0] != to[20]);
        } else if d == -19 {
            assert(from[0] != to[19]);
        } else if d == -18 {
            assert(from[0] != to[18]);
        } else if d == -17 {
            assert(from[0] != to[17]);
        } else if d == -16 {
            assert(from[1] != to[17]);
        } else if d == -15 {
            assert(from[2] != to[17]);
        } else if d == -14 {
            assert(from[0] != to[14]);
        } else if d == -13 {
            assert(from[0] != to[13]);
        } else if d == -12 {
            assert(from[0] != to[12]);
        } else if d == -11 {
            assert(from[0] != to[11]);
        } else if d == -10 {
            assert(from[0] != to[10]);
        } else if d == -9 {
            assert(from[0] != to[9]);
        } else if d == -8 {
            assert(from[0] != to[8]);
        } else if d == -7 {
            assert(from[1] != to[8]);
        } else if d == -6 {
            assert(from[4] != to[10]);
        } else if d == -5 {
            assert(from[0] != to[5]);
        } else if d == -4 {
            assert(from[0] != to[4]);
        } else if d == -3 {
            assert(from[0] != to[3]);
        } else if d == -2 {
            assert(from[0] != to[2]);
        } else if d == -1 {
            assert(from[1] != to[2]);
        } else if d == 0 {
            assert(from[8] != to[8]);
        } else if d == 1 {
            assert(from[2] != to[1]);
        } else if d == 2 {
            assert(from[2] != to[0]);
        } else if d == 3 {
            assert(from[3] != to[0]);
        } else if d == 4 {
            assert(from[4] != to[0]);
        } else if d == 5 {
            assert(from[5] != to[0]);
        } else if d == 6 {
            assert(from[8] != to[2]);
        } else if d == 7 {
            assert(from[8] != to[1]);
        } else if d == 8 {
            assert(from[8] != to[0]);
        } else if d == 9 {
            assert(from[9] != to[0]);
        } else if d == 10 {
            assert(from[10] != to[0]);
        } else if d == 11 {
            assert(from[13] != to[2]);
        } else if d == 12 {
            assert(from[13] != to[1]);
        } else if d == 13 {
            assert(from[13] != to[0]);
        } else if d == 14 {
            assert(from[14] != to[0]);
        } else if d == 15 {
            assert(from[15] != to[0]);
        } else if d == 16 {
            assert(from[16] != to[0]);
        } else if d == 17 {
            assert(from[17] != to[0]);
        } else if d == 18 {
            assert(from[18] != to[0]);
        }
    }
}

/// Applying the pass twice gives what applying it once gives, for every text.
pub proof fn lemma_variadic_placeholder_idempotent(text: Seq<char>)
    ensures
        substituted(substituted(text, variadic_placeholder_pass()), variadic_placeholder_pass()) == substituted(
            text,
            variadic_placeholder_pass(),
        ),
{
    lemma_variadic_placeholder_never_aligned();
    lemma_stable_substitution(text, variadic_placeholder_pass());
}

/// How the length of a text changes under a pass: it cannot grow when the
/// replacement is no longer than the pattern, cannot shrink when it is no
/// shorter, and does change when the lengths differ and the pattern is found.
pub proof fn lemma_replaced_length(text: Seq<char>, from: Seq<char>, to: Seq<char>, at: int)
    requires
        from.len() > 0,
        0 <= at <= text.len(),
    ensures
        to.len() <= from.len() ==> replaced_from(text, from, to, at).len() <= text.len() - at,
        to.len() >= from.len() ==> replaced_from(text, from, to, at).len() >= text.len() - at,
        to.len() < from.len() && search_from(text, from, at) is Some ==> replaced_from(
            text,
            from,
            to,
            at,
        ).len() < text.len() - at,
        to.len() > from.len() && search_from(text, from, at) is Some ==> replaced_from(
            text,
            from,
            to,
            at,
        ).len() > text.len() - at,
    decreases text.len() - at,
{
    lemma_search_from(text, from, at);
    match search_from(text, from, at) {
        None => {},
        Some(found) => {
            lemma_replaced_length(text, from, to, found + from.len());
        },
    }
}

/// A pass changes every text that holds its pattern, unless it replaces
/// the pattern by itself.
pub proof fn lemma_occurrence_is_replaced(text: Seq<char>, pass: SubstitutionModel)
    requires
        pass.from.len() > 0,
        pass.from != pass.to,
        occurs(text, pass.from),
    ensures
        substituted(text, pass) != text,
{
    let from = pass.from;
    let to = pass.to;
    lemma_occurs_iff_found(text, from);
    lemma_search_from(text, from, 0);
    lemma_replaced_length(text, from, to, 0);
    let found = search_from(text, from, 0)->0;
    let out = substituted(text, pass);
    if to.len() == from.len() {
        assert(!(from =~= to));
        let k = choose|k: int| 0 <= k < from.len() && from[k] != to[k];
        assert(text.subrange(found, found + from.len())[k] == from[k]);
        assert(out == text.subrange(0, found) + to + replaced_from(
            text,
            from,
            to,
            found + from.len(),
        ));
        assert(out[found + k] == to[k]);
    }
}

/// Applying a pass twice differs from applying it once exactly when the
/// first application leaves an occurrence of the pattern behind.
pub proof fn lemma_repetition_changes_text(text: Seq<char>, pass: SubstitutionModel)
    requires
        pass.from.len() > 0,
        pass.from != pass.to,
        occurs(substituted(text, pass), pass.from),
    ensures
        substituted(substituted(text, pass), pass) != substituted(text, pass),
{
    lemma_occurrence_is_replaced(substituted(text, pass), pass);
}

/// A run of identifier characters that nothing extends ends where it ends.
pub proof fn lemma_word_end_of_run(text: Seq<char>, from: int, to: int)
    requires
        0 <= from <= to <= text.len(),
        forall|k: int| from <= k < to ==> is_word_char(#[trigger] text[k]),
        to < text.len() ==> !is_word_char(text[to]),
    ensures
        word_end(text, from) == to,
    decreases to - from,
{
    if from < to {
        lemma_word_end_of_run(text, from + 1, to);
    }
}

/// What a rename writes from a position on starts with an identifier
/// character only where the text does.
pub proof fn lemma_renamed_starts_alike(
    text: Seq<char>,
    names: Seq<Seq<char>>,
    prefix: Seq<char>,
    at: int,
)
    requires
        0 <= at <= text.len(),
        at < text.len() ==> !is_word_char(text[at]),
    ensures
        renamed_from(text, names, prefix, at).len() > 0 ==> !is_word_char(
            renamed_from(text, names, prefix, at)[0],
        ),
{
}

/// Scanning the output of a rename again, after any text, writes the output
/// once more.
pub proof fn lemma_renamed_again(
    text: Seq<char>,
    names: Seq<Seq<char>>,
    prefix: Seq<char>,
    at: int,
    before: Seq<char>,
)
    requires
        repeatable_rename(names, prefix),
        0 <= at <= text.len(),
    ensures
        renamed_from(
            before + renamed_from(text, names, prefix, at),
            names,
            prefix,
            before.len() as int,
        ) == renamed_from(text, names, prefix, at),
    decreases text.len() - at,
{
    let out = renamed_from(text, names, prefix, at);
    let whole = before + out;
    let start = before.len() as int;
    if at >= text.len() {
        assert(whole =~= before);
    } else if !is_word_char(text[at]) {
        let rest = renamed_from(text, names, prefix, at + 1);
        lemma_renamed_again(text, names, prefix, at + 1, before.push(text[at]));
        assert(whole =~= before.push(text[at]) + rest);
        assert(whole[start] == text[at]);
    } else {
        lemma_word_end(text, at);
        let end = word_end(text, at);
        let word = text.subrange(at, end);
        let written = if names.contains(word) {
            prefix + word
        } else {
            word
        };
        let rest = renamed_from(text, names, prefix, end);
        assert(out == written + rest);
        lemma_renamed_again(text, names, prefix, end, before + written);
        assert(whole =~= (before + written) + rest);
        lemma_renamed_starts_alike(text, names, prefix, end);
        let stop = start + written.len();
        assert forall|k: int| start <= k < stop implies is_word_char(#[trigger] whole[k]) by {
            assert(whole[k] == written[k - start]);
            if names.contains(word) {
                if k - start < prefix.len() {
                    assert(written[k - start] == prefix[k - start]);
                } else {
                    assert(written[k - start] == word[k - start - prefix.len()]);
                    assert(word[k - start - prefix.len()] == text[at + (k - start - prefix.len())]);
                }
            } else {
                assert(written[k - start] == text[at + (k - start)]);
            }
        }
        if stop < whole.len() {
            assert(whole[stop] == rest[0]);
        }
        lemma_word_end_of_run(whole, start, stop);
        assert(whole.subrange(start, stop) =~= written);
        assert(is_word_char(whole[start]));
        assert(!names.contains(written));
    }
}

/// Renaming the output of a repeatable rename changes nothing: no
/// identifier is led by the prefix twice.
pub proof fn lemma_rename_idempotent(text: Seq<char>, names: Seq<Seq<char>>, prefix: Seq<char>)
    requires
        repeatable_rename(names, prefix),
    ensures
        renamed(renamed(text, names, prefix), names, prefix) == renamed(text, names, prefix),
{
    lemma_renamed_again(text, names, prefix, 0, Seq::empty());
    assert(Seq::<char>::empty() + renamed(text, names, prefix) =~= renamed(text, names, prefix));
}

/// A function that no rule names and that wraps no macro of the table is
/// declared public and without foreign linkage.
pub proof fn lemma_ordinary_function_is_public(
    rules: Seq<RuleModel>,
    macros: Seq<MacroModel>,
    function: Seq<char>,
)
    requires
        forall|kind: RuleKind| !has_rule(rules, function, kind),
        wrapped_macro(macros, function) is None,
    ensures
        declaration_prefix(rules, macros, function) == (DeclarationPrefix {
            public: true,
            foreign_linkage: false,
            constant: false,
            gated: false,
        }),
        prefix_text(declaration_prefix(rules, macros, function)) == "pub unsafe fn "@,
{
    reveal_strlit("");
    reveal_strlit("pub ");
    reveal_strlit("unsafe ");
    reveal_strlit("fn ");
    reveal_strlit("pub unsafe fn ");
    assert(!has_rule(rules, function, RuleKind::Callback));
    assert(!has_rule(rules, function, RuleKind::LinkerOverride));
    assert(!has_rule(rules, function, RuleKind::Mistranspiled));
    assert(prefix_text(declaration_prefix(rules, macros, function)) =~= "pub unsafe fn "@);
}

} // verus!
