//! Passes that work on whole identifiers: renaming identifiers that collide
//! with constants of the generated declarations, and commenting out the
//! declarations of types that the transpiler leaves without a definition.

use crate::text::{
    append_chars, append_range, chars_of, copy_range, matches_at, occurs_at, same_text,
    strings_view, texts_view,
};
use vstd::prelude::*;

verus! {

/// A character of an identifier: an ASCII letter, a digit or an underscore.
pub open spec fn is_word_char(c: char) -> bool {
    ('a' <= c && c <= 'z') || ('A' <= c && c <= 'Z') || ('0' <= c && c <= '9') || c == '_'
}

/// Whether the character can stand in an identifier.
pub fn word_char(c: char) -> (hit: bool)
    ensures
        hit == is_word_char(c),
{
    ('a' <= c && c <= 'z') || ('A' <= c && c <= 'Z') || ('0' <= c && c <= '9') || c == '_'
}

/// Every character of the text can stand in an identifier.
pub open spec fn is_word(text: Seq<char>) -> bool {
    forall|i: int| 0 <= i < text.len() ==> is_word_char(#[trigger] text[i])
}

/// Where the run of identifier characters that starts at `at` ends.
pub open spec fn word_end(text: Seq<char>, at: int) -> int
    decreases text.len() - at,
{
    if 0 <= at < text.len() && is_word_char(text[at]) {
        word_end(text, at + 1)
    } else {
        at
    }
}

/// The run that starts at `at` is made of identifier characters and cannot
/// be extended.
pub proof fn lemma_word_end(text: Seq<char>, at: int)
    requires
        0 <= at <= text.len(),
    ensures
        at <= word_end(text, at) <= text.len(),
        forall|k: int| at <= k < word_end(text, at) ==> is_word_char(#[trigger] text[k]),
        word_end(text, at) < text.len() ==> !is_word_char(text[word_end(text, at)]),
        at < text.len() && is_word_char(text[at]) ==> at < word_end(text, at),
    decreases text.len() - at,
{
    if at < text.len() && is_word_char(text[at]) {
        lemma_word_end(text, at + 1);
    }
}

/// The text from offset `at` on, with every whole identifier that is one of
/// `names` led by `prefix`. An identifier is a longest run of identifier
/// characters, so a name inside a longer identifier is left alone.
pub open spec fn renamed_from(
    text: Seq<char>,
    names: Seq<Seq<char>>,
    prefix: Seq<char>,
    at: int,
) -> Seq<char>
    decreases text.len() - at,
{
    if at < 0 || at >= text.len() {
        Seq::empty()
    } else if !is_word_char(text[at]) {
        seq![text[at]] + renamed_from(text, names, prefix, at + 1)
    } else {
        let end = word_end(text, at);
        let word = text.subrange(at, end);
        proof {
            lemma_word_end(text, at);
        }
        (if names.contains(word) {
            prefix + word
        } else {
            word
        }) + renamed_from(text, names, prefix, end)
    }
}

/// The text with every whole identifier that is one of `names` led by
/// `prefix`.
pub open spec fn renamed(text: Seq<char>, names: Seq<Seq<char>>, prefix: Seq<char>) -> Seq<char> {
    renamed_from(text, names, prefix, 0)
}

/// Finds the end of the run of identifier characters that starts at `at`.
pub fn find_word_end(text: &[char], at: usize) -> (end: usize)
    ensures
        end == word_end(text@, at as int),
        at <= text.len() ==> at <= end <= text.len(),
{
    let mut end: usize = at;
    while end < text.len() && word_char(text[end])
        invariant
            at <= end,
            at <= text.len() ==> end <= text.len(),
            word_end(text@, end as int) == word_end(text@, at as int),
        decreases text.len() - end,
    {
        end += 1;
    }
    end
}

/// Whether `texts` holds `word`.
pub fn has_text(texts: &Vec<Vec<char>>, word: &[char]) -> (hit: bool)
    ensures
        hit == texts_view(texts@).contains(word@),
{
    let mut i: usize = 0;
    while i < texts.len()
        invariant
            i <= texts.len(),
            forall|k: int| 0 <= k < i ==> texts_view(texts@)[k] != word@,
        decreases texts.len() - i,
    {
        if same_text(texts[i].as_slice(), word) {
            assert(texts_view(texts@)[i as int] == word@);
            return true;
        }
        i += 1;
    }
    false
}

/// Decodes every string of a list.
pub fn texts_of(strings: &Vec<String>) -> (texts: Vec<Vec<char>>)
    ensures
        texts_view(texts@) == strings_view(strings@),
{
    let mut texts: Vec<Vec<char>> = Vec::new();
    let mut i: usize = 0;
    while i < strings.len()
        invariant
            i <= strings.len(),
            texts_view(texts@) == strings_view(strings@).take(i as int),
        decreases strings.len() - i,
    {
        let ghost before = texts_view(texts@);
        texts.push(chars_of(strings[i].as_str()));
        assert(texts_view(texts@) =~= before.push(strings[i as int]@));
        assert(strings_view(strings@).take(i + 1) =~= strings_view(strings@).take(i as int).push(
            strings[i as int]@,
        ));
        i += 1;
    }
    assert(strings_view(strings@).take(strings.len() as int) =~= strings_view(strings@));
    texts
}

/// Leads every whole identifier of the text that is one of `names` by
/// `prefix`.
pub fn rename_identifiers(text: &[char], names: &Vec<Vec<char>>, prefix: &[char]) -> (out: Vec<
    char,
>)
    ensures
        out@ == renamed(text@, texts_view(names@), prefix@),
{
    let ghost all = texts_view(names@);
    let mut out: Vec<char> = Vec::new();
    let mut at: usize = 0;
    while at < text.len()
        invariant
            at <= text.len(),
            all == texts_view(names@),
            out@ + renamed_from(text@, all, prefix@, at as int) == renamed(text@, all, prefix@),
        decreases text.len() - at,
    {
        let ghost before = out@;
        if !word_char(text[at]) {
            let ghost rest = renamed_from(text@, all, prefix@, at as int + 1);
            out.push(text[at]);
            assert(before + (seq![text@[at as int]] + rest) =~= before.push(text@[at as int])
                + rest);
            at += 1;
        } else {
            let end = find_word_end(text, at);
            proof {
                lemma_word_end(text@, at as int);
            }
            let ghost rest = renamed_from(text@, all, prefix@, end as int);
            let ghost word = text@.subrange(at as int, end as int);
            let word = copy_range(text, at, end);
            if has_text(names, word.as_slice()) {
                append_chars(&mut out, prefix);
                assert(before + ((prefix@ + word@) + rest) =~= ((before + prefix@) + word@) + rest);
            } else {
                assert(before + (word@ + rest) =~= (before + word@) + rest);
            }
            append_chars(&mut out, word.as_slice());
            at = end;
        }
    }
    out
}

/// A rename that can be repeated: the prefix is made of identifier
/// characters, so that a renamed identifier is still one identifier, and no
/// renamed identifier is itself among the names.
pub open spec fn repeatable_rename(names: Seq<Seq<char>>, prefix: Seq<char>) -> bool {
    &&& is_word(prefix)
    &&& forall|name: Seq<char>| names.contains(name) ==> !names.contains(prefix + name)
}

/// Whether every character of the text can stand in an identifier.
pub fn all_word_chars(text: &[char]) -> (hit: bool)
    ensures
        hit == is_word(text@),
{
    let mut i: usize = 0;
    while i < text.len()
        invariant
            i <= text.len(),
            forall|k: int| 0 <= k < i ==> is_word_char(#[trigger] text@[k]),
        decreases text.len() - i,
    {
        if !word_char(text[i]) {
            return false;
        }
        i += 1;
    }
    true
}

/// Whether a rename of `names` with `prefix` can be repeated without
/// leading an identifier by the prefix twice.
pub fn is_repeatable(names: &Vec<Vec<char>>, prefix: &[char]) -> (hit: bool)
    ensures
        hit == repeatable_rename(texts_view(names@), prefix@),
{
    if !all_word_chars(prefix) {
        return false;
    }
    let ghost all = texts_view(names@);
    let mut i: usize = 0;
    while i < names.len()
        invariant
            i <= names.len(),
            all == texts_view(names@),
            is_word(prefix@),
            forall|k: int| 0 <= k < i ==> !all.contains(prefix@ + #[trigger] all[k]),
        decreases names.len() - i,
    {
        let mut renamed: Vec<char> = Vec::new();
        append_chars(&mut renamed, prefix);
        append_chars(&mut renamed, names[i].as_slice());
        assert(renamed@ =~= prefix@ + all[i as int]);
        if has_text(names, renamed.as_slice()) {
            assert(all.contains(all[i as int]));
            return false;
        }
        i += 1;
    }
    assert forall|name: Seq<char>| all.contains(name) implies !all.contains(prefix@ + name) by {
        let k = choose|k: int| 0 <= k < all.len() && all[k] == name;
        assert(!all.contains(prefix@ + all[k]));
    }
    true
}

/// The words that open the declaration of a type without a definition.
pub open spec fn extern_type_opening() -> Seq<char> {
    "pub type "@
}

/// Where the declaration `pub type <name>;` that starts at `at` has its
/// semicolon; `None` when no such declaration starts there. The name is a
/// run of one or more identifier characters.
pub open spec fn extern_type_end(text: Seq<char>, at: int) -> Option<int> {
    let start = at + extern_type_opening().len();
    let end = word_end(text, start);
    if occurs_at(text, extern_type_opening(), at) && start < end && end < text.len() && text[end]
        == ';' {
        Some(end)
    } else {
        None
    }
}

/// The names of the types that the text declares without a definition from
/// offset `at` on, in order. Declarations are found left to right and do not
/// overlap.
pub open spec fn extern_types_from(text: Seq<char>, at: int) -> Seq<Seq<char>>
    decreases text.len() - at,
{
    if at < 0 || at >= text.len() {
        Seq::empty()
    } else {
        match extern_type_end(text, at) {
            Some(end) => seq![text.subrange(at + extern_type_opening().len(), end)]
                + extern_types_from(text, end + 1),
            None => extern_types_from(text, at + 1),
        }
    }
}

/// The names of the types that the text declares without a definition.
pub open spec fn extern_types(text: Seq<char>) -> Seq<Seq<char>> {
    extern_types_from(text, 0)
}

/// The text from offset `at` on with every declaration of a type without a
/// definition put inside a comment.
pub open spec fn without_extern_types_from(text: Seq<char>, at: int) -> Seq<char>
    decreases text.len() - at,
{
    if at < 0 || at >= text.len() {
        Seq::empty()
    } else {
        match extern_type_end(text, at) {
            Some(end) => "/* "@ + text.subrange(at, end + 1) + " */"@ + without_extern_types_from(
                text,
                end + 1,
            ),
            None => seq![text[at]] + without_extern_types_from(text, at + 1),
        }
    }
}

/// The text with every declaration of a type without a definition put
/// inside a comment.
pub open spec fn without_extern_types(text: Seq<char>) -> Seq<char> {
    without_extern_types_from(text, 0)
}

/// Looks for a declaration `pub type <name>;` that starts at `at` and gives
/// the offset of its semicolon.
fn find_extern_type(text: &[char], opening: &[char], at: usize) -> (found: Option<usize>)
    requires
        opening@ == extern_type_opening(),
        at < text.len(),
    ensures
        match found {
            Some(end) => extern_type_end(text@, at as int) == Some(end as int) && at
                + opening.len() < end < text.len(),
            None => extern_type_end(text@, at as int) is None,
        },
{
    if !matches_at(text, opening, at) {
        return None;
    }
    let start = at + opening.len();
    let end = find_word_end(text, start);
    if start < end && end < text.len() && text[end] == ';' {
        Some(end)
    } else {
        None
    }
}

/// Puts every declaration of a type without a definition inside a comment
/// and lists the names of the types.
pub fn comment_out_extern_types(text: &[char]) -> (out: (Vec<char>, Vec<Vec<char>>))
    ensures
        out.0@ == without_extern_types(text@),
        texts_view(out.1@) == extern_types(text@),
{
    let opening = chars_of("pub type ");
    let comment_start = chars_of("/* ");
    let comment_end = chars_of(" */");
    let mut patched: Vec<char> = Vec::new();
    let mut names: Vec<Vec<char>> = Vec::new();
    let mut at: usize = 0;
    while at < text.len()
        invariant
            at <= text.len(),
            opening@ == extern_type_opening(),
            comment_start@ == "/* "@,
            comment_end@ == " */"@,
            patched@ + without_extern_types_from(text@, at as int) == without_extern_types(text@),
            texts_view(names@) + extern_types_from(text@, at as int) == extern_types(text@),
        decreases text.len() - at,
    {
        let ghost before = patched@;
        let ghost listed = texts_view(names@);
        match find_extern_type(text, opening.as_slice(), at) {
            Some(end) => {
                let ghost rest = without_extern_types_from(text@, end as int + 1);
                let ghost later = extern_types_from(text@, end as int + 1);
                let ghost declaration = text@.subrange(at as int, end as int + 1);
                let ghost name = text@.subrange(at as int + opening@.len(), end as int);
                names.push(copy_range(text, at + opening.len(), end));
                assert(texts_view(names@) =~= listed.push(name));
                assert(listed + (seq![name] + later) =~= listed.push(name) + later);
                append_chars(&mut patched, comment_start.as_slice());
                append_range(&mut patched, text, at, end + 1);
                append_chars(&mut patched, comment_end.as_slice());
                assert(before + ("/* "@ + declaration + " */"@ + rest) =~= ((before + "/* "@)
                    + declaration) + " */"@ + rest);
                at = end + 1;
            },
            None => {
                let ghost rest = without_extern_types_from(text@, at as int + 1);
                patched.push(text[at]);
                assert(before + (seq![text@[at as int]] + rest) =~= before.push(text@[at as int])
                    + rest);
                at += 1;
            },
        }
    }
    (patched, names)
}

/// The definitions that stand in for the types: each is an array so large
/// that no value of it can exist.
pub open spec fn placeholder_definitions(names: Seq<Seq<char>>) -> Seq<char>
    decreases names.len(),
{
    if names.len() == 0 {
        Seq::empty()
    } else {
        placeholder_definitions(names.drop_last()) + ("pub type "@ + names.last()
            + " = [u8; isize::MAX as _];\n"@)
    }
}

/// Writes the definitions that stand in for the named types.
pub fn render_placeholders(names: &Vec<String>) -> (text: String)
    ensures
        text@ == placeholder_definitions(strings_view(names@)),
{
    let ghost all = strings_view(names@);
    let mut text = String::new();
    let mut i: usize = 0;
    while i < names.len()
        invariant
            i <= names.len(),
            all == strings_view(names@),
            text@ == placeholder_definitions(all.take(i as int)),
        decreases names.len() - i,
    {
        assert(all.take(i + 1).drop_last() =~= all.take(i as int));
        assert(all.take(i + 1).last() == names[i as int]@);
        let mut line = "pub type ".to_owned();
        line.append(names[i].as_str());
        line.append(" = [u8; isize::MAX as _];\n");
        text.append(line.as_str());
        i += 1;
    }
    assert(all.take(names.len() as int) =~= all);
    text
}

} // verus!
