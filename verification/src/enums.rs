//! Rust enums for C enums.
//!
//! The declaration extractor writes the values of a C enum as constants
//! named after the enum's type. For the enums listed here the constants are
//! gathered into a Rust enum of their own.

use crate::text::{
    append_chars, chars_of, copy_range, lemma_search_from, matches_at, occurs_at, search,
    search_from, string_of,
};
use vstd::prelude::*;

verus! {

/// One value of an enum: its name and its number as written.
pub struct Variant {
    pub name: String,
    pub value: String,
}

/// The mathematical content of a `Variant`.
pub struct VariantModel {
    pub name: Seq<char>,
    pub value: Seq<char>,
}

impl View for Variant {
    type V = VariantModel;

    open spec fn view(&self) -> VariantModel {
        VariantModel { name: self.name@, value: self.value@ }
    }
}

/// The contents of a sequence of variants.
pub open spec fn variants_view(variants: Seq<Variant>) -> Seq<VariantModel> {
    variants.map_values(|v: Variant| v@)
}

/// A decimal digit.
pub open spec fn is_digit(c: char) -> bool {
    '0' <= c && c <= '9'
}

/// Where the run of digits that starts at `at` ends.
pub open spec fn digits_end(text: Seq<char>, at: int) -> int
    decreases text.len() - at,
{
    if 0 <= at < text.len() && is_digit(text[at]) {
        digits_end(text, at + 1)
    } else {
        at
    }
}

/// A run of digits lies inside the text.
pub proof fn lemma_digits_end(text: Seq<char>, at: int)
    requires
        0 <= at <= text.len(),
    ensures
        at <= digits_end(text, at) <= text.len(),
    decreases text.len() - at,
{
    if at < text.len() && is_digit(text[at]) {
        lemma_digits_end(text, at + 1);
    }
}

/// The words that open the constant of a value of the C enum.
pub open spec fn constant_opening(c_enum: Seq<char>) -> Seq<char> {
    "pub const "@ + c_enum + "_"@
}

/// The variant whose constant starts at `at`, and where the constant ends:
/// after the opening comes the name up to the first colon, then anything up
/// to the first equals sign, which a space must follow, then the digits of
/// the value. `None` where no such constant starts at `at`.
pub open spec fn variant_at(text: Seq<char>, opening: Seq<char>, at: int) -> Option<
    (VariantModel, int),
> {
    let name_start = at + opening.len();
    if !occurs_at(text, opening, at) {
        None
    } else {
        match search_from(text, seq![':'], name_start) {
            None => None,
            Some(colon) => match search_from(text, seq!['='], colon + 1) {
                None => None,
                Some(equals) => if equals + 1 < text.len() && text[equals + 1] == ' ' {
                    let end = digits_end(text, equals + 2);
                    Some(
                        (
                            VariantModel {
                                name: text.subrange(name_start, colon),
                                value: text.subrange(equals + 2, end),
                            },
                            end,
                        ),
                    )
                } else {
                    None
                },
            },
        }
    }
}

/// A constant ends after it starts.
pub proof fn lemma_variant_at(text: Seq<char>, opening: Seq<char>, at: int)
    requires
        0 <= at,
    ensures
        variant_at(text, opening, at) matches Some((_, end)) ==> at < end <= text.len(),
{
    let name_start = at + opening.len();
    if occurs_at(text, opening, at) {
        lemma_search_from(text, seq![':'], name_start);
        if let Some(colon) = search_from(text, seq![':'], name_start) {
            lemma_search_from(text, seq!['='], colon + 1);
            if let Some(equals) = search_from(text, seq!['='], colon + 1) {
                if equals + 1 < text.len() {
                    lemma_digits_end(text, equals + 2);
                }
            }
        }
    }
}

/// The variants whose constants the text declares from offset `at` on.
/// Constants are found left to right and do not overlap.
pub open spec fn variants_from(text: Seq<char>, opening: Seq<char>, at: int) -> Seq<VariantModel>
    decreases text.len() - at,
{
    if at < 0 || at >= text.len() {
        Seq::empty()
    } else {
        match variant_at(text, opening, at) {
            Some((variant, end)) => {
                proof {
                    lemma_variant_at(text, opening, at);
                }
                seq![variant] + variants_from(text, opening, end)
            },
            None => variants_from(text, opening, at + 1),
        }
    }
}

/// The variants of the C enum that the text declares.
pub open spec fn variants(text: Seq<char>, c_enum: Seq<char>) -> Seq<VariantModel> {
    variants_from(text, constant_opening(c_enum), 0)
}

/// The lines of the variants inside the enum's braces.
pub open spec fn variant_lines(variants: Seq<VariantModel>) -> Seq<char>
    decreases variants.len(),
{
    if variants.len() == 0 {
        Seq::empty()
    } else {
        variant_lines(variants.drop_last()) + ("    "@ + variants.last().name + " = "@
            + variants.last().value + ",\n"@)
    }
}

/// The Rust enum with the given name and variants.
pub open spec fn enum_definition(name: Seq<char>, variants: Seq<VariantModel>) -> Seq<char> {
    "pub enum "@ + name + " {\n"@ + variant_lines(variants) + "}\n\n"@
}

/// Finds the end of the run of digits that starts at `at`.
pub fn find_digits_end(text: &[char], at: usize) -> (end: usize)
    ensures
        end == digits_end(text@, at as int),
        at <= text.len() ==> at <= end <= text.len(),
{
    let mut end: usize = at;
    while end < text.len() && '0' <= text[end] && text[end] <= '9'
        invariant
            at <= end,
            at <= text.len() ==> end <= text.len(),
            digits_end(text@, end as int) == digits_end(text@, at as int),
        decreases text.len() - end,
    {
        end += 1;
    }
    end
}

/// Reads the variant whose constant starts at `at`.
fn read_variant(text: &[char], opening: &[char], at: usize) -> (found: Option<(Variant, usize)>)
    requires
        at < text.len(),
    ensures
        match found {
            Some((variant, end)) => variant_at(text@, opening@, at as int) == Some(
                (variant@, end as int),
            ) && at < end <= text.len(),
            None => variant_at(text@, opening@, at as int) is None,
        },
{
    if !matches_at(text, opening, at) {
        return None;
    }
    let colon_mark: Vec<char> = vec![':'];
    let equals_mark: Vec<char> = vec!['='];
    assert(colon_mark@ =~= seq![':']);
    assert(equals_mark@ =~= seq!['=']);
    let name_start = at + opening.len();
    let colon = match search(text, colon_mark.as_slice(), name_start) {
        Some(colon) => colon,
        None => {
            return None;
        },
    };
    proof {
        lemma_search_from(text@, colon_mark@, name_start as int);
    }
    let equals = match search(text, equals_mark.as_slice(), colon + 1) {
        Some(equals) => equals,
        None => {
            return None;
        },
    };
    proof {
        lemma_search_from(text@, equals_mark@, colon as int + 1);
    }
    if equals + 1 < text.len() && text[equals + 1] == ' ' {
        let end = find_digits_end(text, equals + 2);
        let name = copy_range(text, name_start, colon);
        let value = copy_range(text, equals + 2, end);
        Some(
            (
                Variant {
                    name: string_of(name.as_slice()),
                    value: string_of(value.as_slice()),
                },
                end,
            ),
        )
    } else {
        None
    }
}

/// Gathers the variants of the C enum from the generated declarations.
pub fn collect_variants(declarations: &str, c_enum: &str) -> (found: Vec<Variant>)
    ensures
        variants_view(found@) == variants(declarations@, c_enum@),
{
    let text = chars_of(declarations);
    let mut opening = chars_of("pub const ");
    append_chars(&mut opening, chars_of(c_enum).as_slice());
    append_chars(&mut opening, chars_of("_").as_slice());
    let mut found: Vec<Variant> = Vec::new();
    let mut at: usize = 0;
    while at < text.len()
        invariant
            at <= text.len(),
            text@ == declarations@,
            opening@ == constant_opening(c_enum@),
            variants_view(found@) + variants_from(text@, opening@, at as int) == variants(
                text@,
                c_enum@,
            ),
        decreases text.len() - at,
    {
        let ghost before = variants_view(found@);
        match read_variant(text.as_slice(), opening.as_slice(), at) {
            Some((variant, end)) => {
                let ghost rest = variants_from(text@, opening@, end as int);
                let ghost model = variant@;
                found.push(variant);
                assert(variants_view(found@) =~= before.push(model));
                assert(before + (seq![model] + rest) =~= before.push(model) + rest);
                at = end;
            },
            None => {
                at += 1;
            },
        }
    }
    found
}

/// Writes the Rust enum with the given name and variants.
pub fn render_enum(name: &str, variants: &Vec<Variant>) -> (text: String)
    ensures
        text@ == enum_definition(name@, variants_view(variants@)),
{
    let ghost all = variants_view(variants@);
    let mut lines = String::new();
    let mut i: usize = 0;
    while i < variants.len()
        invariant
            i <= variants.len(),
            all == variants_view(variants@),
            lines@ == variant_lines(all.take(i as int)),
        decreases variants.len() - i,
    {
        assert(all.take(i + 1).drop_last() =~= all.take(i as int));
        assert(all.take(i + 1).last() == variants[i as int]@);
        let mut line = "    ".to_owned();
        line.append(variants[i].name.as_str());
        line.append(" = ");
        line.append(variants[i].value.as_str());
        line.append(",\n");
        lines.append(line.as_str());
        i += 1;
    }
    assert(all.take(variants.len() as int) =~= all);
    let mut text = "pub enum ".to_owned();
    text.append(name);
    text.append(" {\n");
    text.append(lines.as_str());
    text.append("}\n\n");
    text
}

/// Writes the Rust enum `name` for the C enum `c_enum` of the generated
/// declarations.
pub fn generate_enum(declarations: &str, c_enum: &str, name: &str) -> (text: String)
    ensures
        text@ == enum_definition(name@, variants(declarations@, c_enum@)),
{
    let found = collect_variants(declarations, c_enum);
    render_enum(name, &found)
}

} // verus!
