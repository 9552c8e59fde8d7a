//! What this library takes on trust.
//!
//! Nothing in this module is proved. It holds the contracts of the standard
//! library functions that the verifier knows nothing of, and the two calls
//! into the `shlex` crate. What a call gives that cannot be said in a few
//! lines is given a name and left uninterpreted.

use crate::text::strings_view;
use vstd::prelude::*;

verus! {

/// Trusted: `String::push` appends exactly the given character to the end
/// of the string and changes nothing else.
pub assume_specification[ String::push ](s: &mut String, ch: char)
    ensures
        final(s)@ == old(s)@.push(ch),
;

/// The text that `str::to_uppercase` gives: the argument in upper case by
/// the rules of Unicode.
pub uninterp spec fn uppercase(text: Seq<char>) -> Seq<char>;

/// Trusted: `str::to_uppercase` is a function of the text alone.
pub assume_specification[ str::to_uppercase ](text: &str) -> (upper: String)
    ensures
        upper@ == uppercase(text@),
;

#[verifier::external_type_specification]
#[verifier::external_body]
pub struct ExQuoteError(shlex::QuoteError);

/// The words that `shlex::split` reads from the input by the word
/// splitting rules of the POSIX shell, or `None` where the input ends
/// inside a quotation or after an escape character.
pub uninterp spec fn shell_words(input: Seq<char>) -> Option<Seq<Seq<char>>>;

/// The string in which `shlex::try_join` quotes the words for a POSIX
/// shell, one space between two words.
pub uninterp spec fn shell_quoted(words: Seq<Seq<char>>) -> Seq<char>;

/// Some word holds a NUL character.
pub open spec fn holds_nul(words: Seq<Seq<char>>) -> bool {
    exists|i: int| 0 <= i < words.len() && (#[trigger] words[i]).contains('\0')
}

/// Trusted wrapper of `shlex::split`: the result is a function of the input
/// alone, and `split` gives `None` instead of failing.
#[verifier::external_body]
pub(crate) fn split_words(input: &str) -> (words: Option<Vec<String>>)
    ensures
        match words {
            Some(words) => shell_words(input@) == Some(strings_view(words@)),
            None => shell_words(input@) is None,
        },
{
    shlex::split(input)
}

/// Trusted wrapper of `shlex::try_join`: it fails exactly when a word holds
/// a NUL character, and what it gives otherwise is a function of the words
/// alone.
#[verifier::external_body]
pub(crate) fn join_words(words: &Vec<String>) -> (joined: Result<String, shlex::QuoteError>)
    ensures
        joined is Err <==> holds_nul(strings_view(words@)),
        joined matches Ok(text) ==> text@ == shell_quoted(strings_view(words@)),
{
    shlex::try_join(words.iter().map(|word| word.as_str()))
}

} // verus!
