//! The compiler flags in the form in which the declaration extractor and
//! the transpiler take them.

use crate::consensus::{groups_view, ConsensusFlagSet, FlagGroup};
use crate::error::PipelineError;
use crate::trusted::{
    holds_nul, join_words, shell_quoted, shell_words, split_words, uppercase,
};
use crate::text::{
    chars_of, pieces, same_text, split, starts_with, string_of, strings_view, texts_view,
};
use vstd::prelude::*;

verus! {

/// A flag that the tools must not see.
pub enum DenyRule {
    /// The flag that is exactly this text.
    Exact(String),
    /// Every flag that starts with this text.
    Prefix(String),
}

/// The mathematical content of a `DenyRule`.
pub enum DenyModel {
    Exact(Seq<char>),
    Prefix(Seq<char>),
}

impl View for DenyRule {
    type V = DenyModel;

    open spec fn view(&self) -> DenyModel {
        match *self {
            DenyRule::Exact(text) => DenyModel::Exact(text@),
            DenyRule::Prefix(text) => DenyModel::Prefix(text@),
        }
    }
}

/// The contents of a deny list.
pub open spec fn deny_view(rules: Seq<DenyRule>) -> Seq<DenyModel> {
    rules.map_values(|r: DenyRule| r@)
}

/// The rule denies the flag.
pub open spec fn rule_denies(rule: DenyModel, flag: Seq<char>) -> bool {
    match rule {
        DenyModel::Exact(text) => flag == text,
        DenyModel::Prefix(text) => text.is_prefix_of(flag),
    }
}

/// Some rule of the list denies the flag.
pub open spec fn denied(rules: Seq<DenyModel>, flag: Seq<char>) -> bool {
    exists|i: int| 0 <= i < rules.len() && rule_denies(#[trigger] rules[i], flag)
}

/// The flags that no rule denies, in their order.
pub open spec fn allowed_flags(rules: Seq<DenyModel>, flags: Seq<Seq<char>>) -> Seq<Seq<char>>
    decreases flags.len(),
{
    if flags.len() == 0 {
        Seq::empty()
    } else {
        let before = allowed_flags(rules, flags.drop_last());
        if denied(rules, flags.last()) {
            before
        } else {
            before.push(flags.last())
        }
    }
}

/// The flags that are kept from the tools: preprocessor definitions, which
/// the target system's own configuration header repeats, and the request
/// to write dependency files.
pub open spec fn known_deny_list() -> Seq<DenyModel> {
    seq![DenyModel::Prefix("-D"@), DenyModel::Exact("-MD"@)]
}

impl DenyRule {
    /// The deny list that the tools are known to need.
    pub fn known() -> (rules: Vec<DenyRule>)
        ensures
            deny_view(rules@) == known_deny_list(),
    {
        let mut rules: Vec<DenyRule> = Vec::new();
        rules.push(DenyRule::Prefix("-D".to_owned()));
        rules.push(DenyRule::Exact("-MD".to_owned()));
        assert(deny_view(rules@) =~= known_deny_list());
        rules
    }

    /// Whether the rule denies the flag.
    pub fn denies(&self, flag: &[char]) -> (hit: bool)
        ensures
            hit == rule_denies(self@, flag@),
    {
        match self {
            DenyRule::Exact(text) => {
                let text = chars_of(text.as_str());
                same_text(flag, text.as_slice())
            },
            DenyRule::Prefix(text) => {
                let text = chars_of(text.as_str());
                starts_with(flag, text.as_slice())
            },
        }
    }
}

/// Whether some rule of the list denies the flag.
pub fn is_denied(rules: &Vec<DenyRule>, flag: &str) -> (hit: bool)
    ensures
        hit == denied(deny_view(rules@), flag@),
{
    let chars = chars_of(flag);
    let mut i: usize = 0;
    while i < rules.len()
        invariant
            i <= rules.len(),
            chars@ == flag@,
            forall|k: int| 0 <= k < i ==> !rule_denies(#[trigger] deny_view(rules@)[k], flag@),
        decreases rules.len() - i,
    {
        assert(deny_view(rules@)[i as int] == rules[i as int]@);
        if rules[i].denies(chars.as_slice()) {
            return true;
        }
        i += 1;
    }
    false
}

/// Drops the flags that a rule of the list denies.
pub fn strip_denied(rules: &Vec<DenyRule>, flags: &Vec<String>) -> (kept: Vec<String>)
    ensures
        strings_view(kept@) == allowed_flags(deny_view(rules@), strings_view(flags@)),
{
    let ghost all = strings_view(flags@);
    let mut kept: Vec<String> = Vec::new();
    let mut i: usize = 0;
    while i < flags.len()
        invariant
            i <= flags.len(),
            all == strings_view(flags@),
            strings_view(kept@) == allowed_flags(deny_view(rules@), all.take(i as int)),
        decreases flags.len() - i,
    {
        let ghost before = strings_view(kept@);
        assert(all.take(i + 1).drop_last() =~= all.take(i as int));
        assert(all.take(i + 1).last() == flags[i as int]@);
        if !is_denied(rules, flags[i].as_str()) {
            kept.push(flags[i].clone());
            assert(strings_view(kept@) =~= before.push(flags[i as int]@));
        }
        i += 1;
    }
    assert(all.take(flags.len() as int) =~= all);
    kept
}

/// What the normalizer makes of a flags string: the words of the string
/// that no rule denies, or `MalformedInput` where the string cannot be
/// split into words.
pub open spec fn normalized_flags(rules: Seq<DenyModel>, input: Seq<char>) -> Result<
    Seq<Seq<char>>,
    PipelineError,
> {
    match shell_words(input) {
        Some(words) => Ok(allowed_flags(rules, words)),
        None => Err(PipelineError::MalformedInput),
    }
}

/// Splits a shell-escaped flags string into flags and drops those that a
/// rule of the list denies. Fails with `MalformedInput` where the quoting
/// of the string is unbalanced.
pub fn normalize_flags(rules: &Vec<DenyRule>, input: &str) -> (result: Result<
    Vec<String>,
    PipelineError,
>)
    ensures
        match normalized_flags(deny_view(rules@), input@) {
            Ok(flags) => result is Ok && strings_view(result->Ok_0@) == flags,
            Err(error) => result == Err::<Vec<String>, PipelineError>(error),
        },
{
    match split_words(input) {
        Some(words) => Ok(strip_denied(rules, &words)),
        None => Err(PipelineError::MalformedInput),
    }
}

/// The text with every dash replaced by an underscore.
pub open spec fn underscored(text: Seq<char>) -> Seq<char> {
    text.map_values(
        |c: char|
            if c == '-' {
                '_'
            } else {
                c
            },
    )
}

/// The flag that tells the tools that a module is enabled, led by the
/// space that separates it from the flags before it. `upper` is the
/// module's name in upper case.
pub open spec fn module_flag(upper: Seq<char>) -> Seq<char> {
    " -DMODULE_"@ + underscored(upper)
}

/// The flags for the modules, in order.
pub open spec fn module_flags_of(modules: Seq<Seq<char>>) -> Seq<char>
    decreases modules.len(),
{
    if modules.len() == 0 {
        Seq::empty()
    } else {
        module_flags_of(modules.drop_last()) + module_flag(uppercase(modules.last()))
    }
}

/// The flags for the modules of a module list, whose names are separated
/// by single spaces. The empty list names one module with an empty name.
pub open spec fn module_flags(modules: Seq<char>) -> Seq<char> {
    module_flags_of(pieces(modules, seq![' ']))
}

/// Writes the flag for a module whose name is given in upper case.
pub fn render_module_flag(upper: &str) -> (flag: String)
    ensures
        flag@ == module_flag(upper@),
{
    let name = chars_of(upper);
    let mut replaced: Vec<char> = Vec::new();
    let mut i: usize = 0;
    while i < name.len()
        invariant
            i <= name.len(),
            replaced@ == underscored(name@.take(i as int)),
        decreases name.len() - i,
    {
        let c = if name[i] == '-' {
            '_'
        } else {
            name[i]
        };
        replaced.push(c);
        assert(replaced@ =~= underscored(name@.take(i + 1)));
        i += 1;
    }
    assert(name@.take(name.len() as int) =~= name@);
    let mut flag = " -DMODULE_".to_owned();
    flag.append(string_of(replaced.as_slice()).as_str());
    flag
}

/// Derives the flags that tell the tools which modules are enabled.
pub fn render_module_flags(modules: &str) -> (flags: String)
    ensures
        flags@ == module_flags(modules@),
{
    let list = chars_of(modules);
    let space: Vec<char> = vec![' '];
    assert(space@ =~= seq![' ']);
    let names = split(list.as_slice(), space.as_slice());
    let ghost all = texts_view(names@);
    let mut flags = String::new();
    let mut i: usize = 0;
    while i < names.len()
        invariant
            i <= names.len(),
            all == texts_view(names@),
            flags@ == module_flags_of(all.take(i as int)),
        decreases names.len() - i,
    {
        assert(all.take(i + 1).drop_last() =~= all.take(i as int));
        assert(all.take(i + 1).last() == names[i as int]@);
        let name = string_of(names[i].as_slice());
        let upper = name.as_str().to_uppercase();
        flags.append(render_module_flag(upper.as_str()).as_str());
        i += 1;
    }
    assert(all.take(names.len() as int) =~= all);
    flags
}

/// The tokens of the groups, in order.
pub open spec fn flattened(groups: Seq<Seq<Seq<char>>>) -> Seq<Seq<char>>
    decreases groups.len(),
{
    if groups.len() == 0 {
        Seq::empty()
    } else {
        flattened(groups.drop_last()) + groups.last()
    }
}

/// The tokens of the groups, in order.
pub fn flatten_groups(groups: &Vec<FlagGroup>) -> (flags: Vec<String>)
    ensures
        strings_view(flags@) == flattened(groups_view(groups@)),
{
    let ghost all = groups_view(groups@);
    let mut flags: Vec<String> = Vec::new();
    let mut i: usize = 0;
    while i < groups.len()
        invariant
            i <= groups.len(),
            all == groups_view(groups@),
            strings_view(flags@) == flattened(all.take(i as int)),
        decreases groups.len() - i,
    {
        assert(all.take(i + 1).drop_last() =~= all.take(i as int));
        assert(all.take(i + 1).last() == groups[i as int]@);
        let ghost before = strings_view(flags@);
        let group = &groups[i];
        let mut k: usize = 0;
        while k < group.tokens.len()
            invariant
                k <= group.tokens.len(),
                strings_view(flags@) == before + group@.take(k as int),
            decreases group.tokens.len() - k,
        {
            let ghost sofar = strings_view(flags@);
            flags.push(group.tokens[k].clone());
            assert(strings_view(flags@) =~= sofar.push(group.tokens[k as int]@));
            assert(group@.take(k + 1) =~= group@.take(k as int).push(group.tokens[k as int]@));
            k += 1;
        }
        assert(group@.take(group.tokens.len() as int) =~= group@);
        i += 1;
    }
    assert(all.take(groups.len() as int) =~= all);
    flags
}

/// The flags string that is handed to the tools and to the crates that
/// build on this one: the flags quoted for a shell, then the module flags.
/// `UnquotableFlag` where a flag holds a NUL character.
pub open spec fn published_flags(flags: Seq<Seq<char>>, modules: Seq<char>) -> Result<
    Seq<char>,
    PipelineError,
> {
    if holds_nul(flags) {
        Err(PipelineError::UnquotableFlag)
    } else {
        Ok(shell_quoted(flags) + module_flags(modules))
    }
}

/// Quotes the flags for a shell. Fails with `UnquotableFlag` where a flag
/// holds a NUL character.
pub fn quote_flags(flags: &Vec<String>) -> (result: Result<String, PipelineError>)
    ensures
        match result {
            Ok(text) => !holds_nul(strings_view(flags@)) && text@ == shell_quoted(
                strings_view(flags@),
            ),
            Err(error) => holds_nul(strings_view(flags@)) && error
                == PipelineError::UnquotableFlag,
        },
{
    match join_words(flags) {
        Ok(text) => Ok(text),
        Err(_) => Err(PipelineError::UnquotableFlag),
    }
}

/// Writes the flags string for the flags of a consensus and a module list.
pub fn publish_flags(consensus: &ConsensusFlagSet, modules: &str) -> (result: Result<
    String,
    PipelineError,
>)
    ensures
        match published_flags(flattened(consensus@.groups), modules@) {
            Ok(text) => result is Ok && result->Ok_0@ == text,
            Err(error) => result == Err::<String, PipelineError>(error),
        },
{
    let flags = flatten_groups(&consensus.groups);
    match quote_flags(&flags) {
        Ok(quoted) => {
            let mut text = quoted;
            text.append(render_module_flags(modules).as_str());
            Ok(text)
        },
        Err(error) => Err(error),
    }
}

} // verus!
