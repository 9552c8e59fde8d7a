//! Consensus over the compiler flags of many translation units.
//!
//! Each compile command is cut into flag groups, a flag together with the
//! arguments that follow it. The consensus starts as the groups of the first
//! command and is narrowed by every further command: a group stays when the
//! command has it too, and include-path groups always stay and are collected
//! from every command.

use crate::error::PipelineError;
use crate::text::{chars_of, copy_range, string_of, strings_view};
use vstd::prelude::*;

verus! {

/// One translation unit's compiler invocation, as the build system recorded it.
pub struct CompileCommandEntry {
    pub compiler: String,
    pub arguments: Vec<String>,
    pub directory: String,
    pub file: String,
}

/// The mathematical content of a `CompileCommandEntry`.
pub struct CommandModel {
    pub compiler: Seq<char>,
    pub arguments: Seq<Seq<char>>,
    pub directory: Seq<char>,
    pub file: Seq<char>,
}

impl View for CompileCommandEntry {
    type V = CommandModel;

    open spec fn view(&self) -> CommandModel {
        CommandModel {
            compiler: self.compiler@,
            arguments: strings_view(self.arguments@),
            directory: self.directory@,
            file: self.file@,
        }
    }
}

/// The contents of a sequence of compile commands.
pub open spec fn commands_view(entries: Seq<CompileCommandEntry>) -> Seq<CommandModel> {
    entries.map_values(|e: CompileCommandEntry| e@)
}

/// A flag and the non-flag arguments that follow it, kept or dropped as one.
pub struct FlagGroup {
    pub tokens: Vec<String>,
}

impl View for FlagGroup {
    type V = Seq<Seq<char>>;

    open spec fn view(&self) -> Seq<Seq<char>> {
        strings_view(self.tokens@)
    }
}

/// The contents of a sequence of flag groups.
pub open spec fn groups_view(groups: Seq<FlagGroup>) -> Seq<Seq<Seq<char>>> {
    groups.map_values(|g: FlagGroup| g@)
}

/// A token that opens a group: it starts with a dash.
pub open spec fn is_flag_token(token: Seq<char>) -> bool {
    token.len() >= 1 && token[0] == '-'
}

/// A token that adds an include path: it starts with `-I`.
pub open spec fn is_include_token(token: Seq<char>) -> bool {
    token.len() >= 2 && token[0] == '-' && token[1] == 'I'
}

/// A token after which the command names its inputs and outputs: `-c` or `-MQ`.
pub open spec fn is_sentinel_token(token: Seq<char>) -> bool {
    token == seq!['-', 'c'] || token == seq!['-', 'M', 'Q']
}

/// The token without the slashes at its end.
pub open spec fn without_trailing_slashes(token: Seq<char>) -> Seq<char>
    decreases token.len(),
{
    if token.len() > 0 && token.last() == '/' {
        without_trailing_slashes(token.drop_last())
    } else {
        token
    }
}

/// The form in which a flag enters its group: include paths lose their
/// trailing slashes, every other flag is kept as written.
pub open spec fn normalized_token(token: Seq<char>) -> Seq<char> {
    if is_include_token(token) {
        without_trailing_slashes(token)
    } else {
        token
    }
}

/// A group that adds an include path.
pub open spec fn is_include_group(group: Seq<Seq<char>>) -> bool {
    group.len() > 0 && is_include_token(group[0])
}

/// The arguments before the first sentinel token.
pub open spec fn leading_flags(arguments: Seq<Seq<char>>) -> Seq<Seq<char>>
    decreases arguments.len(),
{
    if arguments.len() == 0 || is_sentinel_token(arguments[0]) {
        Seq::empty()
    } else {
        seq![arguments[0]] + leading_flags(arguments.drop_first())
    }
}

/// The groups that the tokens form, read left to right: a flag opens a group,
/// any other token joins the group before it. Tokens before the first flag
/// belong to no group.
pub open spec fn grouped(tokens: Seq<Seq<char>>) -> Seq<Seq<Seq<char>>>
    decreases tokens.len(),
{
    if tokens.len() == 0 {
        Seq::empty()
    } else {
        let before = grouped(tokens.drop_last());
        let token = tokens.last();
        if is_flag_token(token) {
            before.push(seq![normalized_token(token)])
        } else if before.len() == 0 {
            before
        } else {
            before.drop_last().push(before.last().push(token))
        }
    }
}

/// The flag groups of a compile command's arguments, or `None` when the
/// arguments start with a token that is no flag.
pub open spec fn partition(arguments: Seq<Seq<char>>) -> Option<Seq<Seq<Seq<char>>>> {
    let flags = leading_flags(arguments);
    if flags.len() > 0 && !is_flag_token(flags[0]) {
        None
    } else {
        Some(grouped(flags))
    }
}

/// The groups of `consensus` that stay when `current` is taken into account:
/// those that `current` has too, and every include-path group.
pub open spec fn narrowed(
    consensus: Seq<Seq<Seq<char>>>,
    current: Seq<Seq<Seq<char>>>,
) -> Seq<Seq<Seq<char>>>
    decreases consensus.len(),
{
    if consensus.len() == 0 {
        consensus
    } else {
        let before = narrowed(consensus.drop_last(), current);
        let group = consensus.last();
        if current.contains(group) || is_include_group(group) {
            before.push(group)
        } else {
            before
        }
    }
}

/// `consensus` followed by the include-path groups of `current` that it
/// lacks, each once, in the order in which `current` has them.
pub open spec fn with_new_includes(
    consensus: Seq<Seq<Seq<char>>>,
    current: Seq<Seq<Seq<char>>>,
) -> Seq<Seq<Seq<char>>>
    decreases current.len(),
{
    if current.len() == 0 {
        consensus
    } else {
        let before = with_new_includes(consensus, current.drop_last());
        let group = current.last();
        if is_include_group(group) && !before.contains(group) {
            before.push(group)
        } else {
            before
        }
    }
}

/// One step of the consensus: narrow by `current`, then take up its new
/// include-path groups.
pub open spec fn merged(
    consensus: Seq<Seq<Seq<char>>>,
    current: Seq<Seq<Seq<char>>>,
) -> Seq<Seq<Seq<char>>> {
    with_new_includes(narrowed(consensus, current), current)
}

/// The consensus of the partitions of one or more commands.
pub open spec fn consensus_of(partitions: Seq<Seq<Seq<Seq<char>>>>) -> Seq<Seq<Seq<char>>>
    decreases partitions.len(),
{
    if partitions.len() == 0 {
        Seq::empty()
    } else if partitions.len() == 1 {
        partitions[0]
    } else {
        merged(consensus_of(partitions.drop_last()), partitions.last())
    }
}

/// The partition of each command; empty where a command has none.
pub open spec fn partitions_of(commands: Seq<CommandModel>) -> Seq<Seq<Seq<Seq<char>>>> {
    commands.map_values(
        |c: CommandModel|
            match partition(c.arguments) {
                Some(groups) => groups,
                None => Seq::empty(),
            },
    )
}

/// Every command names the compiler that the first one names.
pub open spec fn same_compiler(commands: Seq<CommandModel>) -> bool {
    forall|i: int| 0 <= i < commands.len() ==> (#[trigger] commands[i]).compiler == commands[0].compiler
}

/// Every command's arguments can be cut into groups.
pub open spec fn all_grouped(commands: Seq<CommandModel>) -> bool {
    forall|i: int| 0 <= i < commands.len() ==> partition((#[trigger] commands[i]).arguments) is Some
}

/// The compiler and the flag groups that a run of commands agrees on.
pub struct ConsensusFlagSet {
    pub compiler: String,
    pub groups: Vec<FlagGroup>,
}

/// The mathematical content of a `ConsensusFlagSet`.
pub struct ConsensusModel {
    pub compiler: Seq<char>,
    pub groups: Seq<Seq<Seq<char>>>,
}

impl View for ConsensusFlagSet {
    type V = ConsensusModel;

    open spec fn view(&self) -> ConsensusModel {
        ConsensusModel { compiler: self.compiler@, groups: groups_view(self.groups@) }
    }
}

/// What the resolver makes of a run of commands: the failure that spoils it,
/// or the common compiler with the consensus of the partitions.
pub open spec fn resolved(commands: Seq<CommandModel>) -> Result<ConsensusModel, PipelineError> {
    if commands.len() == 0 {
        Err(PipelineError::EmptyInput)
    } else if !same_compiler(commands) {
        Err(PipelineError::InconsistentCompiler)
    } else if !all_grouped(commands) {
        Err(PipelineError::UngroupedArgument)
    } else {
        Ok(
            ConsensusModel {
                compiler: commands[0].compiler,
                groups: consensus_of(partitions_of(commands)),
            },
        )
    }
}

/// Whether the token opens a group.
pub fn is_flag(token: &str) -> (hit: bool)
    ensures
        hit == is_flag_token(token@),
{
    let chars = chars_of(token);
    chars.len() >= 1 && chars[0] == '-'
}

/// Whether the token adds an include path.
pub fn is_include_flag(token: &str) -> (hit: bool)
    ensures
        hit == is_include_token(token@),
{
    let chars = chars_of(token);
    chars.len() >= 2 && chars[0] == '-' && chars[1] == 'I'
}

/// Whether the token ends the flags of a command.
pub fn is_sentinel(token: &str) -> (hit: bool)
    ensures
        hit == is_sentinel_token(token@),
{
    let chars = chars_of(token);
    let compile_only = chars.len() == 2 && chars[0] == '-' && chars[1] == 'c';
    let dependency_target = chars.len() == 3 && chars[0] == '-' && chars[1] == 'M' && chars[2]
        == 'Q';
    proof {
        if compile_only {
            assert(token@ =~= seq!['-', 'c']);
        }
        if dependency_target {
            assert(token@ =~= seq!['-', 'M', 'Q']);
        }
    }
    compile_only || dependency_target
}

/// The form in which a flag enters its group.
pub fn normalize_flag(token: &str) -> (out: String)
    ensures
        out@ == normalized_token(token@),
{
    let chars = chars_of(token);
    if !(chars.len() >= 2 && chars[0] == '-' && chars[1] == 'I') {
        return string_of(chars.as_slice());
    }
    let mut end: usize = chars.len();
    assert(chars@.take(end as int) =~= chars@);
    while end > 0 && chars[end - 1] == '/'
        invariant
            end <= chars.len(),
            without_trailing_slashes(chars@.take(end as int)) == without_trailing_slashes(chars@),
        decreases end,
    {
        assert(chars@.take(end as int).drop_last() =~= chars@.take(end - 1));
        end -= 1;
    }
    let kept = copy_range(chars.as_slice(), 0, end);
    string_of(kept.as_slice())
}

impl FlagGroup {
    /// Whether this group adds an include path.
    pub fn is_include_path(&self) -> (hit: bool)
        ensures
            hit == is_include_group(self@),
    {
        self.tokens.len() > 0 && is_include_flag(self.tokens[0].as_str())
    }

    /// Whether both groups hold the same tokens in the same order.
    pub fn same_as(&self, other: &FlagGroup) -> (same: bool)
        ensures
            same == (self@ == other@),
    {
        if self.tokens.len() != other.tokens.len() {
            assert(self@.len() != other@.len());
            return false;
        }
        let mut i: usize = 0;
        while i < self.tokens.len()
            invariant
                i <= self.tokens.len(),
                self.tokens.len() == other.tokens.len(),
                forall|k: int| 0 <= k < i ==> self@[k] == other@[k],
            decreases self.tokens.len() - i,
        {
            if !(self.tokens[i] == other.tokens[i]) {
                assert(self@[i as int] != other@[i as int]);
                return false;
            }
            i += 1;
        }
        assert(self@ =~= other@);
        true
    }

    /// A copy of this group.
    pub fn duplicate(&self) -> (copy: FlagGroup)
        ensures
            copy@ == self@,
    {
        let mut tokens: Vec<String> = Vec::new();
        let mut i: usize = 0;
        while i < self.tokens.len()
            invariant
                i <= self.tokens.len(),
                strings_view(tokens@) == self@.take(i as int),
            decreases self.tokens.len() - i,
        {
            let ghost before = strings_view(tokens@);
            tokens.push(self.tokens[i].clone());
            assert(strings_view(tokens@) =~= before.push(self.tokens[i as int]@));
            assert(self@.take(i + 1) =~= self@.take(i as int).push(self@[i as int]));
            i += 1;
        }
        assert(self@.take(self.tokens.len() as int) =~= self@);
        FlagGroup { tokens }
    }
}

/// Whether `groups` holds a group equal to `group`.
pub fn has_group(groups: &Vec<FlagGroup>, group: &FlagGroup) -> (hit: bool)
    ensures
        hit == groups_view(groups@).contains(group@),
{
    let mut i: usize = 0;
    while i < groups.len()
        invariant
            i <= groups.len(),
            forall|k: int| 0 <= k < i ==> groups_view(groups@)[k] != group@,
        decreases groups.len() - i,
    {
        if groups[i].same_as(group) {
            assert(groups_view(groups@)[i as int] == group@);
            return true;
        }
        i += 1;
    }
    false
}

/// `leading_flags` is the prefix that ends before the first sentinel.
pub proof fn lemma_leading_flags(arguments: Seq<Seq<char>>, count: int)
    requires
        0 <= count <= arguments.len(),
        forall|k: int| 0 <= k < count ==> !is_sentinel_token(#[trigger] arguments[k]),
        count < arguments.len() ==> is_sentinel_token(arguments[count]),
    ensures
        leading_flags(arguments) == arguments.take(count),
    decreases count,
{
    if count == 0 {
        assert(arguments.take(0) =~= Seq::<Seq<char>>::empty());
    } else {
        let rest = arguments.drop_first();
        assert forall|k: int| 0 <= k < count - 1 implies !is_sentinel_token(#[trigger] rest[k]) by {
            assert(rest[k] == arguments[k + 1]);
        }
        lemma_leading_flags(rest, count - 1);
        assert(arguments.take(count) =~= seq![arguments[0]] + rest.take(count - 1));
    }
}

/// How many arguments stand before the first sentinel token.
pub fn leading_flag_count(arguments: &Vec<String>) -> (count: usize)
    ensures
        count <= arguments.len(),
        leading_flags(strings_view(arguments@)) == strings_view(arguments@).take(count as int),
{
    let mut count: usize = 0;
    while count < arguments.len() && !is_sentinel(arguments[count].as_str())
        invariant
            count <= arguments.len(),
            forall|k: int|
                0 <= k < count ==> !is_sentinel_token(#[trigger] strings_view(arguments@)[k]),
        decreases arguments.len() - count,
    {
        count += 1;
    }
    proof {
        lemma_leading_flags(strings_view(arguments@), count as int);
    }
    count
}

/// Cuts the arguments of a compile command into flag groups. Gives `None`
/// when the arguments start with a token that is no flag.
pub fn partition_flags(arguments: &Vec<String>) -> (groups: Option<Vec<FlagGroup>>)
    ensures
        match groups {
            Some(groups) => partition(strings_view(arguments@)) == Some(groups_view(groups@)),
            None => partition(strings_view(arguments@)) is None,
        },
{
    let count = leading_flag_count(arguments);
    let ghost flags = strings_view(arguments@).take(count as int);
    if count > 0 && !is_flag(arguments[0].as_str()) {
        return None;
    }
    let mut groups: Vec<FlagGroup> = Vec::new();
    let mut i: usize = 0;
    while i < count
        invariant
            i <= count <= arguments.len(),
            flags == strings_view(arguments@).take(count as int),
            count > 0 ==> is_flag_token(flags[0]),
            groups_view(groups@) == grouped(flags.take(i as int)),
            i > 0 ==> groups.len() > 0,
        decreases count - i,
    {
        let ghost before = groups_view(groups@);
        assert(flags.take(i + 1).drop_last() =~= flags.take(i as int));
        assert(flags.take(i + 1).last() == arguments[i as int]@);
        if is_flag(arguments[i].as_str()) {
            let mut tokens: Vec<String> = Vec::new();
            tokens.push(normalize_flag(arguments[i].as_str()));
            let group = FlagGroup { tokens };
            assert(group@ =~= seq![normalized_token(arguments[i as int]@)]);
            groups.push(group);
            assert(groups_view(groups@) =~= before.push(group@));
        } else {
            assert(i > 0);
            let mut group = groups.pop().unwrap();
            let ghost open = group@;
            assert(open == before.last());
            assert(groups_view(groups@) =~= before.drop_last());
            group.tokens.push(arguments[i].clone());
            assert(group@ =~= open.push(arguments[i as int]@));
            groups.push(group);
            assert(groups_view(groups@) =~= before.drop_last().push(open.push(arguments[i as int]@)));
        }
        i += 1;
    }
    assert(flags.take(count as int) =~= flags);
    Some(groups)
}

/// One step of the consensus: keeps the groups of `consensus` that `current`
/// has too or that add an include path, then appends the include-path groups
/// of `current` that are still missing.
pub fn merge_groups(consensus: &Vec<FlagGroup>, current: &Vec<FlagGroup>) -> (out: Vec<FlagGroup>)
    ensures
        groups_view(out@) == merged(groups_view(consensus@), groups_view(current@)),
{
    let mut out: Vec<FlagGroup> = Vec::new();
    let ghost old_groups = groups_view(consensus@);
    let ghost new_groups = groups_view(current@);
    let mut i: usize = 0;
    while i < consensus.len()
        invariant
            i <= consensus.len(),
            old_groups == groups_view(consensus@),
            new_groups == groups_view(current@),
            groups_view(out@) == narrowed(old_groups.take(i as int), new_groups),
        decreases consensus.len() - i,
    {
        let ghost before = groups_view(out@);
        assert(old_groups.take(i + 1).drop_last() =~= old_groups.take(i as int));
        assert(old_groups.take(i + 1).last() == consensus[i as int]@);
        if has_group(current, &consensus[i]) || consensus[i].is_include_path() {
            let copy = consensus[i].duplicate();
            out.push(copy);
            assert(groups_view(out@) =~= before.push(consensus[i as int]@));
        }
        i += 1;
    }
    assert(old_groups.take(consensus.len() as int) =~= old_groups);
    let ghost kept = groups_view(out@);
    let mut j: usize = 0;
    while j < current.len()
        invariant
            j <= current.len(),
            new_groups == groups_view(current@),
            groups_view(out@) == with_new_includes(kept, new_groups.take(j as int)),
        decreases current.len() - j,
    {
        let ghost before = groups_view(out@);
        assert(new_groups.take(j + 1).drop_last() =~= new_groups.take(j as int));
        assert(new_groups.take(j + 1).last() == current[j as int]@);
        if current[j].is_include_path() && !has_group(&out, &current[j]) {
            let copy = current[j].duplicate();
            out.push(copy);
            assert(groups_view(out@) =~= before.push(current[j as int]@));
        }
        j += 1;
    }
    assert(new_groups.take(current.len() as int) =~= new_groups);
    out
}

/// Finds the flag set that a run of compile commands agrees on.
///
/// Fails with `EmptyInput` when there is no command, with
/// `InconsistentCompiler` when two commands name different compilers, and
/// with `UngroupedArgument` when a command's flags start with a token that
/// is no flag.
pub fn resolve_consensus(entries: &Vec<CompileCommandEntry>) -> (result: Result<
    ConsensusFlagSet,
    PipelineError,
>)
    ensures
        match resolved(commands_view(entries@)) {
            Ok(model) => result is Ok && result->Ok_0@ == model,
            Err(error) => result == Err::<ConsensusFlagSet, PipelineError>(error),
        },
{
    let ghost commands = commands_view(entries@);
    if entries.len() == 0 {
        return Err(PipelineError::EmptyInput);
    }
    let mut i: usize = 1;
    while i < entries.len()
        invariant
            1 <= i <= entries.len(),
            commands == commands_view(entries@),
            forall|k: int| 0 <= k < i ==> (#[trigger] commands[k]).compiler == commands[0].compiler,
        decreases entries.len() - i,
    {
        if !(entries[i].compiler == entries[0].compiler) {
            assert(commands[i as int].compiler != commands[0].compiler);
            return Err(PipelineError::InconsistentCompiler);
        }
        i += 1;
    }
    assert(same_compiler(commands));
    let ghost parts = partitions_of(commands);
    let mut consensus = match partition_flags(&entries[0].arguments) {
        Some(groups) => groups,
        None => {
            assert(partition(commands[0].arguments) is None);
            return Err(PipelineError::UngroupedArgument);
        },
    };
    assert(parts.take(1) =~= seq![parts[0]]);
    let mut i: usize = 1;
    while i < entries.len()
        invariant
            1 <= i <= entries.len(),
            commands == commands_view(entries@),
            parts == partitions_of(commands),
            same_compiler(commands),
            forall|k: int| 0 <= k < i ==> partition((#[trigger] commands[k]).arguments) is Some,
            groups_view(consensus@) == consensus_of(parts.take(i as int)),
        decreases entries.len() - i,
    {
        match partition_flags(&entries[i].arguments) {
            Some(current) => {
                assert(parts.take(i + 1).drop_last() =~= parts.take(i as int));
                assert(parts.take(i + 1).last() == groups_view(current@));
                consensus = merge_groups(&consensus, &current);
            },
            None => {
                assert(partition(commands[i as int].arguments) is None);
                return Err(PipelineError::UngroupedArgument);
            },
        }
        i += 1;
    }
    assert(all_grouped(commands));
    assert(parts.take(entries.len() as int) =~= parts);
    Ok(ConsensusFlagSet { compiler: entries[0].compiler.clone(), groups: consensus })
}

} // verus!
