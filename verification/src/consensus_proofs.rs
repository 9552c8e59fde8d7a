//! What holds of the consensus for every run of compile commands.

use crate::consensus::{
    all_grouped, consensus_of, is_include_group, merged, narrowed, partition, partitions_of,
    resolved, same_compiler, with_new_includes, CommandModel, ConsensusModel,
};
use crate::error::PipelineError;
use vstd::prelude::*;

verus! {

/// Whether a group belongs to the consensus of the partitions: an
/// include-path group when some partition has it, any other group when
/// every partition has it.
pub open spec fn retained(partitions: Seq<Seq<Seq<Seq<char>>>>, group: Seq<Seq<char>>) -> bool {
    if is_include_group(group) {
        exists|i: int| 0 <= i < partitions.len() && (#[trigger] partitions[i]).contains(group)
    } else {
        forall|i: int| 0 <= i < partitions.len() ==> (#[trigger] partitions[i]).contains(group)
    }
}

/// Narrowing keeps exactly the groups that the current command has too, and
/// the include-path groups.
pub proof fn lemma_narrowed_contains(
    consensus: Seq<Seq<Seq<char>>>,
    current: Seq<Seq<Seq<char>>>,
    group: Seq<Seq<char>>,
)
    ensures
        narrowed(consensus, current).contains(group) <==> consensus.contains(group) && (
        current.contains(group) || is_include_group(group)),
    decreases consensus.len(),
{
    broadcast use vstd::seq_lib::group_seq_properties;

    if consensus.len() > 0 {
        lemma_narrowed_contains(consensus.drop_last(), current, group);
        assert(consensus =~= consensus.drop_last().push(consensus.last()));
    }
}

/// Taking up the new include paths adds exactly the include-path groups of
/// the current command.
pub proof fn lemma_with_new_includes_contains(
    consensus: Seq<Seq<Seq<char>>>,
    current: Seq<Seq<Seq<char>>>,
    group: Seq<Seq<char>>,
)
    ensures
        with_new_includes(consensus, current).contains(group) <==> consensus.contains(group) || (
        is_include_group(group) && current.contains(group)),
    decreases current.len(),
{
    broadcast use vstd::seq_lib::group_seq_properties;

    if current.len() > 0 {
        lemma_with_new_includes_contains(consensus, current.drop_last(), group);
        assert(current =~= current.drop_last().push(current.last()));
    }
}

/// A group is in the consensus exactly when it is retained.
pub proof fn lemma_consensus_contains(partitions: Seq<Seq<Seq<Seq<char>>>>, group: Seq<Seq<char>>)
    requires
        partitions.len() > 0,
    ensures
        consensus_of(partitions).contains(group) <==> retained(partitions, group),
    decreases partitions.len(),
{
    if partitions.len() == 1 {
        if partitions[0].contains(group) {
            assert(retained(partitions, group));
        }
        if retained(partitions, group) {
            assert(partitions[0].contains(group));
        }
    } else {
        let before = partitions.drop_last();
        let current = partitions.last();
        lemma_consensus_contains(before, group);
        lemma_narrowed_contains(consensus_of(before), current, group);
        lemma_with_new_includes_contains(narrowed(consensus_of(before), current), current, group);
        assert(consensus_of(partitions) == merged(consensus_of(before), current));
        assert forall|i: int| 0 <= i < before.len() implies before[i] == partitions[i] by {}
        if is_include_group(group) {
            if retained(before, group) {
                let i = choose|i: int| 0 <= i < before.len() && (#[trigger] before[i]).contains(group);
                assert(partitions[i].contains(group));
            }
            if current.contains(group) {
                assert(partitions[partitions.len() - 1].contains(group));
            }
            if retained(partitions, group) {
                let i = choose|i: int|
                    0 <= i < partitions.len() && (#[trigger] partitions[i]).contains(group);
                if i < before.len() {
                    assert(before[i].contains(group));
                }
            }
        } else {
            if retained(partitions, group) {
                assert(partitions[partitions.len() - 1].contains(group));
                assert forall|i: int| 0 <= i < before.len() implies (#[trigger] before[i]).contains(
                    group,
                ) by {
                    assert(partitions[i].contains(group));
                }
            }
            if retained(before, group) && current.contains(group) {
                assert forall|i: int| 0 <= i < partitions.len() implies (
                #[trigger] partitions[i]).contains(group) by {
                    if i < before.len() {
                        assert(before[i].contains(group));
                    }
                }
            }
        }
    }
}

/// Narrowing by a command that has every group of the consensus changes nothing.
pub proof fn lemma_narrowed_by_superset(consensus: Seq<Seq<Seq<char>>>, current: Seq<Seq<Seq<char>>>)
    requires
        forall|i: int| 0 <= i < consensus.len() ==> current.contains(#[trigger] consensus[i]),
    ensures
        narrowed(consensus, current) == consensus,
    decreases consensus.len(),
{
    if consensus.len() > 0 {
        let before = consensus.drop_last();
        assert forall|i: int| 0 <= i < before.len() implies current.contains(#[trigger] before[i]) by {
            assert(before[i] == consensus[i]);
        }
        lemma_narrowed_by_superset(before, current);
        assert(current.contains(consensus[consensus.len() - 1]));
        assert(consensus =~= before.push(consensus.last()));
    }
}

/// A command whose groups the consensus already has adds no include path.
pub proof fn lemma_no_new_includes(consensus: Seq<Seq<Seq<char>>>, current: Seq<Seq<Seq<char>>>)
    requires
        forall|i: int| 0 <= i < current.len() ==> consensus.contains(#[trigger] current[i]),
    ensures
        with_new_includes(consensus, current) == consensus,
    decreases current.len(),
{
    if current.len() > 0 {
        let before = current.drop_last();
        assert forall|i: int| 0 <= i < before.len() implies consensus.contains(#[trigger] before[i]) by {
            assert(before[i] == current[i]);
        }
        lemma_no_new_includes(consensus, before);
        assert(consensus.contains(current[current.len() - 1]));
    }
}

/// Merging a partition with itself gives it back.
pub proof fn lemma_merged_with_itself(groups: Seq<Seq<Seq<char>>>)
    ensures
        merged(groups, groups) == groups,
{
    assert forall|i: int| 0 <= i < groups.len() implies groups.contains(#[trigger] groups[i]) by {}
    lemma_narrowed_by_superset(groups, groups);
    lemma_no_new_includes(groups, groups);
}

/// The consensus of equal partitions is that partition.
pub proof fn lemma_consensus_of_equal_partitions(partitions: Seq<Seq<Seq<Seq<char>>>>)
    requires
        partitions.len() > 0,
        forall|i: int| 0 <= i < partitions.len() ==> #[trigger] partitions[i] == partitions[0],
    ensures
        consensus_of(partitions) == partitions[0],
    decreases partitions.len(),
{
    if partitions.len() > 1 {
        let before = partitions.drop_last();
        assert forall|i: int| 0 <= i < before.len() implies #[trigger] before[i] == before[0] by {
            assert(before[i] == partitions[i]);
            assert(before[0] == partitions[0]);
        }
        lemma_consensus_of_equal_partitions(before);
        assert(partitions.last() == partitions[partitions.len() - 1]);
        lemma_merged_with_itself(partitions[0]);
    }
}

/// A single command resolves to its own compiler and its own partition,
/// unchanged; it fails only when its flags cannot be grouped.
pub proof fn lemma_single_command(command: CommandModel)
    ensures
        resolved(seq![command]) == match partition(command.arguments) {
            Some(groups) => Ok::<ConsensusModel, PipelineError>(
                ConsensusModel { compiler: command.compiler, groups },
            ),
            None => Err::<ConsensusModel, PipelineError>(PipelineError::UngroupedArgument),
        },
{
    let commands = seq![command];
    assert(commands[0] == command);
    assert(same_compiler(commands));
    if partition(command.arguments) is Some {
        assert(all_grouped(commands));
        assert(partitions_of(commands)[0] == partition(command.arguments)->0);
    } else {
        assert(!all_grouped(commands));
    }
}

/// Commands with one compiler and identical arguments resolve to the
/// partition that they share, in its own order.
pub proof fn lemma_identical_arguments(commands: Seq<CommandModel>)
    requires
        commands.len() > 0,
        same_compiler(commands),
        forall|i: int|
            0 <= i < commands.len() ==> (#[trigger] commands[i]).arguments == commands[0].arguments,
        partition(commands[0].arguments) is Some,
    ensures
        resolved(commands) == Ok::<ConsensusModel, PipelineError>(
            ConsensusModel {
                compiler: commands[0].compiler,
                groups: partition(commands[0].arguments)->0,
            },
        ),
{
    let partitions = partitions_of(commands);
    assert(all_grouped(commands));
    assert forall|i: int| 0 <= i < partitions.len() implies #[trigger] partitions[i]
        == partitions[0] by {
        assert(commands[i].arguments == commands[0].arguments);
    }
    lemma_consensus_of_equal_partitions(partitions);
}

/// The commands of `first` and of `second` are the same, whatever their
/// order and however often each is given.
pub open spec fn same_commands(first: Seq<CommandModel>, second: Seq<CommandModel>) -> bool {
    forall|command: CommandModel| first.contains(command) <==> second.contains(command)
}

/// Whether a group is retained depends on which commands there are, not on
/// their order.
proof fn lemma_retained_one_way(
    first: Seq<CommandModel>,
    second: Seq<CommandModel>,
    group: Seq<Seq<char>>,
)
    requires
        same_commands(first, second),
        retained(partitions_of(first), group),
    ensures
        retained(partitions_of(second), group),
{
    let a = partitions_of(first);
    let b = partitions_of(second);
    if is_include_group(group) {
        let i = choose|i: int| 0 <= i < a.len() && (#[trigger] a[i]).contains(group);
        assert(first.contains(first[i]));
        let j = choose|j: int| 0 <= j < second.len() && second[j] == first[i];
        assert(b[j].contains(group));
    } else {
        assert forall|j: int| 0 <= j < b.len() implies (#[trigger] b[j]).contains(group) by {
            assert(second.contains(second[j]));
            let i = choose|i: int| 0 <= i < first.len() && first[i] == second[j];
            assert(a[i].contains(group));
        }
    }
}

/// The resolver's verdict and the set of groups that it retains depend on
/// which commands are given, not on the order in which they are given.
pub proof fn lemma_consensus_ignores_order(first: Seq<CommandModel>, second: Seq<CommandModel>)
    requires
        same_commands(first, second),
    ensures
        match resolved(first) {
            Ok(a) => resolved(second) is Ok && resolved(second)->Ok_0.compiler == a.compiler
                && forall|group: Seq<Seq<char>>|
                a.groups.contains(group) <==> resolved(second)->Ok_0.groups.contains(group),
            Err(error) => resolved(second) == Err::<ConsensusModel, PipelineError>(error),
        },
{
    if first.len() == 0 {
        if second.len() > 0 {
            assert(second.contains(second[0]));
        }
    } else {
        assert(first.contains(first[0]));
        let w = choose|j: int| 0 <= j < second.len() && second[j] == first[0];
        assert(second.contains(second[0]));
        let v = choose|j: int| 0 <= j < first.len() && first[j] == second[0];
        if same_compiler(first) {
            assert forall|j: int| 0 <= j < second.len() implies (#[trigger] second[j]).compiler
                == second[0].compiler by {
                assert(second.contains(second[j]));
                let i = choose|i: int| 0 <= i < first.len() && first[i] == second[j];
                assert(first[i].compiler == first[0].compiler);
                assert(first[v].compiler == first[0].compiler);
            }
        }
        if same_compiler(second) {
            assert forall|i: int| 0 <= i < first.len() implies (#[trigger] first[i]).compiler
                == first[0].compiler by {
                assert(first.contains(first[i]));
                let j = choose|j: int| 0 <= j < second.len() && second[j] == first[i];
                assert(second[j].compiler == second[0].compiler);
                assert(second[w].compiler == second[0].compiler);
            }
        }
        if all_grouped(first) {
            assert forall|j: int| 0 <= j < second.len() implies partition(
                (#[trigger] second[j]).arguments,
            ) is Some by {
                assert(second.contains(second[j]));
                let i = choose|i: int| 0 <= i < first.len() && first[i] == second[j];
                assert(partition(first[i].arguments) is Some);
            }
        }
        if all_grouped(second) {
            assert forall|i: int| 0 <= i < first.len() implies partition(
                (#[trigger] first[i]).arguments,
            ) is Some by {
                assert(first.contains(first[i]));
                let j = choose|j: int| 0 <= j < second.len() && second[j] == first[i];
                assert(partition(second[j].arguments) is Some);
            }
        }
        if resolved(first) is Ok {
            assert(second[w].compiler == second[0].compiler);
            assert forall|group: Seq<Seq<char>>|
                resolved(first)->Ok_0.groups.contains(group) <==> resolved(
                    second,
                )->Ok_0.groups.contains(group) by {
                lemma_consensus_contains(partitions_of(first), group);
                lemma_consensus_contains(partitions_of(second), group);
                if retained(partitions_of(first), group) {
                    lemma_retained_one_way(first, second, group);
                }
                if retained(partitions_of(second), group) {
                    lemma_retained_one_way(second, first, group);
                }
            }
        }
    }
}

/// An include-path group of any command is in the consensus, even when only
/// that one command has it.
pub proof fn lemma_include_paths_survive(
    commands: Seq<CommandModel>,
    index: int,
    group: Seq<Seq<char>>,
)
    requires
        resolved(commands) is Ok,
        0 <= index < commands.len(),
        partition(commands[index].arguments)->0.contains(group),
        is_include_group(group),
    ensures
        resolved(commands)->Ok_0.groups.contains(group),
{
    let partitions = partitions_of(commands);
    assert(partition(commands[index].arguments) is Some);
    assert(partitions[index].contains(group));
    lemma_consensus_contains(partitions, group);
}

/// A group that is no include path is in the consensus exactly when every
/// command has it.
pub proof fn lemma_common_groups_survive(commands: Seq<CommandModel>, group: Seq<Seq<char>>)
    requires
        resolved(commands) is Ok,
        !is_include_group(group),
    ensures
        resolved(commands)->Ok_0.groups.contains(group) <==> forall|i: int|
            0 <= i < commands.len() ==> partition((#[trigger] commands[i]).arguments)->0.contains(
                group,
            ),
{
    let partitions = partitions_of(commands);
    lemma_consensus_contains(partitions, group);
    if retained(partitions, group) {
        assert forall|i: int| 0 <= i < commands.len() implies partition(
            (#[trigger] commands[i]).arguments,
        )->0.contains(group) by {
            assert(partitions[i].contains(group));
        }
    }
    if forall|i: int|
        0 <= i < commands.len() ==> partition((#[trigger] commands[i]).arguments)->0.contains(group) {
        assert forall|i: int| 0 <= i < partitions.len() implies (#[trigger] partitions[i]).contains(
            group,
        ) by {
            assert(partition(commands[i].arguments)->0.contains(group));
        }
    }
}

/// No commands give `EmptyInput`; two commands that name different
/// compilers give `InconsistentCompiler`, wherever they stand.
pub proof fn lemma_resolver_failures(commands: Seq<CommandModel>)
    ensures
        commands.len() == 0 ==> resolved(commands) == Err::<ConsensusModel, PipelineError>(
            PipelineError::EmptyInput,
        ),
        (exists|i: int, j: int|
            0 <= i < commands.len() && 0 <= j < commands.len() && commands[i].compiler
                != commands[j].compiler) ==> resolved(commands) == Err::<
            ConsensusModel,
            PipelineError,
        >(PipelineError::InconsistentCompiler),
        resolved(commands) == Err::<ConsensusModel, PipelineError>(
            PipelineError::InconsistentCompiler,
        ) ==> exists|i: int, j: int|
            0 <= i < commands.len() && 0 <= j < commands.len() && commands[i].compiler
                != commands[j].compiler,
{
    if exists|i: int, j: int|
        0 <= i < commands.len() && 0 <= j < commands.len() && commands[i].compiler
            != commands[j].compiler {
        let (i, j) = choose|i: int, j: int|
            0 <= i < commands.len() && 0 <= j < commands.len() && commands[i].compiler
                != commands[j].compiler;
        if same_compiler(commands) {
            assert(commands[i].compiler == commands[0].compiler);
            assert(commands[j].compiler == commands[0].compiler);
        }
    }
    if resolved(commands) == Err::<ConsensusModel, PipelineError>(
        PipelineError::InconsistentCompiler,
    ) {
        assert(!same_compiler(commands));
        let i = choose|i: int|
            0 <= i < commands.len() && (#[trigger] commands[i]).compiler != commands[0].compiler;
        assert(0 <= i < commands.len() && 0 <= 0 < commands.len() && commands[i].compiler
            != commands[0].compiler);
    }
}

/// The groups of the first command that every later command leaves in
/// place, in the first command's order.
pub open spec fn kept_of_seed(
    seed: Seq<Seq<Seq<char>>>,
    others: Seq<Seq<Seq<Seq<char>>>>,
) -> Seq<Seq<Seq<char>>>
    decreases others.len(),
{
    if others.len() == 0 {
        seed
    } else {
        narrowed(kept_of_seed(seed, others.drop_last()), others.last())
    }
}

/// Every group adds an include path.
pub open spec fn all_include(groups: Seq<Seq<Seq<char>>>) -> bool {
    forall|i: int| 0 <= i < groups.len() ==> is_include_group(#[trigger] groups[i])
}

/// Narrowing two runs of groups one after the other narrows their
/// concatenation.
pub proof fn lemma_narrowed_concat(
    first: Seq<Seq<Seq<char>>>,
    second: Seq<Seq<Seq<char>>>,
    current: Seq<Seq<Seq<char>>>,
)
    ensures
        narrowed(first + second, current) == narrowed(first, current) + narrowed(second, current),
    decreases second.len(),
{
    if second.len() == 0 {
        assert(first + second =~= first);
        assert(narrowed(first, current) + narrowed(second, current) =~= narrowed(first, current));
    } else {
        lemma_narrowed_concat(first, second.drop_last(), current);
        assert((first + second).drop_last() =~= first + second.drop_last());
        assert((first + second).last() == second.last());
        let before = narrowed(first, current) + narrowed(second.drop_last(), current);
        if current.contains(second.last()) || is_include_group(second.last()) {
            assert(before.push(second.last()) =~= narrowed(first, current) + narrowed(
                second.drop_last(),
                current,
            ).push(second.last()));
        }
    }
}

/// Narrowing leaves a run of include-path groups as it is.
pub proof fn lemma_narrowed_keeps_includes(
    groups: Seq<Seq<Seq<char>>>,
    current: Seq<Seq<Seq<char>>>,
)
    requires
        all_include(groups),
    ensures
        narrowed(groups, current) == groups,
    decreases groups.len(),
{
    if groups.len() > 0 {
        let before = groups.drop_last();
        assert forall|i: int| 0 <= i < before.len() implies is_include_group(
            #[trigger] before[i],
        ) by {
            assert(before[i] == groups[i]);
        }
        lemma_narrowed_keeps_includes(before, current);
        assert(is_include_group(groups[groups.len() - 1]));
        assert(groups =~= before.push(groups.last()));
    }
}

/// New include paths are appended: the consensus stays in front, and what
/// follows it are include-path groups.
pub proof fn lemma_new_includes_are_appended(
    consensus: Seq<Seq<Seq<char>>>,
    current: Seq<Seq<Seq<char>>>,
)
    ensures
        consensus.is_prefix_of(with_new_includes(consensus, current)),
        all_include(with_new_includes(consensus, current).skip(consensus.len() as int)),
    decreases current.len(),
{
    if current.len() == 0 {
        assert(consensus =~= consensus.subrange(0, consensus.len() as int));
    } else {
        lemma_new_includes_are_appended(consensus, current.drop_last());
        let before = with_new_includes(consensus, current.drop_last());
        let after = with_new_includes(consensus, current);
        let count = consensus.len() as int;
        assert(consensus =~= before.subrange(0, count));
        assert(consensus =~= after.subrange(0, count));
        assert forall|i: int| 0 <= i < after.skip(count).len() implies is_include_group(
            #[trigger] after.skip(count)[i],
        ) by {
            if i < before.skip(count).len() {
                assert(after.skip(count)[i] == before.skip(count)[i]);
            }
        }
    }
}

/// The consensus is stable in the order of the first command: it starts
/// with the groups of the first command that every later command leaves in
/// place, in the first command's order, and only include-path groups follow.
pub proof fn lemma_consensus_keeps_seed_order(partitions: Seq<Seq<Seq<Seq<char>>>>)
    requires
        partitions.len() > 0,
    ensures
        kept_of_seed(partitions[0], partitions.skip(1)).is_prefix_of(consensus_of(partitions)),
        all_include(
            consensus_of(partitions).skip(
                kept_of_seed(partitions[0], partitions.skip(1)).len() as int,
            ),
        ),
    decreases partitions.len(),
{
    let kept = kept_of_seed(partitions[0], partitions.skip(1));
    if partitions.len() == 1 {
        assert(partitions.skip(1).len() == 0);
        assert(kept =~= consensus_of(partitions).subrange(0, kept.len() as int));
    } else {
        let before = partitions.drop_last();
        let current = partitions.last();
        lemma_consensus_keeps_seed_order(before);
        let seed_kept = kept_of_seed(before[0], before.skip(1));
        let consensus = consensus_of(before);
        let late = consensus.skip(seed_kept.len() as int);
        assert(seed_kept =~= consensus.subrange(0, seed_kept.len() as int));
        assert(consensus =~= seed_kept + late);
        assert(partitions.skip(1).drop_last() =~= before.skip(1));
        assert(partitions.skip(1).last() == current);
        assert(before[0] == partitions[0]);
        assert(kept == narrowed(seed_kept, current));
        lemma_narrowed_concat(seed_kept, late, current);
        lemma_narrowed_keeps_includes(late, current);
        let narrow = narrowed(consensus, current);
        assert(narrow == kept + late);
        lemma_new_includes_are_appended(narrow, current);
        let after = consensus_of(partitions);
        assert(after == with_new_includes(narrow, current));
        assert(narrow =~= after.subrange(0, narrow.len() as int));
        assert(kept =~= after.subrange(0, kept.len() as int));
        assert forall|i: int| 0 <= i < after.skip(kept.len() as int).len() implies is_include_group(
            #[trigger] after.skip(kept.len() as int)[i],
        ) by {
            if i < late.len() {
                assert(after.skip(kept.len() as int)[i] == narrow[kept.len() + i]);
                assert(narrow[kept.len() + i] == late[i]);
            } else {
                assert(after.skip(kept.len() as int)[i] == after.skip(narrow.len() as int)[i
                    - late.len()]);
            }
        }
    }
}

} // verus!
