//! What holds of the wrapper of every macro.

use crate::lines::{
    lemma_lines_of_joined, lemma_no_occurrences, lemma_occurrences_concat,
    lemma_pieces_are_single_lines, lines, occurrences, single_line, single_lines,
};
use crate::macros::{
    argument_names, block, block_lines, branch_lines, branches_lines, definition_lines,
    definition_opening, definitions, fallback_body, guarded_body, invocation, materialized,
    parameter_list, parameter_name, signature, DefinitionModel, Guard, MacroModel,
};
use crate::macro_table::{known_macros, known_values, light_macros, lights};
use crate::text::{
    lemma_search_from, lemma_search_from_is_leftmost, occurs_at, pieces, pieces_from, search_from,
};
use vstd::prelude::*;

verus! {

/// Every part of the macro's description is written on one line.
pub open spec fn on_one_line(spec: MacroModel) -> bool {
    &&& single_line(spec.name)
    &&& single_line(spec.return_type)
    &&& spec.argument_list matches Some(arguments) ==> single_line(arguments)
    &&& spec.fallback_literal matches Some(literal) ==> single_line(literal)
}

/// The text is not empty and ends with the character.
pub open spec fn ends_with(text: Seq<char>, c: char) -> bool {
    text.len() > 0 && text.last() == c
}

/// The names of parameters that are written on one line are on one line.
pub proof fn lemma_argument_names_on_one_line(parameters: Seq<Seq<char>>)
    requires
        single_lines(parameters),
        argument_names(parameters) is Some,
    ensures
        single_line(argument_names(parameters)->0),
    decreases parameters.len(),
{
    if parameters.len() > 0 {
        let before = parameters.drop_last();
        let last = parameters.last();
        assert(single_line(parameters[parameters.len() - 1]));
        assert forall|i: int| 0 <= i < before.len() implies single_line(#[trigger] before[i]) by {
            assert(before[i] == parameters[i]);
        }
        lemma_argument_names_on_one_line(before);
        lemma_search_from(last, seq![' '], 0);
        let name = parameter_name(last)->0;
        assert(single_line(name));
    }
}

/// The expression that stands for a macro written on one line is on one line.
pub proof fn lemma_invocation_on_one_line(spec: MacroModel)
    requires
        on_one_line(spec),
        invocation(spec) is Some,
    ensures
        single_line(invocation(spec)->0),
{
    reveal_strlit("1");
    reveal_strlit("()");
    reveal_strlit("(");
    reveal_strlit(")");
    if !spec.requires_definition_guard {
        if let Some(arguments) = spec.argument_list {
            if arguments != "void"@ {
                lemma_pieces_are_single_lines(arguments, seq![',', ' '], 0);
                lemma_argument_names_on_one_line(pieces(arguments, seq![',', ' ']));
            }
        }
    }
}

/// The signature of a macro written on one line is on one line.
pub proof fn lemma_signature_on_one_line(spec: MacroModel)
    requires
        on_one_line(spec),
    ensures
        single_line(signature(spec)),
{
    reveal_strlit(" macro_");
    reveal_strlit("(");
    reveal_strlit(")");
    reveal_strlit("void");
    assert(single_line(parameter_list(spec)));
}

/// The statements of the wrappers of a macro written on one line are each
/// on one line, and each ends with a semicolon.
pub proof fn lemma_bodies_on_one_line(spec: MacroModel)
    requires
        on_one_line(spec),
        invocation(spec) is Some,
    ensures
        single_lines(guarded_body(spec, invocation(spec)->0)),
        forall|i: int|
            0 <= i < guarded_body(spec, invocation(spec)->0).len() ==> ends_with(
                #[trigger] guarded_body(spec, invocation(spec)->0)[i],
                ';',
            ),
        spec.fallback_literal matches Some(literal) ==> single_lines(fallback_body(literal))
            && ends_with(fallback_body(literal)[0], ';'),
{
    lemma_invocation_on_one_line(spec);
    reveal_strlit("    ");
    reveal_strlit(";");
    reveal_strlit(" result = ");
    reveal_strlit("    return result;");
    reveal_strlit("    return ");
    let body = guarded_body(spec, invocation(spec)->0);
    assert forall|i: int| 0 <= i < body.len() implies single_line(#[trigger] body[i]) && ends_with(
        body[i],
        ';',
    ) by {
        if spec.return_type == "void"@ {
            assert(i == 0);
        } else {
            assert(i == 0 || i == 1);
        }
    }
    if let Some(literal) = spec.fallback_literal {
        assert(single_line(fallback_body(literal)[0]));
    }
}

/// The lines of a definition are single lines, and exactly the first of
/// them opens a definition with its signature.
pub proof fn lemma_definition_lines(definition: DefinitionModel)
    requires
        single_line(definition.signature),
        single_lines(definition.body),
        forall|i: int|
            0 <= i < definition.body.len() ==> ends_with(#[trigger] definition.body[i], ';'),
    ensures
        single_lines(definition_lines(definition)),
        single_lines(branch_lines(definition)),
        occurrences(definition_lines(definition), definition_opening(definition.signature)) == 1,
        occurrences(branch_lines(definition), definition_opening(definition.signature)) == 1,
{
    reveal_strlit(" {");
    reveal_strlit("}");
    reveal_strlit("#else");
    let opening = definition_opening(definition.signature);
    let all = definition_lines(definition);
    assert(ends_with(opening, '{'));
    assert(single_line(opening));
    assert forall|i: int| 0 <= i < all.len() implies single_line(#[trigger] all[i]) by {
        if 1 <= i <= definition.body.len() {
            assert(all[i] == definition.body[i - 1]);
        }
    }
    assert forall|i: int| 0 <= i < branch_lines(definition).len() implies single_line(
        #[trigger] branch_lines(definition)[i],
    ) by {
        if definition.guard == Guard::IfNotDefined && i > 0 {
            assert(branch_lines(definition)[i] == all[i - 1]);
        }
    }
    let first = seq![opening];
    let close = seq!["}"@];
    assert(first.drop_last() =~= Seq::<Seq<char>>::empty());
    assert(occurrences(first.drop_last(), opening) == 0);
    assert(first.last() == opening);
    assert(occurrences(first, opening) == 1);
    assert forall|i: int| 0 <= i < definition.body.len() implies #[trigger] definition.body[i]
        != opening by {
        assert(ends_with(definition.body[i], ';'));
    }
    lemma_no_occurrences(definition.body, opening);
    lemma_no_occurrences(close, opening);
    lemma_occurrences_concat(first, definition.body, opening);
    lemma_occurrences_concat(first + definition.body, close, opening);
    let alternative = seq!["#else"@];
    lemma_no_occurrences(alternative, opening);
    lemma_occurrences_concat(alternative, all, opening);
}

/// The lines of the block of a macro written on one line are single lines.
pub proof fn lemma_block_on_single_lines(spec: MacroModel)
    requires
        on_one_line(spec),
        definitions(spec) is Some,
    ensures
        single_lines(block_lines(spec.name, definitions(spec)->0)),
{
    reveal_strlit("");
    reveal_strlit("#ifdef ");
    reveal_strlit("#endif");
    lemma_signature_on_one_line(spec);
    lemma_bodies_on_one_line(spec);
    let all = definitions(spec)->0;
    let guarded = all[0];
    lemma_definition_lines(guarded);
    let first = all.take(1);
    assert(first.drop_last() =~= Seq::<DefinitionModel>::empty());
    assert(first.last() == guarded);
    assert(branches_lines(first.drop_last()) =~= Seq::<Seq<char>>::empty());
    assert(branches_lines(first) =~= branch_lines(guarded));
    if all.len() == 2 {
        lemma_definition_lines(all[1]);
        assert(all.drop_last() =~= first);
        assert(branches_lines(all) == branch_lines(guarded) + branch_lines(all[1]));
    } else {
        assert(all =~= first);
    }
    let head = seq![""@, ""@, "#ifdef "@ + spec.name];
    let body = branches_lines(all);
    let tail = seq!["#endif"@, ""@];
    let whole = block_lines(spec.name, all);
    assert(single_line("#ifdef "@ + spec.name));
    assert forall|i: int| 0 <= i < body.len() implies single_line(#[trigger] body[i]) by {
        let one = branch_lines(guarded);
        if i < one.len() {
            assert(body[i] == one[i]);
        } else {
            assert(body[i] == branch_lines(all[1])[i - one.len()]);
        }
    }
    assert forall|i: int| 0 <= i < whole.len() implies single_line(#[trigger] whole[i]) by {
        if i < 3 {
            assert(whole[i] == head[i]);
        } else if i < 3 + body.len() {
            assert(whole[i] == body[i - 3]);
        } else {
            assert(whole[i] == tail[i - 3 - body.len()]);
        }
    }
}

/// The lines of the block that is written for a macro are the lines of its
/// guard, of its definitions and of the end of the conditional.
pub proof fn lemma_lines_of_block(spec: MacroModel)
    requires
        on_one_line(spec),
        definitions(spec) is Some,
    ensures
        lines(block(spec)->0) == block_lines(spec.name, definitions(spec)->0),
{
    lemma_block_on_single_lines(spec);
    lemma_lines_of_joined(block_lines(spec.name, definitions(spec)->0));
}

/// Neither the guard of a block nor the end of its conditional opens a
/// definition.
proof fn lemma_frame_opens_nothing(spec: MacroModel)
    ensures
        occurrences(
            seq![""@, ""@, "#ifdef "@ + spec.name],
            definition_opening(signature(spec)),
        ) == 0,
        occurrences(seq!["#endif"@, ""@], definition_opening(signature(spec))) == 0,
{
    reveal_strlit("");
    reveal_strlit("#ifdef ");
    reveal_strlit("#endif");
    reveal_strlit(" {");
    reveal_strlit(" macro_");
    reveal_strlit("(");
    reveal_strlit(")");
    let opening = definition_opening(signature(spec));
    assert(ends_with(opening, '{'));
    assert(opening.len() > 7 + spec.name.len());
    lemma_no_occurrences(seq![""@, ""@, "#ifdef "@ + spec.name], opening);
    lemma_no_occurrences(seq!["#endif"@, ""@], opening);
}

/// A macro with a fallback value gets exactly two definitions: the first
/// under the positive guard, the second under the negated guard, both with
/// one signature. Where the macro is described on one line, exactly two lines
/// of its block open a definition with that signature.
pub proof fn lemma_fallback_gives_two_definitions(spec: MacroModel)
    requires
        spec.fallback_literal is Some,
        definitions(spec) is Some,
    ensures
        definitions(spec)->0.len() == 2,
        definitions(spec)->0[0].guard == Guard::IfDefined,
        definitions(spec)->0[1].guard == Guard::IfNotDefined,
        definitions(spec)->0[0].signature == signature(spec),
        definitions(spec)->0[1].signature == signature(spec),
        definitions(spec)->0[1].body == fallback_body(spec.fallback_literal->0),
        block_lines(spec.name, definitions(spec)->0) == seq![""@, ""@, "#ifdef "@ + spec.name]
            + (definition_lines(definitions(spec)->0[0]) + (seq!["#else"@] + definition_lines(
            definitions(spec)->0[1],
        ))) + seq!["#endif"@, ""@],
        on_one_line(spec) ==> occurrences(
            lines(block(spec)->0),
            definition_opening(signature(spec)),
        ) == 2,
{
    let all = definitions(spec)->0;
    let first = all.drop_last();
    assert(first.len() == 1 && first.last() == all[0]);
    assert(first.drop_last() =~= Seq::<DefinitionModel>::empty());
    assert(branches_lines(first.drop_last()) =~= Seq::<Seq<char>>::empty());
    assert(branches_lines(first) =~= definition_lines(all[0]));
    assert(branches_lines(all) == definition_lines(all[0]) + (seq!["#else"@] + definition_lines(
        all[1],
    )));
    if on_one_line(spec) {
        let opening = definition_opening(signature(spec));
        lemma_lines_of_block(spec);
        lemma_signature_on_one_line(spec);
        lemma_bodies_on_one_line(spec);
        lemma_definition_lines(all[0]);
        lemma_definition_lines(all[1]);
        lemma_frame_opens_nothing(spec);
        let head = seq![""@, ""@, "#ifdef "@ + spec.name];
        let tail = seq!["#endif"@, ""@];
        lemma_occurrences_concat(definition_lines(all[0]), branch_lines(all[1]), opening);
        lemma_occurrences_concat(head, branches_lines(all), opening);
        lemma_occurrences_concat(head + branches_lines(all), tail, opening);
    }
}

/// A macro without a fallback value gets exactly one definition, under the
/// positive guard, and its block has no `#else` branch. Where the macro is
/// described on one line, exactly one line of its block opens a definition
/// with its signature, and no line is `#else`.
pub proof fn lemma_no_fallback_gives_one_definition(spec: MacroModel)
    requires
        spec.fallback_literal is None,
        definitions(spec) is Some,
    ensures
        definitions(spec)->0.len() == 1,
        definitions(spec)->0[0].guard == Guard::IfDefined,
        definitions(spec)->0[0].signature == signature(spec),
        block_lines(spec.name, definitions(spec)->0) == seq![""@, ""@, "#ifdef "@ + spec.name]
            + definition_lines(definitions(spec)->0[0]) + seq!["#endif"@, ""@],
        on_one_line(spec) ==> occurrences(
            lines(block(spec)->0),
            definition_opening(signature(spec)),
        ) == 1,
        on_one_line(spec) ==> occurrences(lines(block(spec)->0), "#else"@) == 0,
{
    let all = definitions(spec)->0;
    assert(all.len() == 1 && all.last() == all[0]);
    assert(all.drop_last() =~= Seq::<DefinitionModel>::empty());
    assert(branches_lines(all.drop_last()) =~= Seq::<Seq<char>>::empty());
    assert(branches_lines(all) =~= definition_lines(all[0]));
    if on_one_line(spec) {
        let opening = definition_opening(signature(spec));
        lemma_lines_of_block(spec);
        lemma_signature_on_one_line(spec);
        lemma_bodies_on_one_line(spec);
        lemma_definition_lines(all[0]);
        lemma_frame_opens_nothing(spec);
        let head = seq![""@, ""@, "#ifdef "@ + spec.name];
        let tail = seq!["#endif"@, ""@];
        lemma_occurrences_concat(head, branches_lines(all), opening);
        lemma_occurrences_concat(head + branches_lines(all), tail, opening);
        reveal_strlit("");
        reveal_strlit("#ifdef ");
        reveal_strlit("#endif");
        reveal_strlit("#else");
        reveal_strlit(" {");
        reveal_strlit("}");
        let whole = block_lines(spec.name, all);
        let body = guarded_body(spec, invocation(spec)->0);
        assert forall|i: int| 0 <= i < whole.len() implies #[trigger] whole[i] != "#else"@ by {
            let lines = definition_lines(all[0]);
            if i < 2 {
                assert(whole[i].len() == 0);
            } else if i == 2 {
                assert(whole[i] == head[2]);
                assert(whole[i].len() >= 7);
                assert(whole[i][1] == 'i');
            } else if i < 3 + lines.len() {
                assert(whole[i] == lines[i - 3]);
                if i == 3 {
                    assert(ends_with(whole[i], '{'));
                } else if i - 3 <= body.len() {
                    assert(lines[i - 3] == body[i - 4]);
                    assert(ends_with(body[i - 4], ';'));
                } else {
                    assert(whole[i] == "}"@);
                }
            } else {
                assert(whole[i] == tail[i - 3 - lines.len()]);
            }
        }
        lemma_no_occurrences(whole, "#else"@);
    }
}

/// The macros of every light are described on one line.
pub proof fn lemma_lights_on_one_line(count: int)
    ensures
        forall|i: int| 0 <= i < lights(count).len() ==> on_one_line(#[trigger] lights(count)[i]),
    decreases count,
{
    if count > 0 {
        lemma_lights_on_one_line(count - 1);
        reveal_strlit("LED");
        reveal_strlit("_ON");
        reveal_strlit("_OFF");
        reveal_strlit("_TOGGLE");
        reveal_strlit("_IS_PRESENT");
        reveal_strlit("void");
        reveal_strlit("int");
        reveal_strlit("-1");
        let before = lights(count - 1);
        let added = light_macros(count - 1);
        assert forall|k: int| 0 <= k < added.len() implies on_one_line(#[trigger] added[k]) by {}
        assert forall|i: int| 0 <= i < lights(count).len() implies on_one_line(
            #[trigger] lights(count)[i],
        ) by {
            if i < before.len() {
                assert(lights(count)[i] == before[i]);
            } else {
                assert(lights(count)[i] == added[i - before.len()]);
            }
        }
    }
}

/// Every macro of the known table is described on one line, so that what
/// holds of the lines of a block holds of the blocks of the known macros.
pub proof fn lemma_known_macros_on_one_line()
    ensures
        forall|i: int|
            0 <= i < known_macros().len() ==> on_one_line(#[trigger] known_macros()[i]),
{
    reveal_strlit("SOCK_IPV4_EP_ANY");
    reveal_strlit("SOCK_IPV6_EP_ANY");
    reveal_strlit("sock_udp_ep_t");
    reveal_strlit("MUTEX_INIT");
    reveal_strlit("mutex_t");
    reveal_strlit("STATUS_NOT_FOUND");
    reveal_strlit("thread_status_t");
    reveal_strlit("GPIO_PIN");
    reveal_strlit("gpio_t");
    reveal_strlit("unsigned port, unsigned pin");
    reveal_strlit("unsigned num");
    reveal_strlit("I2C_DEV");
    reveal_strlit("i2c_t");
    reveal_strlit("SPI_DEV");
    reveal_strlit("spi_t");
    reveal_strlit("UART_DEV");
    reveal_strlit("uart_t");
    reveal_strlit("PWM_DEV");
    reveal_strlit("pwm_t");
    reveal_strlit("ADC_LINE");
    reveal_strlit("adc_t");
    reveal_strlit("TIMER_DEV");
    reveal_strlit("timer_t");
    reveal_strlit("QDEC_DEV");
    reveal_strlit("qdec_t");
    reveal_strlit("DAC_LINE");
    reveal_strlit("dac_t");
    let values = known_values();
    assert forall|k: int| 0 <= k < values.len() implies on_one_line(#[trigger] values[k]) by {}
    lemma_lights_on_one_line(8);
    assert forall|i: int| 0 <= i < known_macros().len() implies on_one_line(
        #[trigger] known_macros()[i],
    ) by {
        if i < values.len() {
            assert(known_macros()[i] == values[i]);
        } else {
            assert(known_macros()[i] == lights(8)[i - values.len()]);
        }
    }
}

/// Where every macro of a table has its definitions, the header can be
/// augmented.
pub proof fn lemma_materialized_exists(header: Seq<char>, table: Seq<MacroModel>)
    requires
        forall|i: int| 0 <= i < table.len() ==> definitions(#[trigger] table[i]) is Some,
    ensures
        materialized(header, table) is Some,
    decreases table.len(),
{
    if table.len() > 0 {
        let before = table.drop_last();
        assert forall|i: int| 0 <= i < before.len() implies definitions(#[trigger] before[i])
            is Some by {
            assert(before[i] == table[i]);
        }
        lemma_materialized_exists(header, before);
        assert(definitions(table[table.len() - 1]) is Some);
    }
}

/// A parameter list with one named parameter hands on that name.
proof fn lemma_one_parameter(arguments: Seq<char>, space: int)
    requires
        0 <= space < arguments.len(),
        arguments[space] == ' ',
        forall|k: int| 0 <= k < space ==> arguments[k] != ' ',
        forall|k: int| 0 <= k < arguments.len() ==> arguments[k] != ',',
    ensures
        argument_names(pieces(arguments, seq![',', ' '])) is Some,
{
    let comma = seq![',', ' '];
    lemma_search_from(arguments, comma, 0);
    assert forall|k: int| 0 <= k implies !occurs_at(arguments, comma, k) by {
        if occurs_at(arguments, comma, k) {
            assert(arguments.subrange(k, k + 2)[0] == arguments[k]);
        }
    }
    let all = pieces(arguments, comma);
    assert(all =~= seq![arguments.skip(0)]);
    assert(arguments.skip(0) =~= arguments);
    lemma_named(arguments, space);
    assert(all.drop_last() =~= Seq::<Seq<char>>::empty());
    assert(argument_names(all.drop_last()) is Some);
}

/// A parameter with a space has a name.
proof fn lemma_named(parameter: Seq<char>, space: int)
    requires
        0 <= space < parameter.len(),
        parameter[space] == ' ',
        forall|k: int| 0 <= k < space ==> parameter[k] != ' ',
    ensures
        parameter_name(parameter) is Some,
{
    assert(parameter.subrange(space, space + 1) =~= seq![' ']);
    assert forall|k: int| 0 <= k < space implies !occurs_at(parameter, seq![' '], k) by {
        if occurs_at(parameter, seq![' '], k) {
            assert(parameter.subrange(k, k + 1)[0] == parameter[k]);
        }
    }
    lemma_search_from_is_leftmost(parameter, seq![' '], 0, space);
}

/// The parameter list of the pin macro hands on both names.
proof fn lemma_two_parameters()
    ensures
        argument_names(pieces("unsigned port, unsigned pin"@, seq![',', ' '])) is Some,
{
    reveal_strlit("unsigned port, unsigned pin");
    let arguments = "unsigned port, unsigned pin"@;
    let comma = seq![',', ' '];
    assert(arguments.subrange(13, 15) =~= comma);
    assert forall|k: int| 0 <= k < 13 implies !occurs_at(arguments, comma, k) by {
        if occurs_at(arguments, comma, k) {
            assert(arguments.subrange(k, k + 2)[0] == arguments[k]);
        }
    }
    lemma_search_from_is_leftmost(arguments, comma, 0, 13);
    lemma_search_from(arguments, comma, 15);
    assert forall|k: int| 15 <= k implies !occurs_at(arguments, comma, k) by {
        if occurs_at(arguments, comma, k) {
            assert(arguments.subrange(k, k + 2)[0] == arguments[k]);
        }
    }
    assert(search_from(arguments, comma, 15) is None);
    let first = arguments.subrange(0, 13);
    let second = arguments.skip(15);
    assert(pieces_from(arguments, comma, 15) =~= seq![second]);
    let all = pieces(arguments, comma);
    assert(all =~= seq![first, second]);
    lemma_named(first, 8);
    lemma_named(second, 8);
    let one = all.drop_last();
    assert(one =~= seq![first]);
    assert(one.drop_last() =~= Seq::<Seq<char>>::empty());
    assert(argument_names(one.drop_last()) is Some);
    assert(argument_names(one) is Some);
}

/// Every macro of the known table has its definitions: no parameter of
/// the table lacks a name.
pub proof fn lemma_known_macros_have_definitions()
    ensures
        forall|i: int|
            0 <= i < known_macros().len() ==> definitions(#[trigger] known_macros()[i]) is Some,
{
    reveal_strlit("unsigned num");
    reveal_strlit("void");
    reveal_strlit("unsigned port, unsigned pin");
    lemma_one_parameter("unsigned num"@, 8);
    lemma_two_parameters();
    let values = known_values();
    assert("unsigned num"@ != "void"@);
    assert("unsigned port, unsigned pin"@ != "void"@);
    assert forall|k: int| 0 <= k < values.len() implies definitions(#[trigger] values[k])
        is Some by {}
    lemma_lights_have_definitions(8);
    assert forall|i: int| 0 <= i < known_macros().len() implies definitions(
        #[trigger] known_macros()[i],
    ) is Some by {
        if i < values.len() {
            assert(known_macros()[i] == values[i]);
        } else {
            assert(known_macros()[i] == lights(8)[i - values.len()]);
        }
    }
}

/// The macros of every light have their definitions.
proof fn lemma_lights_have_definitions(count: int)
    ensures
        forall|i: int| 0 <= i < lights(count).len() ==> definitions(#[trigger] lights(count)[i])
            is Some,
    decreases count,
{
    if count > 0 {
        lemma_lights_have_definitions(count - 1);
        let before = lights(count - 1);
        let added = light_macros(count - 1);
        assert forall|k: int| 0 <= k < added.len() implies definitions(#[trigger] added[k])
            is Some by {}
        assert forall|i: int| 0 <= i < lights(count).len() implies definitions(
            #[trigger] lights(count)[i],
        ) is Some by {
            if i < before.len() {
                assert(lights(count)[i] == before[i]);
            } else {
                assert(lights(count)[i] == added[i - before.len()]);
            }
        }
    }
}

/// Whatever the header, the wrappers of the known macros can be appended
/// to it.
pub proof fn lemma_known_macros_materialize(header: Seq<char>)
    ensures
        materialized(header, known_macros()) is Some,
{
    lemma_known_macros_have_definitions();
    lemma_materialized_exists(header, known_macros());
}

} // verus!
