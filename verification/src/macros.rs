//! Callable wrappers for preprocessor macros.
//!
//! Neither the declaration extractor nor the transpiler sees a macro as a
//! typed entity. For every macro of interest the pipeline therefore appends
//! a small C function to the header set that the transpiler reads: under
//! `#ifdef`, a function that evaluates the macro, and, where the macro has a
//! fallback value, under `#else` a function of the same signature that
//! returns the fallback.

use crate::error::PipelineError;
use crate::text::{
    append_chars, chars_of, copy_range, join, joined, lemma_search_from, pieces, same_text,
    search, search_from, split, string_of, strings_view, texts_view,
};
use vstd::prelude::*;

verus! {

/// How to give one preprocessor macro a callable form.
pub struct MacroSpec {
    /// The macro's name.
    pub name: String,
    /// The C type of the macro's value, `void` for a statement-like macro.
    pub return_type: String,
    /// The wrapper's parameters as C source (`unsigned port, unsigned pin`),
    /// `void` for a macro called with empty parentheses, or `None` for a
    /// macro used as a bare expression.
    pub argument_list: Option<String>,
    /// The macro only tells whether it is defined: inside the guard the
    /// wrapper evaluates to 1 and never expands the macro.
    pub requires_definition_guard: bool,
    /// The wrapper can be evaluated at compile time.
    pub constant_evaluable: bool,
    /// The value of the wrapper where the macro is not defined.
    pub fallback_literal: Option<String>,
}

/// The mathematical content of a `MacroSpec`.
pub struct MacroModel {
    pub name: Seq<char>,
    pub return_type: Seq<char>,
    pub argument_list: Option<Seq<char>>,
    pub requires_definition_guard: bool,
    pub constant_evaluable: bool,
    pub fallback_literal: Option<Seq<char>>,
}

/// The text that an optional string holds.
pub open spec fn option_view(text: Option<String>) -> Option<Seq<char>> {
    match text {
        Some(text) => Some(text@),
        None => None,
    }
}

impl View for MacroSpec {
    type V = MacroModel;

    open spec fn view(&self) -> MacroModel {
        MacroModel {
            name: self.name@,
            return_type: self.return_type@,
            argument_list: option_view(self.argument_list),
            requires_definition_guard: self.requires_definition_guard,
            constant_evaluable: self.constant_evaluable,
            fallback_literal: option_view(self.fallback_literal),
        }
    }
}

/// The contents of a table of macros.
pub open spec fn macros_view(table: Seq<MacroSpec>) -> Seq<MacroModel> {
    table.map_values(|m: MacroSpec| m@)
}

/// The preprocessor condition under which a wrapper definition stands.
#[derive(Clone, Copy, Debug, PartialEq, Eq, Structural)]
pub enum Guard {
    /// Compiled where the macro is defined.
    IfDefined,
    /// Compiled where the macro is not defined.
    IfNotDefined,
}

/// One C function definition of a wrapper.
pub struct WrapperDefinition {
    pub guard: Guard,
    /// Return type, name and parameter list.
    pub signature: String,
    /// The statements between the braces, one per line.
    pub body: Vec<String>,
}

/// The mathematical content of a `WrapperDefinition`.
pub struct DefinitionModel {
    pub guard: Guard,
    pub signature: Seq<char>,
    pub body: Seq<Seq<char>>,
}

impl View for WrapperDefinition {
    type V = DefinitionModel;

    open spec fn view(&self) -> DefinitionModel {
        DefinitionModel {
            guard: self.guard,
            signature: self.signature@,
            body: strings_view(self.body@),
        }
    }
}

/// The contents of a sequence of wrapper definitions.
pub open spec fn definitions_view(definitions: Seq<WrapperDefinition>) -> Seq<DefinitionModel> {
    definitions.map_values(|d: WrapperDefinition| d@)
}

/// What is left of a parameter declaration from its first space on: the
/// parameter's name, still led by the space. `None` for a declaration
/// without a space.
pub open spec fn parameter_name(parameter: Seq<char>) -> Option<Seq<char>> {
    match search_from(parameter, seq![' '], 0) {
        Some(at) => Some(parameter.skip(at)),
        None => None,
    }
}

/// The names of the parameters, separated by `, `. `None` when a parameter
/// has no name.
pub open spec fn argument_names(parameters: Seq<Seq<char>>) -> Option<Seq<char>>
    decreases parameters.len(),
{
    if parameters.len() == 0 {
        Some(Seq::empty())
    } else {
        match (argument_names(parameters.drop_last()), parameter_name(parameters.last())) {
            (Some(before), Some(name)) => Some(
                if parameters.len() == 1 {
                    name
                } else {
                    before + seq![',', ' '] + name
                },
            ),
            _ => None,
        }
    }
}

/// The C expression that stands for the macro inside its wrapper: `1` for a
/// pure definedness check, the bare name for a macro without an argument
/// list, a call with empty parentheses for `void`, and otherwise a call
/// that hands on the wrapper's parameters by name.
pub open spec fn invocation(spec: MacroModel) -> Option<Seq<char>> {
    if spec.requires_definition_guard {
        Some("1"@)
    } else {
        match spec.argument_list {
            None => Some(spec.name),
            Some(arguments) => if arguments == "void"@ {
                Some(spec.name + "()"@)
            } else {
                match argument_names(pieces(arguments, seq![',', ' '])) {
                    Some(names) => Some(spec.name + "("@ + names + ")"@),
                    None => None,
                }
            },
        }
    }
}

/// The wrapper's parameter list: the macro's own, or `void` where it has
/// none or only tells whether the macro is defined.
pub open spec fn parameter_list(spec: MacroModel) -> Seq<char> {
    if spec.requires_definition_guard {
        "void"@
    } else {
        match spec.argument_list {
            Some(arguments) => arguments,
            None => "void"@,
        }
    }
}

/// The wrapper's signature: `<return_type> macro_<name>(<parameters>)`.
pub open spec fn signature(spec: MacroModel) -> Seq<char> {
    spec.return_type + " macro_"@ + spec.name + "("@ + parameter_list(spec) + ")"@
}

/// The statements of the wrapper that evaluates the macro. A `void` macro
/// is a statement; any other is bound to a local and returned.
pub open spec fn guarded_body(spec: MacroModel, expression: Seq<char>) -> Seq<Seq<char>> {
    if spec.return_type == "void"@ {
        seq!["    "@ + expression + ";"@]
    } else {
        seq!["    "@ + spec.return_type + " result = "@ + expression + ";"@, "    return result;"@]
    }
}

/// The statement of the wrapper that returns the fallback value.
pub open spec fn fallback_body(literal: Seq<char>) -> Seq<Seq<char>> {
    seq!["    return "@ + literal + ";"@]
}

/// The definitions that make up the wrapper of a macro: the guarded one,
/// and the fallback where the macro has one. `None` when a parameter of
/// the macro has no name.
pub open spec fn definitions(spec: MacroModel) -> Option<Seq<DefinitionModel>> {
    match invocation(spec) {
        None => None,
        Some(expression) => {
            let guarded = DefinitionModel {
                guard: Guard::IfDefined,
                signature: signature(spec),
                body: guarded_body(spec, expression),
            };
            match spec.fallback_literal {
                Some(literal) => Some(
                    seq![
                        guarded,
                        DefinitionModel {
                            guard: Guard::IfNotDefined,
                            signature: signature(spec),
                            body: fallback_body(literal),
                        },
                    ],
                ),
                None => Some(seq![guarded]),
            }
        },
    }
}

/// The line that opens the definition of a function with the signature.
pub open spec fn definition_opening(signature: Seq<char>) -> Seq<char> {
    signature + " {"@
}

/// The lines of a definition: the opening, the statements, the closing
/// brace.
pub open spec fn definition_lines(definition: DefinitionModel) -> Seq<Seq<char>> {
    seq![definition_opening(definition.signature)] + definition.body + seq!["}"@]
}

/// The lines of a definition as a branch of the conditional: the fallback
/// opens the `#else` branch.
pub open spec fn branch_lines(definition: DefinitionModel) -> Seq<Seq<char>> {
    match definition.guard {
        Guard::IfDefined => definition_lines(definition),
        Guard::IfNotDefined => seq!["#else"@] + definition_lines(definition),
    }
}

/// The lines of the branches of the conditional, in order.
pub open spec fn branches_lines(definitions: Seq<DefinitionModel>) -> Seq<Seq<char>>
    decreases definitions.len(),
{
    if definitions.len() == 0 {
        Seq::empty()
    } else {
        branches_lines(definitions.drop_last()) + branch_lines(definitions.last())
    }
}

/// The lines of the conditional block that holds the definitions of one
/// macro's wrapper: two empty lines, the guard, the branches, the end of
/// the conditional, and an empty line, so that the block ends its last line.
pub open spec fn block_lines(name: Seq<char>, definitions: Seq<DefinitionModel>) -> Seq<Seq<char>> {
    seq![""@, ""@, "#ifdef "@ + name] + branches_lines(definitions) + seq!["#endif"@, ""@]
}

/// The conditional block as text: its lines, separated by line feeds.
pub open spec fn rendered_block(name: Seq<char>, definitions: Seq<DefinitionModel>) -> Seq<char> {
    joined(block_lines(name, definitions), "\n"@)
}

/// The block that is appended to the header for one macro.
pub open spec fn block(spec: MacroModel) -> Option<Seq<char>> {
    match definitions(spec) {
        Some(definitions) => Some(rendered_block(spec.name, definitions)),
        None => None,
    }
}

/// The header with the blocks of all macros of the table appended in table
/// order. `None` when a parameter of some macro has no name.
pub open spec fn materialized(header: Seq<char>, table: Seq<MacroModel>) -> Option<Seq<char>>
    decreases table.len(),
{
    if table.len() == 0 {
        Some(header)
    } else {
        match (materialized(header, table.drop_last()), block(table.last())) {
            (Some(before), Some(added)) => Some(before + added),
            _ => None,
        }
    }
}

/// The names of the parameters of a parameter list, for use in a call.
pub fn call_arguments(arguments: &[char]) -> (names: Option<Vec<char>>)
    ensures
        match names {
            Some(names) => argument_names(pieces(arguments@, seq![',', ' '])) == Some(names@),
            None => argument_names(pieces(arguments@, seq![',', ' '])) is None,
        },
{
    let separator: Vec<char> = vec![',', ' '];
    let space: Vec<char> = vec![' '];
    assert(separator@ =~= seq![',', ' ']);
    assert(space@ =~= seq![' ']);
    let parameters = split(arguments, separator.as_slice());
    let ghost all = texts_view(parameters@);
    let mut names: Vec<char> = Vec::new();
    let mut i: usize = 0;
    while i < parameters.len()
        invariant
            i <= parameters.len(),
            all == texts_view(parameters@),
            all == pieces(arguments@, seq![',', ' ']),
            separator@ == seq![',', ' '],
            space@ == seq![' '],
            argument_names(all.take(i as int)) == Some(names@),
        decreases parameters.len() - i,
    {
        assert(all.take(i + 1).drop_last() =~= all.take(i as int));
        assert(all.take(i + 1).last() == parameters[i as int]@);
        let parameter = &parameters[i];
        match search(parameter.as_slice(), space.as_slice(), 0) {
            None => {
                proof {
                    assert(parameter_name(parameter@) is None);
                    assert(argument_names(all.take(i + 1)) is None);
                    lemma_argument_names_stay_missing(all, i as int + 1);
                }
                return None;
            },
            Some(at) => {
                proof {
                    lemma_search_from(parameter@, space@, 0);
                }
                if i > 0 {
                    append_chars(&mut names, separator.as_slice());
                }
                let name = copy_range(parameter.as_slice(), at, parameter.len());
                assert(name@ =~= parameter@.skip(at as int));
                if i == 0 {
                    assert(names@ =~= Seq::<char>::empty());
                    append_chars(&mut names, name.as_slice());
                    assert(names@ =~= name@);
                } else {
                    append_chars(&mut names, name.as_slice());
                }
            },
        }
        i += 1;
    }
    assert(all.take(parameters.len() as int) =~= all);
    Some(names)
}

/// Once a parameter without a name is met, the names of every longer run of
/// parameters are missing too.
proof fn lemma_argument_names_stay_missing(parameters: Seq<Seq<char>>, count: int)
    requires
        0 <= count <= parameters.len(),
        argument_names(parameters.take(count)) is None,
    ensures
        argument_names(parameters) is None,
    decreases parameters.len() - count,
{
    if count < parameters.len() {
        assert(parameters.take(count + 1).drop_last() =~= parameters.take(count));
        lemma_argument_names_stay_missing(parameters, count + 1);
    } else {
        assert(parameters.take(count) =~= parameters);
    }
}

/// Whether the text is the word `void`.
pub fn is_void(text: &str) -> (hit: bool)
    ensures
        hit == (text@ == "void"@),
{
    let chars = chars_of(text);
    let word: Vec<char> = vec!['v', 'o', 'i', 'd'];
    proof {
        reveal_strlit("void");
        assert("void"@ =~= word@);
    }
    same_text(chars.as_slice(), word.as_slice())
}

impl MacroSpec {
    /// The C expression that stands for the macro inside its wrapper.
    /// Fails with `UnnamedParameter` when a parameter has no name.
    pub fn invocation(&self) -> (expression: Result<String, PipelineError>)
        ensures
            match invocation(self@) {
                Some(text) => expression is Ok && expression->Ok_0@ == text,
                None => expression == Err::<String, PipelineError>(PipelineError::UnnamedParameter),
            },
    {
        if self.requires_definition_guard {
            return Ok("1".to_owned());
        }
        match &self.argument_list {
            None => Ok(self.name.clone()),
            Some(arguments) => {
                if is_void(arguments.as_str()) {
                    let mut expression = self.name.clone();
                    expression.append("()");
                    Ok(expression)
                } else {
                    let chars = chars_of(arguments.as_str());
                    match call_arguments(chars.as_slice()) {
                        None => Err(PipelineError::UnnamedParameter),
                        Some(names) => {
                            let names = string_of(names.as_slice());
                            let mut expression = self.name.clone();
                            expression.append("(");
                            expression.append(names.as_str());
                            expression.append(")");
                            Ok(expression)
                        },
                    }
                }
            },
        }
    }

    /// The wrapper's signature: `<return_type> macro_<name>(<parameters>)`.
    pub fn signature(&self) -> (text: String)
        ensures
            text@ == signature(self@),
    {
        let mut text = self.return_type.clone();
        text.append(" macro_");
        text.append(self.name.as_str());
        text.append("(");
        if self.requires_definition_guard {
            text.append("void");
        } else {
            match &self.argument_list {
                Some(arguments) => text.append(arguments.as_str()),
                None => text.append("void"),
            }
        }
        text.append(")");
        text
    }

    /// The definitions that make up the wrapper of this macro.
    /// Fails with `UnnamedParameter` when a parameter has no name.
    pub fn definitions(&self) -> (result: Result<Vec<WrapperDefinition>, PipelineError>)
        ensures
            match definitions(self@) {
                Some(all) => result is Ok && definitions_view(result->Ok_0@) == all,
                None => result == Err::<Vec<WrapperDefinition>, PipelineError>(
                    PipelineError::UnnamedParameter,
                ),
            },
    {
        let expression = match self.invocation() {
            Ok(expression) => expression,
            Err(error) => {
                return Err(error);
            },
        };
        let mut body: Vec<String> = Vec::new();
        let mut statement = "    ".to_owned();
        if is_void(self.return_type.as_str()) {
            statement.append(expression.as_str());
            statement.append(";");
            body.push(statement);
            assert(strings_view(body@) =~= guarded_body(self@, expression@));
        } else {
            statement.append(self.return_type.as_str());
            statement.append(" result = ");
            statement.append(expression.as_str());
            statement.append(";");
            body.push(statement);
            body.push("    return result;".to_owned());
            assert(strings_view(body@) =~= guarded_body(self@, expression@));
        }
        let mut all: Vec<WrapperDefinition> = Vec::new();
        let guarded = WrapperDefinition {
            guard: Guard::IfDefined,
            signature: self.signature(),
            body,
        };
        let ghost first = guarded@;
        all.push(guarded);
        match &self.fallback_literal {
            Some(literal) => {
                let mut statement = "    return ".to_owned();
                statement.append(literal.as_str());
                statement.append(";");
                let mut body: Vec<String> = Vec::new();
                body.push(statement);
                assert(strings_view(body@) =~= fallback_body(literal@));
                let fallback = WrapperDefinition {
                    guard: Guard::IfNotDefined,
                    signature: self.signature(),
                    body,
                };
                let ghost second = fallback@;
                all.push(fallback);
                assert(definitions_view(all@) =~= seq![first, second]);
            },
            None => {
                assert(definitions_view(all@) =~= seq![first]);
            },
        }
        Ok(all)
    }

    /// The block that is appended to the header for this macro.
    /// Fails with `UnnamedParameter` when a parameter has no name.
    pub fn block(&self) -> (result: Result<String, PipelineError>)
        ensures
            match block(self@) {
                Some(text) => result is Ok && result->Ok_0@ == text,
                None => result == Err::<String, PipelineError>(PipelineError::UnnamedParameter),
            },
    {
        match self.definitions() {
            Ok(all) => Ok(render_block(self.name.as_str(), &all)),
            Err(error) => Err(error),
        }
    }
}

/// Appends copies of the strings of `more` to `all`.
pub fn append_strings(all: &mut Vec<String>, more: &Vec<String>)
    ensures
        strings_view(final(all)@) == strings_view(old(all)@) + strings_view(more@),
{
    let ghost start = strings_view(all@);
    let mut i: usize = 0;
    while i < more.len()
        invariant
            i <= more.len(),
            strings_view(all@) == start + strings_view(more@).take(i as int),
        decreases more.len() - i,
    {
        let ghost before = strings_view(all@);
        all.push(more[i].clone());
        assert(strings_view(all@) =~= before.push(more[i as int]@));
        assert(strings_view(more@).take(i + 1) =~= strings_view(more@).take(i as int).push(
            more[i as int]@,
        ));
        i += 1;
    }
    assert(strings_view(more@).take(more.len() as int) =~= strings_view(more@));
}

impl WrapperDefinition {
    /// The lines of this definition.
    pub fn lines(&self) -> (lines: Vec<String>)
        ensures
            strings_view(lines@) == definition_lines(self@),
    {
        let mut lines: Vec<String> = Vec::new();
        let mut opening = self.signature.clone();
        opening.append(" {");
        lines.push(opening);
        assert(strings_view(lines@) =~= seq![definition_opening(self@.signature)]);
        append_strings(&mut lines, &self.body);
        let ghost before = strings_view(lines@);
        lines.push("}".to_owned());
        assert(strings_view(lines@) =~= before + seq!["}"@]);
        lines
    }

    /// The lines of this definition as a branch of its conditional block.
    pub fn branch(&self) -> (lines: Vec<String>)
        ensures
            strings_view(lines@) == branch_lines(self@),
    {
        match self.guard {
            Guard::IfDefined => self.lines(),
            Guard::IfNotDefined => {
                let mut lines: Vec<String> = Vec::new();
                lines.push("#else".to_owned());
                assert(strings_view(lines@) =~= seq!["#else"@]);
                append_strings(&mut lines, &self.lines());
                lines
            },
        }
    }
}

/// Renders the conditional block that holds the definitions of one wrapper.
pub fn render_block(name: &str, definitions: &Vec<WrapperDefinition>) -> (text: String)
    ensures
        text@ == rendered_block(name@, definitions_view(definitions@)),
{
    let ghost all = definitions_view(definitions@);
    let mut lines: Vec<String> = Vec::new();
    lines.push("".to_owned());
    lines.push("".to_owned());
    let mut guard = "#ifdef ".to_owned();
    guard.append(name);
    lines.push(guard);
    let ghost opening = seq![""@, ""@, "#ifdef "@ + name@];
    assert(strings_view(lines@) =~= opening);
    let mut i: usize = 0;
    while i < definitions.len()
        invariant
            i <= definitions.len(),
            all == definitions_view(definitions@),
            strings_view(lines@) == opening + branches_lines(all.take(i as int)),
        decreases definitions.len() - i,
    {
        assert(all.take(i + 1).drop_last() =~= all.take(i as int));
        assert(all.take(i + 1).last() == definitions[i as int]@);
        let ghost before = branches_lines(all.take(i as int));
        append_strings(&mut lines, &definitions[i].branch());
        assert((opening + before) + branch_lines(definitions[i as int]@) =~= opening + (before
            + branch_lines(definitions[i as int]@)));
        i += 1;
    }
    assert(all.take(definitions.len() as int) =~= all);
    let ghost body = strings_view(lines@);
    lines.push("#endif".to_owned());
    lines.push("".to_owned());
    assert(strings_view(lines@) =~= body + seq!["#endif"@, ""@]);
    join(&lines, "\n")
}

/// Appends to the header the wrapper of every macro of the table, in table
/// order. Fails with `UnnamedParameter` when a parameter of some macro has
/// no name.
pub fn materialize(header: &str, table: &Vec<MacroSpec>) -> (result: Result<String, PipelineError>)
    ensures
        match materialized(header@, macros_view(table@)) {
            Some(text) => result is Ok && result->Ok_0@ == text,
            None => result == Err::<String, PipelineError>(PipelineError::UnnamedParameter),
        },
{
    let ghost all = macros_view(table@);
    let mut text = header.to_owned();
    let mut i: usize = 0;
    while i < table.len()
        invariant
            i <= table.len(),
            all == macros_view(table@),
            materialized(header@, all.take(i as int)) == Some(text@),
        decreases table.len() - i,
    {
        assert(all.take(i + 1).drop_last() =~= all.take(i as int));
        assert(all.take(i + 1).last() == table[i as int]@);
        match table[i].block() {
            Ok(added) => {
                text.append(added.as_str());
            },
            Err(error) => {
                proof {
                    lemma_materialized_stays_missing(header@, all, i as int + 1);
                }
                return Err(error);
            },
        }
        i += 1;
    }
    assert(all.take(table.len() as int) =~= all);
    Ok(text)
}

/// Once the wrapper of a macro cannot be written, nothing longer can.
proof fn lemma_materialized_stays_missing(header: Seq<char>, table: Seq<MacroModel>, count: int)
    requires
        0 <= count <= table.len(),
        materialized(header, table.take(count)) is None,
    ensures
        materialized(header, table) is None,
    decreases table.len() - count,
{
    if count < table.len() {
        assert(table.take(count + 1).drop_last() =~= table.take(count));
        lemma_materialized_stays_missing(header, table, count + 1);
    } else {
        assert(table.take(count) =~= table);
    }
}

} // verus!
