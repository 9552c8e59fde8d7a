//! Patches that make the transpiled source compile next to the generated
//! declarations.
//!
//! The transform is a fixed sequence of passes over the whole text. A pass
//! that does not find what it looks for leaves the text as it is.

use crate::macros::{macros_view, MacroModel, MacroSpec};
use crate::text::{
    append_chars, chars_of, contains, copy_range, lemma_search_from, occurs, pieces,
    replace_all, replaced, search, search_from, split, starts_with, string_of, strings_view,
    texts_view,
};
use crate::words::{
    comment_out_extern_types, extern_types, is_repeatable, rename_identifiers, renamed,
    repeatable_rename, texts_of, without_extern_types,
};
use vstd::prelude::*;

verus! {

/// A pass that replaces every occurrence of one literal text by another.
pub struct Substitution {
    pub from: String,
    pub to: String,
}

/// The mathematical content of a `Substitution`.
pub struct SubstitutionModel {
    pub from: Seq<char>,
    pub to: Seq<char>,
}

impl View for Substitution {
    type V = SubstitutionModel;

    open spec fn view(&self) -> SubstitutionModel {
        SubstitutionModel { from: self.from@, to: self.to@ }
    }
}

/// The text after the pass.
pub open spec fn substituted(text: Seq<char>, pass: SubstitutionModel) -> Seq<char> {
    replaced(text, pass.from, pass.to)
}

/// The pass that removes the import of the C type alias module.
pub open spec fn type_alias_import_pass() -> SubstitutionModel {
    SubstitutionModel { from: "use ::libc;\n"@, to: ""@ }
}

/// The pass that routes legacy inline assembly to the macro that
/// understands it.
pub open spec fn legacy_assembly_pass() -> SubstitutionModel {
    SubstitutionModel { from: " asm!("@, to: " llvm_asm!("@ }
}

/// The pass that redirects references into the intrinsics namespace.
pub open spec fn intrinsics_polyfill_pass() -> SubstitutionModel {
    SubstitutionModel { from: "::core::intrinsics::"@, to: "crate::intrinsics_replacements::"@ }
}

/// The pass that replaces the variadic argument list type.
pub open spec fn variadic_placeholder_pass() -> SubstitutionModel {
    SubstitutionModel { from: "::core::ffi::VaList"@, to: "::core::convert::Infallible"@ }
}

/// The pass that drops the conversion of the variadic argument list.
pub open spec fn variadic_access_pass() -> SubstitutionModel {
    SubstitutionModel { from: "__arg.as_va_list()"@, to: "__arg"@ }
}

impl Substitution {
    /// Removes the import of the C type alias module that collides with the
    /// crate's own.
    pub fn type_alias_import() -> (pass: Substitution)
        ensures
            pass@ == type_alias_import_pass(),
    {
        Substitution { from: "use ::libc;\n".to_owned(), to: "".to_owned() }
    }

    /// Routes inline assembly that an old transpiler wrote in the legacy
    /// syntax to the macro that understands it.
    pub fn legacy_assembly() -> (pass: Substitution)
        ensures
            pass@ == legacy_assembly_pass(),
    {
        Substitution { from: " asm!(".to_owned(), to: " llvm_asm!(".to_owned() }
    }

    /// Redirects references into the intrinsics namespace to the local
    /// module that provides the atomic bit operations.
    pub fn intrinsics_polyfill() -> (pass: Substitution)
        ensures
            pass@ == intrinsics_polyfill_pass(),
    {
        Substitution {
            from: "::core::intrinsics::".to_owned(),
            to: "crate::intrinsics_replacements::".to_owned(),
        }
    }

    /// Replaces the variadic argument list type, which stable compilers
    /// refuse, by a type without values.
    pub fn variadic_placeholder() -> (pass: Substitution)
        ensures
            pass@ == variadic_placeholder_pass(),
    {
        Substitution {
            from: "::core::ffi::VaList".to_owned(),
            to: "::core::convert::Infallible".to_owned(),
        }
    }

    /// Drops the conversion of the variadic argument list, which the
    /// placeholder type does not have.
    pub fn variadic_access() -> (pass: Substitution)
        ensures
            pass@ == variadic_access_pass(),
    {
        Substitution { from: "__arg.as_va_list()".to_owned(), to: "__arg".to_owned() }
    }

    /// Applies the pass to a text.
    pub fn apply(&self, text: &[char]) -> (out: Vec<char>)
        ensures
            out@ == substituted(text@, self@),
    {
        let from = chars_of(self.from.as_str());
        let to = chars_of(self.to.as_str());
        replace_all(text, from.as_slice(), to.as_slice())
    }

    /// Applies the pass to a string.
    pub fn apply_to_str(&self, text: &str) -> (out: String)
        ensures
            out@ == substituted(text@, self@),
    {
        let chars = chars_of(text);
        let out = self.apply(chars.as_slice());
        string_of(out.as_slice())
    }
}

/// Laid over each other with the replacement starting `shift` characters
/// after the pattern, the two differ somewhere where they overlap.
pub open spec fn clash_at(from: Seq<char>, to: Seq<char>, shift: int) -> bool {
    exists|k: int| 0 <= k < from.len() && 0 <= k - shift < to.len() && from[k] != to[k - shift]
}

/// However the replacement is laid over the pattern, the two differ where
/// they overlap: no occurrence of the pattern can share a character with a
/// replacement.
pub open spec fn never_aligned(from: Seq<char>, to: Seq<char>) -> bool {
    forall|shift: int| -to.len() < shift < from.len() ==> clash_at(from, to, shift)
}

/// Whether the two texts differ somewhere where they overlap when `to`
/// starts `shift` characters after `from`.
fn clashes_after(from: &[char], to: &[char], shift: usize) -> (hit: bool)
    ensures
        hit == clash_at(from@, to@, shift as int),
{
    let mut k: usize = shift;
    while k < from.len() && k - shift < to.len()
        invariant
            shift <= k,
            forall|j: int| shift <= j < k && j - shift < to.len() ==> from@[j] == to@[j - shift],
        decreases from.len() - k,
    {
        if from[k] != to[k - shift] {
            return true;
        }
        k += 1;
    }
    false
}

/// Whether the two texts differ somewhere where they overlap when `from`
/// starts `shift` characters after `to`.
fn clashes_before(from: &[char], to: &[char], shift: usize) -> (hit: bool)
    ensures
        hit == clash_at(from@, to@, -(shift as int)),
{
    if shift >= to.len() {
        return false;
    }
    let mut k: usize = 0;
    while k < from.len() && k < to.len() - shift
        invariant
            shift < to.len(),
            forall|j: int| 0 <= j < k && j + shift < to.len() ==> from@[j] == to@[j + shift],
        decreases from.len() - k,
    {
        if from[k] != to[k + shift] {
            assert(from@[k as int] != to@[k as int - (-(shift as int))]);
            return true;
        }
        k += 1;
    }
    false
}

impl Substitution {
    /// Whether the pass can be applied again without changing its own
    /// output, whatever the text: the pattern is not empty and can never be
    /// laid over the replacement.
    pub fn is_stable(&self) -> (stable: bool)
        ensures
            stable == (self@.from.len() > 0 && never_aligned(self@.from, self@.to)),
    {
        let from = chars_of(self.from.as_str());
        let to = chars_of(self.to.as_str());
        if from.len() == 0 {
            return false;
        }
        let mut after: usize = if to.len() == 0 {
            1
        } else {
            0
        };
        while after < from.len()
            invariant
                from@ == self@.from,
                to@ == self@.to,
                -to.len() < after,
                forall|shift: int|
                    -to.len() < shift < after && 0 <= shift ==> clash_at(from@, to@, shift),
            decreases from.len() - after,
        {
            if !clashes_after(from.as_slice(), to.as_slice(), after) {
                return false;
            }
            after += 1;
        }
        let mut before: usize = 1;
        while before < to.len()
            invariant
                1 <= before,
                from@ == self@.from,
                to@ == self@.to,
                forall|shift: int|
                    -to.len() < shift < from.len() && 0 <= shift ==> clash_at(from@, to@, shift),
                forall|shift: int| -before < shift < 0 ==> clash_at(from@, to@, shift),
            decreases to.len() - before,
        {
            if !clashes_before(from.as_slice(), to.as_slice(), before) {
                return false;
            }
            before += 1;
        }
        true
    }
}

/// Whether the transpiler of the given version report still writes inline
/// assembly in the legacy syntax: release 0.15, unless patched.
pub open spec fn writes_legacy_assembly(version: Seq<char>) -> bool {
    !occurs(version, "+git-for-riot"@) && occurs(version, "C2Rust 0.15"@)
}

/// Whether the output of the transpiler that reports this version needs
/// the legacy assembly pass.
pub fn needs_legacy_assembly(version: &str) -> (needed: bool)
    ensures
        needed == writes_legacy_assembly(version@),
{
    let report = chars_of(version);
    let patched = chars_of("+git-for-riot");
    let release = chars_of("C2Rust 0.15");
    !contains(report.as_slice(), patched.as_slice()) && contains(
        report.as_slice(),
        release.as_slice(),
    )
}

/// Why a function is declared otherwise than the rest.
#[derive(Clone, Copy, Debug, PartialEq, Eq, Structural)]
pub enum RuleKind {
    /// The target system calls the function through a raw function pointer.
    Callback,
    /// The function's symbol is the target of a linker-level override.
    LinkerOverride,
    /// The transpiler is known to translate the function wrongly.
    Mistranspiled,
}

/// A special case of the declaration rewrite, keyed by function name.
pub struct FunctionRewriteRule {
    pub name: String,
    pub kind: RuleKind,
}

/// The mathematical content of a `FunctionRewriteRule`.
pub struct RuleModel {
    pub name: Seq<char>,
    pub kind: RuleKind,
}

impl View for FunctionRewriteRule {
    type V = RuleModel;

    open spec fn view(&self) -> RuleModel {
        RuleModel { name: self.name@, kind: self.kind }
    }
}

/// The contents of a table of rewrite rules.
pub open spec fn rules_view(rules: Seq<FunctionRewriteRule>) -> Seq<RuleModel> {
    rules.map_values(|r: FunctionRewriteRule| r@)
}

/// What stands in front of a function's name in its declaration.
#[derive(Clone, Copy, Debug, PartialEq, Eq, Structural)]
pub struct DeclarationPrefix {
    /// Visible outside the module.
    pub public: bool,
    /// Declared with the C calling convention.
    pub foreign_linkage: bool,
    /// Usable in constant evaluation.
    pub constant: bool,
    /// Compiled only under a build condition that is normally off.
    pub gated: bool,
}

/// The prefix as source text.
pub open spec fn prefix_text(prefix: DeclarationPrefix) -> Seq<char> {
    (if prefix.gated {
        "#[cfg(c2rust_fixed_309)]\n"@
    } else {
        ""@
    }) + (if prefix.public {
        "pub "@
    } else {
        ""@
    }) + (if prefix.constant {
        "const "@
    } else {
        ""@
    }) + "unsafe "@ + (if prefix.foreign_linkage {
        "extern \"C\" "@
    } else {
        ""@
    }) + "fn "@
}

/// The prefix with which the transpiler declares every function.
pub open spec fn emitted_prefix() -> DeclarationPrefix {
    DeclarationPrefix { public: false, foreign_linkage: true, constant: false, gated: false }
}

/// The text of the prefix with which the transpiler declares every function.
pub open spec fn emitted_declaration() -> Seq<char> {
    "unsafe extern \"C\" fn "@
}

/// The emitted declaration is the text of the emitted prefix.
pub proof fn lemma_emitted_declaration()
    ensures
        prefix_text(emitted_prefix()) == emitted_declaration(),
        emitted_declaration().len() == 21,
{
    reveal_strlit("");
    reveal_strlit("unsafe ");
    reveal_strlit("extern \"C\" ");
    reveal_strlit("fn ");
    reveal_strlit("unsafe extern \"C\" fn ");
    assert(prefix_text(emitted_prefix()) =~= emitted_declaration());
}

impl DeclarationPrefix {
    /// The prefix as source text.
    pub fn render(&self) -> (text: String)
        ensures
            text@ == prefix_text(*self),
    {
        let mut text = if self.gated {
            "#[cfg(c2rust_fixed_309)]\n".to_owned()
        } else {
            "".to_owned()
        };
        text.append(if self.public { "pub " } else { "" });
        text.append(if self.constant { "const " } else { "" });
        text.append("unsafe ");
        text.append(if self.foreign_linkage { "extern \"C\" " } else { "" });
        text.append("fn ");
        text
    }
}

/// The table has a rule of the given kind for the function.
pub open spec fn has_rule(rules: Seq<RuleModel>, name: Seq<char>, kind: RuleKind) -> bool {
    exists|i: int| 0 <= i < rules.len() && (#[trigger] rules[i]).name == name && rules[i].kind == kind
}

/// The first macro of the table at or after `from` with the given name.
pub open spec fn macro_named(macros: Seq<MacroModel>, name: Seq<char>, from: int) -> Option<
    MacroModel,
>
    decreases macros.len() - from,
{
    if from < 0 || from >= macros.len() {
        None
    } else if macros[from].name == name {
        Some(macros[from])
    } else {
        macro_named(macros, name, from + 1)
    }
}

/// The macro that a function wraps: the function is named `macro_` and the
/// macro's name.
pub open spec fn wrapped_macro(macros: Seq<MacroModel>, function: Seq<char>) -> Option<MacroModel> {
    if "macro_"@.is_prefix_of(function) {
        macro_named(macros, function.skip("macro_"@.len() as int), 0)
    } else {
        None
    }
}

/// The prefix that a function gets, by the first rule that applies:
/// callbacks and targets of linker overrides keep the emitted prefix;
/// wrappers of macros lose the foreign linkage and are constant where the
/// macro is; mistranspiled functions are public and gated; every other
/// function is public.
pub open spec fn declaration_prefix(
    rules: Seq<RuleModel>,
    macros: Seq<MacroModel>,
    function: Seq<char>,
) -> DeclarationPrefix {
    if has_rule(rules, function, RuleKind::Callback) || has_rule(
        rules,
        function,
        RuleKind::LinkerOverride,
    ) {
        emitted_prefix()
    } else {
        match wrapped_macro(macros, function) {
            Some(wrapped) => DeclarationPrefix {
                public: false,
                foreign_linkage: false,
                constant: wrapped.constant_evaluable,
                gated: false,
            },
            None => DeclarationPrefix {
                public: true,
                foreign_linkage: false,
                constant: false,
                gated: has_rule(rules, function, RuleKind::Mistranspiled),
            },
        }
    }
}

/// The name of the function that a declaration declares: what stands
/// before the first opening parenthesis. `None` where there is none.
pub open spec fn declared_function(declaration: Seq<char>) -> Option<Seq<char>> {
    match search_from(declaration, seq!['('], 0) {
        Some(at) => Some(declaration.take(at)),
        None => None,
    }
}

/// A declaration with its new prefix. `declaration` is the text that
/// follows the emitted prefix. A declaration without a parenthesis keeps
/// the emitted prefix.
pub open spec fn rewritten_declaration(
    rules: Seq<RuleModel>,
    macros: Seq<MacroModel>,
    declaration: Seq<char>,
) -> Seq<char> {
    match declared_function(declaration) {
        Some(function) => prefix_text(declaration_prefix(rules, macros, function)) + declaration,
        None => emitted_declaration() + declaration,
    }
}

/// The declarations, each with its new prefix, in order.
pub open spec fn rewritten_declarations(
    rules: Seq<RuleModel>,
    macros: Seq<MacroModel>,
    declarations: Seq<Seq<char>>,
) -> Seq<char>
    decreases declarations.len(),
{
    if declarations.len() == 0 {
        Seq::empty()
    } else {
        rewritten_declarations(rules, macros, declarations.drop_last()) + rewritten_declaration(
            rules,
            macros,
            declarations.last(),
        )
    }
}

/// The text with the prefix of every function declaration replaced: the
/// text is cut at every emitted prefix, what stands before the first one is
/// kept, and every declaration after one gets its own prefix.
pub open spec fn redeclared(rules: Seq<RuleModel>, macros: Seq<MacroModel>, text: Seq<char>) -> Seq<
    char,
> {
    let parts = pieces(text, emitted_declaration());
    parts[0] + rewritten_declarations(rules, macros, parts.skip(1))
}

/// Whether the table has a rule of the given kind for the function.
pub fn find_rule(rules: &Vec<FunctionRewriteRule>, name: &String, kind: RuleKind) -> (hit: bool)
    ensures
        hit == has_rule(rules_view(rules@), name@, kind),
{
    let mut i: usize = 0;
    while i < rules.len()
        invariant
            i <= rules.len(),
            forall|k: int|
                0 <= k < i ==> !((#[trigger] rules_view(rules@)[k]).name == name@ && rules_view(
                    rules@,
                )[k].kind == kind),
        decreases rules.len() - i,
    {
        if rules[i].kind == kind && rules[i].name == *name {
            assert(rules_view(rules@)[i as int].name == name@);
            return true;
        }
        i += 1;
    }
    false
}

/// Looks up the first macro of the table with the given name and tells
/// whether it is constant.
pub fn find_macro(macros: &Vec<MacroSpec>, name: &String) -> (constant: Option<bool>)
    ensures
        match macro_named(macros_view(macros@), name@, 0) {
            Some(found) => constant == Some(found.constant_evaluable),
            None => constant is None,
        },
{
    let ghost all = macros_view(macros@);
    let mut i: usize = 0;
    while i < macros.len()
        invariant
            i <= macros.len(),
            all == macros_view(macros@),
            macro_named(all, name@, i as int) == macro_named(all, name@, 0),
        decreases macros.len() - i,
    {
        if macros[i].name == *name {
            assert(all[i as int].name == name@);
            return Some(macros[i].constant_evaluable);
        }
        i += 1;
    }
    None
}

/// Decides the prefix of a function's declaration.
pub fn decide_prefix(
    rules: &Vec<FunctionRewriteRule>,
    macros: &Vec<MacroSpec>,
    function: &[char],
) -> (prefix: DeclarationPrefix)
    ensures
        prefix == declaration_prefix(rules_view(rules@), macros_view(macros@), function@),
{
    let name = string_of(function);
    if find_rule(rules, &name, RuleKind::Callback) || find_rule(
        rules,
        &name,
        RuleKind::LinkerOverride,
    ) {
        return DeclarationPrefix {
            public: false,
            foreign_linkage: true,
            constant: false,
            gated: false,
        };
    }
    let marker = chars_of("macro_");
    let wrapped = if starts_with(function, marker.as_slice()) {
        let stem = copy_range(function, marker.len(), function.len());
        let stem = string_of(stem.as_slice());
        find_macro(macros, &stem)
    } else {
        None
    };
    match wrapped {
        Some(constant) => DeclarationPrefix {
            public: false,
            foreign_linkage: false,
            constant,
            gated: false,
        },
        None => DeclarationPrefix {
            public: true,
            foreign_linkage: false,
            constant: false,
            gated: find_rule(rules, &name, RuleKind::Mistranspiled),
        },
    }
}

/// Gives the declaration that follows an emitted prefix its new prefix.
pub fn rewrite_declaration(
    rules: &Vec<FunctionRewriteRule>,
    macros: &Vec<MacroSpec>,
    declaration: &[char],
) -> (out: Vec<char>)
    ensures
        out@ == rewritten_declaration(rules_view(rules@), macros_view(macros@), declaration@),
{
    let parenthesis: Vec<char> = vec!['('];
    assert(parenthesis@ =~= seq!['(']);
    let prefix = match search(declaration, parenthesis.as_slice(), 0) {
        Some(at) => {
            proof {
                lemma_search_from(declaration@, parenthesis@, 0);
            }
            let function = copy_range(declaration, 0, at);
            decide_prefix(rules, macros, function.as_slice()).render()
        },
        None => "unsafe extern \"C\" fn ".to_owned(),
    };
    let mut out = chars_of(prefix.as_str());
    append_chars(&mut out, declaration);
    out
}

/// Replaces the prefix of every function declaration in the text.
pub fn redeclare(rules: &Vec<FunctionRewriteRule>, macros: &Vec<MacroSpec>, text: &[char]) -> (out:
    Vec<char>)
    ensures
        out@ == redeclared(rules_view(rules@), macros_view(macros@), text@),
{
    let anchor = chars_of("unsafe extern \"C\" fn ");
    let parts = split(text, anchor.as_slice());
    let ghost all = texts_view(parts@);
    let ghost tail = all.skip(1);
    let mut out: Vec<char> = Vec::new();
    append_chars(&mut out, parts[0].as_slice());
    assert(out@ =~= all[0]);
    let mut i: usize = 1;
    while i < parts.len()
        invariant
            1 <= i <= parts.len(),
            all == texts_view(parts@),
            tail == all.skip(1),
            out@ == all[0] + rewritten_declarations(
                rules_view(rules@),
                macros_view(macros@),
                tail.take(i - 1),
            ),
        decreases parts.len() - i,
    {
        assert(tail.take(i as int).drop_last() =~= tail.take(i - 1));
        assert(tail.take(i as int).last() == parts[i as int]@);
        let rewritten = rewrite_declaration(rules, macros, parts[i].as_slice());
        let ghost before = rewritten_declarations(
            rules_view(rules@),
            macros_view(macros@),
            tail.take(i - 1),
        );
        assert((all[0] + before) + rewritten@ =~= all[0] + (before + rewritten@));
        append_chars(&mut out, rewritten.as_slice());
        i += 1;
    }
    assert(tail.take(parts.len() - 1) =~= tail);
    out
}

/// The special cases of the declaration rewrite that the target system is
/// known to need.
pub open spec fn known_rules() -> Seq<RuleModel> {
    seq![
        RuleModel { name: "_evtimer_msg_handler"@, kind: RuleKind::Callback },
        RuleModel { name: "_evtimer_mbox_handler"@, kind: RuleKind::Callback },
        RuleModel { name: "__masked_builtin_arm_get_fpscr"@, kind: RuleKind::LinkerOverride },
        RuleModel { name: "__masked_builtin_arm_set_fpscr"@, kind: RuleKind::LinkerOverride },
        RuleModel { name: "__NVIC_SetPriority"@, kind: RuleKind::LinkerOverride },
        RuleModel { name: "__SMLALD"@, kind: RuleKind::Mistranspiled },
        RuleModel { name: "__SMLALDX"@, kind: RuleKind::Mistranspiled },
        RuleModel { name: "__SMLSLD"@, kind: RuleKind::Mistranspiled },
        RuleModel { name: "__SMLSLDX"@, kind: RuleKind::Mistranspiled },
    ]
}

impl FunctionRewriteRule {
    /// A rule for the named function.
    pub fn new(name: &str, kind: RuleKind) -> (rule: FunctionRewriteRule)
        ensures
            rule@ == (RuleModel { name: name@, kind }),
    {
        FunctionRewriteRule { name: name.to_owned(), kind }
    }

    /// The table of the special cases that the target system is known to
    /// need.
    pub fn known() -> (table: Vec<FunctionRewriteRule>)
        ensures
            rules_view(table@) == known_rules(),
    {
        let mut table: Vec<FunctionRewriteRule> = Vec::new();
        table.push(FunctionRewriteRule::new("_evtimer_msg_handler", RuleKind::Callback));
        table.push(FunctionRewriteRule::new("_evtimer_mbox_handler", RuleKind::Callback));
        table.push(
            FunctionRewriteRule::new("__masked_builtin_arm_get_fpscr", RuleKind::LinkerOverride),
        );
        table.push(
            FunctionRewriteRule::new("__masked_builtin_arm_set_fpscr", RuleKind::LinkerOverride),
        );
        table.push(FunctionRewriteRule::new("__NVIC_SetPriority", RuleKind::LinkerOverride));
        table.push(FunctionRewriteRule::new("__SMLALD", RuleKind::Mistranspiled));
        table.push(FunctionRewriteRule::new("__SMLALDX", RuleKind::Mistranspiled));
        table.push(FunctionRewriteRule::new("__SMLSLD", RuleKind::Mistranspiled));
        table.push(FunctionRewriteRule::new("__SMLSLDX", RuleKind::Mistranspiled));
        assert(rules_view(table@) =~= known_rules());
        table
    }
}

/// Everything that the transform depends on besides the text.
pub struct ReconcileSettings {
    /// The transpiler writes inline assembly in the legacy syntax.
    pub legacy_assembly: bool,
    /// Types that the transpiler declares without a definition are kept as
    /// they are.
    pub keep_extern_types: bool,
    pub rules: Vec<FunctionRewriteRule>,
    pub macros: Vec<MacroSpec>,
    /// Identifiers that collide with constants of the generated declarations.
    pub colliding_names: Vec<String>,
    /// What a colliding identifier is led by.
    pub collision_prefix: String,
}

/// The mathematical content of `ReconcileSettings`.
pub struct SettingsModel {
    pub legacy_assembly: bool,
    pub keep_extern_types: bool,
    pub rules: Seq<RuleModel>,
    pub macros: Seq<MacroModel>,
    pub colliding_names: Seq<Seq<char>>,
    pub collision_prefix: Seq<char>,
}

impl View for ReconcileSettings {
    type V = SettingsModel;

    open spec fn view(&self) -> SettingsModel {
        SettingsModel {
            legacy_assembly: self.legacy_assembly,
            keep_extern_types: self.keep_extern_types,
            rules: rules_view(self.rules@),
            macros: macros_view(self.macros@),
            colliding_names: strings_view(self.colliding_names@),
            collision_prefix: self.collision_prefix@,
        }
    }
}

impl ReconcileSettings {
    /// Whether the colliding identifiers can be renamed again without
    /// being led by the prefix twice.
    pub fn renames_once(&self) -> (once: bool)
        ensures
            once == repeatable_rename(self@.colliding_names, self@.collision_prefix),
    {
        let names = texts_of(&self.colliding_names);
        let prefix = chars_of(self.collision_prefix.as_str());
        is_repeatable(&names, prefix.as_slice())
    }
}

/// The text after the passes that come before the types are looked at: the
/// import is removed, legacy assembly is routed where the transpiler writes
/// it, and the intrinsics are redirected.
pub open spec fn prepared(text: Seq<char>, settings: SettingsModel) -> Seq<char> {
    let imported = substituted(text, type_alias_import_pass());
    let assembled = if settings.legacy_assembly {
        substituted(imported, legacy_assembly_pass())
    } else {
        imported
    };
    substituted(assembled, intrinsics_polyfill_pass())
}

/// The names of the types that are put inside comments.
pub open spec fn reconciled_extern_types(text: Seq<char>, settings: SettingsModel) -> Seq<
    Seq<char>,
> {
    if settings.keep_extern_types {
        Seq::empty()
    } else {
        extern_types(prepared(text, settings))
    }
}

/// The text after every pass, in order: the preparing passes, the types
/// without a definition, the variadic argument list, the declarations, the
/// colliding identifiers.
pub open spec fn reconciled_source(text: Seq<char>, settings: SettingsModel) -> Seq<char> {
    let typed = if settings.keep_extern_types {
        prepared(text, settings)
    } else {
        without_extern_types(prepared(text, settings))
    };
    let variadic = substituted(
        substituted(typed, variadic_placeholder_pass()),
        variadic_access_pass(),
    );
    let declared = redeclared(settings.rules, settings.macros, variadic);
    renamed(declared, settings.colliding_names, settings.collision_prefix)
}

/// The outcome of the transform.
pub struct Reconciled {
    /// The source that compiles next to the generated declarations.
    pub source: String,
    /// The types that were put inside comments and need a stand-in.
    pub extern_types: Vec<String>,
}

/// Encodes every text of a list.
pub fn strings_of(texts: &Vec<Vec<char>>) -> (strings: Vec<String>)
    ensures
        strings_view(strings@) == texts_view(texts@),
{
    let mut strings: Vec<String> = Vec::new();
    let mut i: usize = 0;
    while i < texts.len()
        invariant
            i <= texts.len(),
            strings_view(strings@) == texts_view(texts@).take(i as int),
        decreases texts.len() - i,
    {
        let ghost before = strings_view(strings@);
        let encoded = string_of(texts[i].as_slice());
        strings.push(encoded);
        assert(strings_view(strings@) =~= before.push(texts[i as int]@));
        assert(texts_view(texts@).take(i + 1) =~= texts_view(texts@).take(i as int).push(
            texts[i as int]@,
        ));
        i += 1;
    }
    assert(texts_view(texts@).take(texts.len() as int) =~= texts_view(texts@));
    strings
}

/// Applies every pass of the transform to the transpiled source.
pub fn reconcile(text: &str, settings: &ReconcileSettings) -> (out: Reconciled)
    ensures
        out.source@ == reconciled_source(text@, settings@),
        strings_view(out.extern_types@) == reconciled_extern_types(text@, settings@),
{
    let mut source = chars_of(text);
    source = Substitution::type_alias_import().apply(source.as_slice());
    if settings.legacy_assembly {
        source = Substitution::legacy_assembly().apply(source.as_slice());
    }
    source = Substitution::intrinsics_polyfill().apply(source.as_slice());
    let mut extern_types: Vec<Vec<char>> = Vec::new();
    if !settings.keep_extern_types {
        let (patched, names) = comment_out_extern_types(source.as_slice());
        source = patched;
        extern_types = names;
    } else {
        assert(texts_view(extern_types@) =~= Seq::<Seq<char>>::empty());
    }
    source = Substitution::variadic_placeholder().apply(source.as_slice());
    source = Substitution::variadic_access().apply(source.as_slice());
    source = redeclare(&settings.rules, &settings.macros, source.as_slice());
    let names = texts_of(&settings.colliding_names);
    let prefix = chars_of(settings.collision_prefix.as_str());
    source = rename_identifiers(source.as_slice(), &names, prefix.as_slice());
    Reconciled { source: string_of(source.as_slice()), extern_types: strings_of(&extern_types) }
}

} // verus!
