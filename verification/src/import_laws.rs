//! A file imports what its text refers to.

use crate::ast::{
    Attribute, Attribute_, Command, Command_, Constant, ConstantName, Function, FunctionName,
    ModuleDefinition, ModuleIdent, Name, SingleType, Statement, Statement_, StructDefinition,
    StructField, StructFields, StructName, StructTypeParameter, Term, Var,
};
use crate::ast_to_ts::{
    common_imports, file_text, header, module_import, package_import, translated,
};
use crate::constants::constant_steps;
use crate::directives::lemma_directives_differ;
use crate::functions::{
    function_body_steps, function_directives_from, function_json_steps, function_ts_steps,
    parameters_from, parameters_json_from, parameters_json_steps, parameters_steps,
    payload_args_from, payload_steps,
};
use crate::laws::{law_imports, lemma_asked_for_finite};
use crate::module::{
    constants_from, constants_steps, functions_from, functions_steps, load_parsers_steps,
    meta_steps, module_steps, parsers_from, special_module_steps, structs_from, structs_steps,
};
use crate::reading::{
    asked, group_asked, lemma_asked_imports, lemma_imports_asked, lemma_imports_exactly,
    needs_module, needs_package,
};
use crate::script::{group_run, lemma_run_concat, run, State};
use crate::shared::ContextView;
use crate::statements::{block_steps, empty_block, statement_steps, statements_steps};
use crate::string_set::{in_order, lemma_in_order_of};
use crate::struct_directives::{
    show_from, show_iter_table_from, show_iter_table_steps, show_steps, struct_directives_from,
};
use crate::struct_laws::table_in_field;
use crate::structs::{
    class_fields_from, ctor_fields_from, defined_struct_steps, fields_steps, parser_steps,
    static_fields_from, struct_steps, struct_tparams_from,
};
use crate::text::{joined, precedes};
use crate::tsgen_writer::layout;
use crate::types::{constant_term, constant_type, signer};
use vstd::prelude::*;

verus! {

proof fn lemma_parameters_asked(
    parameters: Seq<(Var, SingleType)>,
    skip_signer: bool,
    i: int,
    term: Term,
)
    requires
        0 <= i <= parameters.len(),
    ensures
        asked(parameters_from(parameters, skip_signer, i), term) <==> exists|k: int|
            i <= k < parameters.len() && !(skip_signer && signer(parameters[k].1)) && (
            #[trigger] parameters[k]).1.ts == term,
        asked(parameters_json_from(parameters, skip_signer, i), term) <==> exists|k: int|
            i <= k < parameters.len() && !(skip_signer && signer(parameters[k].1)) && (
            #[trigger] parameters[k]).1.ts == term,
    decreases parameters.len() - i,
{
    broadcast use group_asked;

    if i < parameters.len() {
        let first = parameters[i];
        lemma_parameters_asked(parameters, skip_signer, i + 1, term);
    }
}

/// Whether a term is the type of a parameter that is printed.
pub open spec fn in_parameters(
    parameters: Seq<(Var, SingleType)>,
    skip_signer: bool,
    term: Term,
) -> bool {
    exists|k: int|
        0 <= k < parameters.len() && !(skip_signer && signer(parameters[k].1)) && (
        #[trigger] parameters[k]).1.ts == term
}

/// Printing parameters, as TypeScript or as JSON, imports what the types of the parameters need
/// that are printed, and nothing else.
pub proof fn law_parameters_import_their_types(
    parameters: Seq<(Var, SingleType)>,
    skip_signer: bool,
    json: bool,
    s: State,
    name: Seq<char>,
)
    ensures
        ({
            let o = run(
                s,
                if json {
                    parameters_json_steps(parameters, skip_signer)
                } else {
                    parameters_steps(parameters, skip_signer)
                },
            );
            o.end is Done ==> {
                &&& o.state.ctx.package_imports.contains(name)
                    <==> s.ctx.package_imports.contains(name) || exists|term: Term| #[trigger]
                    in_parameters(parameters, skip_signer, term) && needs_package(term, name)
                &&& o.state.ctx.same_package_imports.contains(name)
                    <==> s.ctx.same_package_imports.contains(name) || exists|term: Term| #[trigger]
                    in_parameters(parameters, skip_signer, term) && needs_module(term, name)
            }
        }),
{
    let steps = if json {
        parameters_json_steps(parameters, skip_signer)
    } else {
        parameters_steps(parameters, skip_signer)
    };
    if run(s, steps).end is Done {
        lemma_imports_exactly(s, steps, name);
        assert forall|term: Term|
            #![trigger asked(steps, term)]
            #![trigger in_parameters(parameters, skip_signer, term)]
            asked(steps, term) == in_parameters(parameters, skip_signer, term) by {
            broadcast use group_asked;

            lemma_parameters_asked(parameters, skip_signer, 0, term);
        }
    }
}

proof fn lemma_arguments_asked(parameters: Seq<(Var, SingleType)>, i: int, term: Term)
    ensures
        !asked(payload_args_from(parameters, i), term),
    decreases parameters.len() - i,
{
    broadcast use group_asked;

    if 0 <= i < parameters.len() {
        lemma_arguments_asked(parameters, i + 1, term);
    }
}

proof fn lemma_cmds_asked(
    fname: FunctionName,
    f: Function,
    module: Option<ModuleIdent>,
    i: int,
    term: Term,
)
    ensures
        !asked(function_directives_from(fname, f, module, i), term),
    decreases f.attributes@.len() - i,
{
    broadcast use group_asked;

    if 0 <= i < f.attributes@.len() {
        lemma_cmds_asked(fname, f, module, i + 1, term);
    }
}

/// Whether a term is the type of a parameter of a function or the type that it returns.
pub open spec fn in_signature(func: Function, term: Term) -> bool {
    ||| func.signature.return_type.ts == term
    ||| exists|k: int|
        0 <= k < func.signature.parameters@.len() && (
        #[trigger] func.signature.parameters@[k]).1.ts == term
}

proof fn lemma_function_asked(
    name: FunctionName,
    func: Function,
    test: bool,
    module: Option<ModuleIdent>,
    term: Term,
)
    ensures
        asked(function_ts_steps(name, func, test, module), term) <==> in_signature(func, term),
        asked(function_json_steps(name, func, test), term) <==> in_signature(func, term),
{
    broadcast use group_asked;

    reveal(function_body_steps);
    reveal(function_json_steps);
    reveal(payload_steps);
    lemma_parameters_asked(func.signature.parameters@, false, 0, term);
    lemma_parameters_asked(func.signature.parameters@, true, 0, term);
    lemma_arguments_asked(func.signature.parameters@, 0, term);
    lemma_cmds_asked(name, func, module, 0, term);
    assert(asked(function_body_steps(name, func, test), term) <==> in_signature(func, term));
    assert(asked(payload_steps(name, func, module), term) ==> in_signature(func, term));
}

proof fn lemma_fields_asked(fields: Seq<StructField>, i: int, term: Term)
    requires
        0 <= i <= fields.len(),
    ensures
        asked(static_fields_from(fields, i), term) <==> exists|k: int|
            i <= k < fields.len() && (#[trigger] fields[k]).typetag == term,
        asked(class_fields_from(fields, i), term) <==> exists|k: int|
            i <= k < fields.len() && (#[trigger] fields[k]).ty.ts == term,
        asked(ctor_fields_from(fields, i), term) <==> exists|k: int|
            i <= k < fields.len() && (#[trigger] fields[k]).ty.ts == term,
    decreases fields.len() - i,
{
    broadcast use group_asked;

    if i < fields.len() {
        let first = fields[i];
        lemma_fields_asked(fields, i + 1, term);
    }
}

proof fn lemma_struct_tparams_asked(tparams: Seq<StructTypeParameter>, i: int, term: Term)
    ensures
        !asked(struct_tparams_from(tparams, i), term),
    decreases tparams.len() - i,
{
    broadcast use group_asked;

    if 0 <= i < tparams.len() {
        lemma_struct_tparams_asked(tparams, i + 1, term);
    }
}

/// Whether a term is the key or the value type of an iterable table that is shown.
pub open spec fn in_table(sdef: StructDefinition, inner: (Name, Attribute), term: Term) -> bool {
    &&& inner.1.value matches Attribute_::Name(f)
    &&& table_in_field(sdef, f) matches Some((key, value))
    &&& key.ts == term || value.ts == term
}

proof fn lemma_shows_asked(
    sname: StructName,
    sdef: StructDefinition,
    attrs: Seq<(Name, Attribute)>,
    module: Option<ModuleIdent>,
    i: int,
    term: Term,
)
    requires
        0 <= i <= attrs.len(),
        module is Some,
    ensures
        !asked(show_from(sname, sdef, attrs, module, i), term),
        asked(show_iter_table_from(sname, sdef, attrs, module, i), term) <==> exists|k: int|
            i <= k < attrs.len() && in_table(sdef, #[trigger] attrs[k], term),
    decreases attrs.len() - i,
{
    broadcast use group_asked;

    if i < attrs.len() {
        let first = attrs[i];
        lemma_shows_asked(sname, sdef, attrs, module, i + 1, term);
        reveal(show_steps);
        reveal(show_iter_table_steps);
    }
}

/// Whether a term is the key or the value type of an iterable table that an attribute of a
/// struct shows.
pub open spec fn in_directive(sdef: StructDefinition, attr: (Name, Attribute), term: Term) -> bool {
    &&& attr.0.value@ == "show_iter_table"@
    &&& attr.1.value matches Attribute_::Parameterized(_, inner)
    &&& exists|l: int| 0 <= l < inner@.len() && in_table(sdef, #[trigger] inner@[l], term)
}

proof fn lemma_struct_directives_asked(
    sname: StructName,
    sdef: StructDefinition,
    module: Option<ModuleIdent>,
    i: int,
    term: Term,
)
    requires
        0 <= i <= sdef.attributes@.len(),
        module is Some,
    ensures
        asked(struct_directives_from(sname, sdef, module, i), term) <==> exists|k: int|
            i <= k < sdef.attributes@.len() && in_directive(
                sdef,
                #[trigger] sdef.attributes@[k],
                term,
            ),
    decreases sdef.attributes@.len() - i,
{
    broadcast use group_asked;

    lemma_directives_differ();
    if i < sdef.attributes@.len() {
        let first = sdef.attributes@[i];
        lemma_struct_directives_asked(sname, sdef, module, i + 1, term);
        if let Attribute_::Parameterized(_, inner) = first.1.value {
            lemma_shows_asked(sname, sdef, inner@, module, 0, term);
        }
    }
}

/// Whether a term is the type or the type tag of a field of a struct, or the key or value type
/// of an iterable table that the struct shows.
pub open spec fn in_struct(sdef: StructDefinition, term: Term) -> bool {
    &&& sdef.fields matches StructFields::Defined(fields)
    &&& {
        ||| exists|k: int| 0 <= k < fields@.len() && (#[trigger] fields@[k]).typetag == term
        ||| exists|k: int| 0 <= k < fields@.len() && (#[trigger] fields@[k]).ty.ts == term
        ||| exists|k: int|
            0 <= k < sdef.attributes@.len() && in_directive(
                sdef,
                #[trigger] sdef.attributes@[k],
                term,
            )
    }
}

proof fn lemma_struct_asked(
    sname: StructName,
    sdef: StructDefinition,
    module: Option<ModuleIdent>,
    term: Term,
)
    requires
        module is Some,
    ensures
        asked(struct_steps(sname, sdef, module), term) <==> in_struct(sdef, term),
{
    broadcast use group_asked;

    reveal(defined_struct_steps);
    reveal(fields_steps);
    reveal(parser_steps);
    lemma_struct_tparams_asked(sdef.type_parameters@, 0, term);
    lemma_struct_directives_asked(sname, sdef, module, 0, term);
    if let StructFields::Defined(fields) = sdef.fields {
        lemma_fields_asked(fields@, 0, term);
        if fields@.len() == 0 {
            assert(!asked(static_fields_from(fields@, 0), term));
        }
    }
}

/// Whether a term is the text of a part of a command that is printed.
pub open spec fn in_command(cmd: Command, term: Term) -> bool {
    match cmd.value {
        Command_::Assign(lhs, rhs) => rhs.ts == term || (!lhs.binds_nothing && lhs.ts == term),
        Command_::Mutate(lhs, rhs) => !(lhs.exp.value is Dereference) && (lhs.ts == term || rhs.ts
            == term),
        Command_::Abort(e) => e.ts == term,
        Command_::Return { exp, .. } => !(exp.exp.value is Unit) && exp.ts == term,
        Command_::IgnoreAndPop { exp, .. } => !(exp.exp.value is Unit) && exp.ts == term,
        _ => false,
    }
}

/// Whether a term is the text of a condition or of a part of a command in a statement.
pub open spec fn in_statement(stmt: Statement, term: Term) -> bool
    decreases stmt, 0int,
{
    match stmt.value {
        Statement_::Command(cmd) => in_command(cmd, term),
        Statement_::IfElse { cond, if_block, else_block } => cond.ts == term || in_block(
            if_block@,
            term,
        ) || in_block(else_block@, term),
        Statement_::While { cond, block } => cond.1.ts == term || in_block(cond.0@, term)
            || in_block(block@, term),
        Statement_::Loop { block, .. } => in_block(block@, term),
    }
}

/// Whether a term is in one of the statements of a block.
pub open spec fn in_block(block: Seq<Statement>, term: Term) -> bool
    decreases block, block.len() + 1,
{
    exists|k: int| 0 <= k < block.len() && in_statement(#[trigger] block[k], term)
}

proof fn lemma_statement_asked(stmt: Statement, term: Term)
    ensures
        asked(statement_steps(stmt), term) <==> in_statement(stmt, term),
    decreases stmt, 0int,
{
    broadcast use group_asked;

    match stmt.value {
        Statement_::Command(_) => {},
        Statement_::IfElse { cond, if_block, else_block } => {
            lemma_block_asked(if_block@, term);
            lemma_block_asked(else_block@, term);
            if empty_block(if_block@) {
                lemma_empty_block_shows_nothing(if_block@, term);
            } else if else_block@.len() == 0 {
                assert(!in_block(else_block@, term));
            }
        },
        Statement_::While { cond, block } => {
            lemma_block_asked(cond.0@, term);
            lemma_block_asked(block@, term);
            if cond.0@.len() == 0 {
                assert(!in_block(cond.0@, term));
            }
        },
        Statement_::Loop { block, .. } => {
            lemma_block_asked(block@, term);
        },
    }
}

proof fn lemma_empty_block_shows_nothing(block: Seq<Statement>, term: Term)
    requires
        empty_block(block),
    ensures
        !in_block(block, term),
{
    if in_block(block, term) {
        let k = choose|k: int| 0 <= k < block.len() && in_statement(#[trigger] block[k], term);
        assert(k == 0);
    }
}

proof fn lemma_statements_asked(block: Seq<Statement>, i: int, term: Term)
    requires
        0 <= i <= block.len(),
    ensures
        asked(statements_steps(block, i), term) <==> exists|k: int|
            i <= k < block.len() && in_statement(#[trigger] block[k], term),
    decreases block, block.len() - i,
{
    broadcast use group_asked;

    if i < block.len() {
        lemma_statement_asked(block[i], term);
        lemma_statements_asked(block, i + 1, term);
    }
}

proof fn lemma_block_asked(block: Seq<Statement>, term: Term)
    ensures
        asked(block_steps(block), term) <==> in_block(block, term),
    decreases block, block.len() + 1,
{
    broadcast use group_asked;

    lemma_statements_asked(block, 0, term);
}

/// Whether a term is the innermost type of a constant or is shown in its value.
pub open spec fn in_constant(cdef: Constant, term: Term) -> bool {
    ||| constant_term(cdef.signature) == term
    ||| in_block(cdef.value@, term)
    ||| {
        &&& cdef.value@.len() == 1
        &&& cdef.value@[0].value matches Statement_::Command(cmd)
        &&& cmd.value matches Command_::Return { exp, .. }
        &&& exp.ts == term
    }
}

proof fn lemma_constant_asked(name: ConstantName, cdef: Constant, term: Term)
    requires
        !(constant_type(cdef.signature) is Stuck),
    ensures
        asked(constant_steps(name, cdef), term) <==> in_constant(cdef, term),
{
    broadcast use group_asked;

    let block = cdef.value@;
    lemma_block_asked(block, term);
    if block.len() == 1 && (block[0].value matches Statement_::Command(cmd) && cmd.value
        is Return) {
        if in_block(block, term) {
            let k = choose|k: int| 0 <= k < block.len() && in_statement(#[trigger] block[k], term);
            assert(k == 0);
        }
    }
}

/// A function that is printed as TypeScript imports what its parameter types and its return type
/// need, and nothing else.
pub proof fn law_function_imports_what_it_shows(
    name: FunctionName,
    func: Function,
    test: bool,
    mident: ModuleIdent,
    s: State,
    x: Seq<char>,
)
    requires
        run(s, function_ts_steps(name, func, test, Some(mident))).end is Done,
    ensures
        ({
            let after = run(s, function_ts_steps(name, func, test, Some(mident))).state.ctx;
            &&& after.package_imports.contains(x) <==> s.ctx.package_imports.contains(x) || exists|
                term: Term,
            | #[trigger]
                in_signature(func, term) && needs_package(term, x)
            &&& after.same_package_imports.contains(x) <==> s.ctx.same_package_imports.contains(x)
                || exists|term: Term| #[trigger]
                in_signature(func, term) && needs_module(term, x)
        }),
{
    let steps = function_ts_steps(name, func, test, Some(mident));
    lemma_imports_exactly(s, steps, x);
    assert forall|term: Term|
        #![trigger asked(steps, term)]
        #![trigger in_signature(func, term)]
        asked(steps, term) == in_signature(func, term) by {
        lemma_function_asked(name, func, test, Some(mident), term);
    }
}

/// A function that is printed as JSON imports what its parameter types and its return type need,
/// and nothing else.
pub proof fn law_function_json_imports_what_it_shows(
    name: FunctionName,
    func: Function,
    test: bool,
    s: State,
    x: Seq<char>,
)
    requires
        run(s, function_json_steps(name, func, test)).end is Done,
    ensures
        ({
            let after = run(s, function_json_steps(name, func, test)).state.ctx;
            &&& after.package_imports.contains(x) <==> s.ctx.package_imports.contains(x) || exists|
                term: Term,
            | #[trigger]
                in_signature(func, term) && needs_package(term, x)
            &&& after.same_package_imports.contains(x) <==> s.ctx.same_package_imports.contains(x)
                || exists|term: Term| #[trigger]
                in_signature(func, term) && needs_module(term, x)
        }),
{
    let steps = function_json_steps(name, func, test);
    lemma_imports_exactly(s, steps, x);
    assert forall|term: Term|
        #![trigger asked(steps, term)]
        #![trigger in_signature(func, term)]
        asked(steps, term) == in_signature(func, term) by {
        lemma_function_asked(name, func, test, None, term);
    }
}

/// A struct that is printed imports what the types and type tags of its fields and the iterable
/// tables that it shows need, and nothing else.
pub proof fn law_struct_imports_what_it_shows(
    name: StructName,
    sdef: StructDefinition,
    mident: ModuleIdent,
    s: State,
    x: Seq<char>,
)
    requires
        run(s, struct_steps(name, sdef, Some(mident))).end is Done,
    ensures
        ({
            let after = run(s, struct_steps(name, sdef, Some(mident))).state.ctx;
            &&& after.package_imports.contains(x) <==> s.ctx.package_imports.contains(x) || exists|
                term: Term,
            | #[trigger]
                in_struct(sdef, term) && needs_package(term, x)
            &&& after.same_package_imports.contains(x) <==> s.ctx.same_package_imports.contains(x)
                || exists|term: Term| #[trigger]
                in_struct(sdef, term) && needs_module(term, x)
        }),
{
    let steps = struct_steps(name, sdef, Some(mident));
    lemma_imports_exactly(s, steps, x);
    assert forall|term: Term|
        #![trigger asked(steps, term)]
        #![trigger in_struct(sdef, term)]
        asked(steps, term) == in_struct(sdef, term) by {
        lemma_struct_asked(name, sdef, Some(mident), term);
    }
}

/// A constant that is printed imports what its type and its value need, and nothing else.
pub proof fn law_constant_imports_what_it_shows(
    name: ConstantName,
    cdef: Constant,
    s: State,
    x: Seq<char>,
)
    requires
        !(constant_type(cdef.signature) is Stuck),
        run(s, constant_steps(name, cdef)).end is Done,
    ensures
        ({
            let after = run(s, constant_steps(name, cdef)).state.ctx;
            &&& after.package_imports.contains(x) <==> s.ctx.package_imports.contains(x) || exists|
                term: Term,
            | #[trigger]
                in_constant(cdef, term) && needs_package(term, x)
            &&& after.same_package_imports.contains(x) <==> s.ctx.same_package_imports.contains(x)
                || exists|term: Term| #[trigger]
                in_constant(cdef, term) && needs_module(term, x)
        }),
{
    let steps = constant_steps(name, cdef);
    lemma_imports_exactly(s, steps, x);
    assert forall|term: Term|
        #![trigger asked(steps, term)]
        #![trigger in_constant(cdef, term)]
        asked(steps, term) == in_constant(cdef, term) by {
        lemma_constant_asked(name, cdef, term);
    }
}

/// A block that is printed imports what its statements need, and nothing else.
pub proof fn law_block_imports_what_it_shows(
    block: Seq<Statement>,
    s: State,
    x: Seq<char>,
)
    requires
        run(s, block_steps(block)).end is Done,
    ensures
        ({
            let after = run(s, block_steps(block)).state.ctx;
            &&& after.package_imports.contains(x) <==> s.ctx.package_imports.contains(x) || exists|
                term: Term,
            | #[trigger]
                in_block(block, term) && needs_package(term, x)
            &&& after.same_package_imports.contains(x) <==> s.ctx.same_package_imports.contains(x)
                || exists|term: Term| #[trigger]
                in_block(block, term) && needs_module(term, x)
        }),
{
    let steps = block_steps(block);
    lemma_imports_exactly(s, steps, x);
    assert forall|term: Term|
        #![trigger asked(steps, term)]
        #![trigger in_block(block, term)]
        asked(steps, term) == in_block(block, term) by {
        lemma_block_asked(block, term);
    }
}

/// A statement that is printed imports what its conditions and commands need, and nothing else.
pub proof fn law_statement_imports_what_it_shows(
    stmt: Statement,
    s: State,
    x: Seq<char>,
)
    requires
        run(s, statement_steps(stmt)).end is Done,
    ensures
        ({
            let after = run(s, statement_steps(stmt)).state.ctx;
            &&& after.package_imports.contains(x) <==> s.ctx.package_imports.contains(x) || exists|
                term: Term,
            | #[trigger]
                in_statement(stmt, term) && needs_package(term, x)
            &&& after.same_package_imports.contains(x) <==> s.ctx.same_package_imports.contains(x)
                || exists|term: Term| #[trigger]
                in_statement(stmt, term) && needs_module(term, x)
        }),
{
    let steps = statement_steps(stmt);
    lemma_imports_exactly(s, steps, x);
    assert forall|term: Term|
        #![trigger asked(steps, term)]
        #![trigger in_statement(stmt, term)]
        asked(steps, term) == in_statement(stmt, term) by {
        lemma_statement_asked(stmt, term);
    }
}

proof fn lemma_constants_asked(constants: Seq<(ConstantName, Constant)>, i: int, term: Term)
    requires
        0 <= i <= constants.len(),
        forall|k: int|
            0 <= k < constants.len() ==> !(constant_type((#[trigger] constants[k]).1.signature)
                is Stuck),
    ensures
        asked(constants_from(constants, i), term) <==> exists|k: int|
            i <= k < constants.len() && in_constant((#[trigger] constants[k]).1, term),
    decreases constants.len() - i,
{
    broadcast use group_asked;

    if i < constants.len() {
        let first = constants[i];
        lemma_constant_asked(first.0, first.1, term);
        lemma_constants_asked(constants, i + 1, term);
    }
}

proof fn lemma_structs_asked(
    structs: Seq<(StructName, StructDefinition)>,
    module: Option<ModuleIdent>,
    i: int,
    term: Term,
)
    requires
        0 <= i <= structs.len(),
        module is Some,
    ensures
        asked(structs_from(structs, module, i), term) <==> exists|k: int|
            i <= k < structs.len() && in_struct((#[trigger] structs[k]).1, term),
    decreases structs.len() - i,
{
    broadcast use group_asked;

    if i < structs.len() {
        let first = structs[i];
        lemma_struct_asked(first.0, first.1, module, term);
        lemma_structs_asked(structs, module, i + 1, term);
    }
}

proof fn lemma_functions_asked(
    functions: Seq<(FunctionName, Function)>,
    json: bool,
    test: bool,
    module: Option<ModuleIdent>,
    i: int,
    term: Term,
)
    requires
        0 <= i <= functions.len(),
    ensures
        asked(functions_from(functions, json, test, module, i), term) <==> exists|k: int|
            i <= k < functions.len() && in_signature((#[trigger] functions[k]).1, term),
    decreases functions.len() - i,
{
    broadcast use group_asked;

    if i < functions.len() {
        let first = functions[i];
        lemma_function_asked(first.0, first.1, test, module, term);
        lemma_functions_asked(functions, json, test, module, i + 1, term);
    }
}

proof fn lemma_parsers_asked(
    mident: ModuleIdent,
    structs: Seq<(StructName, StructDefinition)>,
    i: int,
    term: Term,
)
    ensures
        !asked(parsers_from(mident, structs, i), term),
    decreases structs.len() - i,
{
    broadcast use group_asked;

    if 0 <= i < structs.len() {
        lemma_parsers_asked(mident, structs, i + 1, term);
    }
}

/// Whether the text of a module refers to a term: to the type of a parameter or of the result
/// of one of its functions, to the type or the type tag of a field of one of its structs, to
/// the types of an iterable table that one of them shows, or to the type of one of its
/// constants or an expression in it.
pub open spec fn in_module(mdef: ModuleDefinition, term: Term) -> bool {
    ||| exists|k: int|
        0 <= k < mdef.constants@.len() && in_constant((#[trigger] mdef.constants@[k]).1, term)
    ||| exists|k: int|
        0 <= k < mdef.structs@.len() && in_struct((#[trigger] mdef.structs@[k]).1, term)
    ||| exists|k: int|
        0 <= k < mdef.functions@.len() && in_signature((#[trigger] mdef.functions@[k]).1, term)
}

proof fn lemma_constants_defined(
    constants: Seq<(ConstantName, Constant)>,
    i: int,
    s: State,
)
    requires
        0 <= i <= constants.len(),
        run(s, constants_from(constants, i)).end is Done,
    ensures
        forall|k: int|
            i <= k < constants.len() ==> !(constant_type((#[trigger] constants[k]).1.signature)
                is Stuck),
    decreases constants.len() - i,
{
    if i < constants.len() {
        let one = constant_steps(constants[i].0, constants[i].1);
        lemma_run_concat(s, one, constants_from(constants, i + 1));
        lemma_constants_defined(constants, i + 1, run(s, one).state);
        if constant_type(constants[i].1.signature) is Stuck {
            broadcast use group_run;

        }
    }
}

proof fn lemma_module_asked(mident: ModuleIdent, mdef: ModuleDefinition, ctx: ContextView, term: Term)
    requires
        translated(mident, mdef, ctx).end is Done,
    ensures
        asked(module_steps(mident, mdef, ctx.config, Some(mident)), term) <==> in_module(mdef, term),
{
    broadcast use group_asked;

    let test = ctx.config.test;
    let current = Some(mident);
    let s = State { doc: Seq::empty(), ctx: ctx.reset_for_module(mident) };
    let steps = module_steps(mident, mdef, ctx.config, current);
    let meta = meta_steps(mident, mdef);
    let constants = constants_steps(mdef.constants@);
    let behind = steps.skip((meta + constants).len() as int);
    assert(steps =~= meta + constants + behind);
    lemma_run_concat(s, meta + constants, behind);
    lemma_run_concat(s, meta, constants);
    assert(asked(constants, term) <==> exists|k: int|
        0 <= k < mdef.constants@.len() && in_constant((#[trigger] mdef.constants@[k]).1, term))
        by {
        reveal(constants_steps);
        lemma_constants_defined(mdef.constants@, 0, run(s, meta).state);
        lemma_constants_asked(mdef.constants@, 0, term);
    }
    assert(!asked(meta, term)) by {
        reveal(meta_steps);
    }
    assert(asked(structs_steps(mdef.structs@, current), term) <==> exists|k: int|
        0 <= k < mdef.structs@.len() && in_struct((#[trigger] mdef.structs@[k]).1, term)) by {
        reveal(structs_steps);
        lemma_structs_asked(mdef.structs@, current, 0, term);
    }
    assert forall|json: bool|
        asked(#[trigger] functions_steps(mdef.functions@, json, test, current), term) == exists|
            k: int,
        |
            0 <= k < mdef.functions@.len() && in_signature(
                (#[trigger] mdef.functions@[k]).1,
                term,
            ) by {
        reveal(functions_steps);
        lemma_functions_asked(mdef.functions@, json, test, current, 0, term);
    }
    assert(!asked(load_parsers_steps(mident, mdef.structs@), term)) by {
        reveal(load_parsers_steps);
        lemma_parsers_asked(mident, mdef.structs@, 0, term);
    }
    assert(!asked(special_module_steps(mident, ctx.config), term)) by {
        reveal(special_module_steps);
    }
}

/// A module that is printed imports a package, or a module of its own package, if and only if
/// a term needs it to which the text of the module refers.
pub proof fn law_module_imports_what_it_shows(
    mident: ModuleIdent,
    mdef: ModuleDefinition,
    ctx: ContextView,
    name: Seq<char>,
)
    requires
        translated(mident, mdef, ctx).end is Done,
    ensures
        translated(mident, mdef, ctx).state.ctx.package_imports.contains(name) <==> exists|
            term: Term,
        | #[trigger]
            in_module(mdef, term) && needs_package(term, name),
        translated(mident, mdef, ctx).state.ctx.same_package_imports.contains(name) <==> exists|
            term: Term,
        | #[trigger]
            in_module(mdef, term) && needs_module(term, name),
{
    let s = State { doc: Seq::empty(), ctx: ctx.reset_for_module(mident) };
    let steps = module_steps(mident, mdef, ctx.config, Some(mident));
    lemma_imports_asked(s, steps, name);
    assert forall|term: Term| asked(steps, term) == #[trigger] in_module(mdef, term) by {
        lemma_module_asked(mident, mdef, ctx, term);
    }
    if exists|term: Term| #[trigger] asked(steps, term) && needs_package(term, name) {
        let term = choose|term: Term| #[trigger] asked(steps, term) && needs_package(term, name);
        assert(in_module(mdef, term));
    }
    if exists|term: Term| #[trigger] asked(steps, term) && needs_module(term, name) {
        let term = choose|term: Term| #[trigger] asked(steps, term) && needs_module(term, name);
        assert(in_module(mdef, term));
    }
    assert forall|term: Term| #[trigger]
        in_module(mdef, term) && needs_package(term, name) implies translated(
        mident,
        mdef,
        ctx,
    ).state.ctx.package_imports.contains(name) by {
        lemma_asked_imports(s, steps, term);
    }
    assert forall|term: Term| #[trigger]
        in_module(mdef, term) && needs_module(term, name) implies translated(
        mident,
        mdef,
        ctx,
    ).state.ctx.same_package_imports.contains(name) by {
        lemma_asked_imports(s, steps, term);
    }
}

/// Two lists that are joined are joined lists with the separator between them.
proof fn lemma_joined_concat(a: Seq<Seq<char>>, b: Seq<Seq<char>>, sep: Seq<char>)
    requires
        a.len() > 0,
        b.len() > 0,
    ensures
        joined(a + b, sep) == joined(a, sep) + sep + joined(b, sep),
    decreases b.len(),
{
    assert((a + b).drop_last() =~= a + b.drop_last());
    if b.len() == 1 {
        assert(a + b.drop_last() =~= a);
        assert(joined(a + b, sep) =~= joined(a, sep) + sep + joined(b, sep));
    } else {
        lemma_joined_concat(a, b.drop_last(), sep);
        assert(joined(a + b, sep) =~= joined(a, sep) + sep + joined(b, sep));
    }
}

/// Whether a text has a line in its middle.
pub open spec fn has_line(text: Seq<char>, line: Seq<char>) -> bool {
    exists|above: Seq<char>, below: Seq<char>|
        text == #[trigger] (above + "\n"@ + line + "\n"@ + below)
}

proof fn lemma_joined_line(list: Seq<Seq<char>>, k: int)
    requires
        0 < k < list.len() - 1,
    ensures
        has_line(joined(list, "\n"@), list[k]),
{
    let above = list.take(k);
    let one = Seq::<Seq<char>>::empty().push(list[k]);
    let below = list.skip(k + 1);
    assert(list =~= above + (one + below));
    lemma_joined_concat(above, one + below, "\n"@);
    lemma_joined_concat(one, below, "\n"@);
    let text = joined(list, "\n"@);
    assert(text =~= joined(above, "\n"@) + "\n"@ + list[k] + "\n"@ + joined(below, "\n"@));
}

proof fn lemma_imports_finite(mident: ModuleIdent, mdef: ModuleDefinition, ctx: ContextView)
    requires
        translated(mident, mdef, ctx).end is Done,
    ensures
        translated(mident, mdef, ctx).state.ctx.package_imports.finite(),
        translated(mident, mdef, ctx).state.ctx.same_package_imports.finite(),
{
    let s = State { doc: Seq::empty(), ctx: ctx.reset_for_module(mident) };
    let steps = module_steps(mident, mdef, ctx.config, Some(mident));
    law_imports(s, steps);
    lemma_asked_for_finite(steps);
}

/// A file holds, above the text of its module, the lines that every module imports, then one
/// import for each package and then one for each module of the same package, each list in
/// strictly ascending order.
pub proof fn law_file_text(s: State)
    requires
        s.ctx.package_imports.finite(),
        s.ctx.same_package_imports.finite(),
    ensures
        exists|packages: Seq<Seq<char>>, modules: Seq<Seq<char>>|
            {
                &&& forall|i: int, j: int|
                    0 <= i < j < packages.len() ==> precedes(
                        #[trigger] packages[i],
                        #[trigger] packages[j],
                    )
                &&& forall|i: int, j: int|
                    0 <= i < j < modules.len() ==> precedes(
                        #[trigger] modules[i],
                        #[trigger] modules[j],
                    )
                &&& #[trigger] packages.to_set() == s.ctx.package_imports
                &&& #[trigger] modules.to_set() == s.ctx.same_package_imports
                &&& file_text(s) == joined(
                    seq![
                        "import * as $ from \"@manahippo/move-to-ts\";"@,
                        "import {AptosDataCache, AptosParserRepo, DummyCache} from \"@manahippo/move-to-ts\";"@,
                        "import {U8, U64, U128} from \"@manahippo/move-to-ts\";"@,
                        "import {u8, u64, u128} from \"@manahippo/move-to-ts\";"@,
                        "import {TypeParamDeclType, FieldDeclType} from \"@manahippo/move-to-ts\";"@,
                        "import {AtomicTypeTag, StructTag, TypeTag, VectorTag} from \"@manahippo/move-to-ts\";"@,
                        "import {HexString, AptosClient} from \"aptos\";"@,
                    ] + packages.map_values(
                        |name: Seq<char>|
                            "import * as "@ + name + "$_ from \"../"@ + name + "\";"@,
                    ) + modules.map_values(
                        |name: Seq<char>|
                            "import * as "@ + name + "$_ from \"./"@ + name + "\";"@,
                    ) + seq![layout(s.doc)],
                    "\n"@,
                )
            },
{
    lemma_in_order_of(s.ctx.package_imports);
    lemma_in_order_of(s.ctx.same_package_imports);
    let packages = in_order(s.ctx.package_imports);
    let modules = in_order(s.ctx.same_package_imports);
    assert(packages.to_set() == s.ctx.package_imports);
    assert(modules.to_set() == s.ctx.same_package_imports);
    let upper = packages.map_values(
        |name: Seq<char>| "import * as "@ + name + "$_ from \"../"@ + name + "\";"@,
    );
    let lower = modules.map_values(
        |name: Seq<char>| "import * as "@ + name + "$_ from \"./"@ + name + "\";"@,
    );
    assert(packages.map_values(|name: Seq<char>| package_import(name)) =~= upper);
    assert(modules.map_values(|name: Seq<char>| module_import(name)) =~= lower);
    assert(header(s.ctx).push(layout(s.doc)) =~= common_imports() + upper + lower + seq![
        layout(s.doc),
    ]);
}

/// For each term to which the text of a printed module refers, the file has a line that
/// imports each package and each module of the same package that the term needs.
pub proof fn law_file_imports_what_it_shows(
    mident: ModuleIdent,
    mdef: ModuleDefinition,
    ctx: ContextView,
    term: Term,
)
    requires
        translated(mident, mdef, ctx).end is Done,
        in_module(mdef, term),
    ensures
        forall|k: int|
            0 <= k < term.package_imports@.len() ==> has_line(
                file_text(translated(mident, mdef, ctx).state),
                "import * as "@ + (#[trigger] term.package_imports@[k])@ + "$_ from \"../"@
                    + term.package_imports@[k]@ + "\";"@,
            ),
        forall|k: int|
            0 <= k < term.module_imports@.len() ==> has_line(
                file_text(translated(mident, mdef, ctx).state),
                "import * as "@ + (#[trigger] term.module_imports@[k])@ + "$_ from \"./"@
                    + term.module_imports@[k]@ + "\";"@,
            ),
{
    let end = translated(mident, mdef, ctx).state;
    let s = State { doc: Seq::empty(), ctx: ctx.reset_for_module(mident) };
    let steps = module_steps(mident, mdef, ctx.config, Some(mident));
    lemma_module_asked(mident, mdef, ctx, term);
    lemma_asked_imports(s, steps, term);
    lemma_imports_finite(mident, mdef, ctx);
    lemma_in_order_of(end.ctx.package_imports);
    lemma_in_order_of(end.ctx.same_package_imports);
    let packages = in_order(end.ctx.package_imports);
    let modules = in_order(end.ctx.same_package_imports);
    let lines = header(end.ctx).push(layout(end.doc));
    assert forall|k: int| 0 <= k < term.package_imports@.len() implies has_line(
        file_text(end),
        "import * as "@ + (#[trigger] term.package_imports@[k])@ + "$_ from \"../"@
            + term.package_imports@[k]@ + "\";"@,
    ) by {
        let name = term.package_imports@[k]@;
        assert(packages.to_set().contains(name));
        let j = choose|j: int| 0 <= j < packages.len() && packages[j] == name;
        assert(lines[7 + j] == package_import(name));
        lemma_joined_line(lines, 7 + j);
    }
    assert forall|k: int| 0 <= k < term.module_imports@.len() implies has_line(
        file_text(end),
        "import * as "@ + (#[trigger] term.module_imports@[k])@ + "$_ from \"./"@
            + term.module_imports@[k]@ + "\";"@,
    ) by {
        let name = term.module_imports@[k]@;
        assert(modules.to_set().contains(name));
        let j = choose|j: int| 0 <= j < modules.len() && modules[j] == name;
        assert(lines[7 + packages.len() + j] == module_import(name));
        lemma_joined_line(lines, 7 + packages.len() + j);
    }
}

/// The file of a printed module imports what the type of each parameter of each of its functions
/// needs.
pub proof fn law_parameter_types_are_imported(
    mident: ModuleIdent,
    mdef: ModuleDefinition,
    ctx: ContextView,
    j: int,
    k: int,
)
    requires
        translated(mident, mdef, ctx).end is Done,
        0 <= j < mdef.functions@.len(),
        0 <= k < mdef.functions@[j].1.signature.parameters@.len(),
    ensures
        ({
            let file = file_text(translated(mident, mdef, ctx).state);
            let parameter = mdef.functions@[j].1.signature.parameters@[k].1.ts;
            &&& forall|l: int|
                0 <= l < parameter.package_imports@.len() ==> has_line(
                    file,
                    "import * as "@ + (#[trigger] parameter.package_imports@[l])@
                        + "$_ from \"../"@ + parameter.package_imports@[l]@ + "\";"@,
                )
            &&& forall|l: int|
                0 <= l < parameter.module_imports@.len() ==> has_line(
                    file,
                    "import * as "@ + (#[trigger] parameter.module_imports@[l])@
                        + "$_ from \"./"@ + parameter.module_imports@[l]@ + "\";"@,
                )
        }),
{
    let func = mdef.functions@[j].1;
    let parameter = func.signature.parameters@[k].1.ts;
    assert(in_signature(func, parameter));
    assert(in_module(mdef, parameter));
    law_file_imports_what_it_shows(mident, mdef, ctx, parameter);
}

} // verus!
