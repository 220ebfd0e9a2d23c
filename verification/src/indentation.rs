//! Every construct leaves the indentation as it finds it, and only structs and functions
//! leave notes.

use crate::ast::{
    Ability_, Attribute, Attribute_, Command, Constant, ConstantName, Function, FunctionName,
    ModuleIdent, Name, SingleType, Statement, Statement_, StructDefinition, StructField,
    StructFields, StructName, StructTypeParameter, Var,
};
use crate::commands::command_steps;
use crate::constants::constant_steps;
use crate::functions::{
    function_body_steps, function_directives_from, function_json_steps, function_ts_steps,
    parameters_from, parameters_json_from, payload_args_from, payload_args_steps, payload_steps,
};

use crate::shape::{all_allowed, balanced, group_shape, lemma_allowed_plain, never_stuck, Kind};
use crate::statements::{block_steps, statement_steps, statements_steps};
use crate::struct_directives::{
    show_from, show_iter_table_from, show_iter_table_steps, show_steps, struct_directives_from,
};
use crate::structs::{
    class_fields_from, class_steps, ctor_fields_from, defined_struct_steps, fields_steps,
    parser_steps, special_struct_steps, static_fields_from, struct_steps, struct_tparams_from,
};

use crate::types::{constant_type, valid_parameters};
use vstd::prelude::*;

verus! {

/// A command leaves the indentation as it finds it and is not noted.
pub proof fn lemma_command_shape(cmd: Command)
    ensures
        all_allowed(Kind::Plain, command_steps(cmd)),
        balanced(command_steps(cmd)),
        never_stuck(command_steps(cmd)),
{
    broadcast use group_shape;

}

/// A statement leaves the indentation as it finds it and is not noted.
pub proof fn lemma_statement_shape(stmt: Statement)
    ensures
        all_allowed(Kind::Plain, statement_steps(stmt)),
        balanced(statement_steps(stmt)),
        never_stuck(statement_steps(stmt)),
    decreases stmt, 0int,
{
    broadcast use group_shape;

    match stmt.value {
        Statement_::Command(cmd) => lemma_command_shape(cmd),
        Statement_::IfElse { cond, if_block, else_block } => {
            lemma_block_shape(if_block@);
            lemma_block_shape(else_block@);
        },
        Statement_::While { cond, block } => {
            lemma_block_shape(cond.0@);
            lemma_block_shape(block@);
        },
        Statement_::Loop { block, .. } => lemma_block_shape(block@),
    }
}

/// The statements of a block leave the indentation as they find it and are not noted.
pub proof fn lemma_statements_shape(block: Seq<Statement>, i: int)
    ensures
        all_allowed(Kind::Plain, statements_steps(block, i)),
        balanced(statements_steps(block, i)),
        never_stuck(statements_steps(block, i)),
    decreases block, block.len() - i,
{
    broadcast use group_shape;

    if 0 <= i < block.len() {
        lemma_statement_shape(block[i]);
        lemma_statements_shape(block, i + 1);
    }
}

/// A block leaves the indentation as it finds it and is not noted.
pub proof fn lemma_block_shape(block: Seq<Statement>)
    ensures
        all_allowed(Kind::Plain, block_steps(block)),
        balanced(block_steps(block)),
        never_stuck(block_steps(block)),
    decreases block, block.len() + 1,
{
    broadcast use group_shape;

    lemma_statements_shape(block, 0);
}

/// A constant leaves the indentation as it finds it and is not noted.
pub proof fn lemma_constant_shape(name: ConstantName, cdef: Constant)
    ensures
        all_allowed(Kind::Plain, constant_steps(name, cdef)),
        balanced(constant_steps(name, cdef)),
        !(constant_type(cdef.signature) is Stuck) ==> never_stuck(constant_steps(name, cdef)),
{
    broadcast use group_shape;

    lemma_block_shape(cdef.value@);
}

/// Parameters leave the indentation as they find it.
pub proof fn lemma_parameters_shape(parameters: Seq<(Var, SingleType)>, skip_signer: bool, i: int)
    ensures
        all_allowed(Kind::Plain, parameters_from(parameters, skip_signer, i)),
        balanced(parameters_from(parameters, skip_signer, i)),
        never_stuck(parameters_from(parameters, skip_signer, i)),
    decreases parameters.len() - i,
{
    broadcast use group_shape;

    if 0 <= i < parameters.len() {
        lemma_parameters_shape(parameters, skip_signer, i + 1);
    }
}

/// Parameters as JSON leave the indentation as they find it.
pub proof fn lemma_parameters_json_shape(parameters: Seq<(Var, SingleType)>, skip_signer: bool, i: int)
    ensures
        all_allowed(Kind::Plain, parameters_json_from(parameters, skip_signer, i)),
        balanced(parameters_json_from(parameters, skip_signer, i)),
        never_stuck(parameters_json_from(parameters, skip_signer, i)),
    decreases parameters.len() - i,
{
    broadcast use group_shape;

    if 0 <= i < parameters.len() {
        lemma_parameters_json_shape(parameters, skip_signer, i + 1);
    }
}

proof fn lemma_payload_args_shape(parameters: Seq<(Var, SingleType)>, i: int)
    ensures
        all_allowed(Kind::Plain, payload_args_from(parameters, i)),
        balanced(payload_args_from(parameters, i)),
        0 <= i && valid_parameters(parameters, i) == Some(true) ==> never_stuck(
            payload_args_from(parameters, i),
        ),
    decreases parameters.len() - i,
{
    broadcast use group_shape;

    if 0 <= i < parameters.len() {
        lemma_payload_args_shape(parameters, i + 1);
    }
}

/// A function that is printed as JSON leaves the indentation as it finds it and is not
/// noted.
pub proof fn lemma_function_json_shape(name: FunctionName, func: Function, test: bool)
    ensures
        all_allowed(Kind::Plain, function_json_steps(name, func, test)),
        balanced(function_json_steps(name, func, test)),
        never_stuck(function_json_steps(name, func, test)),
{
    broadcast use group_shape;

    reveal(function_json_steps);
    lemma_parameters_json_shape(func.signature.parameters@, false, 0);
}

/// The function proper leaves the indentation as it finds it and is not noted.
pub proof fn lemma_function_body_shape(name: FunctionName, func: Function, test: bool)
    ensures
        all_allowed(Kind::Plain, function_body_steps(name, func, test)),
        balanced(function_body_steps(name, func, test)),
        never_stuck(function_body_steps(name, func, test)),
{
    broadcast use group_shape;

    reveal(function_body_steps);
    lemma_parameters_shape(func.signature.parameters@, false, 0);
}

/// The function that builds a payload leaves the indentation as it finds it and is not
/// noted.
pub proof fn lemma_payload_shape(name: FunctionName, func: Function, module: Option<ModuleIdent>)
    ensures
        all_allowed(Kind::Plain, payload_steps(name, func, module)),
        balanced(payload_steps(name, func, module)),
        module is Some && valid_parameters(func.signature.parameters@, 0) == Some(true)
            ==> never_stuck(payload_steps(name, func, module)),
{
    broadcast use group_shape;

    reveal(payload_steps);
    lemma_parameters_shape(func.signature.parameters@, true, 0);
    lemma_payload_args_shape(func.signature.parameters@, 0);
    assert(balanced(payload_args_steps(func.signature.parameters@)));
}

proof fn lemma_function_directives_shape(
    fname: FunctionName,
    f: Function,
    module: Option<ModuleIdent>,
    i: int,
)
    ensures
        all_allowed(Kind::Function, function_directives_from(fname, f, module, i)),
        balanced(function_directives_from(fname, f, module, i)),
        module is Some ==> never_stuck(function_directives_from(fname, f, module, i)),
    decreases f.attributes@.len() - i,
{
    broadcast use group_shape;

    if 0 <= i < f.attributes@.len() {
        lemma_function_directives_shape(fname, f, module, i + 1);
    }
}

/// A function leaves the indentation as it finds it and is noted as nothing but a command.
pub proof fn lemma_function_shape(
    name: FunctionName,
    func: Function,
    test: bool,
    module: Option<ModuleIdent>,
)
    ensures
        all_allowed(Kind::Function, function_ts_steps(name, func, test, module)),
        balanced(function_ts_steps(name, func, test, module)),
        module is Some && (func.entry is Some ==> valid_parameters(func.signature.parameters@, 0)
            is Some) ==> never_stuck(function_ts_steps(name, func, test, module)),
{
    broadcast use group_shape;

    lemma_function_body_shape(name, func, test);
    lemma_allowed_plain(Kind::Function, function_body_steps(name, func, test));
    lemma_payload_shape(name, func, module);
    lemma_allowed_plain(Kind::Function, payload_steps(name, func, module));
    lemma_function_directives_shape(name, func, module, 0);
}

proof fn lemma_field_lists_shape(fields: Seq<StructField>, i: int)
    ensures
        all_allowed(Kind::Plain, static_fields_from(fields, i)),
        balanced(static_fields_from(fields, i)),
        never_stuck(static_fields_from(fields, i)),
        all_allowed(Kind::Plain, class_fields_from(fields, i)),
        balanced(class_fields_from(fields, i)),
        never_stuck(class_fields_from(fields, i)),
        all_allowed(Kind::Plain, ctor_fields_from(fields, i)),
        balanced(ctor_fields_from(fields, i)),
        never_stuck(ctor_fields_from(fields, i)),
    decreases fields.len() - i,
{
    broadcast use group_shape;

    if 0 <= i < fields.len() {
        lemma_field_lists_shape(fields, i + 1);
    }
}

proof fn lemma_fields_shape(fields: Seq<StructField>)
    ensures
        all_allowed(Kind::Plain, fields_steps(fields)),
        balanced(fields_steps(fields)),
        never_stuck(fields_steps(fields)),
{
    broadcast use group_shape;

    reveal(fields_steps);
    lemma_field_lists_shape(fields, 0);
}

/// The descriptions of type parameters leave the indentation as they find it and are not
/// noted.
pub proof fn lemma_struct_tparams_shape(tparams: Seq<StructTypeParameter>, i: int)
    ensures
        all_allowed(Kind::Plain, struct_tparams_from(tparams, i)),
        balanced(struct_tparams_from(tparams, i)),
        never_stuck(struct_tparams_from(tparams, i)),
    decreases tparams.len() - i,
{
    broadcast use group_shape;

    if 0 <= i < tparams.len() {
        lemma_struct_tparams_shape(tparams, i + 1);
    }
}

proof fn lemma_parser_shape(name: Seq<char>, is_resource: bool)
    ensures
        all_allowed(Kind::Plain, parser_steps(name, is_resource)),
        balanced(parser_steps(name, is_resource)),
        never_stuck(parser_steps(name, is_resource)),
{
    broadcast use group_shape;

    reveal(parser_steps);
}

proof fn lemma_special_struct_shape(name: StructName, module: Option<ModuleIdent>)
    ensures
        all_allowed(Kind::Plain, special_struct_steps(name, module)),
        balanced(special_struct_steps(name, module)),
        never_stuck(special_struct_steps(name, module)),
{
    broadcast use group_shape;

}

/// Shows leave the indentation as they find it.
pub proof fn lemma_show_shape(
    sname: StructName,
    sdef: StructDefinition,
    attrs: Seq<(Name, Attribute)>,
    module: Option<ModuleIdent>,
    i: int,
)
    ensures
        all_allowed(Kind::Struct, show_from(sname, sdef, attrs, module, i)),
        balanced(show_from(sname, sdef, attrs, module, i)),
        module is Some ==> never_stuck(show_from(sname, sdef, attrs, module, i)),
    decreases attrs.len() - i,
{
    broadcast use group_shape;

    reveal(show_steps);
    if 0 <= i < attrs.len() {
        lemma_show_shape(sname, sdef, attrs, module, i + 1);
    }
}

/// Iterable tables that are shown leave the indentation as they find it.
pub proof fn lemma_show_iter_table_shape(
    sname: StructName,
    sdef: StructDefinition,
    attrs: Seq<(Name, Attribute)>,
    module: Option<ModuleIdent>,
    i: int,
)
    ensures
        all_allowed(Kind::Struct, show_iter_table_from(sname, sdef, attrs, module, i)),
        balanced(show_iter_table_from(sname, sdef, attrs, module, i)),
        module is Some ==> never_stuck(show_iter_table_from(sname, sdef, attrs, module, i)),
    decreases attrs.len() - i,
{
    broadcast use group_shape;

    reveal(show_iter_table_steps);
    if 0 <= i < attrs.len() {
        lemma_show_iter_table_shape(sname, sdef, attrs, module, i + 1);
    }
}

/// Directives on a struct leave the indentation as they find it and only note shows.
pub proof fn lemma_struct_directives_shape(
    sname: StructName,
    sdef: StructDefinition,
    module: Option<ModuleIdent>,
    i: int,
)
    ensures
        all_allowed(Kind::Struct, struct_directives_from(sname, sdef, module, i)),
        balanced(struct_directives_from(sname, sdef, module, i)),
        module is Some ==> never_stuck(struct_directives_from(sname, sdef, module, i)),
    decreases sdef.attributes@.len() - i,
{
    broadcast use group_shape;

    if 0 <= i < sdef.attributes@.len() {
        if let Attribute_::Parameterized(_, inner) = sdef.attributes@[i].1.value {
            lemma_show_shape(sname, sdef, inner@, module, 0);
            lemma_show_iter_table_shape(sname, sdef, inner@, module, 0);
        }
        lemma_struct_directives_shape(sname, sdef, module, i + 1);
    }
}

/// The part of a class that only depends on the fields of a struct leaves the indentation as
/// it finds it and is not noted.
pub proof fn lemma_class_shape(
    name: StructName,
    sdef: StructDefinition,
    fields: Seq<StructField>,
    module: Option<ModuleIdent>,
)
    ensures
        all_allowed(Kind::Plain, class_steps(name, sdef, fields, module)),
        balanced(class_steps(name, sdef, fields, module)),
        never_stuck(class_steps(name, sdef, fields, module)),
{
    broadcast use group_shape;

    lemma_fields_shape(fields);
    lemma_parser_shape(name.0.value@, sdef.abilities.contains(Ability_::Key));
    lemma_special_struct_shape(name, module);
}

/// A struct leaves the indentation as it finds it and is noted as nothing but shown.
pub proof fn lemma_struct_shape(
    name: StructName,
    sdef: StructDefinition,
    module: Option<ModuleIdent>,
)
    ensures
        all_allowed(Kind::Struct, struct_steps(name, sdef, module)),
        balanced(struct_steps(name, sdef, module)),
        module is Some ==> never_stuck(struct_steps(name, sdef, module)),
{
    broadcast use group_shape;

    reveal(defined_struct_steps);
    if let StructFields::Defined(fields) = sdef.fields {
        lemma_class_shape(name, sdef, fields@, module);
        lemma_allowed_plain(Kind::Struct, class_steps(name, sdef, fields@, module));
    }
    lemma_struct_tparams_shape(sdef.type_parameters@, 0);
    lemma_allowed_plain(Kind::Struct, struct_tparams_from(sdef.type_parameters@, 0));
    lemma_struct_directives_shape(name, sdef, module, 0);
    assert(balanced(defined_struct_steps(name, sdef, module)));
}

} // verus!
