//! Which part of a construct is reported if the construct cannot be printed.

use crate::ast::{
    Ability_, Function, FunctionName, ModuleIdent, SingleType, StructDefinition, StructField,
    StructFields, StructName, StructTypeParameter, Var,
};
use crate::definedness::{lemma_parameters_well_formed, parameters_well_formed};
use crate::functions::{
    function_body_steps, function_directives_from, function_json_steps, function_ts_steps,
    parameters_from, parameters_json_from, parameters_json_steps, parameters_steps,
    payload_args_from, payload_steps, test_mark_steps,
};
use crate::indentation::{
    lemma_function_json_shape, lemma_function_shape, lemma_parameters_json_shape,
    lemma_parameters_shape, lemma_struct_directives_shape, lemma_struct_shape,
};
use crate::laws::law_valid_parameters;
use crate::reading::{ending, group_ending, lemma_ending_run};
use crate::script::{ask, run, End, State};
use crate::shape::{all_allowed, group_shape, Kind};
use crate::struct_directives::struct_directives_from;
use crate::structs::{
    class_fields_from, class_head_steps, ctor_fields_from, defined_struct_steps, fields_steps,
    parser_steps, special_struct_steps, static_fields_from, struct_steps, struct_tparams_from,
};
use crate::types::{param_handler, signer, valid_parameters};
use vstd::prelude::*;

verus! {

/// Whether a parameter is left out or has a type with a text.
pub open spec fn can_be_shown(parameter: (Var, SingleType), skip_signer: bool) -> bool {
    skip_signer && signer(parameter.1) || parameter.1.ts.text is Ok
}

proof fn lemma_parameters_ending(
    parameters: Seq<(Var, SingleType)>,
    skip_signer: bool,
    i: int,
    k: int,
)
    requires
        0 <= i <= parameters.len(),
    ensures
        (forall|j: int|
            i <= j < parameters.len() ==> can_be_shown(#[trigger] parameters[j], skip_signer))
            ==> ending(parameters_from(parameters, skip_signer, i)) is Done && ending(
            parameters_json_from(parameters, skip_signer, i),
        ) is Done,
        i <= k < parameters.len() && (forall|j: int|
            i <= j < k ==> can_be_shown(#[trigger] parameters[j], skip_signer)) && !can_be_shown(
            parameters[k],
            skip_signer,
        ) ==> ending(parameters_from(parameters, skip_signer, i)) == End::Fail(
            parameters[k].1.ts.text->Err_0@,
        ) && ending(parameters_json_from(parameters, skip_signer, i)) == End::Fail(
            parameters[k].1.ts.text->Err_0@,
        ),
    decreases parameters.len() - i,
{
    broadcast use group_ending;

    if i < parameters.len() {
        let first = parameters[i];
        lemma_parameters_ending(parameters, skip_signer, i + 1, k);
    }
}

/// Parameters can be printed, as TypeScript or as JSON, if and only if each of them is left out
/// or has a type with a text. Of the others the first is reported.
pub proof fn law_first_parameter_without_a_text(
    parameters: Seq<(Var, SingleType)>,
    skip_signer: bool,
    json: bool,
    k: int,
    s: State,
)
    ensures
        ({
            let o = run(
                s,
                if json {
                    parameters_json_steps(parameters, skip_signer)
                } else {
                    parameters_steps(parameters, skip_signer)
                },
            );
            &&& (forall|j: int|
                0 <= j < parameters.len() ==> can_be_shown(#[trigger] parameters[j], skip_signer))
                ==> o.end is Done
            &&& 0 <= k < parameters.len() && (forall|j: int|
                0 <= j < k ==> can_be_shown(#[trigger] parameters[j], skip_signer))
                && !can_be_shown(parameters[k], skip_signer) ==> o.end == End::Fail(
                parameters[k].1.ts.text->Err_0@,
            )
        }),
{
    broadcast use {group_ending, group_shape};

    let steps = if json {
        parameters_json_steps(parameters, skip_signer)
    } else {
        parameters_steps(parameters, skip_signer)
    };
    lemma_parameters_ending(parameters, skip_signer, 0, k);
    lemma_parameters_shape(parameters, skip_signer, 0);
    lemma_parameters_json_shape(parameters, skip_signer, 0);
    lemma_ending_run(Kind::Plain, s, steps);
}

proof fn lemma_arguments_ending(parameters: Seq<(Var, SingleType)>, i: int)
    requires
        0 <= i <= parameters.len(),
        forall|j: int|
            i <= j < parameters.len() ==> signer((#[trigger] parameters[j]).1) || param_handler(
                parameters[j].0,
                parameters[j].1,
            ) is Text,
    ensures
        ending(payload_args_from(parameters, i)) is Done,
    decreases parameters.len() - i,
{
    broadcast use group_ending;

    if i < parameters.len() {
        let first = parameters[i];
        lemma_arguments_ending(parameters, i + 1);
    }
}

proof fn lemma_payload_ending(name: FunctionName, func: Function, mident: ModuleIdent)
    requires
        forall|j: int|
            0 <= j < func.signature.parameters@.len() ==> (
            #[trigger] func.signature.parameters@[j]).1.ts.text is Ok,
        forall|j: int|
            0 <= j < func.signature.parameters@.len() ==> signer(
                (#[trigger] func.signature.parameters@[j]).1,
            ) || param_handler(
                func.signature.parameters@[j].0,
                func.signature.parameters@[j].1,
            ) is Text,
    ensures
        ending(payload_steps(name, func, Some(mident))) is Done,
{
    broadcast use group_ending;

    reveal(payload_steps);
    lemma_parameters_ending(func.signature.parameters@, true, 0, 0);
    lemma_arguments_ending(func.signature.parameters@, 0);
}

/// If a function cannot be printed as TypeScript, the first of these is reported that does not
/// hold: its test attributes are valid, where tests are marked; its parameters have types with
/// texts, the first first; so has its return type; and, if it is an entry function each of whose
/// parameters is a signer or can be passed, its directives can be handled.
pub proof fn law_function_failures(
    name: FunctionName,
    func: Function,
    test: bool,
    mident: ModuleIdent,
    k: int,
    s: State,
)
    requires
        func.entry is Some ==> parameters_well_formed(func.signature.parameters@),
    ensures
        ({
            let end = run(s, function_ts_steps(name, func, test, Some(mident))).end;
            let parameters = func.signature.parameters@;
            let tested = test ==> func.is_test is Ok;
            let typed = forall|j: int|
                0 <= j < parameters.len() ==> (#[trigger] parameters[j]).1.ts.text is Ok;
            let offered = func.entry is Some && forall|j: int|
                0 <= j < parameters.len() ==> signer((#[trigger] parameters[j]).1)
                    || param_handler(parameters[j].0, parameters[j].1) is Text;
            &&& !tested ==> end == End::Fail(func.is_test->Err_0@)
            &&& tested && 0 <= k < parameters.len() && (forall|j: int|
                0 <= j < k ==> (#[trigger] parameters[j]).1.ts.text is Ok)
                && parameters[k].1.ts.text is Err ==> end == End::Fail(
                parameters[k].1.ts.text->Err_0@,
            )
            &&& tested && typed && func.signature.return_type.ts.text is Err ==> end == End::Fail(
                func.signature.return_type.ts.text->Err_0@,
            )
            &&& tested && typed && func.signature.return_type.ts.text is Ok ==> end == (if offered {
                run(s, function_directives_from(name, func, Some(mident), 0)).end
            } else {
                End::Done
            })
        }),
{
    broadcast use group_ending;

    let parameters = func.signature.parameters@;
    let steps = function_ts_steps(name, func, test, Some(mident));
    let directives = function_directives_from(name, func, Some(mident), 0);
    lemma_function_shape(name, func, test, Some(mident));
    lemma_ending_run(Kind::Function, s, steps);
    lemma_directives_allowed(name, func, Some(mident), 0);
    lemma_ending_run(Kind::Function, s, directives);
    lemma_parameters_ending(parameters, false, 0, k);
    law_valid_parameters(parameters);
    if func.entry is Some {
        lemma_parameters_well_formed(parameters, 0);
    }
    assert(ending(function_body_steps(name, func, test)) == ending(
        test_mark_steps(func, test, "// #[test]"@) + parameters_from(parameters, false, 0) + ask(
            func.signature.return_type.ts,
        ),
    )) by {
        reveal(function_body_steps);
    }
    let offered = func.entry is Some && forall|j: int|
        0 <= j < parameters.len() ==> signer((#[trigger] parameters[j]).1) || param_handler(
            parameters[j].0,
            parameters[j].1,
        ) is Text;
    if offered && (forall|j: int|
        0 <= j < parameters.len() ==> (#[trigger] parameters[j]).1.ts.text is Ok) {
        lemma_payload_ending(name, func, mident);
    }
}

proof fn lemma_directives_allowed(
    name: FunctionName,
    func: Function,
    module: Option<ModuleIdent>,
    i: int,
)
    ensures
        all_allowed(Kind::Function, function_directives_from(name, func, module, i)),
    decreases func.attributes@.len() - i,
{
    broadcast use group_shape;

    if 0 <= i < func.attributes@.len() {
        lemma_directives_allowed(name, func, module, i + 1);
    }
}

/// If a function cannot be printed as JSON, the first of these is reported that does not hold:
/// its test attributes are valid, where tests are marked; its parameters have types with texts,
/// the first first; and so has its return type.
pub proof fn law_function_json_failures(
    name: FunctionName,
    func: Function,
    test: bool,
    k: int,
    s: State,
)
    ensures
        ({
            let end = run(s, function_json_steps(name, func, test)).end;
            let parameters = func.signature.parameters@;
            let tested = test ==> func.is_test is Ok;
            &&& !tested ==> end == End::Fail(func.is_test->Err_0@)
            &&& tested && 0 <= k < parameters.len() && (forall|j: int|
                0 <= j < k ==> (#[trigger] parameters[j]).1.ts.text is Ok)
                && parameters[k].1.ts.text is Err ==> end == End::Fail(
                parameters[k].1.ts.text->Err_0@,
            )
            &&& tested && (forall|j: int|
                0 <= j < parameters.len() ==> (#[trigger] parameters[j]).1.ts.text is Ok)
                && func.signature.return_type.ts.text is Err ==> end == End::Fail(
                func.signature.return_type.ts.text->Err_0@,
            )
        }),
{
    broadcast use group_ending;

    reveal(function_json_steps);
    lemma_function_json_shape(name, func, test);
    lemma_ending_run(Kind::Plain, s, function_json_steps(name, func, test));
    lemma_parameters_ending(func.signature.parameters@, false, 0, k);
}

proof fn lemma_fields_ending(fields: Seq<StructField>, i: int, k: int)
    requires
        0 <= i <= fields.len(),
    ensures
        (forall|j: int| i <= j < fields.len() ==> (#[trigger] fields[j]).typetag.text is Ok)
            ==> ending(static_fields_from(fields, i)) is Done,
        (forall|j: int| i <= j < fields.len() ==> (#[trigger] fields[j]).ty.ts.text is Ok)
            ==> ending(class_fields_from(fields, i)) is Done && ending(ctor_fields_from(fields, i))
            is Done,
        i <= k < fields.len() && (forall|j: int|
            i <= j < k ==> (#[trigger] fields[j]).typetag.text is Ok) && fields[k].typetag.text
            is Err ==> ending(static_fields_from(fields, i)) == End::Fail(
            fields[k].typetag.text->Err_0@,
        ),
        i <= k < fields.len() && (forall|j: int|
            i <= j < k ==> (#[trigger] fields[j]).ty.ts.text is Ok) && fields[k].ty.ts.text
            is Err ==> ending(class_fields_from(fields, i)) == End::Fail(
            fields[k].ty.ts.text->Err_0@,
        ),
    decreases fields.len() - i,
{
    broadcast use group_ending;

    if i < fields.len() {
        let first = fields[i];
        lemma_fields_ending(fields, i + 1, k);
    }
}

proof fn lemma_struct_tparams_ending(tparams: Seq<StructTypeParameter>, i: int)
    ensures
        ending(struct_tparams_from(tparams, i)) is Done,
    decreases tparams.len() - i,
{
    broadcast use group_ending;

    if 0 <= i < tparams.len() {
        lemma_struct_tparams_ending(tparams, i + 1);
    }
}

/// If a struct cannot be printed, the first type tag of a field that has no text is reported; if
/// they all have, the first type of a field that has none; and if they all have, what is wrong
/// with its directives.
pub proof fn law_struct_failures(
    name: StructName,
    sdef: StructDefinition,
    fields: Vec<StructField>,
    mident: ModuleIdent,
    k: int,
    s: State,
)
    requires
        sdef.fields == StructFields::Defined(fields),
    ensures
        ({
            let end = run(s, struct_steps(name, sdef, Some(mident))).end;
            let tagged = forall|j: int|
                0 <= j < fields@.len() ==> (#[trigger] fields@[j]).typetag.text is Ok;
            let typed = forall|j: int|
                0 <= j < fields@.len() ==> (#[trigger] fields@[j]).ty.ts.text is Ok;
            &&& 0 <= k < fields@.len() && (forall|j: int|
                0 <= j < k ==> (#[trigger] fields@[j]).typetag.text is Ok)
                && fields@[k].typetag.text is Err ==> end == End::Fail(
                fields@[k].typetag.text->Err_0@,
            )
            &&& tagged && 0 <= k < fields@.len() && (forall|j: int|
                0 <= j < k ==> (#[trigger] fields@[j]).ty.ts.text is Ok)
                && fields@[k].ty.ts.text is Err ==> end == End::Fail(fields@[k].ty.ts.text->Err_0@)
            &&& tagged && typed ==> end == run(
                s,
                struct_directives_from(name, sdef, Some(mident), 0),
            ).end
        }),
{
    broadcast use group_ending;

    let steps = struct_steps(name, sdef, Some(mident));
    let directives = struct_directives_from(name, sdef, Some(mident), 0);
    lemma_struct_shape(name, sdef, Some(mident));
    lemma_ending_run(Kind::Struct, s, steps);
    lemma_struct_directives_shape(name, sdef, Some(mident), 0);
    lemma_ending_run(Kind::Struct, s, directives);
    lemma_struct_tparams_ending(sdef.type_parameters@, 0);
    lemma_fields_ending(fields@, 0, k);
    assert(ending(class_head_steps(name, sdef)) is Done);
    assert(ending(parser_steps(name.0.value@, sdef.abilities.contains(Ability_::Key))) is Done) by {
        reveal(parser_steps);
    }
    assert(ending(special_struct_steps(name, Some(mident))) is Done) by {
        reveal(special_struct_steps);
    }
    assert(ending(fields_steps(fields@)) == ending(
        static_fields_from(fields@, 0) + class_fields_from(fields@, 0) + ctor_fields_from(
            fields@,
            0,
        ),
    )) by {
        reveal(fields_steps);
    }
    assert(ending(defined_struct_steps(name, sdef, Some(mident))) == ending(
        fields_steps(fields@) + directives,
    )) by {
        reveal(defined_struct_steps);
    }
}

/// Of the parameters of a script function that are not signers the first that cannot be passed
/// decides: the parameters are not valid.
pub proof fn law_first_invalid_parameter(parameters: Seq<(Var, SingleType)>, k: int)
    requires
        0 <= k < parameters.len(),
        forall|j: int|
            0 <= j < k ==> signer((#[trigger] parameters[j]).1) || param_handler(
                parameters[j].0,
                parameters[j].1,
            ) is Text,
        !signer(parameters[k].1),
        param_handler(parameters[k].0, parameters[k].1) is Fail,
    ensures
        valid_parameters(parameters, 0) == Some(false),
{
    lemma_first_invalid_parameter(parameters, 0, k);
}

proof fn lemma_first_invalid_parameter(parameters: Seq<(Var, SingleType)>, i: int, k: int)
    requires
        0 <= i <= k < parameters.len(),
        forall|j: int|
            0 <= j < k ==> signer((#[trigger] parameters[j]).1) || param_handler(
                parameters[j].0,
                parameters[j].1,
            ) is Text,
        !signer(parameters[k].1),
        param_handler(parameters[k].0, parameters[k].1) is Fail,
    ensures
        valid_parameters(parameters, i) == Some(false),
    decreases k - i,
{
    if i < k {
        let first = parameters[i];
        lemma_first_invalid_parameter(parameters, i + 1, k);
    }
}

} // verus!
