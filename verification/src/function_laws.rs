//! What a function looks like on the page.

use crate::ast::{
    Attribute, Attribute_, Diagnostic, DiagnosticView, Function, FunctionName, ModuleIdent,
    Name, SingleType, TParam, Var,
};
use crate::constants::rendered_text;
use crate::definedness::{lemma_parameters_well_formed, parameters_well_formed};
use crate::exports::line_start;
use crate::functions::{
    cmd_description, export_declaration, function_body_steps, function_directives_from,
    function_json_steps, function_rest_steps, function_ts_steps, only_signers, parameters_from,
    parameters_json_from, parameters_json_steps, parameters_steps, payload_args_from,
    payload_call_steps, payload_declaration, payload_steps, test_mark_steps, tparam_names,
    tparams_steps,
};
use crate::indentation::{lemma_function_json_shape, lemma_function_shape};
use crate::laws::{law_signers_are_skipped, law_valid_parameters, without_signers};
use crate::reading::{
    below, group_paged, group_passes, lemma_done_passes, lemma_paged_run, lemma_passes_done,
    paged, passes,
};
use crate::script::{ask, close_short_block, line, newline, open_short_block, run, text, State};
use crate::shape::Kind;
use crate::shared::assigned_string;
use crate::text::joined;
use crate::tsgen_writer::{margin, page, Page};
use crate::types::{param_handler, signer, valid_parameters};
use vstd::prelude::*;

verus! {

/// The names of type parameters, each in double quotes.
pub open spec fn quoted_names(tparams: Seq<TParam>) -> Seq<Seq<char>> {
    tparams.map_values(|tp: TParam| "\""@ + tp.user_specified_name.value@ + "\""@)
}

proof fn lemma_parameters_paged(p: Page, parameters: Seq<(Var, SingleType)>, i: int)
    requires
        p.cur.len() == 0,
        0 <= i <= parameters.len(),
    ensures
        ({
            let q = paged(p, parameters_from(parameters, false, i));
            &&& q.cur.len() == 0
            &&& q.level == p.level
            &&& q.lines == p.lines + Seq::new(
                (parameters.len() - i) as nat,
                |k: int|
                    margin(p.level) + (parameters[i + k].0.0.ts@ + ": "@
                        + parameters[i + k].1.ts.shown() + ","@),
            )
        }),
        passes(parameters_from(parameters, false, i)) <==> forall|k: int|
            i <= k < parameters.len() ==> (#[trigger] parameters[k]).1.ts.text is Ok,
    decreases parameters.len() - i,
{
    broadcast use {group_paged, group_passes};

    if i < parameters.len() {
        let one = margin(p.level) + (parameters[i].0.0.ts@ + ": "@ + parameters[i].1.ts.shown()
            + ","@);
        let next = Page { lines: p.lines.push(one), cur: Seq::empty(), level: p.level };
        lemma_parameters_paged(next, parameters, i + 1);
        let (name, ty) = parameters[i];
        assert(paged(p, ask(ty.ts) + line(name.0.ts@ + ": "@ + ty.ts.shown() + ","@)) == next);
        assert(passes(parameters_from(parameters, false, i)) <==> forall|k: int|
            i <= k < parameters.len() ==> (#[trigger] parameters[k]).1.ts.text is Ok);
    }
    assert(paged(p, parameters_from(parameters, false, i)).lines =~= p.lines + Seq::new(
        (parameters.len() - i) as nat,
        |k: int|
            margin(p.level) + (parameters[i + k].0.0.ts@ + ": "@
                + parameters[i + k].1.ts.shown() + ","@),
    ));
}

/// The lines of parameters, one to a line.
spec fn parameter_lines(parameters: Seq<(Var, SingleType)>, level: nat) -> Seq<Seq<char>> {
    parameters.map_values(
        |x: (Var, SingleType)| margin(level) + (x.0.0.ts@ + ": "@ + x.1.ts.shown() + ","@),
    )
}

proof fn lemma_parameters_below(p: Page, parameters: Seq<(Var, SingleType)>)
    requires
        p.cur.len() == 0,
    ensures
        paged(p, parameters_steps(parameters, false)) == below(
            p,
            parameter_lines(parameters, p.level + 1),
        ),
        passes(parameters_steps(parameters, false)) <==> forall|k: int|
            0 <= k < parameters.len() ==> (#[trigger] parameters[k]).1.ts.text is Ok,
{
    broadcast use {group_paged, group_passes};

    let inner = Page { level: p.level + 1, ..p };
    lemma_parameters_paged(inner, parameters, 0);
    let q = paged(p, parameters_steps(parameters, false));
    assert(q.lines =~= p.lines + parameter_lines(parameters, p.level + 1));
    assert(q.cur =~= Seq::empty());
}

/// The line that names the type parameters of a function that has any.
spec fn tparams_lines(tparams: Seq<TParam>, level: nat) -> Seq<Seq<char>> {
    if tparams.len() > 0 {
        seq![margin(level) + ("  $p: TypeTag[], /* <"@ + joined(tparam_names(tparams), ", "@)
            + ">*/"@)]
    } else {
        seq![]
    }
}

proof fn lemma_tparams_below(p: Page, tparams: Seq<TParam>)
    requires
        p.cur.len() == 0,
    ensures
        paged(p, tparams_steps(tparams)) == below(p, tparams_lines(tparams, p.level)),
        passes(tparams_steps(tparams)),
{
    broadcast use {group_paged, group_passes};

    let q = paged(p, tparams_steps(tparams));
    assert(q.lines =~= p.lines + tparams_lines(tparams, p.level));
    assert(q.cur =~= Seq::empty());
}

/// The lines of a function proper.
spec fn body_lines(name: FunctionName, func: Function, test: bool, p: Page) -> Seq<Seq<char>> {
    let sig = func.signature;
    let m = margin(p.level);
    (if test && func.is_test == Ok::<bool, Diagnostic>(true) {
        seq![line_start(p) + "// #[test]"@, m + ("export function "@ + name.0.ts@ + "$ ("@)]
    } else {
        seq![line_start(p) + ("export function "@ + name.0.ts@ + "$ ("@)]
    }) + parameter_lines(sig.parameters@, p.level + 1) + seq![m + "  $signer: any,"@]
        + tparams_lines(sig.type_parameters@, p.level) + seq![
        m + "): "@ + sig.return_type.ts.shown() + " "@ + "{"@,
        m + "  $signer(arguments);"@,
        m + "}"@,
        Seq::empty(),
    ]
}

proof fn lemma_rest_below(p: Page, func: Function)
    requires
        p.cur.len() == 0,
    ensures
        ({
            let sig = func.signature;
            let m = margin(p.level);
            paged(p, function_rest_steps(func) + newline()) == below(
                p,
                parameter_lines(sig.parameters@, p.level + 1) + seq![m + "  $signer: any,"@]
                    + tparams_lines(sig.type_parameters@, p.level) + seq![
                    m + "): "@ + sig.return_type.ts.shown() + " "@ + "{"@,
                    m + "  $signer(arguments);"@,
                    m + "}"@,
                    Seq::empty(),
                ],
            )
        }),
        passes(function_rest_steps(func)) <==> {
            &&& forall|k: int|
                0 <= k < func.signature.parameters@.len() ==> (
                #[trigger] func.signature.parameters@[k]).1.ts.text is Ok
            &&& func.signature.return_type.ts.text is Ok
        },
{
    broadcast use {group_paged, group_passes};

    reveal_strlit("): ");
    assert("): "@.len() == 3);
    let sig = func.signature;
    let m = margin(p.level);
    lemma_parameters_below(p, sig.parameters@);
    let p1 = below(p, parameter_lines(sig.parameters@, p.level + 1));
    let p2 = Page { lines: p1.lines.push(m + "  $signer: any,"@), ..p1 };
    assert(paged(p1, line("  $signer: any,"@)) == p2);
    lemma_tparams_below(p2, sig.type_parameters@);
    let q = paged(p, function_rest_steps(func) + newline());
    assert(q.lines =~= p.lines + (parameter_lines(sig.parameters@, p.level + 1) + seq![
        m + "  $signer: any,"@,
    ] + tparams_lines(sig.type_parameters@, p.level) + seq![
        m + "): "@ + sig.return_type.ts.shown() + " "@ + "{"@,
        m + "  $signer(arguments);"@,
        m + "}"@,
        Seq::empty(),
    ]));
    assert(q.cur =~= Seq::empty());
}

proof fn lemma_body_below(p: Page, name: FunctionName, func: Function, test: bool)
    ensures
        passes(function_body_steps(name, func, test)) ==> paged(
            p,
            function_body_steps(name, func, test),
        ) == below(p, body_lines(name, func, test, p)),
        passes(function_body_steps(name, func, test)) <==> {
            &&& test ==> func.is_test is Ok
            &&& forall|k: int|
                0 <= k < func.signature.parameters@.len() ==> (
                #[trigger] func.signature.parameters@[k]).1.ts.text is Ok
            &&& func.signature.return_type.ts.text is Ok
        },
{
    broadcast use {group_paged, group_passes};

    reveal(function_body_steps);
    let mark = test_mark_steps(func, test, "// #[test]"@);
    let head = mark + line(export_declaration(name));
    let marked = paged(p, mark);
    let p1 = paged(p, head);
    assert(p1.cur =~= Seq::empty());
    lemma_rest_below(p1, func);
    if passes(function_body_steps(name, func, test)) {
        let q = paged(p, function_body_steps(name, func, test));
        assert(q.lines =~= p.lines + body_lines(name, func, test, p));
    }
}

/// The parameters that are not signers, from the one at `i` on.
proof fn lemma_without_signers_skip(parameters: Seq<(Var, SingleType)>, i: int)
    requires
        0 <= i < parameters.len(),
    ensures
        without_signers(parameters.skip(i)) == (if signer(parameters[i].1) {
            Seq::<(Var, SingleType)>::empty()
        } else {
            Seq::<(Var, SingleType)>::empty().push(parameters[i])
        }) + without_signers(parameters.skip(i + 1)),
{
    let pred = |p: (Var, SingleType)| !signer(p.1);
    let one = Seq::<(Var, SingleType)>::empty().push(parameters[i]);
    assert(parameters.skip(i) =~= one + parameters.skip(i + 1));
    Seq::filter_distributes_over_add(one, parameters.skip(i + 1), pred);
    reveal_with_fuel(Seq::filter, 2);
    assert(one.drop_last() =~= Seq::empty());
    if signer(parameters[i].1) {
        assert(one.filter(pred) =~= Seq::empty());
    } else {
        assert(one.filter(pred) =~= one);
    }
}

proof fn lemma_without_signers_end(parameters: Seq<(Var, SingleType)>)
    ensures
        without_signers(parameters.skip(parameters.len() as int)) == Seq::<
            (Var, SingleType),
        >::empty(),
{
    reveal(Seq::filter);
    assert(parameters.skip(parameters.len() as int) =~= Seq::empty());
    assert(without_signers(Seq::empty()) =~= Seq::empty());
}

/// The lines of the arguments of a payload.
spec fn argument_lines(parameters: Seq<(Var, SingleType)>, level: nat) -> Seq<Seq<char>> {
    parameters.map_values(
        |x: (Var, SingleType)|
            margin(level) + ("    "@ + rendered_text(param_handler(x.0, x.1)) + ","@),
    )
}

proof fn lemma_arguments_below(p: Page, parameters: Seq<(Var, SingleType)>, i: int)
    requires
        p.cur.len() == 0,
        0 <= i <= parameters.len(),
    ensures
        passes(payload_args_from(parameters, i)) ==> paged(p, payload_args_from(parameters, i))
            == below(p, argument_lines(without_signers(parameters.skip(i)), p.level)),
        passes(payload_args_from(parameters, i)) <==> forall|k: int|
            i <= k < parameters.len() ==> signer((#[trigger] parameters[k]).1) || param_handler(
                parameters[k].0,
                parameters[k].1,
            ) is Text,
        without_signers(parameters.skip(i)).len() == 0 <==> forall|k: int|
            i <= k < parameters.len() ==> signer((#[trigger] parameters[k]).1),
    decreases parameters.len() - i,
{
    broadcast use {group_paged, group_passes};

    let rest = without_signers(parameters.skip(i));
    if i < parameters.len() {
        lemma_without_signers_skip(parameters, i);
        let (name, ty) = parameters[i];
        if signer(ty) {
            lemma_arguments_below(p, parameters, i + 1);
        } else {
            let one = margin(p.level) + ("    "@ + rendered_text(param_handler(name, ty)) + ","@);
            let next = Page { lines: p.lines.push(one), cur: Seq::empty(), level: p.level };
            lemma_arguments_below(next, parameters, i + 1);
            assert(rest[0] == parameters[i]);
            assert(rest.skip(1) =~= without_signers(parameters.skip(i + 1)));
        }
    } else {
        lemma_without_signers_end(parameters);
    }
    if passes(payload_args_from(parameters, i)) {
        let q = paged(p, payload_args_from(parameters, i));
        assert(q.lines =~= p.lines + argument_lines(rest, p.level));
        assert(q.cur =~= Seq::empty());
    }
}

/// The lines of the call that builds a payload.
spec fn call_lines(
    name: FunctionName,
    func: Function,
    mident: ModuleIdent,
    level: nat,
) -> Seq<Seq<char>> {
    let sig = func.signature;
    let m = margin(level);
    let kept = without_signers(sig.parameters@);
    seq![
        m + (if sig.type_parameters@.len() > 0 {
            "const typeParamStrings = $p.map(t=>$.getTypeTagFullname(t));"@
        } else {
            "const typeParamStrings = [] as string[];"@
        }),
        m + "return $.buildPayload("@,
        m + ("  \""@ + mident.value.address.hex@ + "::"@ + mident.value.module.0.value@ + "::"@
            + name.0.value@ + "\","@),
        m + "  typeParamStrings,"@,
    ] + (if kept.len() == 0 {
        seq![m + "  []"@]
    } else {
        seq![m + "  ["@] + argument_lines(kept, level) + seq![m + "  ]"@]
    }) + seq![m + ");"@]
}

proof fn lemma_call_below(p: Page, name: FunctionName, func: Function, mident: ModuleIdent)
    requires
        p.cur.len() == 0,
    ensures
        passes(payload_call_steps(name, func, mident)) ==> paged(
            p,
            payload_call_steps(name, func, mident),
        ) == below(p, call_lines(name, func, mident, p.level)),
        passes(payload_call_steps(name, func, mident)) <==> forall|k: int|
            0 <= k < func.signature.parameters@.len() ==> signer(
                (#[trigger] func.signature.parameters@[k]).1,
            ) || param_handler(
                func.signature.parameters@[k].0,
                func.signature.parameters@[k].1,
            ) is Text,
{
    broadcast use {group_paged, group_passes};

    let parameters = func.signature.parameters@;
    let kept = without_signers(parameters);
    let m = margin(p.level);
    assert(parameters.skip(0) =~= parameters);
    let head = call_lines(name, func, mident, p.level).take(4);
    let start = below(p, head.push(m + "  ["@));
    lemma_arguments_below(start, parameters, 0);
    if passes(payload_call_steps(name, func, mident)) {
        let q = paged(p, payload_call_steps(name, func, mident));
        if kept.len() > 0 {
            assert(!only_signers(parameters));
            assert(start.lines =~= p.lines.push(head[0]).push(head[1]).push(head[2]).push(
                head[3],
            ).push(m + "  ["@));
            let behind = paged(start, payload_args_from(parameters, 0));
            assert(q.lines == behind.lines.push(m + "  ]"@).push(m + ");"@));
        } else {
            assert(only_signers(parameters));
        }
        assert(q.lines =~= p.lines + call_lines(name, func, mident, p.level));
        assert(q.cur =~= Seq::empty());
    }
}

/// The lines of the function that builds a payload.
spec fn payload_lines(
    name: FunctionName,
    func: Function,
    mident: ModuleIdent,
    level: nat,
) -> Seq<Seq<char>> {
    let sig = func.signature;
    let m = margin(level);
    seq![Seq::empty(), m + ("export function buildPayload_"@ + name.0.value@ + " ("@)]
        + parameter_lines(without_signers(sig.parameters@), level + 1) + tparams_lines(
        sig.type_parameters@,
        level,
    ) + seq![m + ") "@ + "{"@] + call_lines(name, func, mident, level + 1) + seq![
        Seq::empty(),
        m + "}"@,
    ]
}

proof fn lemma_payload_below(p: Page, name: FunctionName, func: Function, mident: ModuleIdent)
    requires
        p.cur.len() == 0,
    ensures
        passes(payload_steps(name, func, Some(mident))) ==> paged(
            p,
            payload_steps(name, func, Some(mident)),
        ) == below(p, payload_lines(name, func, mident, p.level)),
        passes(payload_steps(name, func, Some(mident))) <==> {
            &&& passes(payload_call_steps(name, func, mident))
            &&& passes(parameters_steps(without_signers(func.signature.parameters@), false))
        },
{
    broadcast use {group_paged, group_passes};

    reveal(payload_steps);
    let sig = func.signature;
    let m = margin(p.level);
    let kept = without_signers(sig.parameters@);
    law_signers_are_skipped(sig.parameters@);
    let p1 = paged(p, newline() + line(payload_declaration(name)));
    assert(p1.cur =~= Seq::empty());
    lemma_parameters_below(p1, kept);
    let p2 = below(p1, parameter_lines(kept, p.level + 1));
    lemma_tparams_below(p2, sig.type_parameters@);
    let p3 = below(p2, tparams_lines(sig.type_parameters@, p.level));
    let p4 = Page {
        lines: p3.lines.push(m + ") "@ + "{"@),
        cur: Seq::empty(),
        level: p.level + 1,
    };
    assert(paged(p3, text(") "@) + open_short_block()) == p4) by {
        reveal_strlit(") ");
        assert(") "@.len() == 2);
    }
    lemma_call_below(p4, name, func, mident);
    if passes(payload_steps(name, func, Some(mident))) {
        let q = paged(p, payload_steps(name, func, Some(mident)));
        let p5 = below(p4, call_lines(name, func, mident, p.level + 1));
        assert(q == paged(p5, close_short_block() + newline()));
        assert(p.cur =~= Seq::empty());
        assert(p1.lines == p.lines.push(Seq::empty()).push(m + payload_declaration(name)));
        assert(p5.cur.len() == 0);
        assert(q.lines == p5.lines.push(Seq::empty()).push(m + "}"@));
        assert(q.lines =~= p.lines + payload_lines(name, func, mident, p.level));
        assert(q.cur =~= Seq::empty());
    }
}

/// The attributes that declare a command, from the one at `i` on.
spec fn cmd_attributes(attrs: Seq<(Name, Attribute)>) -> Seq<(Name, Attribute)> {
    attrs.filter(|a: (Name, Attribute)| a.0.value@ == "cmd"@)
}

proof fn lemma_cmd_attributes_skip(attrs: Seq<(Name, Attribute)>, i: int)
    requires
        0 <= i <= attrs.len(),
    ensures
        i < attrs.len() ==> cmd_attributes(attrs.skip(i)).len() == cmd_attributes(
            attrs.skip(i + 1),
        ).len() + if attrs[i].0.value@ == "cmd"@ {
            1int
        } else {
            0int
        },
        i == attrs.len() ==> cmd_attributes(attrs.skip(i)).len() == 0,
{
    let pred = |a: (Name, Attribute)| a.0.value@ == "cmd"@;
    reveal_with_fuel(Seq::filter, 2);
    if i < attrs.len() {
        let one = Seq::<(Name, Attribute)>::empty().push(attrs[i]);
        assert(attrs.skip(i) =~= one + attrs.skip(i + 1));
        Seq::filter_distributes_over_add(one, attrs.skip(i + 1), pred);
        assert(one.drop_last() =~= Seq::empty());
    } else {
        assert(attrs.skip(i) =~= Seq::empty());
    }
}

/// Whether a directive to offer a function as a command is one that can be handled: nothing is
/// assigned to it, and its parameters are descriptions.
pub open spec fn good_cmd(attr: Attribute) -> bool {
    match attr.value {
        Attribute_::Name(_) => true,
        Attribute_::Assigned(_, _) => false,
        Attribute_::Parameterized(_, params) => forall|i: int|
            0 <= i < params@.len() ==> (#[trigger] params@[i]).0.value@ == "desc"@ && (
            params@[i].1.value matches Attribute_::Assigned(_, Some(_))),
    }
}

proof fn lemma_description(params: Seq<(Name, Attribute)>, i: int, desc: Option<String>)
    requires
        0 <= i <= params.len(),
    ensures
        cmd_description(params, i, desc) is Ok <==> forall|k: int|
            i <= k < params.len() ==> (#[trigger] params[k]).0.value@ == "desc"@ && (
            params[k].1.value matches Attribute_::Assigned(_, Some(_))),
        cmd_description(params, i, desc) matches Ok(d) ==> d == (if i == params.len() {
            desc
        } else {
            params.last().1.value->Assigned_1
        }),
    decreases params.len() - i,
{
    if i < params.len() {
        let first = params[i];
        if first.0.value@ == "desc"@ && assigned_string(first.1) is Some {
            lemma_description(params, i + 1, assigned_string(first.1));
        }
    }
}

proof fn lemma_description_fails(
    params: Seq<(Name, Attribute)>,
    i: int,
    k: int,
    desc: Option<String>,
)
    requires
        0 <= i <= k < params.len(),
        forall|j: int|
            i <= j < k ==> (#[trigger] params[j]).0.value@ == "desc"@ && (
            params[j].1.value matches Attribute_::Assigned(_, Some(_))),
    ensures
        cmd_description(params, i, desc) == cmd_description(
            params,
            k,
            if i < k {
                params[k - 1].1.value->Assigned_1
            } else {
                desc
            },
        ),
    decreases k - i,
{
    if i < k {
        let first = params[i];
        lemma_description_fails(params, i + 1, k, assigned_string(first.1));
    }
}

/// The parameters of a command are accepted if and only if each is a `desc` that is assigned a
/// byte string. The last of them is the description. The first that is not accepted is
/// reported: where it stands if it is not a `desc`, and else where its attribute stands.
pub proof fn law_command_description(params: Seq<(Name, Attribute)>)
    ensures
        cmd_description(params, 0, None) is Ok <==> forall|k: int|
            0 <= k < params.len() ==> (#[trigger] params[k]).0.value@ == "desc"@ && (
            params[k].1.value matches Attribute_::Assigned(_, Some(_))),
        cmd_description(params, 0, None) matches Ok(d) ==> (params.len() == 0 ==> d is None) && (
        params.len() > 0 ==> (params.last().1.value matches Attribute_::Assigned(_, text) && d
            == text && text is Some)),
        forall|k: int|
            0 <= k < params.len() && (forall|j: int|
                0 <= j < k ==> (#[trigger] params[j]).0.value@ == "desc"@ && (
                params[j].1.value matches Attribute_::Assigned(_, Some(_)))) ==> {
                &&& (#[trigger] params[k]).0.value@ != "desc"@ ==> cmd_description(
                    params,
                    0,
                    None,
                ) == Err::<Option<String>, DiagnosticView>(
                    DiagnosticView {
                        loc: params[k].0.loc,
                        message: "Unrecognized parameter to cmd directive"@,
                    },
                )
                &&& params[k].0.value@ == "desc"@ && !(
                params[k].1.value matches Attribute_::Assigned(_, Some(_))) ==> cmd_description(
                    params,
                    0,
                    None,
                ) == Err::<Option<String>, DiagnosticView>(
                    DiagnosticView {
                        loc: params[k].1.loc,
                        message:
                            "desc needs to be assigned a byte string value (e.g. b\"description\")"@,
                    },
                )
            },
{
    lemma_description(params, 0, None);
    if params.len() > 0 {
        let last = params.last();
        assert(last == params[params.len() - 1]);
    }
    assert forall|k: int|
        0 <= k < params.len() && (forall|j: int|
            0 <= j < k ==> (#[trigger] params[j]).0.value@ == "desc"@ && (
            params[j].1.value matches Attribute_::Assigned(_, Some(_)))) implies {
        &&& (#[trigger] params[k]).0.value@ != "desc"@ ==> cmd_description(params, 0, None)
            == Err::<Option<String>, DiagnosticView>(
            DiagnosticView {
                loc: params[k].0.loc,
                message: "Unrecognized parameter to cmd directive"@,
            },
        )
        &&& params[k].0.value@ == "desc"@ && !(
        params[k].1.value matches Attribute_::Assigned(_, Some(_))) ==> cmd_description(
            params,
            0,
            None,
        ) == Err::<Option<String>, DiagnosticView>(
            DiagnosticView {
                loc: params[k].1.loc,
                message: "desc needs to be assigned a byte string value (e.g. b\"description\")"@,
            },
        )
    } by {
        lemma_description_fails(params, 0, k, None);
    }
}

proof fn lemma_directives_below(
    p: Page,
    fname: FunctionName,
    f: Function,
    mident: ModuleIdent,
    i: int,
)
    requires
        p.cur.len() == 0,
        0 <= i <= f.attributes@.len(),
    ensures
        ({
            let steps = function_directives_from(fname, f, Some(mident), i);
            &&& passes(steps) ==> paged(p, steps) == below(
                p,
                Seq::new(
                    cmd_attributes(f.attributes@.skip(i)).len(),
                    |k: int| Seq::<char>::empty(),
                ),
            )
            &&& passes(steps) <==> forall|k: int|
                i <= k < f.attributes@.len() ==> ((#[trigger] f.attributes@[k]).0.value@ == "cmd"@
                    ==> good_cmd(f.attributes@[k].1))
        }),
    decreases f.attributes@.len() - i,
{
    broadcast use {group_paged, group_passes};

    let attrs = f.attributes@;
    let steps = function_directives_from(fname, f, Some(mident), i);
    lemma_cmd_attributes_skip(attrs, i);
    if i < attrs.len() {
        let (name, attr) = attrs[i];
        if name.value@ == "cmd"@ {
            match attr.value {
                Attribute_::Parameterized(_, params) => {
                    lemma_description(params@, 0, None);
                },
                Attribute_::Name(_) => {
                    lemma_description(seq![], 0, None);
                },
                _ => {},
            }
            let next = Page { lines: p.lines.push(p.cur), ..p };
            lemma_directives_below(next, fname, f, mident, i + 1);
        } else {
            lemma_directives_below(p, fname, f, mident, i + 1);
        }
    }
    if passes(steps) {
        let q = paged(p, steps);
        assert(p.cur =~= Seq::empty());
        assert(q.lines =~= p.lines + Seq::new(
            cmd_attributes(attrs.skip(i)).len(),
            |k: int| Seq::<char>::empty(),
        ));
        assert(q.cur =~= Seq::empty());
    }
}

proof fn lemma_kept_are_parameters(parameters: Seq<(Var, SingleType)>, i: int)
    requires
        0 <= i <= parameters.len(),
    ensures
        forall|k: int|
            0 <= k < without_signers(parameters.skip(i)).len() ==> parameters.contains(
                #[trigger] without_signers(parameters.skip(i))[k],
            ),
    decreases parameters.len() - i,
{
    if i < parameters.len() {
        lemma_without_signers_skip(parameters, i);
        lemma_kept_are_parameters(parameters, i + 1);
        let all = without_signers(parameters.skip(i));
        let rest = without_signers(parameters.skip(i + 1));
        assert forall|k: int| 0 <= k < all.len() implies parameters.contains(#[trigger] all[k]) by {
            if signer(parameters[i].1) {
                assert(all[k] == rest[k]);
            } else if k > 0 {
                assert(all[k] == rest[k - 1]);
            } else {
                assert(all[k] == parameters[i]);
            }
        }
    } else {
        lemma_without_signers_end(parameters);
    }
}

proof fn lemma_function_below(
    p: Page,
    name: FunctionName,
    func: Function,
    test: bool,
    mident: ModuleIdent,
)
    ensures
        ({
            let steps = function_ts_steps(name, func, test, Some(mident));
            &&& passes(steps) ==> paged(p, steps) == below(
                p,
                body_lines(name, func, test, p) + (if func.entry is Some && valid_parameters(
                    func.signature.parameters@,
                    0,
                ) == Some(true) {
                    payload_lines(name, func, mident, p.level) + Seq::new(
                        cmd_attributes(func.attributes@).len(),
                        |k: int| Seq::<char>::empty(),
                    )
                } else {
                    Seq::empty()
                }),
            )
            &&& passes(steps) <==> {
                &&& test ==> func.is_test is Ok
                &&& forall|k: int|
                    0 <= k < func.signature.parameters@.len() ==> (
                    #[trigger] func.signature.parameters@[k]).1.ts.text is Ok
                &&& func.signature.return_type.ts.text is Ok
                &&& func.entry is Some ==> valid_parameters(func.signature.parameters@, 0) is Some
                &&& func.entry is Some && valid_parameters(func.signature.parameters@, 0) == Some(
                    true,
                ) ==> forall|k: int|
                    0 <= k < func.attributes@.len() ==> ((#[trigger] func.attributes@[k]).0.value@
                        == "cmd"@ ==> good_cmd(func.attributes@[k].1))
            }
        }),
{
    broadcast use {group_paged, group_passes};

    let parameters = func.signature.parameters@;
    let steps = function_ts_steps(name, func, test, Some(mident));
    lemma_body_below(p, name, func, test);
    let p1 = below(p, body_lines(name, func, test, p));
    law_valid_parameters(parameters);
    lemma_payload_below(p1, name, func, mident);
    lemma_call_below(p1, name, func, mident);
    let kept = without_signers(parameters);
    lemma_parameters_below(p1, kept);
    assert(parameters.skip(0) =~= parameters);
    lemma_kept_are_parameters(parameters, 0);
    let p2 = below(p1, payload_lines(name, func, mident, p.level));
    assert(func.attributes@.skip(0) =~= func.attributes@);
    lemma_directives_below(p2, name, func, mident, 0);
    if passes(steps) {
        let q = paged(p, steps);
        assert(q.lines =~= p.lines + (body_lines(name, func, test, p) + (if func.entry is Some
            && valid_parameters(parameters, 0) == Some(true) {
            payload_lines(name, func, mident, p.level) + Seq::new(
                cmd_attributes(func.attributes@).len(),
                |k: int| Seq::<char>::empty(),
            )
        } else {
            Seq::empty()
        })));
        assert(q.cur =~= Seq::empty());
    }
}

/// Printing a function as TypeScript adds these lines to the page: a mark if the function is a
/// unit test and such are marked; the declaration, behind what may stand on the current line;
/// one line for each parameter, in order; the signer; a line that names the type parameters
/// if there are any; the return type and the body; and a blank line. Then, if the function is
/// an entry function and each parameter is a signer or can be passed, the function that
/// builds its payload, with one line for each parameter that is not a signer and one argument
/// for each of them; and a blank line for each directive that declares a command.
#[verifier::rlimit(40)]
pub proof fn law_function_on_the_page(
    name: FunctionName,
    func: Function,
    test: bool,
    mident: ModuleIdent,
    s: State,
)
    requires
        run(s, function_ts_steps(name, func, test, Some(mident))).end is Done,
    ensures
        ({
            let before = page(s.doc);
            let after = page(run(s, function_ts_steps(name, func, test, Some(mident))).state.doc);
            let m = margin(before.level);
            let m1 = margin(before.level + 1);
            let parameters = func.signature.parameters@;
            let type_parameters = func.signature.type_parameters@;
            let kept = without_signers(parameters);
            let mark = if test && func.is_test == Ok::<bool, Diagnostic>(true) {
                seq![line_start(before) + "// #[test]"@]
            } else {
                Seq::empty()
            };
            let start = if test && func.is_test == Ok::<bool, Diagnostic>(true) {
                m
            } else {
                line_start(before)
            };
            let named = if type_parameters.len() == 0 {
                Seq::empty()
            } else {
                seq![
                    m + ("  $p: TypeTag[], /* <"@ + joined(
                        type_parameters.map_values(|tp: TParam| tp.user_specified_name.value@),
                        ", "@,
                    ) + ">*/"@),
                ]
            };
            let body = mark + seq![start + ("export function "@ + name.0.ts@ + "$ ("@)]
                + parameters.map_values(
                |x: (Var, SingleType)| m1 + (x.0.0.ts@ + ": "@ + x.1.ts.shown() + ","@),
            ) + seq![m + "  $signer: any,"@] + named + seq![
                m + "): "@ + func.signature.return_type.ts.shown() + " "@ + "{"@,
                m + "  $signer(arguments);"@,
                m + "}"@,
                Seq::empty(),
            ];
            let arguments = if kept.len() == 0 {
                seq![m1 + "  []"@]
            } else {
                seq![m1 + "  ["@] + kept.map_values(
                    |x: (Var, SingleType)|
                        m1 + ("    "@ + rendered_text(param_handler(x.0, x.1)) + ","@),
                ) + seq![m1 + "  ]"@]
            };
            let payload = seq![
                Seq::empty(),
                m + ("export function buildPayload_"@ + name.0.value@ + " ("@),
            ] + kept.map_values(
                |x: (Var, SingleType)| m1 + (x.0.0.ts@ + ": "@ + x.1.ts.shown() + ","@),
            ) + named + seq![
                m + ") "@ + "{"@,
                m1 + (if type_parameters.len() == 0 {
                    "const typeParamStrings = [] as string[];"@
                } else {
                    "const typeParamStrings = $p.map(t=>$.getTypeTagFullname(t));"@
                }),
                m1 + "return $.buildPayload("@,
                m1 + ("  \""@ + mident.value.address.hex@ + "::"@ + mident.value.module.0.value@
                    + "::"@ + name.0.value@ + "\","@),
                m1 + "  typeParamStrings,"@,
            ] + arguments + seq![m1 + ");"@, Seq::empty(), m + "}"@];
            let blanks = Seq::new(
                func.attributes@.filter(|a: (Name, Attribute)| a.0.value@ == "cmd"@).len(),
                |k: int| Seq::<char>::empty(),
            );
            let offered = func.entry is Some && forall|i: int|
                0 <= i < parameters.len() ==> signer((#[trigger] parameters[i]).1)
                    || param_handler(parameters[i].0, parameters[i].1) is Text;
            &&& after.cur.len() == 0
            &&& after.level == before.level
            &&& after.lines == before.lines + body + (if offered {
                payload + blanks
            } else {
                Seq::empty()
            })
        }),
{
    let steps = function_ts_steps(name, func, test, Some(mident));
    let p = page(s.doc);
    lemma_paged_run(s, steps);
    lemma_done_passes(s, steps);
    lemma_function_below(p, name, func, test, mident);
    law_valid_parameters(func.signature.parameters@);
    let m = margin(p.level);
    let m1 = margin(p.level + 1);
    let parameters = func.signature.parameters@;
    let type_parameters = func.signature.type_parameters@;
    let kept = without_signers(parameters);
    assert(tparam_names(type_parameters) =~= type_parameters.map_values(
        |tp: TParam| tp.user_specified_name.value@,
    ));
    assert(parameter_lines(parameters, p.level + 1) =~= parameters.map_values(
        |x: (Var, SingleType)| m1 + (x.0.0.ts@ + ": "@ + x.1.ts.shown() + ","@),
    ));
    assert(parameter_lines(kept, p.level + 1) =~= kept.map_values(
        |x: (Var, SingleType)| m1 + (x.0.0.ts@ + ": "@ + x.1.ts.shown() + ","@),
    ));
    assert(argument_lines(kept, p.level + 1) =~= kept.map_values(
        |x: (Var, SingleType)| m1 + ("    "@ + rendered_text(param_handler(x.0, x.1)) + ","@),
    ));
    let named = tparams_lines(type_parameters, p.level);
    let declaration = "export function "@ + name.0.ts@ + "$ ("@;
    let front = if test && func.is_test == Ok::<bool, Diagnostic>(true) {
        seq![line_start(p) + "// #[test]"@] + seq![m + declaration]
    } else {
        Seq::empty() + seq![line_start(p) + declaration]
    };
    assert(front =~= if test && func.is_test == Ok::<bool, Diagnostic>(true) {
        seq![line_start(p) + "// #[test]"@, m + declaration]
    } else {
        seq![line_start(p) + declaration]
    });
    let payload = payload_lines(name, func, mident, p.level);
    let call = call_lines(name, func, mident, p.level + 1);
    let arguments = if kept.len() == 0 {
        seq![m1 + "  []"@]
    } else {
        seq![m1 + "  ["@] + argument_lines(kept, p.level + 1) + seq![m1 + "  ]"@]
    };
    let head = seq![
        m + ") "@ + "{"@,
        m1 + (if type_parameters.len() == 0 {
            "const typeParamStrings = [] as string[];"@
        } else {
            "const typeParamStrings = $p.map(t=>$.getTypeTagFullname(t));"@
        }),
        m1 + "return $.buildPayload("@,
        m1 + ("  \""@ + mident.value.address.hex@ + "::"@ + mident.value.module.0.value@ + "::"@
            + name.0.value@ + "\","@),
        m1 + "  typeParamStrings,"@,
    ];
    assert(seq![m + ") "@ + "{"@] + call =~= head + arguments + seq![m1 + ");"@]);
    let opening = seq![
        Seq::empty(),
        m + ("export function buildPayload_"@ + name.0.value@ + " ("@),
    ];
    let kept_lines = parameter_lines(kept, p.level + 1);
    assert(payload =~= opening + kept_lines + named + (seq![m + ") "@ + "{"@] + call) + seq![
        Seq::empty(),
        m + "}"@,
    ]);
    assert(payload =~= opening + kept_lines + named + head + arguments + seq![
        m1 + ");"@,
        Seq::empty(),
        m + "}"@,
    ]);
    assert(body_lines(name, func, test, p) =~= front + parameter_lines(parameters, p.level + 1)
        + seq![m + "  $signer: any,"@] + named + seq![
        m + "): "@ + func.signature.return_type.ts.shown() + " "@ + "{"@,
        m + "  $signer(arguments);"@,
        m + "}"@,
        Seq::empty(),
    ]);
}

/// Two texts in front of which the same text stands differ if they differ.
proof fn lemma_same_front(front: Seq<char>, a: Seq<char>, b: Seq<char>)
    ensures
        front + a == front + b <==> a == b,
{
    if front + a == front + b {
        assert((front + a).skip(front.len() as int) =~= a);
        assert((front + b).skip(front.len() as int) =~= b);
    }
}

/// In the payload of an entry function the type arguments that a caller passes are used if and
/// only if the function has a type parameter, and there are none if and only if it has none.
/// The line stands in front of the call, which is followed by the name of the function, the
/// type arguments and the arguments: one line if there are none, and else one line for each
/// and two brackets.
pub proof fn law_payload_uses_type_arguments(
    name: FunctionName,
    func: Function,
    test: bool,
    mident: ModuleIdent,
    s: State,
)
    requires
        run(s, function_ts_steps(name, func, test, Some(mident))).end is Done,
        func.entry is Some,
        forall|i: int|
            0 <= i < func.signature.parameters@.len() ==> signer(
                (#[trigger] func.signature.parameters@[i]).1,
            ) || param_handler(
                func.signature.parameters@[i].0,
                func.signature.parameters@[i].1,
            ) is Text,
    ensures
        ({
            let after = page(run(s, function_ts_steps(name, func, test, Some(mident))).state.doc);
            let m1 = margin(page(s.doc).level + 1);
            let kept = without_signers(func.signature.parameters@).len();
            let blanks = func.attributes@.filter(
                |a: (Name, Attribute)| a.0.value@ == "cmd"@,
            ).len();
            let arguments = if kept == 0 {
                1nat
            } else {
                kept + 2
            };
            let at = after.lines.len() - blanks - 3 - arguments - 4;
            &&& page(s.doc).lines.len() <= at
            &&& after.lines[at] == m1
                + "const typeParamStrings = $p.map(t=>$.getTypeTagFullname(t));"@
                <==> func.signature.type_parameters@.len() > 0
            &&& after.lines[at] == m1 + "const typeParamStrings = [] as string[];"@
                <==> func.signature.type_parameters@.len() == 0
            &&& after.lines[at + 1] == m1 + "return $.buildPayload("@
        }),
{
    law_function_on_the_page(name, func, test, mident, s);
    let m1 = margin(page(s.doc).level + 1);
    reveal_strlit("const typeParamStrings = $p.map(t=>$.getTypeTagFullname(t));");
    reveal_strlit("const typeParamStrings = [] as string[];");
    assert("const typeParamStrings = $p.map(t=>$.getTypeTagFullname(t));"@.len()
        != "const typeParamStrings = [] as string[];"@.len());
    lemma_same_front(
        m1,
        "const typeParamStrings = $p.map(t=>$.getTypeTagFullname(t));"@,
        "const typeParamStrings = [] as string[];"@,
    );
}

/// A function can be printed as TypeScript in a module if and only if its test attributes are
/// valid, where tests are marked; the types of its parameters and its return type have texts;
/// and, if it is an entry function each of whose parameters is a signer or can be passed, each
/// directive that declares it a command can be handled. This leaves out entry functions with
/// parameters that the compiler does not hand out.
pub proof fn law_function_can_be_printed(
    name: FunctionName,
    func: Function,
    test: bool,
    mident: ModuleIdent,
    s: State,
)
    requires
        func.entry is Some ==> parameters_well_formed(func.signature.parameters@),
    ensures
        run(s, function_ts_steps(name, func, test, Some(mident))).end is Done <==> {
            let parameters = func.signature.parameters@;
            &&& test ==> func.is_test is Ok
            &&& forall|k: int|
                0 <= k < parameters.len() ==> (#[trigger] parameters[k]).1.ts.text is Ok
            &&& func.signature.return_type.ts.text is Ok
            &&& func.entry is Some && (forall|i: int|
                0 <= i < parameters.len() ==> signer((#[trigger] parameters[i]).1)
                    || param_handler(parameters[i].0, parameters[i].1) is Text) ==> forall|
                k: int,
            |
                0 <= k < func.attributes@.len() ==> ((#[trigger] func.attributes@[k]).0.value@
                    == "cmd"@ ==> good_cmd(func.attributes@[k].1))
        },
{
    let steps = function_ts_steps(name, func, test, Some(mident));
    lemma_function_below(page(s.doc), name, func, test, mident);
    law_valid_parameters(func.signature.parameters@);
    lemma_function_shape(name, func, test, Some(mident));
    if func.entry is Some {
        lemma_parameters_well_formed(func.signature.parameters@, 0);
    }
    if passes(steps) {
        lemma_passes_done(Kind::Function, s, steps);
    }
    if run(s, steps).end is Done {
        lemma_done_passes(s, steps);
    }
}

proof fn lemma_parameters_json_paged(p: Page, parameters: Seq<(Var, SingleType)>, i: int)
    requires
        p.cur.len() == 0,
        0 <= i <= parameters.len(),
    ensures
        ({
            let q = paged(p, parameters_json_from(parameters, false, i));
            &&& q.cur.len() == 0
            &&& q.level == p.level
            &&& q.lines == p.lines + Seq::new(
                (parameters.len() - i) as nat,
                |k: int|
                    margin(p.level) + ("\""@ + parameters[i + k].0.0.ts@ + "\": \""@
                        + parameters[i + k].1.ts.shown() + "\","@),
            )
        }),
        passes(parameters_json_from(parameters, false, i)) <==> forall|k: int|
            i <= k < parameters.len() ==> (#[trigger] parameters[k]).1.ts.text is Ok,
    decreases parameters.len() - i,
{
    broadcast use {group_paged, group_passes};

    if i < parameters.len() {
        let (name, ty) = parameters[i];
        let text = "\""@ + name.0.ts@ + "\": \""@ + ty.ts.shown() + "\","@;
        let next = Page {
            lines: p.lines.push(margin(p.level) + text),
            cur: Seq::empty(),
            level: p.level,
        };
        lemma_parameters_json_paged(next, parameters, i + 1);
        assert(paged(p, ask(ty.ts) + line(text)) == next);
    }
    assert(paged(p, parameters_json_from(parameters, false, i)).lines =~= p.lines + Seq::new(
        (parameters.len() - i) as nat,
        |k: int|
            margin(p.level) + ("\""@ + parameters[i + k].0.0.ts@ + "\": \""@
                + parameters[i + k].1.ts.shown() + "\","@),
    ));
}

/// Quoting each name of a list and joining them is joining them with quotes between and
/// around.
proof fn lemma_quoted_names(tparams: Seq<TParam>)
    requires
        tparams.len() > 0,
    ensures
        joined(quoted_names(tparams), ", "@) == "\""@ + joined(
            tparam_names(tparams),
            "\", \""@,
        ) + "\""@,
    decreases tparams.len(),
{
    let quoted = quoted_names(tparams);
    let names = tparam_names(tparams);
    if tparams.len() > 1 {
        let shorter = tparams.drop_last();
        lemma_quoted_names(shorter);
        assert(quoted.drop_last() =~= quoted_names(shorter));
        assert(names.drop_last() =~= tparam_names(shorter));
        reveal_strlit("\", \"");
        reveal_strlit("\"");
        reveal_strlit(", ");
        assert("\", \""@ =~= "\""@ + ", "@ + "\""@);
        assert(joined(quoted, ", "@) =~= "\""@ + joined(names, "\", \""@) + "\""@);
    }
}

/// Printing a function as JSON adds these lines to the page, in an object: whether it is a unit
/// test, if such are marked; its name; one line for each parameter, in order; the list of the
/// names of its type parameters, each in quotes and in order; and its return type.
pub proof fn law_function_json_on_the_page(
    name: FunctionName,
    func: Function,
    test: bool,
    s: State,
)
    requires
        run(s, function_json_steps(name, func, test)).end is Done,
    ensures
        ({
            let before = page(s.doc);
            let after = page(run(s, function_json_steps(name, func, test)).state.doc);
            let m = margin(before.level);
            let m1 = margin(before.level + 1);
            let mark = if test && func.is_test == Ok::<bool, Diagnostic>(true) {
                seq![m + "  \"test\": true,"@]
            } else {
                Seq::empty()
            };
            &&& after.cur.len() == 0
            &&& after.level == before.level
            &&& after.lines == before.lines + seq![line_start(before) + "{"@] + mark + seq![
                m + ("  \"name\": \""@ + name.0.ts@ + "\","@),
            ] + func.signature.parameters@.map_values(
                |x: (Var, SingleType)|
                    m1 + ("\""@ + x.0.0.ts@ + "\": \""@ + x.1.ts.shown() + "\","@),
            ) + seq![
                m + ("  \"types\": ["@ + joined(
                    quoted_names(func.signature.type_parameters@),
                    ", "@,
                ) + "],"@),
                m + ("  \"returnType\": \""@ + func.signature.return_type.ts.shown() + "\","@),
                m + "},"@,
            ]
        }),
{
    lemma_paged_run(s, function_json_steps(name, func, test));
    lemma_done_passes(s, function_json_steps(name, func, test));
    lemma_json_below(page(s.doc), name, func, test);
}

proof fn lemma_json_below(p: Page, name: FunctionName, func: Function, test: bool)
    ensures
        ({
            let m = margin(p.level);
            let m1 = margin(p.level + 1);
            let steps = function_json_steps(name, func, test);
            let mark = if test && func.is_test == Ok::<bool, Diagnostic>(true) {
                seq![m + "  \"test\": true,"@]
            } else {
                Seq::empty()
            };
            &&& passes(steps) ==> paged(p, steps) == below(
                p,
                seq![line_start(p) + "{"@] + mark + seq![
                    m + ("  \"name\": \""@ + name.0.ts@ + "\","@),
                ] + func.signature.parameters@.map_values(
                    |x: (Var, SingleType)|
                        m1 + ("\""@ + x.0.0.ts@ + "\": \""@ + x.1.ts.shown() + "\","@),
                ) + seq![
                    m + ("  \"types\": ["@ + joined(
                        quoted_names(func.signature.type_parameters@),
                        ", "@,
                    ) + "],"@),
                    m + ("  \"returnType\": \""@ + func.signature.return_type.ts.shown()
                        + "\","@),
                    m + "},"@,
                ],
            )
            &&& passes(steps) <==> {
                &&& test ==> func.is_test is Ok
                &&& forall|k: int|
                    0 <= k < func.signature.parameters@.len() ==> (
                    #[trigger] func.signature.parameters@[k]).1.ts.text is Ok
                &&& func.signature.return_type.ts.text is Ok
            }
        }),
{
    broadcast use {group_paged, group_passes};

    reveal(function_json_steps);
    let steps = function_json_steps(name, func, test);
    let sig = func.signature;
    let m = margin(p.level);
    let m1 = margin(p.level + 1);
    let mark = test_mark_steps(func, test, "  \"test\": true,"@);
    let head = line("{"@) + mark + line("  \"name\": \""@ + name.0.ts@ + "\","@);
    let p1 = paged(p, head);
    assert(p1.cur =~= Seq::empty());
    let inner = Page { level: p.level + 1, ..p1 };
    lemma_parameters_json_paged(inner, sig.parameters@, 0);
    let p2 = paged(p1, parameters_json_steps(sig.parameters@, false));
    let listed = sig.parameters@.map_values(
        |x: (Var, SingleType)| m1 + ("\""@ + x.0.0.ts@ + "\": \""@ + x.1.ts.shown() + "\","@),
    );
    assert(p2.lines =~= p1.lines + listed);
    assert(p2.cur =~= Seq::empty());
    let types = "  \"types\": ["@ + joined(quoted_names(sig.type_parameters@), ", "@) + "],"@;
    if sig.type_parameters@.len() > 0 {
        lemma_quoted_names(sig.type_parameters@);
        reveal_strlit("  \"types\": [\"");
        reveal_strlit("  \"types\": [");
        reveal_strlit("\"");
        reveal_strlit("],");
        reveal_strlit("\"],");
        assert("  \"types\": [\""@ =~= "  \"types\": ["@ + "\""@);
        assert("\"],"@ =~= "\""@ + "],"@);
        assert(types =~= "  \"types\": [\""@ + joined(
            tparam_names(sig.type_parameters@),
            "\", \""@,
        ) + "\"],"@);
    } else {
        assert(quoted_names(sig.type_parameters@) =~= Seq::empty());
        reveal_strlit("  \"types\": [");
        reveal_strlit("],");
        reveal_strlit("  \"types\": [],");
        assert(types =~= "  \"types\": [],"@);
    }
    if passes(steps) {
        let q = paged(p, steps);
        let ret = "  \"returnType\": \""@ + sig.return_type.ts.shown() + "\","@;
        assert(q.lines == p2.lines.push(m + types).push(m + ret).push(m + "},"@));
        let tail = seq![m + types, m + ret, m + "},"@];
        assert(q.lines =~= p2.lines + tail);
        let test_lines = if test && func.is_test == Ok::<bool, Diagnostic>(true) {
            seq![m + "  \"test\": true,"@]
        } else {
            Seq::empty()
        };
        assert(p1.lines =~= p.lines + (seq![line_start(p) + "{"@] + test_lines + seq![
            m + ("  \"name\": \""@ + name.0.ts@ + "\","@),
        ]));
        assert(q.lines =~= p.lines + (seq![line_start(p) + "{"@] + test_lines + seq![
            m + ("  \"name\": \""@ + name.0.ts@ + "\","@),
        ] + listed + tail));
        assert(q.cur =~= Seq::empty());
    }
}

/// A function can be printed as JSON if and only if its test attributes are valid, where tests
/// are marked, and the types of its parameters and its return type have texts.
pub proof fn law_function_json_can_be_printed(
    name: FunctionName,
    func: Function,
    test: bool,
    s: State,
)
    ensures
        run(s, function_json_steps(name, func, test)).end is Done <==> {
            &&& test ==> func.is_test is Ok
            &&& forall|k: int|
                0 <= k < func.signature.parameters@.len() ==> (
                #[trigger] func.signature.parameters@[k]).1.ts.text is Ok
            &&& func.signature.return_type.ts.text is Ok
        },
{
    let steps = function_json_steps(name, func, test);
    lemma_json_below(page(s.doc), name, func, test);
    lemma_function_json_shape(name, func, test);
    if passes(steps) {
        lemma_passes_done(Kind::Plain, s, steps);
    }
    if run(s, steps).end is Done {
        lemma_done_passes(s, steps);
    }
}

proof fn lemma_parameters_json_kept(p: Page, parameters: Seq<(Var, SingleType)>, i: int)
    requires
        p.cur.len() == 0,
        0 <= i <= parameters.len(),
    ensures
        paged(p, parameters_json_from(parameters, true, i)) == below(
            p,
            without_signers(parameters.skip(i)).map_values(
                |x: (Var, SingleType)|
                    margin(p.level) + ("\""@ + x.0.0.ts@ + "\": \""@ + x.1.ts.shown() + "\","@),
            ),
        ),
    decreases parameters.len() - i,
{
    broadcast use group_paged;

    let rest = without_signers(parameters.skip(i));
    if i < parameters.len() {
        lemma_without_signers_skip(parameters, i);
        let (name, ty) = parameters[i];
        if signer(ty) {
            lemma_parameters_json_kept(p, parameters, i + 1);
        } else {
            let text = "\""@ + name.0.ts@ + "\": \""@ + ty.ts.shown() + "\","@;
            let next = Page {
                lines: p.lines.push(margin(p.level) + text),
                cur: Seq::empty(),
                level: p.level,
            };
            lemma_parameters_json_kept(next, parameters, i + 1);
            assert(paged(p, ask(ty.ts) + line(text)) == next);
            assert(rest[0] == parameters[i]);
            assert(rest.skip(1) =~= without_signers(parameters.skip(i + 1)));
        }
    } else {
        lemma_without_signers_end(parameters);
    }
    let q = paged(p, parameters_json_from(parameters, true, i));
    assert(q.lines =~= p.lines + rest.map_values(
        |x: (Var, SingleType)|
            margin(p.level) + ("\""@ + x.0.0.ts@ + "\": \""@ + x.1.ts.shown() + "\","@),
    ));
    assert(q.cur =~= Seq::empty());
}

/// Printing parameters below a line adds one line for each parameter, in order and one level
/// further in. Where signers are to be skipped, it adds none for a signer.
pub proof fn law_parameters_on_the_page(
    parameters: Seq<(Var, SingleType)>,
    skip_signer: bool,
    s: State,
)
    requires
        page(s.doc).cur.len() == 0,
        run(s, parameters_steps(parameters, skip_signer)).end is Done,
    ensures
        ({
            let before = page(s.doc);
            let shown = if skip_signer {
                parameters.filter(|x: (Var, SingleType)| !signer(x.1))
            } else {
                parameters
            };
            page(run(s, parameters_steps(parameters, skip_signer)).state.doc) == (Page {
                lines: before.lines + shown.map_values(
                    |x: (Var, SingleType)|
                        margin(before.level + 1) + (x.0.0.ts@ + ": "@ + x.1.ts.shown() + ","@),
                ),
                cur: Seq::empty(),
                level: before.level,
            })
        }),
{
    let p = page(s.doc);
    lemma_paged_run(s, parameters_steps(parameters, skip_signer));
    if skip_signer {
        law_signers_are_skipped(parameters);
        assert(without_signers(parameters) == parameters.filter(
            |x: (Var, SingleType)| !signer(x.1),
        ));
        lemma_parameters_below(p, without_signers(parameters));
    } else {
        lemma_parameters_below(p, parameters);
    }
}

/// Printing parameters as JSON below a line adds one line for each parameter, in order and one
/// level further in. Where signers are to be skipped, it adds none for a signer.
pub proof fn law_parameters_json_on_the_page(
    parameters: Seq<(Var, SingleType)>,
    skip_signer: bool,
    s: State,
)
    requires
        page(s.doc).cur.len() == 0,
        run(s, parameters_json_steps(parameters, skip_signer)).end is Done,
    ensures
        ({
            let before = page(s.doc);
            let shown = if skip_signer {
                parameters.filter(|x: (Var, SingleType)| !signer(x.1))
            } else {
                parameters
            };
            page(run(s, parameters_json_steps(parameters, skip_signer)).state.doc) == (Page {
                lines: before.lines + shown.map_values(
                    |x: (Var, SingleType)|
                        margin(before.level + 1) + ("\""@ + x.0.0.ts@ + "\": \""@
                            + x.1.ts.shown() + "\","@),
                ),
                cur: Seq::empty(),
                level: before.level,
            })
        }),
{
    broadcast use group_paged;

    let p = page(s.doc);
    let steps = parameters_json_steps(parameters, skip_signer);
    let inner = Page { level: p.level + 1, ..p };
    lemma_paged_run(s, steps);
    let q = paged(p, steps);
    if skip_signer {
        assert(parameters.skip(0) =~= parameters);
        assert(without_signers(parameters) == parameters.filter(
            |x: (Var, SingleType)| !signer(x.1),
        ));
        lemma_parameters_json_kept(inner, parameters, 0);
    } else {
        lemma_parameters_json_paged(inner, parameters, 0);
        assert(q.lines =~= p.lines + parameters.map_values(
            |x: (Var, SingleType)|
                margin(p.level + 1) + ("\""@ + x.0.0.ts@ + "\": \""@ + x.1.ts.shown() + "\","@),
        ));
    }
    assert(q.cur =~= Seq::empty());
}

} // verus!
