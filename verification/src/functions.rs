//! Functions.

use crate::ast::{
    Attribute, Attribute_, Attributes, DiagnosticView, Function, FunctionName,
    FunctionSignature, ModuleIdent, Name, SingleType, TParam, TermResult, Var, WriteResult,
};
use crate::script::{
    ask, close_short_block, defined, fail, group_run, lemma_run_keeps, line, newline,
    open_short_block, performed, put, run, text, verdict, End, State, Step,
};
use crate::shared::{
    assigned_string, copy_diagnostic, derr, extract_attribute_value_string, format_address_hex,
    rename, says, CmdView, Context, ContextView,
};
use crate::text::{cat3, cat4, cat5, cat7, join_names, joined, same_text, views};
use crate::tsgen_writer::{Piece, TsgenWriter};
use crate::types::{
    get_ts_handler_for_script_function_param, is_type_signer, param_handler,
    script_function_has_valid_parameter, signer, valid_parameters, Rendered,
};
use vstd::prelude::*;

verus! {

impl FunctionName {
    pub fn term(&self, _c: &mut Context) -> (r: TermResult)
        ensures
            r is Ok,
            r->Ok_0@ == self.0.ts@,
            final(_c)@ == old(_c)@,
    {
        Ok(rename(&self.0))
    }
}

/// The steps of printing the parameters from the one at `i` on, one to a line.
pub open spec fn parameters_from(
    parameters: Seq<(Var, SingleType)>,
    skip_signer: bool,
    i: int,
) -> Seq<Step>
    decreases parameters.len() - i,
{
    if 0 <= i < parameters.len() {
        let (name, ty) = parameters[i];
        (if skip_signer && signer(ty) {
            seq![]
        } else {
            ask(ty.ts) + line(name.0.ts@ + ": "@ + ty.ts.shown() + ","@)
        }) + parameters_from(parameters, skip_signer, i + 1)
    } else {
        seq![]
    }
}

/// The steps of printing parameters, one to a line.
pub open spec fn parameters_steps(
    parameters: Seq<(Var, SingleType)>,
    skip_signer: bool,
) -> Seq<Step> {
    put(Piece::In) + parameters_from(parameters, skip_signer, 0) + put(Piece::Out)
}

/// Prints the parameters of a function.
pub fn write_parameters(
    sig: &FunctionSignature,
    w: &mut TsgenWriter,
    c: &mut Context,
    skip_signer: bool,
) -> (r: WriteResult)
    ensures
        performed(
            old(w)@,
            old(c)@,
            parameters_steps(sig.parameters@, skip_signer),
            final(w)@,
            final(c)@,
            r,
        ),
{
    broadcast use group_run;

    let ghost s0 = State { doc: w@, ctx: c@ };
    w.increase_indent();
    let mut i: usize = 0;
    while i < sig.parameters.len()
        invariant
            i <= sig.parameters.len(),
            s0 == (State { doc: old(w)@, ctx: old(c)@ }),
            run(s0, parameters_steps(sig.parameters@, skip_signer)) == run(
                State { doc: w@, ctx: c@ },
                parameters_from(sig.parameters@, skip_signer, i as int) + put(Piece::Out),
            ),
        decreases sig.parameters.len() - i,
    {
        broadcast use group_run;

        let name = &sig.parameters[i].0;
        let ty = &sig.parameters[i].1;
        if !(skip_signer && is_type_signer(ty)) {
            let t = ty.ts.term(c)?;
            w.writeln(cat4(rename(&name.0).as_str(), ": ", t.as_str(), ",").as_str());
        }
        i = i + 1;
    }
    w.decrease_indent();
    Ok(())
}

/// The steps of printing the parameters from the one at `i` on as JSON.
pub open spec fn parameters_json_from(
    parameters: Seq<(Var, SingleType)>,
    skip_signer: bool,
    i: int,
) -> Seq<Step>
    decreases parameters.len() - i,
{
    if 0 <= i < parameters.len() {
        let (name, ty) = parameters[i];
        (if skip_signer && signer(ty) {
            seq![]
        } else {
            ask(ty.ts) + line("\""@ + name.0.ts@ + "\": \""@ + ty.ts.shown() + "\","@)
        }) + parameters_json_from(parameters, skip_signer, i + 1)
    } else {
        seq![]
    }
}

/// The steps of printing parameters as JSON.
pub open spec fn parameters_json_steps(
    parameters: Seq<(Var, SingleType)>,
    skip_signer: bool,
) -> Seq<Step> {
    put(Piece::In) + parameters_json_from(parameters, skip_signer, 0) + put(Piece::Out)
}

/// Prints the parameters of a function as JSON.
pub fn write_parameters_json(
    sig: &FunctionSignature,
    w: &mut TsgenWriter,
    c: &mut Context,
    skip_signer: bool,
) -> (r: WriteResult)
    ensures
        performed(
            old(w)@,
            old(c)@,
            parameters_json_steps(sig.parameters@, skip_signer),
            final(w)@,
            final(c)@,
            r,
        ),
{
    broadcast use group_run;

    let ghost s0 = State { doc: w@, ctx: c@ };
    w.increase_indent();
    let mut i: usize = 0;
    while i < sig.parameters.len()
        invariant
            i <= sig.parameters.len(),
            s0 == (State { doc: old(w)@, ctx: old(c)@ }),
            run(s0, parameters_json_steps(sig.parameters@, skip_signer)) == run(
                State { doc: w@, ctx: c@ },
                parameters_json_from(sig.parameters@, skip_signer, i as int) + put(Piece::Out),
            ),
        decreases sig.parameters.len() - i,
    {
        broadcast use group_run;

        let name = &sig.parameters[i].0;
        let ty = &sig.parameters[i].1;
        if !(skip_signer && is_type_signer(ty)) {
            let t = ty.ts.term(c)?;
            w.writeln(
                cat5("\"", rename(&name.0).as_str(), "\": \"", t.as_str(), "\",").as_str(),
            );
        }
        i = i + 1;
    }
    w.decrease_indent();
    Ok(())
}

/// The description of a command, given `desc` and the parameters of the directive from the
/// one at `i` on.
pub open spec fn cmd_description(
    params: Seq<(Name, Attribute)>,
    i: int,
    desc: Option<String>,
) -> Result<Option<String>, DiagnosticView>
    decreases params.len() - i,
{
    if 0 <= i < params.len() {
        let (pname, pattr) = params[i];
        if pname.value@ == "desc"@ {
            match assigned_string(pattr) {
                Some(text) => cmd_description(params, i + 1, Some(text)),
                None => Err(
                    says(
                        pattr.loc,
                        "desc needs to be assigned a byte string value (e.g. b\"description\")"@,
                    ),
                ),
            }
        } else {
            Err(says(pname.loc, "Unrecognized parameter to cmd directive"@))
        }
    } else {
        Ok(desc)
    }
}

/// The steps of handling a directive that offers a function as a command.
pub open spec fn cmd_directive_steps(
    fname: FunctionName,
    f: Function,
    params: Seq<(Name, Attribute)>,
    module: Option<ModuleIdent>,
) -> Seq<Step> {
    match cmd_description(params, 0, None) {
        Ok(desc) => match module {
            Some(module) => seq![Step::NoteCmd(CmdView { module, fname, function: f, desc })],
            None => verdict(End::Stuck),
        },
        Err(d) => fail(d),
    }
}

/// The parameters of a directive, which may have none.
pub open spec fn inner_of(inner_attrs: Option<&Attributes>) -> Seq<(Name, Attribute)> {
    match inner_attrs {
        Some(params) => params@,
        None => seq![],
    }
}

/// Handles a directive that offers a function as a command.
pub fn handle_function_cmd_directive<'a>(
    fname: &'a FunctionName,
    f: &'a Function,
    inner_attrs: Option<&'a Attributes>,
    _w: &mut TsgenWriter,
    c: &mut Context<'a>,
) -> (r: WriteResult)
    requires
        defined(
            old(_w)@,
            old(c)@,
            cmd_directive_steps(*fname, *f, inner_of(inner_attrs), old(c)@.current_module),
        ),
    ensures
        performed(
            old(_w)@,
            old(c)@,
            cmd_directive_steps(*fname, *f, inner_of(inner_attrs), old(c)@.current_module),
            final(_w)@,
            final(c)@,
            r,
        ),
{
    broadcast use group_run;

    let mut desc: Option<&'a String> = None;
    if let Some(params) = inner_attrs {
        let mut i: usize = 0;
        while i < params.len()
            invariant
                i <= params.len(),
                inner_attrs == Some(params),
                _w@ == old(_w)@,
                c@ == old(c)@,
                cmd_description(params@, 0, None) == cmd_description(
                    params@,
                    i as int,
                    match desc {
                        Some(d) => Some(*d),
                        None => None,
                    },
                ),
            decreases params.len() - i,
        {
            broadcast use group_run;

            let pname = &params[i].0;
            let pattr = &params[i].1;
            if same_text(pname.value.as_str(), "desc") {
                if let Some(str_desc) = extract_attribute_value_string(pattr) {
                    desc = Some(str_desc);
                } else {
                    return Err(
                        derr(
                            pattr.loc,
                            "desc needs to be assigned a byte string value (e.g. b\"description\")",
                        ),
                    );
                }
            } else {
                return Err(derr(pname.loc, "Unrecognized parameter to cmd directive"));
            }
            i = i + 1;
        }
    }
    let module = c.current_module.unwrap();
    c.add_cmd(module, fname, f, desc);
    Ok(())
}

/// The steps of handling the directives on a function from the one at `i` on.
pub open spec fn function_directives_from(
    fname: FunctionName,
    f: Function,
    module: Option<ModuleIdent>,
    i: int,
) -> Seq<Step>
    decreases f.attributes@.len() - i,
{
    if 0 <= i < f.attributes@.len() {
        let (name, attr) = f.attributes@[i];
        (if name.value@ == "cmd"@ {
            match attr.value {
                Attribute_::Parameterized(_, inner_attrs) => newline() + cmd_directive_steps(
                    fname,
                    f,
                    inner_attrs@,
                    module,
                ),
                Attribute_::Name(_) => newline() + cmd_directive_steps(fname, f, seq![], module),
                Attribute_::Assigned(_, _) => fail(
                    says(attr.loc, "the 'cmd' attribute cannot be assigned"@),
                ),
            }
        } else {
            seq![]
        }) + function_directives_from(fname, f, module, i + 1)
    } else {
        seq![]
    }
}

/// Handles the directives on a function.
pub fn handle_function_directives<'a>(
    fname: &'a FunctionName,
    f: &'a Function,
    w: &mut TsgenWriter,
    c: &mut Context<'a>,
) -> (r: WriteResult)
    requires
        defined(
            old(w)@,
            old(c)@,
            function_directives_from(*fname, *f, old(c)@.current_module, 0),
        ),
    ensures
        performed(
            old(w)@,
            old(c)@,
            function_directives_from(*fname, *f, old(c)@.current_module, 0),
            final(w)@,
            final(c)@,
            r,
        ),
{
    broadcast use {group_run, lemma_run_keeps};

    let attrs = &f.attributes;
    let ghost module = c@.current_module;
    let ghost s0 = State { doc: w@, ctx: c@ };
    let ghost steps = function_directives_from(*fname, *f, module, 0);
    let mut i: usize = 0;
    while i < attrs.len()
        invariant
            i <= attrs.len(),
            attrs == f.attributes,
            s0 == (State { doc: old(w)@, ctx: old(c)@ }),
            module == old(c)@.current_module,
            module == c@.current_module,
            steps == function_directives_from(*fname, *f, module, 0),
            !(run(s0, steps).end is Stuck),
            run(s0, steps) == run(
                State { doc: w@, ctx: c@ },
                function_directives_from(*fname, *f, module, i as int),
            ),
        decreases attrs.len() - i,
    {
        broadcast use {group_run, lemma_run_keeps};

        let attr = &attrs[i].1;
        if same_text(attrs[i].0.value.as_str(), "cmd") {
            match &attr.value {
                Attribute_::Parameterized(_, inner_attrs) => {
                    w.new_line();
                    handle_function_cmd_directive(fname, f, Some(inner_attrs), w, c)?;
                },
                Attribute_::Name(_) => {
                    w.new_line();
                    handle_function_cmd_directive(fname, f, None, w, c)?;
                },
                Attribute_::Assigned(_, _) => {
                    return Err(derr(attr.loc, "the 'cmd' attribute cannot be assigned"));
                },
            }
        }
        i = i + 1;
    }
    Ok(())
}

/// The names of type parameters.
pub open spec fn tparam_names(tparams: Seq<TParam>) -> Seq<Seq<char>> {
    tparams.map_values(|tp: TParam| tp.user_specified_name.value@)
}

fn join_tparams(tparams: &Vec<TParam>, sep: &str) -> (r: String)
    ensures
        r@ == joined(tparam_names(tparams@), sep@),
{
    let mut names: Vec<String> = Vec::new();
    let mut i: usize = 0;
    while i < tparams.len()
        invariant
            i <= tparams.len(),
            names.len() == i,
            forall|k: int| 0 <= k < i ==> #[trigger] names@[k]@ == tparam_names(tparams@)[k],
        decreases tparams.len() - i,
    {
        names.push(tparams[i].user_specified_name.value.clone());
        i = i + 1;
    }
    assert(views(names@) =~= tparam_names(tparams@));
    join_names(&names, sep)
}

/// The steps of marking a function if it is a unit test.
pub open spec fn test_mark_steps(func: Function, test: bool, mark: Seq<char>) -> Seq<Step> {
    if test {
        match func.is_test {
            Ok(is_test) => if is_test {
                line(mark)
            } else {
                seq![]
            },
            Err(d) => fail(d@),
        }
    } else {
        seq![]
    }
}

fn write_test_mark(func: &Function, mark: &str, w: &mut TsgenWriter, c: &mut Context) -> (r:
    WriteResult)
    ensures
        performed(
            old(w)@,
            old(c)@,
            test_mark_steps(*func, old(c)@.config.test, mark@),
            final(w)@,
            final(c)@,
            r,
        ),
{
    broadcast use group_run;

    if c.config.test {
        match &func.is_test {
            Ok(is_test) => {
                if *is_test {
                    w.writeln(mark);
                }
            },
            Err(d) => {
                return Err(copy_diagnostic(d));
            },
        }
    }
    Ok(())
}

/// The steps of printing a function as JSON.
#[verifier::opaque]
pub open spec fn function_json_steps(name: FunctionName, func: Function, test: bool) -> Seq<Step> {
    let sig = func.signature;
    line("{"@) + test_mark_steps(func, test, "  \"test\": true,"@) + line(
        "  \"name\": \""@ + name.0.ts@ + "\","@,
    ) + parameters_json_steps(sig.parameters@, false) + line(
        if sig.type_parameters@.len() > 0 {
            "  \"types\": [\""@ + joined(tparam_names(sig.type_parameters@), "\", \""@) + "\"],"@
        } else {
            "  \"types\": [],"@
        },
    ) + ask(sig.return_type.ts) + line(
        "  \"returnType\": \""@ + sig.return_type.ts.shown() + "\","@,
    ) + line("},"@)
}

fn write_function_json(
    name: &FunctionName,
    func: &Function,
    w: &mut TsgenWriter,
    c: &mut Context,
) -> (r: WriteResult)
    ensures
        performed(
            old(w)@,
            old(c)@,
            function_json_steps(*name, *func, old(c)@.config.test),
            final(w)@,
            final(c)@,
            r,
        ),
{
    broadcast use group_run;

    reveal(function_json_steps);
    w.writeln("{");
    write_test_mark(func, "  \"test\": true,", w, c)?;
    w.writeln(cat3("  \"name\": \"", rename(&name.0).as_str(), "\",").as_str());
    write_parameters_json(&func.signature, w, c, false)?;
    if func.signature.type_parameters.len() > 0 {
        let tpnames = join_tparams(&func.signature.type_parameters, "\", \"");
        w.writeln(cat3("  \"types\": [\"", tpnames.as_str(), "\"],").as_str());
    } else {
        w.writeln("  \"types\": [],");
    }
    let ret_type_str = func.signature.return_type.ts.term(c)?;
    w.writeln(cat3("  \"returnType\": \"", ret_type_str.as_str(), "\",").as_str());
    w.writeln("},");
    Ok(())
}

/// The steps of naming the type parameters of a function that has any.
pub open spec fn tparams_steps(tparams: Seq<TParam>) -> Seq<Step> {
    if tparams.len() > 0 {
        line("  $p: TypeTag[], /* <"@ + joined(tparam_names(tparams), ", "@) + ">*/"@)
    } else {
        seq![]
    }
}

/// The declaration that exports a function.
pub open spec fn export_declaration(name: FunctionName) -> Seq<char> {
    "export function "@ + name.0.ts@ + "$ ("@
}

/// The steps of printing a function proper behind its declaration.
pub open spec fn function_rest_steps(func: Function) -> Seq<Step> {
    let sig = func.signature;
    parameters_steps(sig.parameters@, false) + line("  $signer: any,"@) + tparams_steps(
        sig.type_parameters@,
    ) + text("): "@) + ask(sig.return_type.ts) + text(sig.return_type.ts.shown()) + text(" "@)
        + line("{"@) + line("  $signer(arguments);"@) + line("}"@)
}

/// The steps of printing a function proper.
#[verifier::opaque]
pub open spec fn function_body_steps(name: FunctionName, func: Function, test: bool) -> Seq<Step> {
    test_mark_steps(func, test, "// #[test]"@) + line(export_declaration(name))
        + function_rest_steps(func) + newline()
}

fn write_function_body(
    name: &FunctionName,
    func: &Function,
    w: &mut TsgenWriter,
    c: &mut Context,
) -> (r: WriteResult)
    ensures
        performed(
            old(w)@,
            old(c)@,
            function_body_steps(*name, *func, old(c)@.config.test),
            final(w)@,
            final(c)@,
            r,
        ),
{
    broadcast use group_run;

    reveal(function_body_steps);
    write_test_mark(func, "// #[test]", w, c)?;
    // regardless of visibility, the function is exported
    w.writeln(cat3("export function ", rename(&name.0).as_str(), "$ (").as_str());
    write_parameters(&func.signature, w, c, false)?;
    w.writeln("  $signer: any,");
    if func.signature.type_parameters.len() > 0 {
        let tpnames = join_tparams(&func.signature.type_parameters, ", ");
        w.writeln(cat3("  $p: TypeTag[], /* <", tpnames.as_str(), ">*/").as_str());
    }
    w.write("): ");
    let ret_type_str = func.signature.return_type.ts.term(c)?;
    w.write(ret_type_str.as_str());
    w.write(" ");
    w.writeln("{");
    w.writeln("  $signer(arguments);");
    w.writeln("}");
    w.new_line();
    Ok(())
}

/// The steps of printing the arguments for the parameters from the one at `i` on that are
/// not signers, one to a line.
pub open spec fn payload_args_from(parameters: Seq<(Var, SingleType)>, i: int) -> Seq<Step>
    decreases parameters.len() - i,
{
    if 0 <= i < parameters.len() {
        let (name, ty) = parameters[i];
        (if signer(ty) {
            seq![]
        } else {
            match param_handler(name, ty) {
                Rendered::Text(arg) => line("    "@ + arg + ","@),
                Rendered::Fail(d) => fail(d),
                Rendered::Stuck => verdict(End::Stuck),
            }
        }) + payload_args_from(parameters, i + 1)
    } else {
        seq![]
    }
}

/// Whether no parameter but signers is left.
pub open spec fn only_signers(parameters: Seq<(Var, SingleType)>) -> bool {
    forall|i: int| 0 <= i < parameters.len() ==> signer((#[trigger] parameters[i]).1)
}

/// The steps of printing the arguments of a payload.
pub open spec fn payload_args_steps(parameters: Seq<(Var, SingleType)>) -> Seq<Step> {
    if only_signers(parameters) {
        line("  []"@)
    } else {
        line("  ["@) + payload_args_from(parameters, 0) + line("  ]"@)
    }
}

fn has_only_signers(parameters: &Vec<(Var, SingleType)>) -> (r: bool)
    ensures
        r == only_signers(parameters@),
{
    let mut i: usize = 0;
    while i < parameters.len()
        invariant
            i <= parameters.len(),
            forall|k: int| 0 <= k < i ==> signer((#[trigger] parameters@[k]).1),
        decreases parameters.len() - i,
    {
        if !is_type_signer(&parameters[i].1) {
            return false;
        }
        i = i + 1;
    }
    true
}

fn write_payload_args(sig: &FunctionSignature, w: &mut TsgenWriter, c: &mut Context) -> (r:
    WriteResult)
    requires
        defined(old(w)@, old(c)@, payload_args_steps(sig.parameters@)),
    ensures
        performed(
            old(w)@,
            old(c)@,
            payload_args_steps(sig.parameters@),
            final(w)@,
            final(c)@,
            r,
        ),
{
    broadcast use group_run;

    if has_only_signers(&sig.parameters) {
        w.writeln("  []");
        return Ok(());
    }
    let ghost s0 = State { doc: w@, ctx: c@ };
    let ghost steps = payload_args_steps(sig.parameters@);
    w.writeln("  [");
    let mut i: usize = 0;
    while i < sig.parameters.len()
        invariant
            i <= sig.parameters.len(),
            s0 == (State { doc: old(w)@, ctx: old(c)@ }),
            steps == payload_args_steps(sig.parameters@),
            !(run(s0, steps).end is Stuck),
            run(s0, steps) == run(
                State { doc: w@, ctx: c@ },
                payload_args_from(sig.parameters@, i as int) + line("  ]"@),
            ),
        decreases sig.parameters.len() - i,
    {
        broadcast use group_run;

        let param = &sig.parameters[i];
        if !is_type_signer(&param.1) {
            let arg = get_ts_handler_for_script_function_param(&param.0, &param.1)?;
            w.writeln(cat3("    ", arg.as_str(), ",").as_str());
        }
        i = i + 1;
    }
    w.writeln("  ]");
    Ok(())
}

/// The declaration of the function that builds the payload of an entry function.
pub open spec fn payload_declaration(name: FunctionName) -> Seq<char> {
    "export function buildPayload_"@ + name.0.value@ + " ("@
}

/// The steps of printing the call that builds a payload.
pub open spec fn payload_call_steps(
    name: FunctionName,
    func: Function,
    mident: ModuleIdent,
) -> Seq<Step> {
    let sig = func.signature;
    line(
        if sig.type_parameters@.len() > 0 {
            "const typeParamStrings = $p.map(t=>$.getTypeTagFullname(t));"@
        } else {
            "const typeParamStrings = [] as string[];"@
        },
    ) + line("return $.buildPayload("@) + line(
        "  \""@ + mident.value.address.hex@ + "::"@ + mident.value.module.0.value@ + "::"@
            + name.0.value@ + "\","@,
    ) + line("  typeParamStrings,"@) + payload_args_steps(sig.parameters@) + line(");"@)
}

/// The steps of printing the function that builds a payload behind its declaration.
pub open spec fn payload_rest_steps(
    name: FunctionName,
    func: Function,
    module: Option<ModuleIdent>,
) -> Seq<Step> {
    parameters_steps(func.signature.parameters@, true) + tparams_steps(
        func.signature.type_parameters@,
    ) + text(") "@) + open_short_block() + (match module {
        Some(mident) => payload_call_steps(name, func, mident),
        None => verdict(End::Stuck),
    }) + close_short_block()
}

/// The steps of printing the function that builds the payload of an entry function.
#[verifier::opaque]
pub open spec fn payload_steps(
    name: FunctionName,
    func: Function,
    module: Option<ModuleIdent>,
) -> Seq<Step> {
    newline() + line(payload_declaration(name)) + payload_rest_steps(name, func, module)
        + newline()
}

fn write_payload(
    name: &FunctionName,
    func: &Function,
    w: &mut TsgenWriter,
    c: &mut Context,
) -> (r: WriteResult)
    requires
        defined(old(w)@, old(c)@, payload_steps(*name, *func, old(c)@.current_module)),
    ensures
        performed(
            old(w)@,
            old(c)@,
            payload_steps(*name, *func, old(c)@.current_module),
            final(w)@,
            final(c)@,
            r,
        ),
{
    broadcast use {group_run, lemma_run_keeps};

    reveal(payload_steps);
    let sig = &func.signature;
    w.new_line();
    w.writeln(cat3("export function buildPayload_", name.0.value.as_str(), " (").as_str());
    write_parameters(sig, w, c, true)?;
    if sig.type_parameters.len() > 0 {
        let tpnames = join_tparams(&sig.type_parameters, ", ");
        w.writeln(cat3("  $p: TypeTag[], /* <", tpnames.as_str(), ">*/").as_str());
    }
    w.write(") ");
    w.open_short_block();
    let mident = c.current_module.unwrap();
    let address = format_address_hex(&mident.value.address);
    if sig.type_parameters.len() > 0 {
        w.writeln("const typeParamStrings = $p.map(t=>$.getTypeTagFullname(t));");
    } else {
        w.writeln("const typeParamStrings = [] as string[];");
    }
    w.writeln("return $.buildPayload(");
    w.writeln(
        cat7(
            "  \"",
            address,
            "::",
            mident.value.module.0.value.as_str(),
            "::",
            name.0.value.as_str(),
            "\",",
        ).as_str(),
    );
    w.writeln("  typeParamStrings,");
    write_payload_args(sig, w, c)?;
    w.writeln(");");
    w.close_short_block();
    w.new_line();
    Ok(())
}

/// The steps of printing a function as TypeScript. An entry function whose parameters can
/// all be passed as arguments also gets a function that builds its payload, and only then
/// its directives count.
pub open spec fn function_ts_steps(
    name: FunctionName,
    func: Function,
    test: bool,
    module: Option<ModuleIdent>,
) -> Seq<Step> {
    function_body_steps(name, func, test) + (if func.entry is Some {
        match valid_parameters(func.signature.parameters@, 0) {
            Some(valid) => if valid {
                payload_steps(name, func, module) + function_directives_from(
                    name,
                    func,
                    module,
                    0,
                )
            } else {
                seq![]
            },
            None => verdict(End::Stuck),
        }
    } else {
        seq![]
    }) + seq![Step::ForgetSignature]
}

/// The steps of printing a function.
pub open spec fn function_steps(name: FunctionName, func: Function, ctx: ContextView) -> Seq<Step> {
    if ctx.json {
        function_json_steps(name, func, ctx.config.test)
    } else {
        function_ts_steps(name, func, ctx.config.test, ctx.current_module)
    }
}

/// Prints a function.
pub fn write_function<'a>(
    name: &'a FunctionName,
    func: &'a Function,
    w: &mut TsgenWriter,
    c: &mut Context<'a>,
) -> (r: WriteResult)
    requires
        defined(old(w)@, old(c)@, function_steps(*name, *func, old(c)@)),
    ensures
        performed(
            old(w)@,
            old(c)@,
            function_steps(*name, *func, old(c)@),
            final(w)@,
            final(c)@,
            r,
        ),
{
    broadcast use {group_run, lemma_run_keeps};

    if c.json {
        return write_function_json(name, func, w, c);
    }
    let is_entry = func.entry.is_some();
    write_function_body(name, func, w, c)?;
    if is_entry && script_function_has_valid_parameter(&func.signature) {
        write_payload(name, func, w, c)?;
        handle_function_directives(name, func, w, c)?;
    }
    c.current_function_signature = None;
    Ok(())
}

} // verus!
