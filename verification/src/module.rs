//! Modules.

use crate::ast::{
    Constant, ConstantName, Function, FunctionName, ModuleDefinition, ModuleIdent,
    StructDefinition, StructName, WriteResult,
};
use crate::constants::{constant_steps, write_constant};
use crate::functions::{function_json_steps, function_ts_steps, write_function};
use crate::indentation::{lemma_function_json_shape, lemma_function_shape};
use crate::script::{
    defined, group_run, lemma_run_concat, lemma_run_keeps, line, newline, performed, run, State,
    Step,
};
use crate::shape::{lemma_run_allowed, Kind};
use crate::shared::{format_address_hex, quote, quoted, Config, Context};
use crate::shows::validate_show_functions;
use crate::structs::{struct_steps, write_struct};
use crate::text::{cat3, cat5, cat7, same_text};
use crate::tsgen_writer::TsgenWriter;
use vstd::prelude::*;

verus! {

/// The steps of printing the constants from the one at `i` on.
pub open spec fn constants_from(constants: Seq<(ConstantName, Constant)>, i: int) -> Seq<Step>
    decreases constants.len() - i,
{
    if 0 <= i < constants.len() {
        constant_steps(constants[i].0, constants[i].1) + constants_from(constants, i + 1)
    } else {
        seq![]
    }
}

/// The steps of printing constants.
#[verifier::opaque]
pub open spec fn constants_steps(constants: Seq<(ConstantName, Constant)>) -> Seq<Step> {
    constants_from(constants, 0)
}

fn write_constants(
    constants: &Vec<(ConstantName, Constant)>,
    w: &mut TsgenWriter,
    c: &mut Context,
) -> (r: WriteResult)
    requires
        defined(old(w)@, old(c)@, constants_steps(constants@)),
    ensures
        performed(old(w)@, old(c)@, constants_steps(constants@), final(w)@, final(c)@, r),
{
    broadcast use group_run;

    reveal(constants_steps);

    let ghost s0 = State { doc: w@, ctx: c@ };
    let mut i: usize = 0;
    while i < constants.len()
        invariant
            i <= constants.len(),
            s0 == (State { doc: old(w)@, ctx: old(c)@ }),
            !(run(s0, constants_from(constants@, 0)).end is Stuck),
            run(s0, constants_from(constants@, 0)) == run(
                State { doc: w@, ctx: c@ },
                constants_from(constants@, i as int),
            ),
        decreases constants.len() - i,
    {
        broadcast use group_run;

        reveal(constants_steps);
        write_constant(&constants[i].0, &constants[i].1, w, c)?;
        i = i + 1;
    }
    Ok(())
}

/// The steps of printing the structs from the one at `i` on.
pub open spec fn structs_from(
    structs: Seq<(StructName, StructDefinition)>,
    module: Option<ModuleIdent>,
    i: int,
) -> Seq<Step>
    decreases structs.len() - i,
{
    if 0 <= i < structs.len() {
        struct_steps(structs[i].0, structs[i].1, module) + structs_from(structs, module, i + 1)
    } else {
        seq![]
    }
}

/// The steps of printing structs.
#[verifier::opaque]
pub open spec fn structs_steps(
    structs: Seq<(StructName, StructDefinition)>,
    module: Option<ModuleIdent>,
) -> Seq<Step> {
    structs_from(structs, module, 0)
}

fn write_structs<'a>(
    structs: &'a Vec<(StructName, StructDefinition)>,
    w: &mut TsgenWriter,
    c: &mut Context<'a>,
) -> (r: WriteResult)
    requires
        defined(old(w)@, old(c)@, structs_steps(structs@, old(c)@.current_module)),
    ensures
        performed(
            old(w)@,
            old(c)@,
            structs_steps(structs@, old(c)@.current_module),
            final(w)@,
            final(c)@,
            r,
        ),
{
    broadcast use group_run;

    reveal(structs_steps);

    let ghost s0 = State { doc: w@, ctx: c@ };
    let ghost module = c@.current_module;
    let mut i: usize = 0;
    while i < structs.len()
        invariant
            i <= structs.len(),
            s0 == (State { doc: old(w)@, ctx: old(c)@ }),
            module == old(c)@.current_module,
            module == c@.current_module,
            !(run(s0, structs_from(structs@, module, 0)).end is Stuck),
            run(s0, structs_from(structs@, module, 0)) == run(
                State { doc: w@, ctx: c@ },
                structs_from(structs@, module, i as int),
            ),
        decreases structs.len() - i,
    {
        reveal(structs_steps);
        proof {
            let s = State { doc: w@, ctx: c@ };
            let steps = struct_steps(structs@[i as int].0, structs@[i as int].1, module);
            lemma_run_concat(s, steps, structs_from(structs@, module, i + 1));
            lemma_run_keeps(s, steps);
        }
        write_struct(&structs[i].0, &structs[i].1, w, c)?;
        i = i + 1;
    }
    Ok(())
}

/// The steps of printing the functions from the one at `i` on, as JSON or not.
pub open spec fn functions_from(
    functions: Seq<(FunctionName, Function)>,
    json: bool,
    test: bool,
    module: Option<ModuleIdent>,
    i: int,
) -> Seq<Step>
    decreases functions.len() - i,
{
    if 0 <= i < functions.len() {
        (if json {
            function_json_steps(functions[i].0, functions[i].1, test)
        } else {
            function_ts_steps(functions[i].0, functions[i].1, test, module)
        }) + functions_from(functions, json, test, module, i + 1)
    } else {
        seq![]
    }
}

/// The steps of printing functions, as JSON or not.
#[verifier::opaque]
pub open spec fn functions_steps(
    functions: Seq<(FunctionName, Function)>,
    json: bool,
    test: bool,
    module: Option<ModuleIdent>,
) -> Seq<Step> {
    functions_from(functions, json, test, module, 0)
}

fn write_functions<'a>(
    functions: &'a Vec<(FunctionName, Function)>,
    w: &mut TsgenWriter,
    c: &mut Context<'a>,
) -> (r: WriteResult)
    requires
        defined(
            old(w)@,
            old(c)@,
            functions_steps(
                functions@,
                old(c)@.json,
                old(c)@.config.test,
                old(c)@.current_module,
            ),
        ),
    ensures
        performed(
            old(w)@,
            old(c)@,
            functions_steps(
                functions@,
                old(c)@.json,
                old(c)@.config.test,
                old(c)@.current_module,
            ),
            final(w)@,
            final(c)@,
            r,
        ),
{
    broadcast use group_run;

    reveal(functions_steps);
    let ghost s0 = State { doc: w@, ctx: c@ };
    let ghost (json, test, module) = (c@.json, c@.config.test, c@.current_module);
    let ghost steps = functions_from(functions@, json, test, module, 0);
    let mut i: usize = 0;
    while i < functions.len()
        invariant
            i <= functions.len(),
            s0 == (State { doc: old(w)@, ctx: old(c)@ }),
            json == old(c)@.json,
            json == c@.json,
            test == old(c)@.config.test,
            test == c@.config.test,
            module == old(c)@.current_module,
            module == c@.current_module,
            steps == functions_from(functions@, json, test, module, 0),
            !(run(s0, steps).end is Stuck),
            run(s0, steps) == run(
                State { doc: w@, ctx: c@ },
                functions_from(functions@, json, test, module, i as int),
            ),
        decreases functions.len() - i,
    {
        reveal(functions_steps);
        proof {
            let s = State { doc: w@, ctx: c@ };
            let (name, func) = functions@[i as int];
            let one = if json {
                function_json_steps(name, func, test)
            } else {
                function_ts_steps(name, func, test, module)
            };
            lemma_run_concat(
                s,
                one,
                functions_from(functions@, json, test, module, i + 1),
            );
            lemma_run_keeps(s, one);
            if json {
                lemma_function_json_shape(name, func, test);
                lemma_run_allowed(Kind::Plain, s, one);
            } else {
                lemma_function_shape(name, func, test, module);
                lemma_run_allowed(Kind::Function, s, one);
            }
        }
        write_function(&functions[i].0, &functions[i].1, w, c)?;
        i = i + 1;
    }
    Ok(())
}

/// The steps of registering the parsers of the structs from the one at `i` on.
pub open spec fn parsers_from(
    mident: ModuleIdent,
    structs: Seq<(StructName, StructDefinition)>,
    i: int,
) -> Seq<Step>
    decreases structs.len() - i,
{
    if 0 <= i < structs.len() {
        let sname = structs[i].0.0.value@;
        line(
            "  repo.addParser("@ + quoted(
                mident.value.address.hex@ + "::"@ + mident.value.module.0.value@ + "::"@ + sname,
            ) + ", "@ + sname + "."@ + sname + "Parser);"@,
        ) + parsers_from(mident, structs, i + 1)
    } else {
        seq![]
    }
}

/// The steps of printing the function that registers the parsers of a module.
#[verifier::opaque]
pub open spec fn load_parsers_steps(
    mident: ModuleIdent,
    structs: Seq<(StructName, StructDefinition)>,
) -> Seq<Step> {
    line("export function loadParsers(repo: AptosParserRepo) {"@) + parsers_from(mident, structs, 0)
        + line("}"@)
}

/// Prints the function that registers the parsers of a module.
pub fn write_load_parsers(
    mident: &ModuleIdent,
    module: &ModuleDefinition,
    w: &mut TsgenWriter,
    _c: &mut Context,
) -> (r: WriteResult)
    ensures
        performed(
            old(w)@,
            old(_c)@,
            load_parsers_steps(*mident, module.structs@),
            final(w)@,
            final(_c)@,
            r,
        ),
        r is Ok,
{
    broadcast use group_run;

    reveal(load_parsers_steps);
    let structs = &module.structs;
    let ghost s0 = State { doc: w@, ctx: _c@ };
    let ghost steps = load_parsers_steps(*mident, structs@);
    w.writeln("export function loadParsers(repo: AptosParserRepo) {");
    let mut i: usize = 0;
    while i < structs.len()
        invariant
            i <= structs.len(),
            _c@ == old(_c)@,
            run(s0, steps) == run(
                State { doc: w@, ctx: _c@ },
                parsers_from(*mident, structs@, i as int) + line("}"@),
            ),
        decreases structs.len() - i,
    {
        broadcast use group_run;

        let sname = structs[i].0.0.value.as_str();
        let paramless_name = cat5(
            format_address_hex(&mident.value.address),
            "::",
            mident.value.module.0.value.as_str(),
            "::",
            sname,
        );
        w.writeln(
            cat7(
                "  repo.addParser(",
                quote(paramless_name.as_str()).as_str(),
                ", ",
                sname,
                ".",
                sname,
                "Parser);",
            ).as_str(),
        );
        i = i + 1;
    }
    w.writeln("}");
    Ok(())
}

/// The steps of printing the helper declarations that some modules of the framework have.
#[verifier::opaque]
pub open spec fn special_module_steps(mi: ModuleIdent, config: Config) -> Seq<Step> {
    if mi.value.address.hex@ == "0x1"@ {
        if mi.value.module.0.value@ == "table"@ {
            line(config.table_helper_decl@)
        } else if mi.value.module.0.value@ == "iterable_table"@ {
            line(config.iterable_table_helper_decl@)
        } else {
            seq![]
        }
    } else {
        seq![]
    }
}

/// Prints the helper declarations that some modules of the framework have.
pub fn handle_special_module(
    mi: &ModuleIdent,
    _module: &ModuleDefinition,
    w: &mut TsgenWriter,
    c: &mut Context,
) -> (r: WriteResult)
    ensures
        performed(
            old(w)@,
            old(c)@,
            special_module_steps(*mi, old(c)@.config),
            final(w)@,
            final(c)@,
            r,
        ),
        r is Ok,
{
    broadcast use group_run;

    reveal(special_module_steps);
    if same_text(format_address_hex(&mi.value.address), "0x1") {
        if same_text(mi.value.module.0.value.as_str(), "table") {
            w.writeln(c.config.table_helper_decl.as_str());
        } else if same_text(mi.value.module.0.value.as_str(), "iterable_table") {
            w.writeln(c.config.iterable_table_helper_decl.as_str());
        }
    }
    Ok(())
}

/// The declaration of an exported constant.
pub open spec fn export_const(name: Seq<char>, value: Seq<char>) -> Seq<Step> {
    line("export const "@ + name + " = "@ + value + ";"@)
}

/// What the package of a module is called.
pub open spec fn package_of(module: ModuleDefinition) -> Seq<char> {
    match module.package_name {
        Some(name) => name@,
        None => ""@,
    }
}

/// The steps of saying which module this is.
#[verifier::opaque]
pub open spec fn meta_steps(name: ModuleIdent, module: ModuleDefinition) -> Seq<Step> {
    export_const("packageName"@, quoted(package_of(module))) + export_const(
        "moduleAddress"@,
        "new HexString("@ + quoted(name.value.address.hex@) + ")"@,
    ) + export_const("moduleName"@, quoted(name.value.module.0.value@)) + newline()
}

fn write_meta(name: &ModuleIdent, module: &ModuleDefinition, w: &mut TsgenWriter, c: &mut Context)
    ensures
        performed(old(w)@, old(c)@, meta_steps(*name, *module), final(w)@, final(c)@, Ok(())),
{
    broadcast use group_run;

    reveal(meta_steps);
    let package_name = match &module.package_name {
        Some(name) => name.as_str(),
        None => "",
    };
    w.export_const("packageName", quote(package_name).as_str());
    w.export_const(
        "moduleAddress",
        cat3(
            "new HexString(",
            quote(format_address_hex(&name.value.address)).as_str(),
            ")",
        ).as_str(),
    );
    w.export_const("moduleName", quote(name.value.module.0.value.as_str()).as_str());
    w.new_line();
}

/// The steps of printing the contents of a module, up to the point at which its shows are
/// held against its functions.
pub open spec fn contents_steps(
    name: ModuleIdent,
    module: ModuleDefinition,
    config: Config,
    current: Option<ModuleIdent>,
) -> Seq<Step> {
    meta_steps(name, module) + constants_steps(module.constants@) + newline() + structs_steps(
        module.structs@,
        current,
    ) + seq![Step::SetJson(false)] + functions_steps(
        module.functions@,
        false,
        config.test,
        current,
    ) + seq![Step::SetJson(true)] + line("export const json = {"@) + functions_steps(
        module.functions@,
        true,
        config.test,
        current,
    ) + line("};"@) + seq![Step::ValidateShows(module.functions@)]
}

/// The steps of printing a module.
pub open spec fn module_steps(
    name: ModuleIdent,
    module: ModuleDefinition,
    config: Config,
    current: Option<ModuleIdent>,
) -> Seq<Step> {
    contents_steps(name, module, config, current) + load_parsers_steps(name, module.structs@)
        + special_module_steps(name, config)
}

/// Prints a module.
#[verifier::rlimit(40)]
pub fn write_module<'a>(
    name: &'a ModuleIdent,
    module: &'a ModuleDefinition,
    w: &mut TsgenWriter,
    c: &mut Context<'a>,
) -> (r: WriteResult)
    requires
        defined(
            old(w)@,
            old(c)@,
            module_steps(*name, *module, old(c)@.config, old(c)@.current_module),
        ),
    ensures
        performed(
            old(w)@,
            old(c)@,
            module_steps(*name, *module, old(c)@.config, old(c)@.current_module),
            final(w)@,
            final(c)@,
            r,
        ),
{
    broadcast use {group_run, lemma_run_keeps};

    write_meta(name, module, w, c);
    write_constants(&module.constants, w, c)?;
    w.new_line();
    write_structs(&module.structs, w, c)?;
    c.json = false;
    write_functions(&module.functions, w, c)?;
    c.json = true;
    w.writeln("export const json = {");
    write_functions(&module.functions, w, c)?;
    w.writeln("};");
    validate_show_functions(&module.functions, c)?;
    write_load_parsers(name, module, w, c)?;
    handle_special_module(name, module, w, c)?;
    Ok(())
}

} // verus!
