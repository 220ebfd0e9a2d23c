//! Files: a module is printed into a file of its own, below the imports that it needs.

use crate::ast::{Diagnostic, Diagnostics, ModuleDefinition, ModuleIdent};
use crate::module::module_steps;
use crate::printer::AstTsPrinter;
use crate::script::{run, End, Outcome, State};
use crate::shared::{format_address, Context, ContextView};
use crate::string_set::in_order;
use crate::text::{cat4, cat5, join_lines, joined, views};
use crate::tsgen_writer::{layout, TsgenWriter};
use vstd::prelude::*;

pub use crate::commands::is_exp_unit;
pub use crate::constants::write_simplify_constant_block;
pub use crate::declared_vars::{
    identify_declared_vars_in_block, identify_declared_vars_in_cmd,
    identify_declared_vars_in_lvalue, identify_declared_vars_in_stmt,
};
pub use crate::functions::{
    handle_function_cmd_directive, handle_function_directives, write_parameters,
    write_parameters_json,
};
pub use crate::module::{handle_special_module, write_load_parsers};
pub use crate::shows::validate_show_functions;
pub use crate::statements::is_empty_block;
pub use crate::struct_directives::{
    handle_struct_directives, handle_struct_show_directive,
    handle_struct_show_iter_table_directive,
};
pub use crate::structs::handle_special_structs;
pub use crate::types::{
    extract_builtin_from_base_type, extract_builtin_type,
    get_ts_handler_for_script_function_param, get_ts_handler_for_vector_in_vector,
    is_base_type_signer, is_type_signer, script_function_has_valid_parameter, ts_constant_type,
};

verus! {

/// The imports of every module.
pub open spec fn common_imports() -> Seq<Seq<char>> {
    seq![
        "import * as $ from \"@manahippo/move-to-ts\";"@,
        "import {AptosDataCache, AptosParserRepo, DummyCache} from \"@manahippo/move-to-ts\";"@,
        "import {U8, U64, U128} from \"@manahippo/move-to-ts\";"@,
        "import {u8, u64, u128} from \"@manahippo/move-to-ts\";"@,
        "import {TypeParamDeclType, FieldDeclType} from \"@manahippo/move-to-ts\";"@,
        "import {AtomicTypeTag, StructTag, TypeTag, VectorTag} from \"@manahippo/move-to-ts\";"@,
        "import {HexString, AptosClient} from \"aptos\";"@,
    ]
}

/// The import of another package.
pub open spec fn package_import(name: Seq<char>) -> Seq<char> {
    "import * as "@ + name + "$_ from \"../"@ + name + "\";"@
}

/// The import of another module of the same package.
pub open spec fn module_import(name: Seq<char>) -> Seq<char> {
    "import * as "@ + name + "$_ from \"./"@ + name + "\";"@
}

/// The lines at the top of a file: what every module imports, the packages and the modules
/// of the same package, each in order.
pub open spec fn header(ctx: ContextView) -> Seq<Seq<char>> {
    common_imports() + in_order(ctx.package_imports).map_values(
        |name: Seq<char>| package_import(name),
    ) + in_order(ctx.same_package_imports).map_values(|name: Seq<char>| module_import(name))
}

/// The text of a file: its header and what was written below it.
pub open spec fn file_text(s: State) -> Seq<char> {
    joined(header(s.ctx).push(layout(s.doc)), "\n"@)
}

fn push_line(lines: &mut Vec<String>, line: String)
    ensures
        views(final(lines)@) == views(old(lines)@).push(line@),
{
    lines.push(line);
    assert(views(lines@) =~= views(old(lines)@).push(line@));
}

fn write_common_imports() -> (lines: Vec<String>)
    ensures
        views(lines@) == common_imports(),
{
    let mut lines: Vec<String> = Vec::new();
    push_line(&mut lines, "import * as $ from \"@manahippo/move-to-ts\";".to_owned());
    push_line(
        &mut lines,
        "import {AptosDataCache, AptosParserRepo, DummyCache} from \"@manahippo/move-to-ts\";".to_owned(),
    );
    push_line(&mut lines, "import {U8, U64, U128} from \"@manahippo/move-to-ts\";".to_owned());
    push_line(&mut lines, "import {u8, u64, u128} from \"@manahippo/move-to-ts\";".to_owned());
    push_line(
        &mut lines,
        "import {TypeParamDeclType, FieldDeclType} from \"@manahippo/move-to-ts\";".to_owned(),
    );
    push_line(
        &mut lines,
        "import {AtomicTypeTag, StructTag, TypeTag, VectorTag} from \"@manahippo/move-to-ts\";".to_owned(),
    );
    push_line(&mut lines, "import {HexString, AptosClient} from \"aptos\";".to_owned());
    assert(views(lines@) =~= common_imports());
    lines
}

/// The outcome of printing a construct into an empty file.
pub open spec fn printed<'a, P: AstTsPrinter<'a>>(v: P, ctx: ContextView) -> Outcome {
    run(State { doc: Seq::empty(), ctx }, v.steps(ctx))
}

/// Prints a construct into a file of its own.
pub fn to_ts_string<'a, P: AstTsPrinter<'a>>(v: &P, c: &mut Context<'a>) -> (r: Result<
    String,
    Diagnostic,
>)
    requires
        !(printed(*v, old(c)@).end is Stuck),
    ensures
        final(c)@ == printed(*v, old(c)@).state.ctx,
        match r {
            Ok(text) => printed(*v, old(c)@).end is Done && text@ == file_text(
                printed(*v, old(c)@).state,
            ),
            Err(d) => printed(*v, old(c)@).end == End::Fail(d@),
        },
{
    let mut writer = TsgenWriter::new();
    v.write_ts(&mut writer, c)?;
    let mut lines = write_common_imports();
    let packages = c.package_imports.names();
    let ghost names = views(packages@);
    let mut i: usize = 0;
    assert(names.take(0) =~= seq![]);
    assert(common_imports() =~= common_imports() + names.take(0).map_values(
        |name: Seq<char>| package_import(name),
    ));
    while i < packages.len()
        invariant
            i <= packages.len(),
            names == views(packages@),
            views(lines@) == common_imports() + names.take(i as int).map_values(
                |name: Seq<char>| package_import(name),
            ),
        decreases packages.len() - i,
    {
        let name = packages[i].as_str();
        push_line(&mut lines, cat5("import * as ", name, "$_ from \"../", name, "\";"));
        proof {
            assert(names.take(i + 1) =~= names.take(i as int).push(names[i as int]));
            assert(views(lines@) =~= common_imports() + names.take(i + 1).map_values(
                |name: Seq<char>| package_import(name),
            ));
        }
        i = i + 1;
    }
    assert(names.take(names.len() as int) =~= names);
    let ghost upper = views(lines@);
    let modules = c.same_package_imports.names();
    let ghost names = views(modules@);
    let mut i: usize = 0;
    assert(upper =~= upper + names.take(0).map_values(|name: Seq<char>| module_import(name)));
    while i < modules.len()
        invariant
            i <= modules.len(),
            names == views(modules@),
            views(lines@) == upper + names.take(i as int).map_values(
                |name: Seq<char>| module_import(name),
            ),
        decreases modules.len() - i,
    {
        let name = modules[i].as_str();
        push_line(&mut lines, cat5("import * as ", name, "$_ from \"./", name, "\";"));
        proof {
            assert(views(lines@) =~= upper + names.take(i + 1).map_values(
                |name: Seq<char>| module_import(name),
            ));
        }
        i = i + 1;
    }
    assert(names.take(names.len() as int) =~= names);
    push_line(&mut lines, writer.to_text());
    Ok(join_lines(&lines))
}

/// The name of the file of a module.
pub open spec fn file_name(mident: ModuleIdent) -> Seq<char> {
    mident.value.address.name@ + "/"@ + mident.value.module.0.value@ + ".ts"@
}

/// The outcome of printing a module into an empty file.
pub open spec fn translated(
    mident: ModuleIdent,
    mdef: ModuleDefinition,
    ctx: ContextView,
) -> Outcome {
    let start = ctx.reset_for_module(mident);
    run(
        State { doc: Seq::empty(), ctx: start },
        module_steps(mident, mdef, start.config, start.current_module),
    )
}

/// Prints a module into a file of its own. Returns the name and the text of the file, or
/// the reason why the module cannot be printed.
pub fn translate_module<'a>(
    mident: &'a ModuleIdent,
    mdef: &'a ModuleDefinition,
    c: &mut Context<'a>,
) -> (r: Result<(String, String), Diagnostics>)
    requires
        !(translated(*mident, *mdef, old(c)@).end is Stuck),
    ensures
        final(c)@ == translated(*mident, *mdef, old(c)@).state.ctx,
        match r {
            Ok((filename, content)) => {
                &&& translated(*mident, *mdef, old(c)@).end is Done
                &&& filename@ == file_name(*mident)
                &&& content@ == file_text(translated(*mident, *mdef, old(c)@).state)
            },
            Err(diags) => {
                &&& diags.diags@.len() == 1
                &&& translated(*mident, *mdef, old(c)@).end == End::Fail(diags.diags@[0]@)
            },
        },
{
    let filename = cat4(
        format_address(&mident.value.address),
        "/",
        mident.value.module.0.value.as_str(),
        ".ts",
    );
    c.reset_for_module(mident);
    let content = to_ts_string(&(mident, mdef), c);
    match content {
        Err(diag) => {
            let mut diags = Diagnostics::new();
            diags.add(diag);
            Err(diags)
        },
        Ok(res) => Ok((filename, res)),
    }
}

} // verus!
