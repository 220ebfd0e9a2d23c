//! What printing a construct leaves as it was.

use crate::ast::{
    Attribute, Attribute_, Constant, ConstantName, Function, FunctionName, ModuleDefinition,
    ModuleIdent, Name, Statement, StructDefinition, StructName,
};
use crate::ast_to_ts::translated;
use crate::constants::constant_steps;
use crate::function_laws::law_command_description;
use crate::functions::{cmd_directive_steps, function_json_steps, function_ts_steps};
use crate::indentation::{
    lemma_constant_shape, lemma_function_json_shape, lemma_function_shape,
    lemma_statement_shape, lemma_struct_shape,
};
use crate::laws::lemma_functions_shape;
use crate::module::{
    constants_steps, functions_steps, load_parsers_steps, meta_steps, module_steps,
    special_module_steps, structs_steps,
};
use crate::module_laws::lemma_parsers_pass;
use crate::script::{group_run, lemma_run_concat, line, newline, run, State, Step};
use crate::shape::{all_allowed, group_shape, Kind};
use crate::shared::{CmdView, ContextView};
use crate::statements::statement_steps;
use crate::structs::struct_steps;
use vstd::prelude::*;

verus! {

proof fn lemma_rest_of_the_context(kind: Kind, s: State, steps: Seq<Step>)
    requires
        all_allowed(kind, steps),
    ensures
        ({
            let after = run(s, steps).state.ctx;
            &&& after.config == s.ctx.config
            &&& after.current_module == s.ctx.current_module
            &&& after.json == s.ctx.json
            &&& !(kind is Struct) ==> after.module_shows == s.ctx.module_shows
            &&& !(kind is Struct) ==> after.iter_table_shows == s.ctx.iter_table_shows
            &&& !(kind is Function) ==> after.cmds == s.ctx.cmds
            &&& !(kind is Function) ==> after.current_function_signature
                == s.ctx.current_function_signature
        }),
    decreases steps.len(),
{
    broadcast use {group_run, group_shape};

    if steps.len() == 0 {
        assert(steps =~= Seq::empty());
    } else {
        assert(steps.drop_last().push(steps.last()) =~= steps);
        lemma_rest_of_the_context(kind, s, steps.drop_last());
    }
}

/// Printing a function as TypeScript changes nothing but the imports and the commands, and
/// leaves no function as the current one if it is done.
pub proof fn law_function_leaves_the_rest(
    name: FunctionName,
    func: Function,
    test: bool,
    mident: ModuleIdent,
    s: State,
)
    ensures
        ({
            let o = run(s, function_ts_steps(name, func, test, Some(mident)));
            let after = o.state.ctx;
            &&& after.config == s.ctx.config
            &&& after.current_module == s.ctx.current_module
            &&& after.json == s.ctx.json
            &&& after.module_shows == s.ctx.module_shows
            &&& after.iter_table_shows == s.ctx.iter_table_shows
            &&& o.end is Done ==> after.current_function_signature is None
        }),
{
    let steps = function_ts_steps(name, func, test, Some(mident));
    lemma_function_shape(name, func, test, Some(mident));
    lemma_rest_of_the_context(Kind::Function, s, steps);
    broadcast use group_run;

}

/// Printing a function as JSON changes nothing but the imports.
pub proof fn law_function_json_leaves_the_rest(
    name: FunctionName,
    func: Function,
    test: bool,
    s: State,
)
    ensures
        ({
            let after = run(s, function_json_steps(name, func, test)).state.ctx;
            after == ContextView {
                package_imports: after.package_imports,
                same_package_imports: after.same_package_imports,
                ..s.ctx
            }
        }),
{
    lemma_function_json_shape(name, func, test);
    lemma_rest_of_the_context(Kind::Plain, s, function_json_steps(name, func, test));
}

/// Printing a struct changes nothing but the imports and the shows.
pub proof fn law_struct_leaves_the_rest(
    name: StructName,
    sdef: StructDefinition,
    module: Option<ModuleIdent>,
    s: State,
)
    ensures
        ({
            let after = run(s, struct_steps(name, sdef, module)).state.ctx;
            after == ContextView {
                package_imports: after.package_imports,
                same_package_imports: after.same_package_imports,
                module_shows: after.module_shows,
                iter_table_shows: after.iter_table_shows,
                ..s.ctx
            }
        }),
{
    lemma_struct_shape(name, sdef, module);
    lemma_rest_of_the_context(Kind::Struct, s, struct_steps(name, sdef, module));
}

/// Printing a constant changes nothing but the imports.
pub proof fn law_constant_leaves_the_rest(name: ConstantName, cdef: Constant, s: State)
    ensures
        ({
            let after = run(s, constant_steps(name, cdef)).state.ctx;
            after == ContextView {
                package_imports: after.package_imports,
                same_package_imports: after.same_package_imports,
                ..s.ctx
            }
        }),
{
    lemma_constant_shape(name, cdef);
    lemma_rest_of_the_context(Kind::Plain, s, constant_steps(name, cdef));
}

/// Printing a statement changes nothing but the imports.
pub proof fn law_statement_leaves_the_rest(stmt: Statement, s: State)
    ensures
        ({
            let after = run(s, statement_steps(stmt)).state.ctx;
            after == ContextView {
                package_imports: after.package_imports,
                same_package_imports: after.same_package_imports,
                ..s.ctx
            }
        }),
{
    lemma_statement_shape(stmt);
    lemma_rest_of_the_context(Kind::Plain, s, statement_steps(stmt));
}

/// A directive that declares a function a command notes it, with its description, as the last
/// command, if its parameters are descriptions; and writes nothing.
pub proof fn law_command_directive(
    fname: FunctionName,
    function: Function,
    params: Seq<(Name, Attribute)>,
    module: ModuleIdent,
    s: State,
)
    ensures
        ({
            let o = run(s, cmd_directive_steps(fname, function, params, Some(module)));
            let described = forall|k: int|
                0 <= k < params.len() ==> (#[trigger] params[k]).0.value@ == "desc"@ && (
                params[k].1.value matches Attribute_::Assigned(_, Some(_)));
            &&& o.state.doc == s.doc
            &&& o.end is Done <==> described
            &&& described ==> o.state.ctx == (ContextView {
                cmds: s.ctx.cmds.push(
                    CmdView {
                        module,
                        fname,
                        function,
                        desc: if params.len() == 0 {
                            None
                        } else {
                            params.last().1.value->Assigned_1
                        },
                    },
                ),
                ..s.ctx
            })
            &&& !described ==> o.state.ctx == s.ctx
        }),
{
    broadcast use group_run;

    law_command_description(params);
}

proof fn lemma_settings_stay(s: State, steps: Seq<Step>)
    ensures
        run(s, steps).state.ctx.config == s.ctx.config,
        run(s, steps).state.ctx.current_module == s.ctx.current_module,
        s.ctx.current_function_signature is None ==> run(
            s,
            steps,
        ).state.ctx.current_function_signature is None,
    decreases steps.len(),
{
    broadcast use group_run;

    if steps.len() == 0 {
        assert(steps =~= Seq::empty());
    } else {
        assert(steps.drop_last().push(steps.last()) =~= steps);
        lemma_settings_stay(s, steps.drop_last());
    }
}

/// Printing a module leaves the settings as they were and the module as the current one. No
/// function is the current one. If it is done, functions were last printed as JSON.
pub proof fn law_module_leaves_the_rest(
    mident: ModuleIdent,
    mdef: ModuleDefinition,
    ctx: ContextView,
)
    ensures
        ({
            let o = translated(mident, mdef, ctx);
            let after = o.state.ctx;
            &&& after.config == ctx.config
            &&& after.current_module == Some(mident)
            &&& after.current_function_signature is None
            &&& o.end is Done ==> after.json
        }),
{
    let start = State { doc: Seq::empty(), ctx: ctx.reset_for_module(mident) };
    let steps = module_steps(mident, mdef, ctx.config, Some(mident));
    lemma_settings_stay(start, steps);
    if run(start, steps).end is Done {
        let test = ctx.config.test;
        let json = functions_steps(mdef.functions@, true, test, Some(mident));
        let upper = meta_steps(mident, mdef) + constants_steps(mdef.constants@) + newline()
            + structs_steps(mdef.structs@, Some(mident)) + seq![Step::SetJson(false)]
            + functions_steps(mdef.functions@, false, test, Some(mident)) + seq![
            Step::SetJson(true),
        ];
        let lower = line("export const json = {"@) + json + line("};"@);
        let validate = seq![Step::ValidateShows(mdef.functions@)];
        let last = load_parsers_steps(mident, mdef.structs@) + special_module_steps(
            mident,
            ctx.config,
        );
        assert(steps =~= upper + lower + validate + last);
        assert(all_allowed(Kind::Plain, lower)) by {
            broadcast use group_shape;

            reveal(functions_steps);
            lemma_functions_shape(mdef.functions@, true, test, Some(mident), 0);
        }
        assert(all_allowed(Kind::Plain, last)) by {
            broadcast use group_shape;

            reveal(load_parsers_steps);
            reveal(special_module_steps);
            lemma_parsers_pass(mident, mdef.structs@, 0);
        }
        lemma_run_concat(start, upper + lower + validate, last);
        lemma_run_concat(start, upper + lower, validate);
        lemma_run_concat(start, upper, lower);
        let s1 = run(start, upper).state;
        let s2 = run(s1, lower).state;
        let s3 = run(s2, validate).state;
        assert(s1.ctx.json) by {
            broadcast use group_run;

        }
        lemma_rest_of_the_context(Kind::Plain, s1, lower);
        assert(s3.ctx.json) by {
            broadcast use group_run;

        }
        lemma_rest_of_the_context(Kind::Plain, s3, last);
    }
}

} // verus!
