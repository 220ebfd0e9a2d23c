//! What holds of the library as a whole.

use crate::ast::{
    BaseType, BaseType_, Constant, ConstantName, Function, FunctionName, ModuleDefinition,
    ModuleIdent, Name, SingleType, SingleType_, Statement, StructDefinition, StructName,
    StructTypeParameter, TParam, TypeName_, Var,
};
use crate::ast_to_ts::{file_text, translated};
use crate::declared_vars::declared_in_stmts;
use crate::functions::{
    function_body_steps, function_directives_from, function_json_steps, function_ts_steps,
    parameters_from, parameters_steps, payload_args_from, payload_args_steps, payload_steps,
};
use crate::indentation::{
    lemma_constant_shape, lemma_function_body_shape, lemma_function_json_shape,
    lemma_function_shape, lemma_payload_shape, lemma_struct_shape,
};
use crate::module::{
    constants_from, constants_steps, functions_from, functions_steps, load_parsers_steps,
    meta_steps, module_steps, parsers_from, special_module_steps, structs_from, structs_steps,
};
use crate::script::{fail, group_run, lemma_run_concat, line, run, verdict, End, State, Step};
use crate::shape::{all_allowed, balanced, group_shape, lemma_run_allowed, lemma_run_level, Kind};
use crate::shared::{same_module, same_name, CmdView, Config, ContextView, ShowView};
use crate::shows::{
    find_function, show_verdict, shows_verdict, shows_verdict_from, type_arguments_verdict,
    type_parameters_verdict,
};
use crate::string_set::{ascending, in_order, lemma_in_order_of};
use crate::text::views;
use crate::tsgen_writer::{page, Piece};
use crate::types::{param_handler, signer, valid_parameters, Rendered};
use vstd::prelude::*;

verus! {

/// Whatever is printed, what was written before stays in front of it.
pub proof fn law_writer_only_grows(s: State, steps: Seq<Step>)
    ensures
        s.doc.is_prefix_of(run(s, steps).state.doc),
    decreases steps.len(),
{
    reveal(run);
    if steps.len() > 0 {
        law_writer_only_grows(s, steps.drop_last());
    }
}

/// A line that has ended does not change, whatever is written behind it.
pub proof fn law_ended_lines_stay(doc: Seq<Piece>, more: Seq<Piece>)
    ensures
        page(doc).lines.is_prefix_of(page(doc + more).lines),
    decreases more.len(),
{
    if more.len() == 0 {
        assert(doc + more =~= doc);
    } else {
        law_ended_lines_stay(doc, more.drop_last());
        assert((doc + more).drop_last() =~= doc + more.drop_last());
    }
}

/// What stands behind the construct at which a run ends has no effect.
pub proof fn law_nothing_behind_a_failure(s: State, a: Seq<Step>, b: Seq<Step>)
    requires
        run(s, a).end is Fail,
    ensures
        run(s, a + b) == run(s, a),
{
    lemma_run_concat(s, a, b);
}

/// Steps that leave the indentation as they find it do so on the page.
pub proof fn law_indentation_restored(s: State, steps: Seq<Step>)
    requires
        balanced(steps),
        run(s, steps).end is Done,
    ensures
        page(run(s, steps).state.doc).level == page(s.doc).level,
{
    lemma_run_level(s, steps);
}

proof fn lemma_constants_shape(constants: Seq<(ConstantName, Constant)>, i: int)
    ensures
        all_allowed(Kind::Plain, constants_from(constants, i)),
        balanced(constants_from(constants, i)),
    decreases constants.len() - i,
{
    broadcast use group_shape;

    if 0 <= i < constants.len() {
        lemma_constant_shape(constants[i].0, constants[i].1);
        lemma_constants_shape(constants, i + 1);
    }
}

proof fn lemma_structs_shape(
    structs: Seq<(StructName, StructDefinition)>,
    module: Option<ModuleIdent>,
    i: int,
)
    ensures
        all_allowed(Kind::Struct, structs_from(structs, module, i)),
        balanced(structs_from(structs, module, i)),
    decreases structs.len() - i,
{
    broadcast use group_shape;

    if 0 <= i < structs.len() {
        lemma_struct_shape(structs[i].0, structs[i].1, module);
        lemma_structs_shape(structs, module, i + 1);
    }
}

/// Functions leave the indentation as they find it, and as JSON nothing is noted of them.
pub proof fn lemma_functions_shape(
    functions: Seq<(FunctionName, Function)>,
    json: bool,
    test: bool,
    module: Option<ModuleIdent>,
    i: int,
)
    ensures
        json ==> all_allowed(Kind::Plain, functions_from(functions, json, test, module, i)),
        balanced(functions_from(functions, json, test, module, i)),
    decreases functions.len() - i,
{
    broadcast use group_shape;

    if 0 <= i < functions.len() {
        lemma_function_json_shape(functions[i].0, functions[i].1, test);
        lemma_function_shape(functions[i].0, functions[i].1, test, module);
        lemma_functions_shape(functions, json, test, module, i + 1);
    }
}

proof fn lemma_parsers_shape(
    mident: ModuleIdent,
    structs: Seq<(StructName, StructDefinition)>,
    i: int,
)
    ensures
        all_allowed(Kind::Plain, parsers_from(mident, structs, i)),
        balanced(parsers_from(mident, structs, i)),
    decreases structs.len() - i,
{
    broadcast use group_shape;

    if 0 <= i < structs.len() {
        lemma_parsers_shape(mident, structs, i + 1);
    }
}

/// A module leaves the indentation as it finds it.
pub proof fn law_module_balanced(
    name: ModuleIdent,
    module: ModuleDefinition,
    config: Config,
    current: Option<ModuleIdent>,
)
    ensures
        balanced(module_steps(name, module, config, current)),
{
    broadcast use group_shape;

    lemma_constants_shape(module.constants@, 0);
    assert(balanced(constants_steps(module.constants@))) by {
        reveal(constants_steps);
    }
    lemma_structs_shape(module.structs@, current, 0);
    assert(balanced(structs_steps(module.structs@, current))) by {
        reveal(structs_steps);
    }
    assert forall|json: bool| #[trigger]
        balanced(functions_steps(module.functions@, json, config.test, current)) by {
        reveal(functions_steps);
        lemma_functions_shape(module.functions@, json, config.test, current, 0);
    }
    assert(balanced(functions_steps(module.functions@, false, config.test, current)));
    assert(balanced(functions_steps(module.functions@, true, config.test, current)));
    assert(balanced(meta_steps(name, module))) by {
        reveal(meta_steps);
    }
    assert(balanced(load_parsers_steps(name, module.structs@))) by {
        reveal(load_parsers_steps);
        lemma_parsers_shape(name, module.structs@, 0);
    }
    assert(balanced(special_module_steps(name, config))) by {
        reveal(special_module_steps);
    }
}

/// The file of a module ends without indentation.
pub proof fn law_file_ends_unindented(
    mident: ModuleIdent,
    mdef: ModuleDefinition,
    ctx: ContextView,
)
    requires
        translated(mident, mdef, ctx).end is Done,
    ensures
        page(translated(mident, mdef, ctx).state.doc).level == 0,
{
    let start = ctx.reset_for_module(mident);
    let s = State { doc: Seq::empty(), ctx: start };
    let steps = module_steps(mident, mdef, start.config, start.current_module);
    law_module_balanced(mident, mdef, start.config, start.current_module);
    law_indentation_restored(s, steps);
}

/// The packages that the terms which are asked for need.
pub open spec fn packages_asked_for(steps: Seq<Step>) -> Set<Seq<char>>
    decreases steps.len(),
{
    if steps.len() == 0 {
        Set::empty()
    } else {
        let before = packages_asked_for(steps.drop_last());
        match steps.last() {
            Step::Ask(term) => before.union(views(term.package_imports@).to_set()),
            _ => before,
        }
    }
}

/// The modules of the same package that the terms which are asked for need.
pub open spec fn modules_asked_for(steps: Seq<Step>) -> Set<Seq<char>>
    decreases steps.len(),
{
    if steps.len() == 0 {
        Set::empty()
    } else {
        let before = modules_asked_for(steps.drop_last());
        match steps.last() {
            Step::Ask(term) => before.union(views(term.module_imports@).to_set()),
            _ => before,
        }
    }
}

/// What is imported after a run is what was imported before and what the terms need that
/// were asked for, and nothing else.
pub proof fn law_imports(s: State, steps: Seq<Step>)
    requires
        run(s, steps).end is Done,
    ensures
        run(s, steps).state.ctx.package_imports == s.ctx.package_imports.union(
            packages_asked_for(steps),
        ),
        run(s, steps).state.ctx.same_package_imports == s.ctx.same_package_imports.union(
            modules_asked_for(steps),
        ),
    decreases steps.len(),
{
    reveal(run);
    if steps.len() > 0 {
        law_imports(s, steps.drop_last());
    }
    assert(run(s, steps).state.ctx.package_imports =~= s.ctx.package_imports.union(
        packages_asked_for(steps),
    ));
    assert(run(s, steps).state.ctx.same_package_imports =~= s.ctx.same_package_imports.union(
        modules_asked_for(steps),
    ));
}

/// A module imports what the terms need that it shows, each once and in ascending order.
pub proof fn law_module_imports(mident: ModuleIdent, mdef: ModuleDefinition, ctx: ContextView)
    requires
        translated(mident, mdef, ctx).end is Done,
    ensures
        ({
            let steps = module_steps(mident, mdef, ctx.config, Some(mident));
            let after = translated(mident, mdef, ctx).state.ctx;
            &&& in_order(after.package_imports).to_set() == packages_asked_for(steps)
            &&& ascending(in_order(after.package_imports))
            &&& in_order(after.same_package_imports).to_set() == modules_asked_for(steps)
            &&& ascending(in_order(after.same_package_imports))
        }),
{
    let start = ctx.reset_for_module(mident);
    let steps = module_steps(mident, mdef, ctx.config, Some(mident));
    let s = State { doc: Seq::empty(), ctx: start };
    law_imports(s, steps);
    let after = translated(mident, mdef, ctx).state.ctx;
    assert(after.package_imports =~= packages_asked_for(steps));
    assert(after.same_package_imports =~= modules_asked_for(steps));
    lemma_asked_for_finite(steps);
    lemma_in_order_of(packages_asked_for(steps));
    lemma_in_order_of(modules_asked_for(steps));
}

/// Finitely many packages and modules are asked for.
pub proof fn lemma_asked_for_finite(steps: Seq<Step>)
    ensures
        packages_asked_for(steps).finite(),
        modules_asked_for(steps).finite(),
    decreases steps.len(),
{
    if steps.len() > 0 {
        lemma_asked_for_finite(steps.drop_last());
        if let Step::Ask(term) = steps.last() {
            vstd::seq_lib::seq_to_set_is_finite(views(term.package_imports@));
            vstd::seq_lib::seq_to_set_is_finite(views(term.module_imports@));
        }
    }
}

/// Whether two contexts agree on all that the text of a module depends on.
pub open spec fn alike(a: ContextView, b: ContextView) -> bool {
    &&& a.config == b.config
    &&& a.package_imports == b.package_imports
    &&& a.same_package_imports == b.same_package_imports
    &&& a.current_module == b.current_module
    &&& a.module_shows == b.module_shows
}

proof fn lemma_shows_verdict_alike(
    functions: Seq<(FunctionName, Function)>,
    a: ContextView,
    b: ContextView,
    i: int,
)
    requires
        alike(a, b),
    ensures
        shows_verdict_from(functions, a, i) == shows_verdict_from(functions, b, i),
    decreases a.module_shows.len() - i,
{
    if 0 <= i < a.module_shows.len() {
        lemma_shows_verdict_alike(functions, a, b, i + 1);
    }
}

proof fn lemma_run_alike(a: State, b: State, steps: Seq<Step>)
    requires
        a.doc == b.doc,
        alike(a.ctx, b.ctx),
    ensures
        run(a, steps).end == run(b, steps).end,
        run(a, steps).state.doc == run(b, steps).state.doc,
        alike(run(a, steps).state.ctx, run(b, steps).state.ctx),
    decreases steps.len(),
{
    reveal(run);
    if steps.len() > 0 {
        let before = steps.drop_last();
        lemma_run_alike(a, b, before);
        if let Step::ValidateShows(functions) = steps.last() {
            lemma_shows_verdict_alike(
                functions,
                run(a, before).state.ctx,
                run(b, before).state.ctx,
                0,
            );
        }
    }
}

/// Whether a module can be printed, and what its file holds, does not depend on the modules
/// that were printed before.
pub proof fn law_modules_are_independent(
    mident: ModuleIdent,
    mdef: ModuleDefinition,
    a: ContextView,
    b: ContextView,
)
    requires
        a.config == b.config,
    ensures
        translated(mident, mdef, a).end == translated(mident, mdef, b).end,
        file_text(translated(mident, mdef, a).state) == file_text(
            translated(mident, mdef, b).state,
        ),
{
    let sa = State { doc: Seq::empty(), ctx: a.reset_for_module(mident) };
    let sb = State { doc: Seq::empty(), ctx: b.reset_for_module(mident) };
    lemma_run_alike(sa, sb, module_steps(mident, mdef, a.config, Some(mident)));
}

/// The parameters that are not signers.
pub open spec fn without_signers(parameters: Seq<(Var, SingleType)>) -> Seq<(Var, SingleType)> {
    parameters.filter(|p: (Var, SingleType)| !signer(p.1))
}

proof fn lemma_parameters_skip(
    parameters: Seq<(Var, SingleType)>,
    skip_signer: bool,
    i: int,
)
    requires
        0 <= i < parameters.len(),
    ensures
        parameters_from(parameters, skip_signer, i + 1) == parameters_from(
            parameters.skip(1),
            skip_signer,
            i,
        ),
    decreases parameters.len() - i,
{
    if i + 1 < parameters.len() {
        lemma_parameters_skip(parameters, skip_signer, i + 1);
        assert(parameters.skip(1)[i] == parameters[i + 1]);
    }
}

/// Parameters are printed without signers as the parameters that are not signers are
/// printed.
pub proof fn law_signers_are_skipped(parameters: Seq<(Var, SingleType)>)
    ensures
        parameters_steps(parameters, true) == parameters_steps(without_signers(parameters), false),
{
    lemma_signers_skipped(parameters);
}

proof fn lemma_signers_skipped(parameters: Seq<(Var, SingleType)>)
    ensures
        parameters_from(parameters, true, 0) == parameters_from(
            without_signers(parameters),
            false,
            0,
        ),
    decreases parameters.len(),
{
    let pred = |p: (Var, SingleType)| !signer(p.1);
    if parameters.len() == 0 {
        assert(without_signers(parameters) =~= parameters) by {
            reveal(Seq::filter);
        }
    } else {
        let first = parameters[0];
        let rest = parameters.skip(1);
        lemma_signers_skipped(rest);
        lemma_parameters_skip(parameters, true, 0);
        assert(parameters =~= seq![first] + rest);
        Seq::filter_distributes_over_add(seq![first], rest, pred);
        let one: Seq<(Var, SingleType)> = seq![first];
        reveal_with_fuel(Seq::filter, 2);
        assert(one.drop_last() =~= Seq::empty());
        let kept = without_signers(parameters);
        if signer(first.1) {
            assert(one.filter(pred) =~= Seq::empty());
            assert(kept =~= without_signers(rest));
            assert(parameters_from(parameters, true, 0) =~= parameters_from(parameters, true, 1));
        } else {
            assert(one.filter(pred) =~= one);
            assert(kept =~= one + without_signers(rest));
            lemma_parameters_skip(kept, false, 0);
            assert(kept.skip(1) =~= without_signers(rest));
            assert(kept[0] == first);
        }
    }
}

/// The parameters of a script function are valid if and only if each is a signer or can be
/// passed as an argument.
pub proof fn law_valid_parameters(parameters: Seq<(Var, SingleType)>)
    ensures
        valid_parameters(parameters, 0) == Some(true) <==> forall|i: int|
            0 <= i < parameters.len() ==> signer((#[trigger] parameters[i]).1) || param_handler(
                parameters[i].0,
                parameters[i].1,
            ) is Text,
{
    lemma_valid_parameters(parameters, 0);
}

proof fn lemma_valid_parameters(parameters: Seq<(Var, SingleType)>, i: int)
    requires
        0 <= i <= parameters.len(),
    ensures
        valid_parameters(parameters, i) == Some(true) <==> forall|k: int|
            i <= k < parameters.len() ==> signer((#[trigger] parameters[k]).1) || param_handler(
                parameters[k].0,
                parameters[k].1,
            ) is Text,
    decreases parameters.len() - i,
{
    if i < parameters.len() {
        lemma_valid_parameters(parameters, i + 1);
        let p = parameters[i];
        if !(signer(p.1) || param_handler(p.0, p.1) is Text) {
            assert(valid_parameters(parameters, i) != Some(true));
        }
    }
}

proof fn lemma_payload_args_done(parameters: Seq<(Var, SingleType)>, i: int, s: State)
    requires
        0 <= i <= parameters.len(),
        valid_parameters(parameters, i) == Some(true),
    ensures
        run(s, payload_args_from(parameters, i)).end is Done,
    decreases parameters.len() - i,
{
    broadcast use group_run;

    if i < parameters.len() {
        let (name, ty) = parameters[i];
        let one = if signer(ty) {
            seq![]
        } else {
            match param_handler(name, ty) {
                Rendered::Text(arg) => line("    "@ + arg + ","@),
                Rendered::Fail(d) => fail(d),
                Rendered::Stuck => verdict(End::Stuck),
            }
        };
        lemma_payload_args_done(parameters, i + 1, run(s, one).state);
    }
}

/// The arguments of the payload of a script function with valid parameters can be printed.
pub proof fn law_valid_parameters_make_a_payload(parameters: Seq<(Var, SingleType)>, s: State)
    requires
        valid_parameters(parameters, 0) == Some(true),
    ensures
        run(s, payload_args_steps(parameters)).end is Done,
{
    broadcast use group_run;

    lemma_payload_args_done(
        parameters,
        0,
        run(s, line("  ["@)).state,
    );
}

/// Printing a function as JSON notes nothing.
pub proof fn law_json_notes_nothing(name: FunctionName, func: Function, test: bool, s: State)
    ensures
        run(s, function_json_steps(name, func, test)).state.ctx.cmds == s.ctx.cmds,
        run(s, function_json_steps(name, func, test)).state.ctx.module_shows == s.ctx.module_shows,
        run(s, function_json_steps(name, func, test)).state.ctx.iter_table_shows
            == s.ctx.iter_table_shows,
{
    lemma_function_json_shape(name, func, test);
    lemma_run_allowed(Kind::Plain, s, function_json_steps(name, func, test));
}

/// Only an entry function with valid parameters is noted as a command.
pub proof fn law_commands_are_entry_functions(
    name: FunctionName,
    func: Function,
    test: bool,
    module: Option<ModuleIdent>,
    s: State,
)
    requires
        func.entry is None || valid_parameters(func.signature.parameters@, 0) != Some(true),
    ensures
        run(s, function_ts_steps(name, func, test, module)).state.ctx.cmds == s.ctx.cmds,
{
    broadcast use group_run;

    lemma_function_body_shape(name, func, test);
    lemma_run_allowed(Kind::Plain, s, function_body_steps(name, func, test));
}

/// The shows of a module pass if and only if each of them does.
pub proof fn law_all_shows_pass(functions: Seq<(FunctionName, Function)>, ctx: ContextView)
    ensures
        shows_verdict(functions, ctx) is Done <==> forall|i: int|
            0 <= i < ctx.module_shows.len() ==> show_verdict(
                functions,
                #[trigger] ctx.module_shows[i],
                ctx.current_module,
            ) is Done,
{
    lemma_shows_pass(functions, ctx, 0);
}

proof fn lemma_shows_pass(functions: Seq<(FunctionName, Function)>, ctx: ContextView, i: int)
    requires
        0 <= i <= ctx.module_shows.len(),
    ensures
        shows_verdict_from(functions, ctx, i) is Done <==> forall|k: int|
            i <= k < ctx.module_shows.len() ==> show_verdict(
                functions,
                #[trigger] ctx.module_shows[k],
                ctx.current_module,
            ) is Done,
    decreases ctx.module_shows.len() - i,
{
    if i < ctx.module_shows.len() {
        lemma_shows_pass(functions, ctx, i + 1);
        let first = ctx.module_shows[i];
        if !(show_verdict(functions, first, ctx.current_module) is Done) {
            assert(!(shows_verdict_from(functions, ctx, i) is Done));
        }
    }
}

/// Whether a function is the first of its name.
pub open spec fn first_named(
    functions: Seq<(FunctionName, Function)>,
    name: Name,
    i: int,
) -> bool {
    &&& 0 <= i < functions.len()
    &&& same_name(functions[i].0.0, name)
    &&& forall|k: int| 0 <= k < i ==> !same_name((#[trigger] functions[k]).0.0, name)
}

/// Whether a function can show a struct: it has the type parameters of the struct, and its
/// only parameter is a reference to the struct, applied to them in order.
pub open spec fn can_show(f: Function, show: ShowView, module: ModuleIdent) -> bool {
    let of_struct = show.sdef.type_parameters@;
    let of_function = f.signature.type_parameters@;
    &&& of_function.len() == of_struct.len()
    &&& forall|k: int|
        0 <= k < of_struct.len() ==> same_name(
            (#[trigger] of_struct[k]).param.user_specified_name,
            of_function[k].user_specified_name,
        )
    &&& f.signature.parameters@.len() == 1
    &&& f.signature.parameters@[0].1.value matches SingleType_::Ref(_, base)
    &&& base.value matches BaseType_::Apply(_, typename, targs)
    &&& typename.value matches TypeName_::ModuleType(mi, sname)
    &&& same_module(module, mi)
    &&& same_name(show.sname.0, sname.0)
    &&& forall|k: int|
        0 <= k < targs@.len() ==> ((#[trigger] targs@[k]).value matches BaseType_::Param(tp) && k
            < of_struct.len() && same_name(
            of_struct[k].param.user_specified_name,
            tp.user_specified_name,
        ))
}

proof fn lemma_find_function(
    functions: Seq<(FunctionName, Function)>,
    name: Name,
    i: int,
)
    requires
        0 <= i <= functions.len(),
        forall|k: int| 0 <= k < i ==> !same_name((#[trigger] functions[k]).0.0, name),
    ensures
        match find_function(functions, name, i) {
            Some(j) => first_named(functions, name, j),
            None => forall|j: int| !first_named(functions, name, j),
        },
    decreases functions.len() - i,
{
    if i < functions.len() && !same_name(functions[i].0.0, name) {
        lemma_find_function(functions, name, i + 1);
    }
}

/// Type parameters pass if and only if they have the same names.
pub proof fn lemma_type_parameters_verdict(
    of_struct: Seq<StructTypeParameter>,
    of_function: Seq<TParam>,
    i: int,
)
    requires
        0 <= i <= of_function.len() == of_struct.len(),
    ensures
        type_parameters_verdict(of_struct, of_function, i) is Done <==> forall|k: int|
            i <= k < of_struct.len() ==> same_name(
                (#[trigger] of_struct[k]).param.user_specified_name,
                of_function[k].user_specified_name,
            ),
    decreases of_function.len() - i,
{
    if i < of_function.len() {
        lemma_type_parameters_verdict(of_struct, of_function, i + 1);
        let first = of_struct[i];
    }
}

proof fn lemma_type_arguments_verdict(
    of_struct: Seq<StructTypeParameter>,
    targs: Seq<BaseType>,
    i: int,
)
    requires
        0 <= i <= targs.len(),
    ensures
        type_arguments_verdict(of_struct, targs, i) is Done <==> forall|k: int|
            i <= k < targs.len() ==> ((#[trigger] targs[k]).value matches BaseType_::Param(tp) && k
                < of_struct.len() && same_name(
                of_struct[k].param.user_specified_name,
                tp.user_specified_name,
            )),
    decreases targs.len() - i,
{
    if i < targs.len() {
        lemma_type_arguments_verdict(of_struct, targs, i + 1);
        let first = targs[i];
    }
}

/// A show passes if and only if the first function with the name that it gives can show the
/// struct.
pub proof fn law_show_passes(
    functions: Seq<(FunctionName, Function)>,
    show: ShowView,
    module: ModuleIdent,
)
    ensures
        show_verdict(functions, show, Some(module)) is Done <==> exists|i: int| #[trigger]
            first_named(functions, show.fname, i) && can_show(functions[i].1, show, module),
{
    lemma_find_function(functions, show.fname, 0);
    if let Some(i) = find_function(functions, show.fname, 0) {
        let f = functions[i].1;
        let of_struct = show.sdef.type_parameters@;
        let of_function = f.signature.type_parameters@;
        assert forall|j: int| #[trigger] first_named(functions, show.fname, j) implies i == j by {
            if j < i {
                assert(!same_name(functions[j].0.0, show.fname));
            } else if i < j {
                assert(!same_name(functions[i].0.0, show.fname));
            }
        }
        if of_function.len() == of_struct.len() {
            lemma_type_parameters_verdict(of_struct, of_function, 0);
        }
        if f.signature.parameters@.len() == 1 {
            if let SingleType_::Ref(_, base) = f.signature.parameters@[0].1.value {
                if let BaseType_::Apply(_, _, targs) = base.value {
                    lemma_type_arguments_verdict(of_struct, targs@, 0);
                }
            }
        }
        assert(show_verdict(functions, show, Some(module)) is Done <==> can_show(f, show, module));
    }
}

proof fn lemma_declared_in_stmts_skip(block: Seq<Statement>, i: int)
    requires
        0 <= i < block.len(),
    ensures
        declared_in_stmts(block, i + 1) == declared_in_stmts(block.skip(1), i),
    decreases block.len() - i,
{
    if i + 1 < block.len() {
        lemma_declared_in_stmts_skip(block, i + 1);
        assert(block.skip(1)[i] == block[i + 1]);
    }
}

/// Two blocks, one behind the other, declare what each of them declares.
pub proof fn law_declared_in_two_blocks(a: Seq<Statement>, b: Seq<Statement>)
    ensures
        declared_in_stmts(a + b, 0) == declared_in_stmts(a, 0).union(declared_in_stmts(b, 0)),
    decreases a.len(),
{
    if a.len() == 0 {
        assert(a + b =~= b);
        assert(declared_in_stmts(a, 0) =~= Set::empty());
    } else {
        law_declared_in_two_blocks(a.skip(1), b);
        lemma_declared_in_stmts_skip(a, 0);
        lemma_declared_in_stmts_skip(a + b, 0);
        assert((a + b).skip(1) =~= a.skip(1) + b);
        assert((a + b)[0] == a[0]);
    }
    assert(declared_in_stmts(a + b, 0) =~= declared_in_stmts(a, 0).union(declared_in_stmts(b, 0)));
}

/// The commands that the steps note, in order.
#[verifier::opaque]
pub open spec fn noted_cmds(steps: Seq<Step>) -> Seq<CmdView>
    decreases steps.len(),
{
    if steps.len() == 0 {
        Seq::empty()
    } else {
        let before = noted_cmds(steps.drop_last());
        match steps.last() {
            Step::NoteCmd(cmd) => before.push(cmd),
            _ => before,
        }
    }
}

/// The last step is noted behind those before it.
pub broadcast proof fn lemma_noted_push(steps: Seq<Step>, step: Step)
    ensures
        #[trigger] noted_cmds(steps.push(step)) == match step {
            Step::NoteCmd(cmd) => noted_cmds(steps).push(cmd),
            _ => noted_cmds(steps),
        },
{
    reveal(noted_cmds);
    assert(steps.push(step).drop_last() =~= steps);
}

/// No step notes no command.
pub broadcast proof fn lemma_noted_nothing()
    ensures
        #[trigger] noted_cmds(Seq::<Step>::empty()) == Seq::<CmdView>::empty(),
{
    reveal(noted_cmds);
}

/// Commands are noted in the order of the steps.
pub broadcast proof fn lemma_noted_concat(a: Seq<Step>, b: Seq<Step>)
    ensures
        #[trigger] noted_cmds(a + b) == noted_cmds(a) + noted_cmds(b),
    decreases b.len(),
{
    reveal(noted_cmds);
    if b.len() == 0 {
        assert(a + b =~= a);
        assert(noted_cmds(a + b) =~= noted_cmds(a) + noted_cmds(b));
    } else {
        lemma_noted_concat(a, b.drop_last());
        assert((a + b).drop_last() =~= a + b.drop_last());
        assert(noted_cmds(a + b) =~= noted_cmds(a) + noted_cmds(b));
    }
}

/// Commands are only added to those that were noted before, in the order of the steps.
pub proof fn law_commands_are_added(s: State, steps: Seq<Step>)
    requires
        run(s, steps).end is Done,
    ensures
        run(s, steps).state.ctx.cmds == s.ctx.cmds + noted_cmds(steps),
    decreases steps.len(),
{
    reveal(run);
    reveal(noted_cmds);
    if steps.len() > 0 {
        law_commands_are_added(s, steps.drop_last());
    }
    assert(run(s, steps).state.ctx.cmds =~= s.ctx.cmds + noted_cmds(steps));
}

/// Steps that are no function's note no command.
pub proof fn lemma_noted_none(kind: Kind, steps: Seq<Step>)
    requires
        !(kind is Function),
        all_allowed(kind, steps),
    ensures
        noted_cmds(steps) == Seq::<CmdView>::empty(),
    decreases steps.len(),
{
    broadcast use group_shape;

    reveal(noted_cmds);
    if steps.len() > 0 {
        let before = steps.drop_last();
        assert(before.push(steps.last()) =~= steps);
        lemma_noted_none(kind, before);
    }
}

/// Printing a module notes the commands that its functions note when they are printed as
/// TypeScript, and no others.
pub proof fn law_module_commands(mident: ModuleIdent, mdef: ModuleDefinition, ctx: ContextView)
    requires
        translated(mident, mdef, ctx).end is Done,
    ensures
        translated(mident, mdef, ctx).state.ctx.cmds == ctx.cmds + noted_cmds(
            functions_steps(mdef.functions@, false, ctx.config.test, Some(mident)),
        ),
{
    broadcast use {lemma_noted_push, lemma_noted_nothing, lemma_noted_concat, group_shape};

    let start = ctx.reset_for_module(mident);
    let s = State { doc: Seq::empty(), ctx: start };
    let test = ctx.config.test;
    let current = Some(mident);
    let steps = module_steps(mident, mdef, ctx.config, current);
    law_commands_are_added(s, steps);

    assert(noted_cmds(meta_steps(mident, mdef)) =~= Seq::empty()) by {
        reveal(meta_steps);
    }
    assert(noted_cmds(constants_steps(mdef.constants@)) == Seq::<CmdView>::empty()) by {
        reveal(constants_steps);
        lemma_constants_shape(mdef.constants@, 0);
        lemma_noted_none(Kind::Plain, constants_from(mdef.constants@, 0));
    }
    assert(noted_cmds(structs_steps(mdef.structs@, current)) == Seq::<CmdView>::empty()) by {
        reveal(structs_steps);
        lemma_structs_shape(mdef.structs@, current, 0);
        lemma_noted_none(Kind::Struct, structs_from(mdef.structs@, current, 0));
    }
    assert(noted_cmds(functions_steps(mdef.functions@, true, test, current)) == Seq::<
        CmdView,
    >::empty()) by {
        reveal(functions_steps);
        lemma_functions_shape(mdef.functions@, true, test, current, 0);
        lemma_noted_none(Kind::Plain, functions_from(mdef.functions@, true, test, current, 0));
    }
    assert(noted_cmds(load_parsers_steps(mident, mdef.structs@)) =~= Seq::empty()) by {
        reveal(load_parsers_steps);
        lemma_parsers_shape(mident, mdef.structs@, 0);
        lemma_noted_none(Kind::Plain, parsers_from(mident, mdef.structs@, 0));
    }
    assert(noted_cmds(special_module_steps(mident, ctx.config)) =~= Seq::empty()) by {
        reveal(special_module_steps);
    }
    assert(noted_cmds(steps) =~= noted_cmds(
        functions_steps(mdef.functions@, false, test, current),
    ));
}

proof fn lemma_directive_commands(
    name: FunctionName,
    func: Function,
    module: Option<ModuleIdent>,
    i: int,
)
    ensures
        forall|k: int|
            0 <= k < noted_cmds(function_directives_from(name, func, module, i)).len() ==> {
                let cmd = #[trigger] noted_cmds(function_directives_from(name, func, module, i))[k];
                cmd.fname == name && cmd.function == func && Some(cmd.module) == module
            },
    decreases func.attributes@.len() - i,
{
    broadcast use {lemma_noted_push, lemma_noted_nothing, lemma_noted_concat};

    if 0 <= i < func.attributes@.len() {
        lemma_directive_commands(name, func, module, i + 1);
    }
}

/// A command that printing a function notes is that function, in the current module.
pub proof fn law_command_is_its_function(
    name: FunctionName,
    func: Function,
    test: bool,
    module: Option<ModuleIdent>,
)
    ensures
        forall|k: int|
            0 <= k < noted_cmds(function_ts_steps(name, func, test, module)).len() ==> {
                let cmd = #[trigger] noted_cmds(function_ts_steps(name, func, test, module))[k];
                cmd.fname == name && cmd.function == func && Some(cmd.module) == module
            },
{
    broadcast use {lemma_noted_push, lemma_noted_nothing, lemma_noted_concat};

    lemma_function_body_shape(name, func, test);
    lemma_noted_none(Kind::Plain, function_body_steps(name, func, test));
    lemma_payload_shape(name, func, module);
    lemma_noted_none(Kind::Plain, payload_steps(name, func, module));
    lemma_directive_commands(name, func, module, 0);
}

} // verus!
