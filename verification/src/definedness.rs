//! A well-formed module is printed or refused: no step that is reached is undefined.

use crate::ast::{
    Attribute, Attribute_, BaseType, BaseType_, Constant, ConstantName, Function, FunctionName,
    ModuleDefinition, ModuleIdent, Name, SingleType, SingleType_, StructDefinition,
    StructFields, StructName, StructTypeParameter, TParam, TypeName_, Var,
};
use crate::ast_to_ts::translated;
use crate::constants::constant_steps;
use crate::functions::{function_json_steps, function_ts_steps};
use crate::indentation::{
    lemma_class_shape, lemma_constant_shape, lemma_function_json_shape, lemma_function_shape,
    lemma_struct_shape, lemma_struct_tparams_shape,
};
use crate::module::{
    constants_from, constants_steps, functions_from, functions_steps, load_parsers_steps,
    meta_steps, module_steps, parsers_from, special_module_steps, structs_from, structs_steps,
};
use crate::script::{group_run, lemma_run_concat, lemma_run_keeps, line, newline, run, State, Step};
use crate::shape::{all_allowed, group_shape, lemma_run_never_stuck, never_stuck, Kind};
use crate::shared::{same_module, same_name, ContextView, ShowView};
use crate::shows::{
    find_function, shows_verdict, shows_verdict_from, type_arguments_verdict,
    type_parameters_verdict,
};
use crate::struct_directives::{
    show_from, show_iter_table_from, show_iter_table_steps, show_steps, struct_directives_from,
};
use crate::structs::{class_steps, defined_struct_steps, struct_steps, struct_tparams_from};
use crate::types::{constant_type, param_handler, signer, valid_parameters};
use vstd::prelude::*;

verus! {

/// Whether a show is of one of the structs.
pub open spec fn shows_one_of(
    show: ShowView,
    structs: Seq<(StructName, StructDefinition)>,
) -> bool {
    exists|j: int|
        0 <= j < structs.len() && (#[trigger] structs[j]).0 == show.sname && structs[j].1
            == show.sdef
}

spec fn step_within(step: Step, structs: Seq<(StructName, StructDefinition)>) -> bool {
    step matches Step::NoteShow(show) ==> shows_one_of(show, structs)
}

/// Whether the steps note no show but of the structs.
#[verifier::opaque]
spec fn within(steps: Seq<Step>, structs: Seq<(StructName, StructDefinition)>) -> bool {
    forall|i: int| 0 <= i < steps.len() ==> step_within(#[trigger] steps[i], structs)
}

broadcast proof fn lemma_within_nothing(structs: Seq<(StructName, StructDefinition)>)
    ensures
        #[trigger] within(Seq::<Step>::empty(), structs),
{
    reveal(within);
}

broadcast proof fn lemma_within_push(
    steps: Seq<Step>,
    step: Step,
    structs: Seq<(StructName, StructDefinition)>,
)
    ensures
        #[trigger] within(steps.push(step), structs) == (within(steps, structs) && step_within(
            step,
            structs,
        )),
{
    reveal(within);
    let longer = steps.push(step);
    if within(longer, structs) {
        assert forall|i: int| 0 <= i < steps.len() implies step_within(
            #[trigger] steps[i],
            structs,
        ) by {
            assert(longer[i] == steps[i]);
        }
        assert(longer[steps.len() as int] == step);
    }
}

broadcast proof fn lemma_within_concat(
    a: Seq<Step>,
    b: Seq<Step>,
    structs: Seq<(StructName, StructDefinition)>,
)
    ensures
        #[trigger] within(a + b, structs) == (within(a, structs) && within(b, structs)),
{
    reveal(within);
    let both = a + b;
    if within(both, structs) {
        assert forall|i: int| 0 <= i < a.len() implies step_within(#[trigger] a[i], structs) by {
            assert(both[i] == a[i]);
        }
        assert forall|i: int| 0 <= i < b.len() implies step_within(#[trigger] b[i], structs) by {
            assert(both[a.len() + i] == b[i]);
        }
    }
}

broadcast group group_within {
    lemma_within_nothing,
    lemma_within_push,
    lemma_within_concat,
}

proof fn lemma_within_allowed(
    kind: Kind,
    steps: Seq<Step>,
    structs: Seq<(StructName, StructDefinition)>,
)
    requires
        !(kind is Struct),
        all_allowed(kind, steps),
    ensures
        within(steps, structs),
{
    reveal(within);
    reveal(all_allowed);
}

spec fn all_of(shows: Seq<ShowView>, structs: Seq<(StructName, StructDefinition)>) -> bool {
    forall|i: int| 0 <= i < shows.len() ==> shows_one_of(#[trigger] shows[i], structs)
}

proof fn lemma_run_within(s: State, steps: Seq<Step>, structs: Seq<(StructName, StructDefinition)>)
    requires
        within(steps, structs),
        all_of(s.ctx.module_shows, structs),
    ensures
        all_of(run(s, steps).state.ctx.module_shows, structs),
    decreases steps.len(),
{
    broadcast use {group_within, group_run};

    if steps.len() == 0 {
        assert(steps =~= Seq::empty());
    } else {
        assert(steps.drop_last().push(steps.last()) =~= steps);
        lemma_run_within(s, steps.drop_last(), structs);
    }
}

proof fn lemma_show_within(
    sname: StructName,
    sdef: StructDefinition,
    attrs: Seq<(Name, Attribute)>,
    module: Option<ModuleIdent>,
    i: int,
    structs: Seq<(StructName, StructDefinition)>,
)
    requires
        structs.contains((sname, sdef)),
    ensures
        within(show_from(sname, sdef, attrs, module, i), structs),
        within(show_iter_table_from(sname, sdef, attrs, module, i), structs),
    decreases attrs.len() - i,
{
    broadcast use group_within;

    reveal(show_steps);
    reveal(show_iter_table_steps);
    let j = choose|j: int| 0 <= j < structs.len() && structs[j] == (sname, sdef);
    assert(structs[j].0 == sname);
    if 0 <= i < attrs.len() {
        lemma_show_within(sname, sdef, attrs, module, i + 1, structs);
    }
}

proof fn lemma_directives_within(
    sname: StructName,
    sdef: StructDefinition,
    module: Option<ModuleIdent>,
    i: int,
    structs: Seq<(StructName, StructDefinition)>,
)
    requires
        structs.contains((sname, sdef)),
    ensures
        within(struct_directives_from(sname, sdef, module, i), structs),
    decreases sdef.attributes@.len() - i,
{
    broadcast use group_within;

    if 0 <= i < sdef.attributes@.len() {
        if let Attribute_::Parameterized(_, inner) = sdef.attributes@[i].1.value {
            lemma_show_within(sname, sdef, inner@, module, 0, structs);
        }
        lemma_directives_within(sname, sdef, module, i + 1, structs);
    }
}

proof fn lemma_struct_within(
    name: StructName,
    sdef: StructDefinition,
    module: Option<ModuleIdent>,
    structs: Seq<(StructName, StructDefinition)>,
)
    requires
        structs.contains((name, sdef)),
    ensures
        within(struct_steps(name, sdef, module), structs),
{
    broadcast use group_within;

    reveal(defined_struct_steps);
    if let StructFields::Defined(fields) = sdef.fields {
        lemma_class_shape(name, sdef, fields@, module);
        lemma_within_allowed(Kind::Plain, class_steps(name, sdef, fields@, module), structs);
    }
    lemma_struct_tparams_shape(sdef.type_parameters@, 0);
    lemma_within_allowed(Kind::Plain, struct_tparams_from(sdef.type_parameters@, 0), structs);
    lemma_directives_within(name, sdef, module, 0, structs);
}

proof fn lemma_structs(
    structs: Seq<(StructName, StructDefinition)>,
    module: Option<ModuleIdent>,
    i: int,
)
    requires
        0 <= i,
        module is Some,
    ensures
        within(structs_from(structs, module, i), structs),
        never_stuck(structs_from(structs, module, i)),
    decreases structs.len() - i,
{
    broadcast use {group_within, group_shape};

    if i < structs.len() {
        assert(structs.contains(structs[i]));
        lemma_struct_within(structs[i].0, structs[i].1, module, structs);
        lemma_struct_shape(structs[i].0, structs[i].1, module);
        lemma_structs(structs, module, i + 1);
    }
}

proof fn lemma_constants(
    constants: Seq<(ConstantName, Constant)>,
    i: int,
    structs: Seq<(StructName, StructDefinition)>,
)
    requires
        0 <= i,
        forall|k: int|
            0 <= k < constants.len() ==> !(constant_type((#[trigger] constants[k]).1.signature)
                is Stuck),
    ensures
        within(constants_from(constants, i), structs),
        never_stuck(constants_from(constants, i)),
    decreases constants.len() - i,
{
    broadcast use {group_within, group_shape};

    if i < constants.len() {
        let (name, cdef) = constants[i];
        lemma_constant_shape(name, cdef);
        lemma_within_allowed(
            Kind::Plain,
            constant_steps(name, cdef),
            structs,
        );
        lemma_constants(constants, i + 1, structs);
    }
}

proof fn lemma_functions(
    functions: Seq<(FunctionName, Function)>,
    json: bool,
    test: bool,
    module: Option<ModuleIdent>,
    i: int,
    structs: Seq<(StructName, StructDefinition)>,
)
    requires
        0 <= i,
        module is Some,
        forall|k: int|
            0 <= k < functions.len() ==> ((#[trigger] functions[k]).1.entry is Some
                ==> valid_parameters(functions[k].1.signature.parameters@, 0) is Some),
    ensures
        within(functions_from(functions, json, test, module, i), structs),
        never_stuck(functions_from(functions, json, test, module, i)),
    decreases functions.len() - i,
{
    broadcast use {group_within, group_shape};

    if i < functions.len() {
        let (name, func) = functions[i];
        lemma_function_shape(name, func, test, module);
        lemma_within_allowed(
            Kind::Function,
            function_ts_steps(name, func, test, module),
            structs,
        );
        lemma_function_json_shape(name, func, test);
        lemma_within_allowed(
            Kind::Plain,
            function_json_steps(name, func, test),
            structs,
        );
        lemma_functions(functions, json, test, module, i + 1, structs);
    }
}

proof fn lemma_parsers(
    mident: ModuleIdent,
    structs: Seq<(StructName, StructDefinition)>,
    i: int,
)
    ensures
        never_stuck(parsers_from(mident, structs, i)),
    decreases structs.len() - i,
{
    broadcast use group_shape;

    if 0 <= i < structs.len() {
        lemma_parsers(mident, structs, i + 1);
    }
}

/// Whether parameters are such as the compiler hands out for an entry function: a vector has
/// one type argument, and no vector holds signers.
pub open spec fn parameters_well_formed(parameters: Seq<(Var, SingleType)>) -> bool {
    forall|i: int|
        0 <= i < parameters.len() ==> signer((#[trigger] parameters[i]).1) || !(param_handler(
            parameters[i].0,
            parameters[i].1,
        ) is Stuck)
}

/// Whether a function whose only parameter is a reference to the struct applies it to no more
/// type arguments than the struct has type parameters.
pub open spec fn arity_fits(
    f: Function,
    sname: StructName,
    sdef: StructDefinition,
    module: ModuleIdent,
) -> bool {
    f.signature.parameters@.len() == 1 ==> (
    f.signature.parameters@[0].1.value matches SingleType_::Ref(_, base) ==> (
    base.value matches BaseType_::Apply(_, typename, targs) ==> (
    typename.value matches TypeName_::ModuleType(mi, sname2) ==> (same_module(module, mi)
        && same_name(sname.0, sname2.0) ==> targs@.len() <= sdef.type_parameters@.len()))))
}

/// Whether a module is such as the compiler hands out: constants have types that are built
/// in, the parameters of entry functions are well-formed, and a struct of the module is
/// applied to no more type arguments than it has type parameters.
pub open spec fn well_formed(mident: ModuleIdent, mdef: ModuleDefinition) -> bool {
    &&& forall|i: int|
        0 <= i < mdef.constants@.len() ==> !(constant_type(
            (#[trigger] mdef.constants@[i]).1.signature,
        ) is Stuck)
    &&& forall|i: int|
        0 <= i < mdef.functions@.len() ==> ((#[trigger] mdef.functions@[i]).1.entry is Some
            ==> parameters_well_formed(mdef.functions@[i].1.signature.parameters@))
    &&& forall|i: int, j: int|
        0 <= i < mdef.functions@.len() && 0 <= j < mdef.structs@.len() ==> arity_fits(
            (#[trigger] mdef.functions@[i]).1,
            (#[trigger] mdef.structs@[j]).0,
            mdef.structs@[j].1,
            mident,
        )
}

/// It can be told whether well-formed parameters are valid.
pub proof fn lemma_parameters_well_formed(parameters: Seq<(Var, SingleType)>, i: int)
    requires
        0 <= i,
        parameters_well_formed(parameters),
    ensures
        valid_parameters(parameters, i) is Some,
    decreases parameters.len() - i,
{
    if i < parameters.len() {
        let p = parameters[i];
        lemma_parameters_well_formed(parameters, i + 1);
    }
}

proof fn lemma_find_function_in(functions: Seq<(FunctionName, Function)>, name: Name, i: int)
    requires
        0 <= i,
    ensures
        find_function(functions, name, i) matches Some(j) ==> 0 <= j < functions.len(),
    decreases functions.len() - i,
{
    if i < functions.len() {
        lemma_find_function_in(functions, name, i + 1);
    }
}

proof fn lemma_type_parameters_not_stuck(
    of_struct: Seq<StructTypeParameter>,
    of_function: Seq<TParam>,
    i: int,
)
    ensures
        !(type_parameters_verdict(of_struct, of_function, i) is Stuck),
    decreases of_function.len() - i,
{
    if 0 <= i < of_function.len() {
        lemma_type_parameters_not_stuck(of_struct, of_function, i + 1);
    }
}

proof fn lemma_type_arguments_not_stuck(
    of_struct: Seq<StructTypeParameter>,
    targs: Seq<BaseType>,
    i: int,
)
    requires
        targs.len() <= of_struct.len(),
    ensures
        !(type_arguments_verdict(of_struct, targs, i) is Stuck),
    decreases targs.len() - i,
{
    if 0 <= i < targs.len() {
        lemma_type_arguments_not_stuck(of_struct, targs, i + 1);
    }
}

proof fn lemma_shows_not_stuck(
    mident: ModuleIdent,
    mdef: ModuleDefinition,
    ctx: ContextView,
    i: int,
)
    requires
        0 <= i,
        well_formed(mident, mdef),
        ctx.current_module == Some(mident),
        all_of(ctx.module_shows, mdef.structs@),
    ensures
        !(shows_verdict_from(mdef.functions@, ctx, i) is Stuck),
    decreases ctx.module_shows.len() - i,
{
    if i < ctx.module_shows.len() {
        let show = ctx.module_shows[i];
        assert(shows_one_of(show, mdef.structs@));
        let j = choose|j: int|
            0 <= j < mdef.structs@.len() && (#[trigger] mdef.structs@[j]).0 == show.sname
                && mdef.structs@[j].1 == show.sdef;
        lemma_find_function_in(mdef.functions@, show.fname, 0);
        if let Some(k) = find_function(mdef.functions@, show.fname, 0) {
            let f = mdef.functions@[k].1;
            assert(arity_fits(f, mdef.structs@[j].0, mdef.structs@[j].1, mident));
            lemma_type_parameters_not_stuck(
                show.sdef.type_parameters@,
                f.signature.type_parameters@,
                0,
            );
            if f.signature.parameters@.len() == 1 {
                if let SingleType_::Ref(_, base) = f.signature.parameters@[0].1.value {
                    if let BaseType_::Apply(_, typename, targs) = base.value {
                        if targs@.len() <= show.sdef.type_parameters@.len() {
                            lemma_type_arguments_not_stuck(
                                show.sdef.type_parameters@,
                                targs@,
                                0,
                            );
                        }
                    }
                }
            }
        }
        lemma_shows_not_stuck(mident, mdef, ctx, i + 1);
    }
}

/// A well-formed module is printed, or refused with a diagnostic.
pub proof fn law_well_formed_modules_are_defined(
    mident: ModuleIdent,
    mdef: ModuleDefinition,
    ctx: ContextView,
)
    requires
        well_formed(mident, mdef),
    ensures
        !(translated(mident, mdef, ctx).end is Stuck),
{
    broadcast use {group_shape, group_within};

    let test = ctx.config.test;
    let current = Some(mident);
    let (structs, functions) = (mdef.structs@, mdef.functions@);
    let s = State { doc: Seq::empty(), ctx: ctx.reset_for_module(mident) };

    assert forall|k: int|
        0 <= k < functions.len() && (#[trigger] functions[k]).1.entry is Some implies valid_parameters(
        functions[k].1.signature.parameters@,
        0,
    ) is Some by {
        lemma_parameters_well_formed(functions[k].1.signature.parameters@, 0);
    }
    let before = meta_steps(mident, mdef) + constants_steps(mdef.constants@)
        + newline() + structs_steps(structs, current) + seq![Step::SetJson(false)]
        + functions_steps(functions, false, test, current) + seq![Step::SetJson(true)]
        + line("export const json = {"@) + functions_steps(
        functions,
        true,
        test,
        current,
    ) + line("};"@);
    let behind = load_parsers_steps(mident, structs) + special_module_steps(mident, ctx.config);
    let steps = module_steps(mident, mdef, ctx.config, current);

    assert(never_stuck(meta_steps(mident, mdef)) && within(meta_steps(mident, mdef), structs)) by {
        reveal(meta_steps);
    }
    assert(never_stuck(constants_steps(mdef.constants@)) && within(
        constants_steps(mdef.constants@),
        structs,
    )) by {
        reveal(constants_steps);
        lemma_constants(mdef.constants@, 0, structs);
    }
    assert(never_stuck(structs_steps(structs, current)) && within(
        structs_steps(structs, current),
        structs,
    )) by {
        reveal(structs_steps);
        lemma_structs(structs, current, 0);
    }
    assert forall|json: bool| #[trigger]
        never_stuck(functions_steps(functions, json, test, current)) && within(
            functions_steps(functions, json, test, current),
            structs,
        ) by {
        reveal(functions_steps);
        lemma_functions(functions, json, test, current, 0, structs);
    }
    assert(never_stuck(functions_steps(functions, false, test, current)));
    assert(never_stuck(functions_steps(functions, true, test, current)));
    assert(never_stuck(load_parsers_steps(mident, structs))) by {
        reveal(load_parsers_steps);
        lemma_parsers(mident, structs, 0);
    }
    assert(never_stuck(special_module_steps(mident, ctx.config))) by {
        reveal(special_module_steps);
    }
    assert(never_stuck(before));
    assert(within(before, structs));
    assert(never_stuck(behind));

    let validate = seq![Step::ValidateShows(functions)];
    assert(steps =~= before + validate + behind);
    let o = run(s, before);
    lemma_run_never_stuck(s, before);
    lemma_run_within(s, before, structs);
    lemma_run_keeps(s, before);
    lemma_shows_not_stuck(mident, mdef, o.state.ctx, 0);
    lemma_run_never_stuck(o.state, behind);
    lemma_run_concat(s, before + validate, behind);
    lemma_run_concat(s, before, validate);
    assert(run(o.state, validate).end == shows_verdict(functions, o.state.ctx)
        && run(o.state, validate).state == o.state) by {
        broadcast use group_run;

    }
}

} // verus!
