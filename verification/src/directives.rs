//! What holds of the directives of a module once the module is printed.

use crate::ast::{
    Attribute, Attribute_, Function, FunctionName, ModuleDefinition, ModuleIdent, Name,
    StructDefinition, StructFields, StructName,
};
use crate::ast_to_ts::translated;
use crate::functions::{
    cmd_description, cmd_directive_steps, function_body_steps, function_directives_from,
    function_ts_steps, payload_steps,
};
use crate::indentation::{lemma_function_body_shape, lemma_payload_shape};
use crate::laws::{
    can_show, first_named, law_all_shows_pass, law_module_commands, law_show_passes,
    lemma_noted_concat, lemma_noted_none, lemma_noted_nothing, lemma_noted_push, noted_cmds,
};
use crate::module::{functions_from, functions_steps, module_steps, structs_from, structs_steps};
use crate::script::{group_run, lemma_run_concat, lemma_run_keeps, newline, run, State, Step};
use crate::shape::Kind;
use crate::shared::{same_name, CmdView, ContextView, ShowView};
use crate::stops::law_printed_modules_pass;
use crate::struct_directives::{
    find_field, iter_table_args, show_from, show_iter_table_from, show_iter_table_steps,
    show_steps, struct_directive_steps, struct_directives_from,
};
use crate::structs::{defined_struct_steps, struct_steps};
use crate::types::valid_parameters;
use vstd::prelude::*;

verus! {

/// Whether `part` stands somewhere in `steps`.
#[verifier::opaque]
spec fn part_of(part: Seq<Step>, steps: Seq<Step>) -> bool {
    exists|before: Seq<Step>, behind: Seq<Step>| steps == #[trigger] (before + part + behind)
}

proof fn lemma_part_self(part: Seq<Step>)
    ensures
        part_of(part, part),
{
    reveal(part_of);
    let none = Seq::<Step>::empty();
    assert(part =~= none + part + none);
}

broadcast proof fn lemma_part_concat(part: Seq<Step>, a: Seq<Step>, b: Seq<Step>)
    requires
        part_of(part, a) || part_of(part, b),
    ensures
        #[trigger] part_of(part, a + b),
{
    reveal(part_of);
    if part_of(part, a) {
        let (before, behind) = choose|before: Seq<Step>, behind: Seq<Step>|
            a == #[trigger] (before + part + behind);
        assert(a + b =~= before + part + (behind + b));
    } else {
        let (before, behind) = choose|before: Seq<Step>, behind: Seq<Step>|
            b == #[trigger] (before + part + behind);
        assert(a + b =~= (a + before) + part + behind);
    }
}

/// No step drops a show or a command.
proof fn lemma_notes_stay(s: State, steps: Seq<Step>)
    ensures
        s.ctx.module_shows.is_prefix_of(run(s, steps).state.ctx.module_shows),
        s.ctx.cmds.is_prefix_of(run(s, steps).state.ctx.cmds),
    decreases steps.len(),
{
    reveal(run);
    if steps.len() > 0 {
        lemma_notes_stay(s, steps.drop_last());
    }
}

/// If a run is done, each part of it is done from the state in which it starts, and what it
/// notes is there at the end.
proof fn lemma_part_done(part: Seq<Step>, s: State, steps: Seq<Step>) -> (start: State)
    requires
        part_of(part, steps),
        run(s, steps).end is Done,
    ensures
        run(start, part).end is Done,
        start.ctx.current_module == s.ctx.current_module,
        run(start, part).state.ctx.module_shows.is_prefix_of(
            run(s, steps).state.ctx.module_shows,
        ),
        run(start, part).state.ctx.cmds.is_prefix_of(run(s, steps).state.ctx.cmds),
{
    reveal(part_of);
    let (before, behind) = choose|before: Seq<Step>, behind: Seq<Step>|
        steps == #[trigger] (before + part + behind);
    lemma_run_concat(s, before + part, behind);
    lemma_run_concat(s, before, part);
    lemma_run_keeps(s, before);
    let start = run(s, before).state;
    lemma_notes_stay(run(start, part).state, behind);
    start
}

proof fn lemma_directive_in_struct(
    sname: StructName,
    sdef: StructDefinition,
    module: Option<ModuleIdent>,
    i: int,
    k: int,
)
    requires
        0 <= i <= k < sdef.attributes@.len(),
    ensures
        part_of(
            struct_directive_steps(
                sname,
                sdef,
                sdef.attributes@[k].0,
                sdef.attributes@[k].1,
                module,
            ),
            struct_directives_from(sname, sdef, module, i),
        ),
    decreases k - i,
{
    broadcast use lemma_part_concat;

    let (name, attr) = sdef.attributes@[k];
    if i == k {
        lemma_part_self(struct_directive_steps(sname, sdef, name, attr, module));
    } else {
        lemma_directive_in_struct(sname, sdef, module, i + 1, k);
    }
}

proof fn lemma_directive_in_structs(
    structs: Seq<(StructName, StructDefinition)>,
    module: Option<ModuleIdent>,
    i: int,
    j: int,
    k: int,
)
    requires
        0 <= i <= j < structs.len(),
        structs[j].1.fields is Defined,
        0 <= k < structs[j].1.attributes@.len(),
    ensures
        part_of(
            struct_directive_steps(
                structs[j].0,
                structs[j].1,
                structs[j].1.attributes@[k].0,
                structs[j].1.attributes@[k].1,
                module,
            ),
            structs_from(structs, module, i),
        ),
    decreases j - i,
{
    broadcast use lemma_part_concat;

    if i == j {
        let (sname, sdef) = structs[j];
        lemma_directive_in_struct(sname, sdef, module, 0, k);
        reveal(defined_struct_steps);
        let part = struct_directive_steps(
            sname,
            sdef,
            sdef.attributes@[k].0,
            sdef.attributes@[k].1,
            module,
        );
        assert(part_of(part, defined_struct_steps(sname, sdef, module)));
        assert(part_of(part, struct_steps(sname, sdef, module)));
    } else {
        lemma_directive_in_structs(structs, module, i + 1, j, k);
    }
}

/// The state in which a directive on a struct of a module that is printed is handled.
proof fn lemma_struct_directive_done(
    mident: ModuleIdent,
    mdef: ModuleDefinition,
    ctx: ContextView,
    j: int,
    k: int,
) -> (start: State)
    requires
        translated(mident, mdef, ctx).end is Done,
        0 <= j < mdef.structs@.len(),
        mdef.structs@[j].1.fields is Defined,
        0 <= k < mdef.structs@[j].1.attributes@.len(),
    ensures
        ({
            let (sname, sdef) = mdef.structs@[j];
            let (name, attr) = sdef.attributes@[k];
            let o = run(start, struct_directive_steps(sname, sdef, name, attr, Some(mident)));
            &&& o.end is Done
            &&& o.state.ctx.module_shows.is_prefix_of(
                translated(mident, mdef, ctx).state.ctx.module_shows,
            )
        }),
{
    broadcast use lemma_part_concat;

    let (sname, sdef) = mdef.structs@[j];
    let (name, attr) = sdef.attributes@[k];
    let part = struct_directive_steps(sname, sdef, name, attr, Some(mident));
    let s = State { doc: Seq::empty(), ctx: ctx.reset_for_module(mident) };
    let steps = module_steps(mident, mdef, ctx.config, Some(mident));
    assert(part_of(part, structs_steps(mdef.structs@, Some(mident)))) by {
        reveal(structs_steps);
        lemma_directive_in_structs(mdef.structs@, Some(mident), 0, j, k);
    }
    assert(part_of(part, steps));
    lemma_part_done(part, s, steps)
}

/// No struct of a module that is printed is declared a command, unless it is native.
pub proof fn law_structs_are_no_commands(
    mident: ModuleIdent,
    mdef: ModuleDefinition,
    ctx: ContextView,
    j: int,
    k: int,
)
    requires
        translated(mident, mdef, ctx).end is Done,
        0 <= j < mdef.structs@.len(),
        mdef.structs@[j].1.fields is Defined,
        0 <= k < mdef.structs@[j].1.attributes@.len(),
    ensures
        mdef.structs@[j].1.attributes@[k].0.value@ != "cmd"@,
{
    broadcast use group_run;

    let start = lemma_struct_directive_done(mident, mdef, ctx, j, k);
}

proof fn lemma_show_in_list(
    sname: StructName,
    sdef: StructDefinition,
    attrs: Seq<(Name, Attribute)>,
    module: Option<ModuleIdent>,
    i: int,
    l: int,
)
    requires
        0 <= i <= l < attrs.len(),
        attrs[l].1.value is Name,
    ensures
        part_of(
            show_steps(sname, sdef, attrs[l].1.value->Name_0, module),
            show_from(sname, sdef, attrs, module, i),
        ),
        part_of(
            show_iter_table_steps(sname, sdef, attrs[l].1.value->Name_0, module),
            show_iter_table_from(sname, sdef, attrs, module, i),
        ),
    decreases l - i,
{
    broadcast use lemma_part_concat;

    if i == l {
        lemma_part_self(show_steps(sname, sdef, attrs[l].1.value->Name_0, module));
        lemma_part_self(show_iter_table_steps(sname, sdef, attrs[l].1.value->Name_0, module));
    } else {
        lemma_show_in_list(sname, sdef, attrs, module, i + 1, l);
    }
}

/// The names of the directives differ.
pub proof fn lemma_directives_differ()
    ensures
        "cmd"@ != "show"@,
        "cmd"@ != "show_iter_table"@,
        "show"@ != "show_iter_table"@,
{
    reveal_strlit("cmd");
    reveal_strlit("show");
    reveal_strlit("show_iter_table");
    assert("cmd"@.len() == 3 && "show"@.len() == 4 && "show_iter_table"@.len() == 15);
}

/// Where a module is printed, the functions that a show directive names on a struct that is
/// not native exist in the module and can show the struct.
pub proof fn law_shows_fit(
    mident: ModuleIdent,
    mdef: ModuleDefinition,
    ctx: ContextView,
    j: int,
    k: int,
    inner: Seq<(Name, Attribute)>,
    l: int,
)
    requires
        translated(mident, mdef, ctx).end is Done,
        0 <= j < mdef.structs@.len(),
        mdef.structs@[j].1.fields is Defined,
        0 <= k < mdef.structs@[j].1.attributes@.len(),
        mdef.structs@[j].1.attributes@[k].0.value@ == "show"@,
        mdef.structs@[j].1.attributes@[k].1.value matches Attribute_::Parameterized(_, list)
            && list@ == inner,
        0 <= l < inner.len(),
    ensures
        inner[l].1.value matches Attribute_::Name(fname) && exists|i: int| #[trigger]
            first_named(mdef.functions@, fname, i) && can_show(
                mdef.functions@[i].1,
                (ShowView {
                    module: mident,
                    sname: mdef.structs@[j].0,
                    sdef: mdef.structs@[j].1,
                    fname,
                }),
                mident,
            ),
{
    broadcast use {group_run, lemma_part_concat};

    let (sname, sdef) = mdef.structs@[j];
    let (name, attr) = sdef.attributes@[k];
    lemma_directives_differ();
    let start = lemma_struct_directive_done(mident, mdef, ctx, j, k);
    let directive = struct_directive_steps(sname, sdef, name, attr, Some(mident));
    assert(directive == newline() + show_from(sname, sdef, inner, Some(mident), 0));
    lemma_names_only(sname, sdef, inner, Some(mident), 0, l, run(start, newline()).state);
    let fname = inner[l].1.value->Name_0;
    let part = show_steps(sname, sdef, fname, Some(mident));
    lemma_show_in_list(sname, sdef, inner, Some(mident), 0, l);
    assert(part_of(part, directive));
    let at = lemma_part_done(part, start, directive);
    let show = ShowView { module: mident, sname, sdef, fname };
    reveal(show_steps);
    let noted = run(at, part).state.ctx.module_shows;
    assert(noted.last() == show);
    let shows = translated(mident, mdef, ctx).state.ctx.module_shows;
    let n = noted.len() - 1;
    assert(shows[n] == show);
    law_printed_modules_pass(
        State { doc: Seq::empty(), ctx: ctx.reset_for_module(mident) },
        mident,
        mdef,
    );
    lemma_run_keeps(
        State { doc: Seq::empty(), ctx: ctx.reset_for_module(mident) },
        module_steps(mident, mdef, ctx.config, Some(mident)),
    );
    law_all_shows_pass(mdef.functions@, translated(mident, mdef, ctx).state.ctx);
    law_show_passes(mdef.functions@, show, mident);
}

/// A list of functions or of fields in a directive holds names only, if the directive can be
/// handled.
proof fn lemma_names_only(
    sname: StructName,
    sdef: StructDefinition,
    attrs: Seq<(Name, Attribute)>,
    module: Option<ModuleIdent>,
    i: int,
    l: int,
    s: State,
)
    requires
        0 <= i <= l < attrs.len(),
        run(s, show_from(sname, sdef, attrs, module, i)).end is Done || run(
            s,
            show_iter_table_from(sname, sdef, attrs, module, i),
        ).end is Done,
    ensures
        attrs[l].1.value is Name,
    decreases l - i,
{
    broadcast use group_run;

    if i < l {
        if let Attribute_::Name(n) = attrs[i].1.value {
            if run(s, show_from(sname, sdef, attrs, module, i)).end is Done {
                let next = run(s, show_steps(sname, sdef, n, module)).state;
                lemma_names_only(sname, sdef, attrs, module, i + 1, l, next);
            } else {
                let next = run(s, show_iter_table_steps(sname, sdef, n, module)).state;
                lemma_names_only(sname, sdef, attrs, module, i + 1, l, next);
            }
        }
    }
}

/// Where a module is printed, the fields whose iterable tables a directive shows on a struct
/// that is not native exist, and each is an iterable table of keys and values.
pub proof fn law_iter_tables_fit(
    mident: ModuleIdent,
    mdef: ModuleDefinition,
    ctx: ContextView,
    j: int,
    k: int,
    inner: Seq<(Name, Attribute)>,
    l: int,
)
    requires
        translated(mident, mdef, ctx).end is Done,
        0 <= j < mdef.structs@.len(),
        0 <= k < mdef.structs@[j].1.attributes@.len(),
        mdef.structs@[j].1.attributes@[k].0.value@ == "show_iter_table"@,
        mdef.structs@[j].1.attributes@[k].1.value matches Attribute_::Parameterized(_, list)
            && list@ == inner,
        0 <= l < inner.len(),
    ensures
        mdef.structs@[j].1.fields matches StructFields::Defined(fields) ==> (
        inner[l].1.value matches Attribute_::Name(field_name) && (find_field(
            fields@,
            field_name,
            0,
        ) matches Some(i) && iter_table_args(fields@[i].ty) matches Some(targs) && targs.len()
            == 2)),
{
    broadcast use {group_run, lemma_part_concat};

    if let StructFields::Defined(fields) = mdef.structs@[j].1.fields {
        let (sname, sdef) = mdef.structs@[j];
        let (name, attr) = sdef.attributes@[k];
        lemma_directives_differ();
        let start = lemma_struct_directive_done(mident, mdef, ctx, j, k);
        let directive = struct_directive_steps(sname, sdef, name, attr, Some(mident));
        assert(directive == newline() + show_iter_table_from(
            sname,
            sdef,
            inner,
            Some(mident),
            0,
        ));
        lemma_names_only(
            sname,
            sdef,
            inner,
            Some(mident),
            0,
            l,
            run(start, newline()).state,
        );
        let part = show_iter_table_steps(sname, sdef, inner[l].1.value->Name_0, Some(mident));
        lemma_show_in_list(sname, sdef, inner, Some(mident), 0, l);
        assert(part_of(part, directive));
        let at = lemma_part_done(part, start, directive);
        reveal(show_iter_table_steps);
    }
}

proof fn lemma_directive_in_function(
    fname: FunctionName,
    f: Function,
    module: Option<ModuleIdent>,
    i: int,
    k: int,
)
    requires
        0 <= i <= k < f.attributes@.len(),
        f.attributes@[k].0.value@ == "cmd"@,
        !(f.attributes@[k].1.value is Assigned),
    ensures
        part_of(
            cmd_directive_steps(fname, f, directive_parameters(f.attributes@[k].1), module),
            function_directives_from(fname, f, module, i),
        ),
    decreases k - i,
{
    broadcast use lemma_part_concat;

    if i == k {
        lemma_part_self(
            cmd_directive_steps(fname, f, directive_parameters(f.attributes@[k].1), module),
        );
    } else {
        lemma_directive_in_function(fname, f, module, i + 1, k);
    }
}

/// The parameters of a directive.
pub open spec fn directive_parameters(attr: Attribute) -> Seq<(Name, Attribute)> {
    match attr.value {
        Attribute_::Parameterized(_, inner) => inner@,
        _ => seq![],
    }
}

proof fn lemma_function_in_functions(
    functions: Seq<(FunctionName, Function)>,
    test: bool,
    module: Option<ModuleIdent>,
    i: int,
    j: int,
)
    requires
        0 <= i <= j < functions.len(),
    ensures
        part_of(
            function_ts_steps(functions[j].0, functions[j].1, test, module),
            functions_from(functions, false, test, module, i),
        ),
    decreases j - i,
{
    broadcast use lemma_part_concat;

    if i == j {
        lemma_part_self(function_ts_steps(functions[j].0, functions[j].1, test, module));
    } else {
        lemma_function_in_functions(functions, test, module, i + 1, j);
    }
}

/// Where a module is printed, a function that is declared a command is noted as one, with
/// the description that the directive gives it, if it is an entry function whose parameters
/// can all be passed.
pub proof fn law_commands_are_noted(
    mident: ModuleIdent,
    mdef: ModuleDefinition,
    ctx: ContextView,
    j: int,
    k: int,
)
    requires
        translated(mident, mdef, ctx).end is Done,
        0 <= j < mdef.functions@.len(),
        mdef.functions@[j].1.entry is Some,
        valid_parameters(mdef.functions@[j].1.signature.parameters@, 0) == Some(true),
        0 <= k < mdef.functions@[j].1.attributes@.len(),
        mdef.functions@[j].1.attributes@[k].0.value@ == "cmd"@,
    ensures
        ({
            let (fname, function) = mdef.functions@[j];
            let params = directive_parameters(function.attributes@[k].1);
            cmd_description(params, 0, None) matches Ok(desc) && translated(
                mident,
                mdef,
                ctx,
            ).state.ctx.cmds.contains(CmdView { module: mident, fname, function, desc })
        }),
{
    broadcast use {group_run, lemma_part_concat};

    let (fname, f) = mdef.functions@[j];
    let test = ctx.config.test;
    let whole = function_ts_steps(fname, f, test, Some(mident));
    let s = State { doc: Seq::empty(), ctx: ctx.reset_for_module(mident) };
    let steps = module_steps(mident, mdef, ctx.config, Some(mident));
    assert(part_of(whole, functions_steps(mdef.functions@, false, test, Some(mident)))) by {
        reveal(functions_steps);
        lemma_function_in_functions(mdef.functions@, test, Some(mident), 0, j);
    }
    assert(part_of(whole, steps));
    let start = lemma_part_done(whole, s, steps);
    let directives = function_directives_from(fname, f, Some(mident), 0);
    lemma_part_self(directives);
    assert(part_of(directives, whole));
    let next = lemma_part_done(directives, start, whole);
    lemma_not_assigned(fname, f, Some(mident), 0, k, next);
    let params = directive_parameters(f.attributes@[k].1);
    let part = cmd_directive_steps(fname, f, params, Some(mident));
    lemma_directive_in_function(fname, f, Some(mident), 0, k);
    let at = lemma_part_done(part, next, directives);
    let noted = run(at, part).state.ctx.cmds;
    let desc = cmd_description(params, 0, None)->Ok_0;
    let cmd = CmdView { module: mident, fname, function: f, desc };
    assert(noted.last() == cmd);
    assert(translated(mident, mdef, ctx).state.ctx.cmds[noted.len() - 1] == cmd);
}

/// A directive that declares a function a command is not assigned a value, if the directives
/// can be handled.
proof fn lemma_not_assigned(
    fname: FunctionName,
    f: Function,
    module: Option<ModuleIdent>,
    i: int,
    k: int,
    s: State,
)
    requires
        0 <= i <= k < f.attributes@.len(),
        f.attributes@[k].0.value@ == "cmd"@,
        run(s, function_directives_from(fname, f, module, i)).end is Done,
    ensures
        !(f.attributes@[k].1.value is Assigned),
    decreases k - i,
{
    broadcast use group_run;

    if i < k {
        let steps = function_directives_from(fname, f, module, i);
        let rest = function_directives_from(fname, f, module, i + 1);
        let first = steps.take(steps.len() - rest.len());
        assert(steps =~= first + rest);
        lemma_not_assigned(fname, f, module, i + 1, k, run(s, first).state);
    }
}

/// Whether no two attributes have the same name, as in the tree that the compiler hands out.
pub open spec fn distinct_names(attrs: Seq<(Name, Attribute)>) -> bool {
    forall|i: int, j: int|
        0 <= i < j < attrs.len() ==> !same_name(
            (#[trigger] attrs[i]).0,
            (#[trigger] attrs[j]).0,
        )
}

/// Where the first attribute from the one at `i` on stands that declares a command.
pub open spec fn find_cmd(attrs: Seq<(Name, Attribute)>, i: int) -> Option<int>
    decreases attrs.len() - i,
{
    if 0 <= i < attrs.len() {
        if attrs[i].0.value@ == "cmd"@ {
            Some(i)
        } else {
            find_cmd(attrs, i + 1)
        }
    } else {
        None
    }
}

/// The command that the attributes of a function from the one at `i` on declare, if they
/// declare one.
pub open spec fn declared_command(
    fname: FunctionName,
    function: Function,
    module: ModuleIdent,
    i: int,
) -> Seq<CmdView> {
    match find_cmd(function.attributes@, i) {
        Some(k) => match cmd_description(
            directive_parameters(function.attributes@[k].1),
            0,
            None,
        ) {
            Ok(desc) => seq![CmdView { module, fname, function, desc }],
            Err(_) => seq![],
        },
        None => seq![],
    }
}

/// The command that a function is offered as: an entry function whose parameters can all be
/// passed is offered as one if it is declared one, and no other function is.
pub open spec fn offered_command(
    fname: FunctionName,
    function: Function,
    module: ModuleIdent,
) -> Seq<CmdView> {
    if function.entry is Some && valid_parameters(function.signature.parameters@, 0) == Some(
        true,
    ) {
        declared_command(fname, function, module, 0)
    } else {
        seq![]
    }
}

/// The commands that the functions from the one at `i` on are offered as, in order.
pub open spec fn offered_commands(
    functions: Seq<(FunctionName, Function)>,
    module: ModuleIdent,
    i: int,
) -> Seq<CmdView>
    decreases functions.len() - i,
{
    if 0 <= i < functions.len() {
        offered_command(functions[i].0, functions[i].1, module) + offered_commands(
            functions,
            module,
            i + 1,
        )
    } else {
        seq![]
    }
}

proof fn lemma_no_cmd_left(
    fname: FunctionName,
    f: Function,
    module: Option<ModuleIdent>,
    i: int,
)
    requires
        0 <= i,
        forall|k: int|
            i <= k < f.attributes@.len() ==> (#[trigger] f.attributes@[k]).0.value@ != "cmd"@,
    ensures
        noted_cmds(function_directives_from(fname, f, module, i)) == Seq::<CmdView>::empty(),
    decreases f.attributes@.len() - i,
{
    broadcast use {lemma_noted_push, lemma_noted_nothing, lemma_noted_concat};

    if i < f.attributes@.len() {
        let first = f.attributes@[i];
        lemma_no_cmd_left(fname, f, module, i + 1);
        assert(noted_cmds(function_directives_from(fname, f, module, i)) =~= Seq::empty());
    }
}

proof fn lemma_directives_note_one(
    fname: FunctionName,
    f: Function,
    module: ModuleIdent,
    i: int,
    s: State,
)
    requires
        0 <= i,
        distinct_names(f.attributes@),
        run(s, function_directives_from(fname, f, Some(module), i)).end is Done,
    ensures
        noted_cmds(function_directives_from(fname, f, Some(module), i)) == declared_command(
            fname,
            f,
            module,
            i,
        ),
        declared_command(fname, f, module, i).len() == if find_cmd(f.attributes@, i) is Some {
            1nat
        } else {
            0nat
        },
    decreases f.attributes@.len() - i,
{
    broadcast use {group_run, lemma_noted_push, lemma_noted_nothing, lemma_noted_concat};

    let attrs = f.attributes@;
    if i < attrs.len() {
        let steps = function_directives_from(fname, f, Some(module), i);
        let rest = function_directives_from(fname, f, Some(module), i + 1);
        if attrs[i].0.value@ == "cmd"@ {
            assert forall|k: int| i + 1 <= k < attrs.len() implies (#[trigger] attrs[k]).0.value@
                != "cmd"@ by {
                assert(!same_name(attrs[i].0, attrs[k].0));
            }
            lemma_no_cmd_left(fname, f, Some(module), i + 1);
            lemma_not_assigned(fname, f, Some(module), i, i, s);
            let params = directive_parameters(attrs[i].1);
            let one = cmd_directive_steps(fname, f, params, Some(module));
            assert(steps == newline() + one + rest);
            assert(noted_cmds(steps) =~= declared_command(fname, f, module, i));
        } else {
            assert(steps =~= rest);
            lemma_directives_note_one(fname, f, module, i + 1, s);
        }
    }
}

/// A function that is printed as TypeScript is noted as a command once if it is declared one
/// and is an entry function whose parameters can all be passed, and else not at all.
pub proof fn law_command_is_noted_once(
    fname: FunctionName,
    function: Function,
    test: bool,
    module: ModuleIdent,
    s: State,
)
    requires
        distinct_names(function.attributes@),
        run(s, function_ts_steps(fname, function, test, Some(module))).end is Done,
    ensures
        ({
            let noted = noted_cmds(function_ts_steps(fname, function, test, Some(module)));
            &&& noted == offered_command(fname, function, module)
            &&& noted.len() == if function.entry is Some && valid_parameters(
                function.signature.parameters@,
                0,
            ) == Some(true) && find_cmd(function.attributes@, 0) is Some {
                1nat
            } else {
                0nat
            }
        }),
{
    broadcast use {lemma_noted_push, lemma_noted_nothing, lemma_noted_concat};

    let whole = function_ts_steps(fname, function, test, Some(module));
    let body = function_body_steps(fname, function, test);
    lemma_function_body_shape(fname, function, test);
    lemma_noted_none(Kind::Plain, body);
    if function.entry is Some && valid_parameters(function.signature.parameters@, 0) == Some(
        true,
    ) {
        let payload = payload_steps(fname, function, Some(module));
        let directives = function_directives_from(fname, function, Some(module), 0);
        lemma_payload_shape(fname, function, Some(module));
        lemma_noted_none(Kind::Plain, payload);
        lemma_part_self(directives);
        assert(part_of(directives, whole)) by {
            broadcast use lemma_part_concat;

        }
        let start = lemma_part_done(directives, s, whole);
        lemma_directives_note_one(fname, function, module, 0, start);
        assert(noted_cmds(whole) =~= noted_cmds(directives));
    } else {
        assert(noted_cmds(whole) =~= Seq::empty());
    }
}

proof fn lemma_functions_note_offered(
    functions: Seq<(FunctionName, Function)>,
    test: bool,
    module: ModuleIdent,
    i: int,
    s: State,
)
    requires
        0 <= i,
        forall|k: int|
            0 <= k < functions.len() ==> distinct_names((#[trigger] functions[k]).1.attributes@),
        run(s, functions_from(functions, false, test, Some(module), i)).end is Done,
    ensures
        noted_cmds(functions_from(functions, false, test, Some(module), i)) == offered_commands(
            functions,
            module,
            i,
        ),
    decreases functions.len() - i,
{
    broadcast use {lemma_noted_nothing, lemma_noted_concat};

    if i < functions.len() {
        let (fname, function) = functions[i];
        let one = function_ts_steps(fname, function, test, Some(module));
        lemma_run_concat(
            s,
            one,
            functions_from(functions, false, test, Some(module), i + 1),
        );
        law_command_is_noted_once(fname, function, test, module, s);
        lemma_functions_note_offered(functions, test, module, i + 1, run(s, one).state);
    }
}

/// A module that is printed adds to the commands each of its functions that is offered as
/// one, once and in the order of the functions, and nothing else.
pub proof fn law_module_offers_each_command_once(
    mident: ModuleIdent,
    mdef: ModuleDefinition,
    ctx: ContextView,
)
    requires
        translated(mident, mdef, ctx).end is Done,
        forall|k: int|
            0 <= k < mdef.functions@.len() ==> distinct_names(
                (#[trigger] mdef.functions@[k]).1.attributes@,
            ),
    ensures
        translated(mident, mdef, ctx).state.ctx.cmds == ctx.cmds + offered_commands(
            mdef.functions@,
            mident,
            0,
        ),
{
    broadcast use lemma_part_concat;

    let s = State { doc: Seq::empty(), ctx: ctx.reset_for_module(mident) };
    let steps = module_steps(mident, mdef, ctx.config, Some(mident));
    let part = functions_steps(mdef.functions@, false, ctx.config.test, Some(mident));
    law_module_commands(mident, mdef, ctx);
    lemma_part_self(part);
    assert(part_of(part, steps));
    let start = lemma_part_done(part, s, steps);
    reveal(functions_steps);
    lemma_functions_note_offered(mdef.functions@, ctx.config.test, mident, 0, start);
}

} // verus!
