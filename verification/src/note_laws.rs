//! What is noted of the structs of a module, and when a module can be printed.

use crate::ast::{
    Attribute, Attribute_, Constant, ConstantName, Function, FunctionName, ModuleDefinition,
    ModuleIdent, Name, StructDefinition, StructFields, StructName,
};
use crate::ast_to_ts::translated;
use crate::constants::constant_steps;
use crate::directives::lemma_directives_differ;
use crate::functions::{function_json_steps, function_ts_steps};
use crate::indentation::{
    lemma_class_shape, lemma_constant_shape, lemma_function_json_shape, lemma_function_shape,
    lemma_struct_shape, lemma_struct_tparams_shape,
};
use crate::laws::law_all_shows_pass;
use crate::module::{
    constants_from, constants_steps, contents_steps, functions_from, functions_steps,
    load_parsers_steps, meta_steps, module_steps, parsers_from, special_module_steps,
    structs_from, structs_steps,
};
use crate::module_laws::{lemma_meta_lines, lemma_parsers_pass};
use crate::reading::{lemma_done_passes, lemma_flatten_skip, lemma_passes_done};
use crate::script::{
    group_run, lemma_run_concat, lemma_run_keeps, lemma_run_nothing, lemma_run_push, line,
    newline, run, State, Step,
};
use crate::shape::{all_allowed, group_shape, lemma_allowed_plain, lemma_run_allowed, Kind};
use crate::shared::{Config, ContextView, ShowIterTableView, ShowView};
use crate::shows::{show_verdict, shows_verdict};
use crate::stops::{law_module_ends_as_its_contents, one_function_steps};
use crate::struct_directives::{
    show_from, show_iter_table_from, show_iter_table_steps, show_steps, struct_directive_steps,
    struct_directives_from,
};
use crate::struct_laws::{good_directive, good_table, law_struct_can_be_printed};
use crate::structs::{class_steps, defined_struct_steps, struct_steps, struct_tparams_from};
use vstd::prelude::*;

verus! {

/// The shows that the steps note, in order.
#[verifier::opaque]
pub open spec fn noted_shows(steps: Seq<Step>) -> Seq<ShowView>
    decreases steps.len(),
{
    if steps.len() == 0 {
        Seq::empty()
    } else {
        match steps.last() {
            Step::NoteShow(show) => noted_shows(steps.drop_last()).push(show),
            _ => noted_shows(steps.drop_last()),
        }
    }
}

/// The iterable tables that the steps note, in order.
#[verifier::opaque]
pub open spec fn noted_tables(steps: Seq<Step>) -> Seq<ShowIterTableView>
    decreases steps.len(),
{
    if steps.len() == 0 {
        Seq::empty()
    } else {
        match steps.last() {
            Step::NoteShowIterTable(show) => noted_tables(steps.drop_last()).push(show),
            _ => noted_tables(steps.drop_last()),
        }
    }
}

broadcast proof fn lemma_notes_nothing()
    ensures
        #![trigger noted_shows(Seq::<Step>::empty())]
        #![trigger noted_tables(Seq::<Step>::empty())]
        noted_shows(Seq::<Step>::empty()) == Seq::<ShowView>::empty(),
        noted_tables(Seq::<Step>::empty()) == Seq::<ShowIterTableView>::empty(),
{
    reveal(noted_shows);
    reveal(noted_tables);
}

broadcast proof fn lemma_shows_push(steps: Seq<Step>, step: Step)
    ensures
        #[trigger] noted_shows(steps.push(step)) == match step {
            Step::NoteShow(show) => noted_shows(steps).push(show),
            _ => noted_shows(steps),
        },
{
    reveal(noted_shows);
    assert(steps.push(step).drop_last() =~= steps);
}

broadcast proof fn lemma_tables_push(steps: Seq<Step>, step: Step)
    ensures
        #[trigger] noted_tables(steps.push(step)) == match step {
            Step::NoteShowIterTable(show) => noted_tables(steps).push(show),
            _ => noted_tables(steps),
        },
{
    reveal(noted_tables);
    assert(steps.push(step).drop_last() =~= steps);
}

broadcast proof fn lemma_shows_concat(a: Seq<Step>, b: Seq<Step>)
    ensures
        #[trigger] noted_shows(a + b) == noted_shows(a) + noted_shows(b),
    decreases b.len(),
{
    reveal(noted_shows);
    if b.len() == 0 {
        assert(a + b =~= a);
    } else {
        lemma_shows_concat(a, b.drop_last());
        assert((a + b).drop_last() =~= a + b.drop_last());
    }
    assert(noted_shows(a + b) =~= noted_shows(a) + noted_shows(b));
}

broadcast proof fn lemma_tables_concat(a: Seq<Step>, b: Seq<Step>)
    ensures
        #[trigger] noted_tables(a + b) == noted_tables(a) + noted_tables(b),
    decreases b.len(),
{
    reveal(noted_tables);
    if b.len() == 0 {
        assert(a + b =~= a);
    } else {
        lemma_tables_concat(a, b.drop_last());
        assert((a + b).drop_last() =~= a + b.drop_last());
    }
    assert(noted_tables(a + b) =~= noted_tables(a) + noted_tables(b));
}

broadcast group group_notes {
    lemma_notes_nothing,
    lemma_shows_push,
    lemma_tables_push,
    lemma_shows_concat,
    lemma_tables_concat,
}

/// A run that is done has added what its steps note.
proof fn lemma_notes_added(s: State, steps: Seq<Step>)
    requires
        run(s, steps).end is Done,
    ensures
        run(s, steps).state.ctx.module_shows == s.ctx.module_shows + noted_shows(steps),
        run(s, steps).state.ctx.iter_table_shows == s.ctx.iter_table_shows + noted_tables(steps),
    decreases steps.len(),
{
    broadcast use {group_notes, group_run};

    if steps.len() == 0 {
        assert(steps =~= Seq::empty());
    } else {
        assert(steps.drop_last().push(steps.last()) =~= steps);
        lemma_notes_added(s, steps.drop_last());
    }
    assert(run(s, steps).state.ctx.module_shows =~= s.ctx.module_shows + noted_shows(steps));
    assert(run(s, steps).state.ctx.iter_table_shows =~= s.ctx.iter_table_shows + noted_tables(
        steps,
    ));
}

proof fn lemma_nothing_noted(kind: Kind, steps: Seq<Step>)
    requires
        !(kind is Struct),
        all_allowed(kind, steps),
    ensures
        noted_shows(steps) == Seq::<ShowView>::empty(),
        noted_tables(steps) == Seq::<ShowIterTableView>::empty(),
    decreases steps.len(),
{
    broadcast use {group_notes, group_shape};

    if steps.len() == 0 {
        assert(steps =~= Seq::empty());
    } else {
        assert(steps.drop_last().push(steps.last()) =~= steps);
        lemma_nothing_noted(kind, steps.drop_last());
    }
}

/// The shows that an attribute of a struct asks for: one for each function that it names.
pub open spec fn shows_of(
    sname: StructName,
    sdef: StructDefinition,
    module: ModuleIdent,
    attr: (Name, Attribute),
) -> Seq<ShowView> {
    match attr.1.value {
        Attribute_::Parameterized(_, inner) => if attr.0.value@ == "show"@ {
            inner@.map_values(
                |x: (Name, Attribute)|
                    ShowView { module, sname, sdef, fname: x.1.value->Name_0 },
            )
        } else {
            Seq::empty()
        },
        _ => Seq::empty(),
    }
}

/// The iterable tables that an attribute of a struct shows: one for each field that it names.
pub open spec fn tables_of(
    sname: StructName,
    sdef: StructDefinition,
    module: ModuleIdent,
    attr: (Name, Attribute),
) -> Seq<ShowIterTableView> {
    match attr.1.value {
        Attribute_::Parameterized(_, inner) => if attr.0.value@ == "show_iter_table"@ {
            inner@.map_values(
                |x: (Name, Attribute)|
                    ShowIterTableView { module, sname, sdef, field_name: x.1.value->Name_0 },
            )
        } else {
            Seq::empty()
        },
        _ => Seq::empty(),
    }
}

proof fn lemma_list_notes(
    sname: StructName,
    sdef: StructDefinition,
    attrs: Seq<(Name, Attribute)>,
    module: ModuleIdent,
    i: int,
)
    requires
        0 <= i <= attrs.len(),
    ensures
        noted_tables(show_from(sname, sdef, attrs, Some(module), i)) == Seq::<
            ShowIterTableView,
        >::empty(),
        noted_shows(show_iter_table_from(sname, sdef, attrs, Some(module), i)) == Seq::<
            ShowView,
        >::empty(),
        (forall|k: int| i <= k < attrs.len() ==> (#[trigger] attrs[k]).1.value is Name)
            ==> noted_shows(show_from(sname, sdef, attrs, Some(module), i)) == attrs.map_values(
            |x: (Name, Attribute)| ShowView { module, sname, sdef, fname: x.1.value->Name_0 },
        ).skip(i) && noted_tables(show_iter_table_from(sname, sdef, attrs, Some(module), i))
            == attrs.map_values(
            |x: (Name, Attribute)|
                ShowIterTableView { module, sname, sdef, field_name: x.1.value->Name_0 },
        ).skip(i),
    decreases attrs.len() - i,
{
    broadcast use group_notes;

    let shows = attrs.map_values(
        |x: (Name, Attribute)| ShowView { module, sname, sdef, fname: x.1.value->Name_0 },
    );
    let tables = attrs.map_values(
        |x: (Name, Attribute)|
            ShowIterTableView { module, sname, sdef, field_name: x.1.value->Name_0 },
    );
    if i < attrs.len() {
        lemma_list_notes(sname, sdef, attrs, module, i + 1);
        let first = attrs[i];
        if let Attribute_::Name(f) = first.1.value {
            reveal(show_steps);
            reveal(show_iter_table_steps);
            let one_show = ShowView { module, sname, sdef, fname: f };
            let one_table = ShowIterTableView { module, sname, sdef, field_name: f };
            assert(noted_shows(show_steps(sname, sdef, f, Some(module))) =~= seq![one_show]);
            assert(noted_tables(show_steps(sname, sdef, f, Some(module))) =~= Seq::empty());
            assert(noted_shows(show_iter_table_steps(sname, sdef, f, Some(module)))
                =~= Seq::empty());
            assert(noted_tables(show_iter_table_steps(sname, sdef, f, Some(module))) =~= seq![
                one_table,
            ]);
            assert(shows.skip(i) =~= seq![one_show] + shows.skip(i + 1));
            assert(tables.skip(i) =~= seq![one_table] + tables.skip(i + 1));
        }
    } else {
        assert(shows.skip(i) =~= Seq::empty());
        assert(tables.skip(i) =~= Seq::empty());
    }
}

proof fn lemma_directive_notes(
    sname: StructName,
    sdef: StructDefinition,
    module: ModuleIdent,
    attr: (Name, Attribute),
)
    requires
        good_directive(sdef, attr),
    ensures
        noted_shows(struct_directive_steps(sname, sdef, attr.0, attr.1, Some(module))) == shows_of(
            sname,
            sdef,
            module,
            attr,
        ),
        noted_tables(struct_directive_steps(sname, sdef, attr.0, attr.1, Some(module)))
            == tables_of(sname, sdef, module, attr),
{
    broadcast use group_notes;

    lemma_directives_differ();
    if let Attribute_::Parameterized(_, inner) = attr.1.value {
        lemma_list_notes(sname, sdef, inner@, module, 0);
        if attr.0.value@ == "show_iter_table"@ {
            assert forall|k: int| 0 <= k < inner@.len() implies (#[trigger] inner@[k]).1.value
                is Name by {
                assert(good_table(sdef, inner@[k]));
            }
        }
        let steps = struct_directive_steps(sname, sdef, attr.0, attr.1, Some(module));
        assert(noted_shows(steps) =~= shows_of(sname, sdef, module, attr));
        assert(noted_tables(steps) =~= tables_of(sname, sdef, module, attr));
    }
}

proof fn lemma_struct_directives_notes(
    sname: StructName,
    sdef: StructDefinition,
    module: ModuleIdent,
    i: int,
)
    requires
        0 <= i <= sdef.attributes@.len(),
        forall|k: int|
            0 <= k < sdef.attributes@.len() ==> good_directive(
                sdef,
                #[trigger] sdef.attributes@[k],
            ),
    ensures
        noted_shows(struct_directives_from(sname, sdef, Some(module), i))
            == sdef.attributes@.map_values(
            |a: (Name, Attribute)| shows_of(sname, sdef, module, a),
        ).skip(i).flatten(),
        noted_tables(struct_directives_from(sname, sdef, Some(module), i))
            == sdef.attributes@.map_values(
            |a: (Name, Attribute)| tables_of(sname, sdef, module, a),
        ).skip(i).flatten(),
    decreases sdef.attributes@.len() - i,
{
    broadcast use group_notes;

    let shows = sdef.attributes@.map_values(
        |a: (Name, Attribute)| shows_of(sname, sdef, module, a),
    );
    let tables = sdef.attributes@.map_values(
        |a: (Name, Attribute)| tables_of(sname, sdef, module, a),
    );
    lemma_flatten_skip(shows, i);
    lemma_flatten_skip(tables, i);
    if i < sdef.attributes@.len() {
        lemma_directive_notes(sname, sdef, module, sdef.attributes@[i]);
        lemma_struct_directives_notes(sname, sdef, module, i + 1);
    }
}

/// The shows that a struct asks for, if it is not native.
pub open spec fn shows_of_struct(
    sname: StructName,
    sdef: StructDefinition,
    module: ModuleIdent,
) -> Seq<ShowView> {
    if sdef.fields is Native {
        Seq::empty()
    } else {
        sdef.attributes@.map_values(
            |a: (Name, Attribute)| shows_of(sname, sdef, module, a),
        ).flatten()
    }
}

/// The iterable tables that a struct shows, if it is not native.
pub open spec fn tables_of_struct(
    sname: StructName,
    sdef: StructDefinition,
    module: ModuleIdent,
) -> Seq<ShowIterTableView> {
    if sdef.fields is Native {
        Seq::empty()
    } else {
        sdef.attributes@.map_values(
            |a: (Name, Attribute)| tables_of(sname, sdef, module, a),
        ).flatten()
    }
}

proof fn lemma_struct_notes(sname: StructName, sdef: StructDefinition, module: ModuleIdent, s: State)
    requires
        run(s, struct_steps(sname, sdef, Some(module))).end is Done,
    ensures
        noted_shows(struct_steps(sname, sdef, Some(module))) == shows_of_struct(
            sname,
            sdef,
            module,
        ),
        noted_tables(struct_steps(sname, sdef, Some(module))) == tables_of_struct(
            sname,
            sdef,
            module,
        ),
{
    broadcast use group_notes;

    let steps = struct_steps(sname, sdef, Some(module));
    law_struct_can_be_printed(sname, sdef, module, s);
    lemma_struct_tparams_shape(sdef.type_parameters@, 0);
    lemma_nothing_noted(Kind::Plain, struct_tparams_from(sdef.type_parameters@, 0));
    reveal(defined_struct_steps);
    if let StructFields::Defined(fields) = sdef.fields {
        lemma_class_shape(sname, sdef, fields@, Some(module));
        lemma_nothing_noted(Kind::Plain, class_steps(sname, sdef, fields@, Some(module)));
        lemma_struct_directives_notes(sname, sdef, module, 0);
        let shows = sdef.attributes@.map_values(
            |a: (Name, Attribute)| shows_of(sname, sdef, module, a),
        );
        let tables = sdef.attributes@.map_values(
            |a: (Name, Attribute)| tables_of(sname, sdef, module, a),
        );
        assert(shows.skip(0) =~= shows);
        assert(tables.skip(0) =~= tables);
    }
    assert(noted_shows(steps) =~= shows_of_struct(sname, sdef, module));
    assert(noted_tables(steps) =~= tables_of_struct(sname, sdef, module));
}

/// A struct that is printed is noted as shown by each function that its directives name, in
/// order, and so is each iterable table that they name; and nothing else is.
pub proof fn law_struct_is_noted(
    sname: StructName,
    sdef: StructDefinition,
    module: ModuleIdent,
    s: State,
)
    requires
        run(s, struct_steps(sname, sdef, Some(module))).end is Done,
    ensures
        ({
            let after = run(s, struct_steps(sname, sdef, Some(module))).state.ctx;
            &&& after.module_shows == s.ctx.module_shows + shows_of_struct(sname, sdef, module)
            &&& after.iter_table_shows == s.ctx.iter_table_shows + tables_of_struct(
                sname,
                sdef,
                module,
            )
            &&& after.cmds == s.ctx.cmds
            &&& after.json == s.ctx.json
            &&& after.current_module == s.ctx.current_module
        }),
{
    let steps = struct_steps(sname, sdef, Some(module));
    lemma_struct_notes(sname, sdef, module, s);
    lemma_notes_added(s, steps);
    lemma_struct_shape(sname, sdef, Some(module));
    lemma_run_allowed(Kind::Struct, s, steps);
    lemma_run_keeps(s, steps);
}

proof fn lemma_structs_notes(
    structs: Seq<(StructName, StructDefinition)>,
    module: ModuleIdent,
    i: int,
    s: State,
)
    requires
        0 <= i <= structs.len(),
        run(s, structs_from(structs, Some(module), i)).end is Done,
    ensures
        noted_shows(structs_from(structs, Some(module), i)) == structs.map_values(
            |x: (StructName, StructDefinition)| shows_of_struct(x.0, x.1, module),
        ).skip(i).flatten(),
        noted_tables(structs_from(structs, Some(module), i)) == structs.map_values(
            |x: (StructName, StructDefinition)| tables_of_struct(x.0, x.1, module),
        ).skip(i).flatten(),
    decreases structs.len() - i,
{
    broadcast use group_notes;

    let shows = structs.map_values(
        |x: (StructName, StructDefinition)| shows_of_struct(x.0, x.1, module),
    );
    let tables = structs.map_values(
        |x: (StructName, StructDefinition)| tables_of_struct(x.0, x.1, module),
    );
    lemma_flatten_skip(shows, i);
    lemma_flatten_skip(tables, i);
    if i < structs.len() {
        let one = struct_steps(structs[i].0, structs[i].1, Some(module));
        lemma_run_concat(s, one, structs_from(structs, Some(module), i + 1));
        lemma_struct_notes(structs[i].0, structs[i].1, module, s);
        lemma_structs_notes(structs, module, i + 1, run(s, one).state);
    }
}

/// A module that is printed leaves behind the shows that its structs ask for, in order, and adds
/// the iterable tables that they show to those of the modules before.
pub proof fn law_module_notes(mident: ModuleIdent, mdef: ModuleDefinition, ctx: ContextView)
    requires
        translated(mident, mdef, ctx).end is Done,
    ensures
        translated(mident, mdef, ctx).state.ctx.module_shows == mdef.structs@.map_values(
            |x: (StructName, StructDefinition)| shows_of_struct(x.0, x.1, mident),
        ).flatten(),
        translated(mident, mdef, ctx).state.ctx.iter_table_shows == ctx.iter_table_shows
            + mdef.structs@.map_values(
            |x: (StructName, StructDefinition)| tables_of_struct(x.0, x.1, mident),
        ).flatten(),
        translated(mident, mdef, ctx).state.ctx.current_module == Some(mident),
        translated(mident, mdef, ctx).state.ctx.config == ctx.config,
{
    broadcast use group_notes;

    let test = ctx.config.test;
    let current = Some(mident);
    let s = State { doc: Seq::empty(), ctx: ctx.reset_for_module(mident) };
    let steps = module_steps(mident, mdef, ctx.config, current);
    lemma_notes_added(s, steps);
    lemma_run_keeps(s, steps);
    let structs = structs_steps(mdef.structs@, current);
    let before = meta_steps(mident, mdef) + constants_steps(mdef.constants@) + newline();
    let behind = steps.skip((before + structs).len() as int);
    assert(steps =~= before + structs + behind);
    lemma_run_concat(s, before + structs, behind);
    lemma_run_concat(s, before, structs);
    let shows = mdef.structs@.map_values(
        |x: (StructName, StructDefinition)| shows_of_struct(x.0, x.1, mident),
    );
    let tables = mdef.structs@.map_values(
        |x: (StructName, StructDefinition)| tables_of_struct(x.0, x.1, mident),
    );
    assert(shows.skip(0) =~= shows);
    assert(tables.skip(0) =~= tables);
    assert(noted_shows(structs) == shows.flatten() && noted_tables(structs) == tables.flatten()) by {
        reveal(structs_steps);
        lemma_structs_notes(mdef.structs@, mident, 0, run(s, before).state);
    }
    lemma_module_parts_note_nothing(mident, mdef, ctx.config);
    assert(noted_shows(steps) =~= shows.flatten());
    assert(noted_tables(steps) =~= tables.flatten());
    assert(Seq::<ShowView>::empty() + shows.flatten() =~= shows.flatten());
}

proof fn lemma_module_parts_note_nothing(mident: ModuleIdent, mdef: ModuleDefinition, config: Config)
    ensures
        noted_shows(meta_steps(mident, mdef)) == Seq::<ShowView>::empty(),
        noted_tables(meta_steps(mident, mdef)) == Seq::<ShowIterTableView>::empty(),
        noted_shows(constants_steps(mdef.constants@)) == Seq::<ShowView>::empty(),
        noted_tables(constants_steps(mdef.constants@)) == Seq::<ShowIterTableView>::empty(),
        forall|json: bool|
            noted_shows(
                #[trigger] functions_steps(mdef.functions@, json, config.test, Some(mident)),
            ) == Seq::<ShowView>::empty(),
        forall|json: bool|
            noted_tables(
                #[trigger] functions_steps(mdef.functions@, json, config.test, Some(mident)),
            ) == Seq::<ShowIterTableView>::empty(),
        noted_shows(load_parsers_steps(mident, mdef.structs@)) == Seq::<ShowView>::empty(),
        noted_tables(load_parsers_steps(mident, mdef.structs@)) == Seq::<
            ShowIterTableView,
        >::empty(),
        noted_shows(special_module_steps(mident, config)) == Seq::<ShowView>::empty(),
        noted_tables(special_module_steps(mident, config)) == Seq::<ShowIterTableView>::empty(),
{
    broadcast use group_notes;

    reveal(meta_steps);
    reveal(constants_steps);
    reveal(functions_steps);
    reveal(load_parsers_steps);
    reveal(special_module_steps);
    assert(noted_shows(meta_steps(mident, mdef)) =~= Seq::empty());
    assert(noted_tables(meta_steps(mident, mdef)) =~= Seq::empty());
    lemma_constants_allowed(mdef.constants@, 0);
    lemma_nothing_noted(Kind::Plain, constants_from(mdef.constants@, 0));
    assert forall|json: bool|
        noted_shows(#[trigger] functions_steps(mdef.functions@, json, config.test, Some(mident)))
            == Seq::<ShowView>::empty() && noted_tables(
            functions_steps(mdef.functions@, json, config.test, Some(mident)),
        ) == Seq::<ShowIterTableView>::empty() by {
        lemma_functions_allowed(mdef.functions@, json, config.test, Some(mident), 0);
        lemma_nothing_noted(
            Kind::Function,
            functions_from(mdef.functions@, json, config.test, Some(mident), 0),
        );
    }
    lemma_parsers_pass(mident, mdef.structs@, 0);
    lemma_nothing_noted(Kind::Plain, parsers_from(mident, mdef.structs@, 0));
    assert(noted_shows(load_parsers_steps(mident, mdef.structs@)) =~= Seq::empty());
    assert(noted_tables(load_parsers_steps(mident, mdef.structs@)) =~= Seq::empty());
}

proof fn lemma_constants_allowed(constants: Seq<(ConstantName, Constant)>, i: int)
    ensures
        all_allowed(Kind::Plain, constants_from(constants, i)),
    decreases constants.len() - i,
{
    broadcast use group_shape;

    if 0 <= i < constants.len() {
        lemma_constant_shape(constants[i].0, constants[i].1);
        lemma_constants_allowed(constants, i + 1);
    }
}

proof fn lemma_functions_allowed(
    functions: Seq<(FunctionName, Function)>,
    json: bool,
    test: bool,
    module: Option<ModuleIdent>,
    i: int,
)
    ensures
        all_allowed(Kind::Function, functions_from(functions, json, test, module, i)),
    decreases functions.len() - i,
{
    broadcast use group_shape;

    if 0 <= i < functions.len() {
        let (name, func) = functions[i];
        lemma_function_shape(name, func, test, module);
        lemma_function_json_shape(name, func, test);
        lemma_allowed_plain(Kind::Function, function_json_steps(name, func, test));
        lemma_functions_allowed(functions, json, test, module, i + 1);
    }
}

proof fn lemma_can_be_printed(kind: Kind, a: State, b: State, steps: Seq<Step>)
    requires
        all_allowed(kind, steps),
        run(a, steps).end is Done,
    ensures
        run(b, steps).end is Done,
{
    lemma_done_passes(a, steps);
    lemma_passes_done(kind, b, steps);
}

proof fn lemma_constants_can_be_printed(
    constants: Seq<(ConstantName, Constant)>,
    i: int,
    s: State,
    any: State,
)
    requires
        0 <= i <= constants.len(),
    ensures
        run(s, constants_from(constants, i)).end is Done <==> forall|k: int|
            i <= k < constants.len() ==> run(
                any,
                constant_steps((#[trigger] constants[k]).0, constants[k].1),
            ).end is Done,
    decreases constants.len() - i,
{
    if i < constants.len() {
        let (name, cdef) = constants[i];
        let one = constant_steps(name, cdef);
        let rest = constants_from(constants, i + 1);
        lemma_run_concat(s, one, rest);
        lemma_constant_shape(name, cdef);
        lemma_constants_can_be_printed(constants, i + 1, run(s, one).state, any);
        if run(s, one).end is Done {
            lemma_can_be_printed(Kind::Plain, s, any, one);
        }
        if run(any, one).end is Done {
            lemma_can_be_printed(Kind::Plain, any, s, one);
        }
        assert(constants[i] == (name, cdef));
    } else {
        broadcast use group_run;

    }
}

proof fn lemma_structs_can_be_printed(
    structs: Seq<(StructName, StructDefinition)>,
    module: Option<ModuleIdent>,
    i: int,
    s: State,
    any: State,
)
    requires
        0 <= i <= structs.len(),
    ensures
        run(s, structs_from(structs, module, i)).end is Done <==> forall|k: int|
            i <= k < structs.len() ==> run(
                any,
                struct_steps((#[trigger] structs[k]).0, structs[k].1, module),
            ).end is Done,
    decreases structs.len() - i,
{
    if i < structs.len() {
        let (name, sdef) = structs[i];
        let one = struct_steps(name, sdef, module);
        let rest = structs_from(structs, module, i + 1);
        lemma_run_concat(s, one, rest);
        lemma_struct_shape(name, sdef, module);
        lemma_structs_can_be_printed(structs, module, i + 1, run(s, one).state, any);
        if run(s, one).end is Done {
            lemma_can_be_printed(Kind::Struct, s, any, one);
        }
        if run(any, one).end is Done {
            lemma_can_be_printed(Kind::Struct, any, s, one);
        }
        assert(structs[i] == (name, sdef));
    } else {
        broadcast use group_run;

    }
}

proof fn lemma_functions_can_be_printed(
    functions: Seq<(FunctionName, Function)>,
    json: bool,
    test: bool,
    module: Option<ModuleIdent>,
    i: int,
    s: State,
    any: State,
)
    requires
        0 <= i <= functions.len(),
    ensures
        run(s, functions_from(functions, json, test, module, i)).end is Done <==> forall|k: int|
            i <= k < functions.len() ==> run(
                any,
                one_function_steps(#[trigger] functions[k], json, test, module),
            ).end is Done,
    decreases functions.len() - i,
{
    if i < functions.len() {
        let (name, func) = functions[i];
        let one = one_function_steps(functions[i], json, test, module);
        let rest = functions_from(functions, json, test, module, i + 1);
        lemma_run_concat(s, one, rest);
        lemma_function_shape(name, func, test, module);
        lemma_function_json_shape(name, func, test);
        lemma_allowed_plain(Kind::Function, function_json_steps(name, func, test));
        lemma_functions_can_be_printed(
            functions,
            json,
            test,
            module,
            i + 1,
            run(s, one).state,
            any,
        );
        if run(s, one).end is Done {
            lemma_can_be_printed(Kind::Function, s, any, one);
        }
        if run(any, one).end is Done {
            lemma_can_be_printed(Kind::Function, any, s, one);
        }
    } else {
        broadcast use group_run;

    }
}

/// A module can be printed if and only if each of its constants, structs and functions can be,
/// the functions also as JSON, whatever the state, and each show that a struct asks for passes.
pub proof fn law_module_can_be_printed(
    mident: ModuleIdent,
    mdef: ModuleDefinition,
    ctx: ContextView,
    any: State,
)
    ensures
        translated(mident, mdef, ctx).end is Done <==> {
            let test = ctx.config.test;
            let shows = mdef.structs@.map_values(
                |x: (StructName, StructDefinition)| shows_of_struct(x.0, x.1, mident),
            ).flatten();
            &&& forall|k: int|
                0 <= k < mdef.constants@.len() ==> run(
                    any,
                    constant_steps((#[trigger] mdef.constants@[k]).0, mdef.constants@[k].1),
                ).end is Done
            &&& forall|k: int|
                0 <= k < mdef.structs@.len() ==> run(
                    any,
                    struct_steps((#[trigger] mdef.structs@[k]).0, mdef.structs@[k].1, Some(mident)),
                ).end is Done
            &&& forall|k: int|
                0 <= k < mdef.functions@.len() ==> run(
                    any,
                    function_ts_steps(
                        (#[trigger] mdef.functions@[k]).0,
                        mdef.functions@[k].1,
                        test,
                        Some(mident),
                    ),
                ).end is Done
            &&& forall|k: int|
                0 <= k < mdef.functions@.len() ==> run(
                    any,
                    function_json_steps(
                        (#[trigger] mdef.functions@[k]).0,
                        mdef.functions@[k].1,
                        test,
                    ),
                ).end is Done
            &&& forall|k: int|
                0 <= k < shows.len() ==> show_verdict(
                    mdef.functions@,
                    #[trigger] shows[k],
                    Some(mident),
                ) is Done
        },
{
    let test = ctx.config.test;
    let current = Some(mident);
    let s0 = State { doc: Seq::empty(), ctx: ctx.reset_for_module(mident) };
    let meta = meta_steps(mident, mdef);
    let constants = constants_steps(mdef.constants@);
    let structs = structs_steps(mdef.structs@, current);
    let functions = functions_steps(mdef.functions@, false, test, current);
    let json = functions_steps(mdef.functions@, true, test, current);
    let off = seq![Step::SetJson(false)];
    let on = seq![Step::SetJson(true)];
    let opening = line("export const json = {"@);
    let closing = line("};"@);
    let validate = seq![Step::ValidateShows(mdef.functions@)];
    let contents = contents_steps(mident, mdef, ctx.config, current);
    let before = contents.drop_last();
    law_module_ends_as_its_contents(s0, mident, mdef);
    assert(contents == meta + constants + newline() + structs + off + functions + on + opening
        + json + closing + validate);
    assert(before =~= meta + constants + newline() + structs + off + functions + on + opening
        + json + closing);
    assert(contents =~= before + validate);
    let s1 = run(s0, meta).state;
    let s2 = run(s1, constants).state;
    let s3 = run(s2, newline()).state;
    let s4 = run(s3, structs).state;
    let s5 = run(s4, off).state;
    let s6 = run(s5, functions).state;
    let s7 = run(s6, on).state;
    let s8 = run(s7, opening).state;
    let s9 = run(s8, json).state;
    assert(run(s0, before).end is Done <==> (run(s1, constants).end is Done && run(
        s3,
        structs,
    ).end is Done && run(s5, functions).end is Done && run(s8, json).end is Done)) by {
        lemma_meta_lines(s0, mident, mdef);
        broadcast use {lemma_run_concat, lemma_run_push, lemma_run_nothing};

    }
    assert(run(s1, constants).end is Done <==> forall|k: int|
        0 <= k < mdef.constants@.len() ==> run(
            any,
            constant_steps((#[trigger] mdef.constants@[k]).0, mdef.constants@[k].1),
        ).end is Done) by {
        reveal(constants_steps);
        lemma_constants_can_be_printed(mdef.constants@, 0, s1, any);
    }
    assert(run(s3, structs).end is Done <==> forall|k: int|
        0 <= k < mdef.structs@.len() ==> run(
            any,
            struct_steps((#[trigger] mdef.structs@[k]).0, mdef.structs@[k].1, current),
        ).end is Done) by {
        reveal(structs_steps);
        lemma_structs_can_be_printed(mdef.structs@, current, 0, s3, any);
    }
    assert(run(s5, functions).end is Done <==> forall|k: int|
        0 <= k < mdef.functions@.len() ==> run(
            any,
            function_ts_steps(
                (#[trigger] mdef.functions@[k]).0,
                mdef.functions@[k].1,
                test,
                current,
            ),
        ).end is Done) by {
        reveal(functions_steps);
        lemma_functions_can_be_printed(mdef.functions@, false, test, current, 0, s5, any);
    }
    assert(run(s8, json).end is Done <==> forall|k: int|
        0 <= k < mdef.functions@.len() ==> run(
            any,
            function_json_steps((#[trigger] mdef.functions@[k]).0, mdef.functions@[k].1, test),
        ).end is Done) by {
        reveal(functions_steps);
        lemma_functions_can_be_printed(mdef.functions@, true, test, current, 0, s8, any);
    }
    let shows = mdef.structs@.map_values(
        |x: (StructName, StructDefinition)| shows_of_struct(x.0, x.1, mident),
    ).flatten();
    lemma_run_concat(s0, before, validate);
    if run(s0, before).end is Done {
        let at = run(s0, before).state;
        assert(run(at, validate).end == shows_verdict(mdef.functions@, at.ctx)) by {
            broadcast use group_run;

        }
        lemma_contents_shows(mident, mdef, ctx, before);
        lemma_run_keeps(s0, before);
        law_all_shows_pass(mdef.functions@, at.ctx);
        assert(at.ctx.module_shows == shows);
    }
}

proof fn lemma_contents_shows(
    mident: ModuleIdent,
    mdef: ModuleDefinition,
    ctx: ContextView,
    before: Seq<Step>,
)
    requires
        before == contents_steps(mident, mdef, ctx.config, Some(mident)).drop_last(),
        run(
            State { doc: Seq::empty(), ctx: ctx.reset_for_module(mident) },
            before,
        ).end is Done,
    ensures
        run(
            State { doc: Seq::empty(), ctx: ctx.reset_for_module(mident) },
            before,
        ).state.ctx.module_shows == mdef.structs@.map_values(
            |x: (StructName, StructDefinition)| shows_of_struct(x.0, x.1, mident),
        ).flatten(),
{
    broadcast use group_notes;

    let test = ctx.config.test;
    let current = Some(mident);
    let s = State { doc: Seq::empty(), ctx: ctx.reset_for_module(mident) };
    lemma_notes_added(s, before);
    let front = meta_steps(mident, mdef) + constants_steps(mdef.constants@) + newline();
    let structs = structs_steps(mdef.structs@, current);
    let behind = seq![Step::SetJson(false)] + functions_steps(
        mdef.functions@,
        false,
        test,
        current,
    ) + seq![Step::SetJson(true)] + line("export const json = {"@) + functions_steps(
        mdef.functions@,
        true,
        test,
        current,
    ) + line("};"@);
    assert(before =~= front + structs + behind);
    lemma_run_concat(s, front + structs, behind);
    lemma_run_concat(s, front, structs);
    let shows = mdef.structs@.map_values(
        |x: (StructName, StructDefinition)| shows_of_struct(x.0, x.1, mident),
    );
    assert(shows.skip(0) =~= shows);
    assert(noted_shows(structs) == shows.flatten()) by {
        reveal(structs_steps);
        lemma_structs_notes(mdef.structs@, mident, 0, run(s, front).state);
    }
    lemma_module_parts_note_nothing(mident, mdef, ctx.config);
    assert(noted_shows(before) =~= shows.flatten());
    assert(Seq::<ShowView>::empty() + shows.flatten() =~= shows.flatten());
}

} // verus!
