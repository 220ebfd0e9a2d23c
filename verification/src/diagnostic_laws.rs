//! What is said of a construct that cannot be printed.

use crate::ast::{
    Attribute, Attribute_, BaseType, BaseType_, DiagnosticView, Function, FunctionName,
    ModuleIdent, Name, SingleType_, StructDefinition, StructFields, StructName,
    StructTypeParameter, TParam, TypeName_,
};
use crate::directives::lemma_directives_differ;
use crate::function_laws::{good_cmd, law_command_description};
use crate::functions::{cmd_description, cmd_directive_steps, function_directives_from};
use crate::indentation::{
    lemma_show_iter_table_shape, lemma_show_shape, lemma_struct_directives_shape,
};
use crate::laws::{first_named, lemma_type_parameters_verdict};
use crate::reading::{lemma_done_passes, lemma_ending_run, lemma_passes_done};
use crate::script::{group_run, lemma_run_concat, newline, run, End, State};
use crate::shape::{all_allowed, group_shape, Kind};
use crate::shared::{ContextView, ShowView};
use crate::shows::{
    find_function, show_verdict, shows_verdict, shows_verdict_from, type_arguments_verdict,
    type_parameters_verdict,
};
use crate::struct_directives::{
    find_field, iter_table_args, show_from, show_iter_table_from, show_iter_table_steps,
    show_steps, struct_directive_steps, struct_directives_from,
};
use crate::struct_laws::{good_directive, good_table, lemma_directive_passes};
use vstd::prelude::*;

verus! {

proof fn lemma_first_bad_show(
    sname: StructName,
    sdef: StructDefinition,
    attrs: Seq<(Name, Attribute)>,
    mident: ModuleIdent,
    i: int,
    k: int,
    s: State,
)
    requires
        0 <= i <= k < attrs.len(),
        forall|j: int| i <= j < k ==> (#[trigger] attrs[j]).1.value is Name,
        !(attrs[k].1.value is Name),
    ensures
        run(s, show_from(sname, sdef, attrs, Some(mident), i)).end == End::Fail(
            DiagnosticView {
                loc: attrs[k].1.loc,
                message: "show directive expects only a list of function names as argument"@,
            },
        ),
    decreases k - i,
{
    broadcast use group_run;

    if i < k {
        if let Attribute_::Name(f) = attrs[i].1.value {
            let one = show_steps(sname, sdef, f, Some(mident));
            assert(run(s, one).end is Done) by {
                reveal(show_steps);
            }
            lemma_first_bad_show(sname, sdef, attrs, mident, i + 1, k, run(s, one).state);
        }
    }
}

/// A list in a show directive may hold names only: the first item that is none is reported.
pub proof fn law_show_takes_names(
    sname: StructName,
    sdef: StructDefinition,
    attrs: Seq<(Name, Attribute)>,
    mident: ModuleIdent,
    k: int,
    s: State,
)
    requires
        0 <= k < attrs.len(),
        forall|j: int| 0 <= j < k ==> (#[trigger] attrs[j]).1.value is Name,
        !(attrs[k].1.value is Name),
    ensures
        run(s, show_from(sname, sdef, attrs, Some(mident), 0)).end == End::Fail(
            DiagnosticView {
                loc: attrs[k].1.loc,
                message: "show directive expects only a list of function names as argument"@,
            },
        ),
{
    lemma_first_bad_show(sname, sdef, attrs, mident, 0, k, s);
}

/// What is said of a field that a directive names to show its iterable table, if the table
/// cannot be shown: the argument has to be a name, the struct not native, and the first field
/// of that name an iterable table with a key and a value type, both with texts.
pub open spec fn table_failure(sdef: StructDefinition, inner: (Name, Attribute)) -> DiagnosticView {
    match inner.1.value {
        Attribute_::Name(f) => match sdef.fields {
            StructFields::Native(_) => DiagnosticView {
                loc: f.loc,
                message: "cannot show iterable tables from native struct"@,
            },
            StructFields::Defined(fields) => match find_field(fields@, f, 0) {
                None => DiagnosticView {
                    loc: f.loc,
                    message: "Field "@ + f.value@ + " does not exist"@,
                },
                Some(i) => match iter_table_args(fields@[i].ty) {
                    None => DiagnosticView {
                        loc: f.loc,
                        message: "Field "@ + f.value@ + " is not an IterableTable"@,
                    },
                    Some(targs) => if targs.len() != 2 {
                        DiagnosticView {
                            loc: fields@[i].name.0.loc,
                            message: "IterableTable should have 2 type arguments "@,
                        }
                    } else if targs[0].ts.text is Err {
                        targs[0].ts.text->Err_0@
                    } else {
                        targs[1].ts.text->Err_0@
                    },
                },
            },
        },
        _ => DiagnosticView {
            loc: inner.1.loc,
            message: "show_iter_table directive expects only a field name as argument"@,
        },
    }
}

proof fn lemma_bad_table(
    sname: StructName,
    sdef: StructDefinition,
    inner: (Name, Attribute),
    f: Name,
    mident: ModuleIdent,
    s: State,
)
    requires
        inner.1.value == Attribute_::Name(f),
    ensures
        run(s, show_iter_table_steps(sname, sdef, f, Some(mident))).end == (if good_table(
            sdef,
            inner,
        ) {
            End::Done
        } else {
            End::Fail(table_failure(sdef, inner))
        }),
{
    broadcast use group_run;

    reveal(show_iter_table_steps);
}

proof fn lemma_first_bad_table(
    sname: StructName,
    sdef: StructDefinition,
    attrs: Seq<(Name, Attribute)>,
    mident: ModuleIdent,
    i: int,
    k: int,
    s: State,
)
    requires
        0 <= i <= k < attrs.len(),
        forall|j: int| i <= j < k ==> good_table(sdef, #[trigger] attrs[j]),
        !good_table(sdef, attrs[k]),
    ensures
        run(s, show_iter_table_from(sname, sdef, attrs, Some(mident), i)).end == End::Fail(
            table_failure(sdef, attrs[k]),
        ),
    decreases k - i,
{
    let rest = show_iter_table_from(sname, sdef, attrs, Some(mident), i + 1);
    match attrs[i].1.value {
        Attribute_::Name(f) => {
            let one = show_iter_table_steps(sname, sdef, f, Some(mident));
            lemma_bad_table(sname, sdef, attrs[i], f, mident, s);
            lemma_run_concat(s, one, rest);
            if i < k {
                lemma_first_bad_table(sname, sdef, attrs, mident, i + 1, k, run(s, one).state);
            }
        },
        _ => {
            assert(i == k) by {
                if i < k {
                    assert(good_table(sdef, attrs[i]));
                }
            }
            broadcast use group_run;

        },
    }
}

/// The first field of a directive whose iterable table cannot be shown is reported.
pub proof fn law_tables_that_cannot_be_shown(
    sname: StructName,
    sdef: StructDefinition,
    attrs: Seq<(Name, Attribute)>,
    mident: ModuleIdent,
    k: int,
    s: State,
)
    requires
        0 <= k < attrs.len(),
        forall|j: int| 0 <= j < k ==> good_table(sdef, #[trigger] attrs[j]),
        !good_table(sdef, attrs[k]),
    ensures
        run(s, show_iter_table_from(sname, sdef, attrs, Some(mident), 0)).end == End::Fail(
            table_failure(sdef, attrs[k]),
        ),
{
    lemma_first_bad_table(sname, sdef, attrs, mident, 0, k, s);
}

proof fn lemma_first_bad_directive(
    sname: StructName,
    sdef: StructDefinition,
    mident: ModuleIdent,
    i: int,
    k: int,
    s: State,
)
    requires
        0 <= i <= k < sdef.attributes@.len(),
        forall|j: int| i <= j < k ==> good_directive(sdef, #[trigger] sdef.attributes@[j]),
        !good_directive(sdef, sdef.attributes@[k]),
    ensures
        run(s, struct_directives_from(sname, sdef, Some(mident), i)).end == run(
            s,
            struct_directive_steps(
                sname,
                sdef,
                sdef.attributes@[k].0,
                sdef.attributes@[k].1,
                Some(mident),
            ),
        ).end,
    decreases k - i,
{
    let attr = sdef.attributes@[i];
    let one = struct_directive_steps(sname, sdef, attr.0, attr.1, Some(mident));
    let rest = struct_directives_from(sname, sdef, Some(mident), i + 1);
    lemma_run_concat(s, one, rest);
    lemma_directive_passes(sname, sdef, attr, mident);
    lemma_directive_shape(sname, sdef, Some(mident), i);
    if i < k {
        lemma_passes_done(Kind::Struct, s, one);
        let next = run(s, one).state;
        lemma_first_bad_directive(sname, sdef, mident, i + 1, k, next);
        let bad = sdef.attributes@[k];
        lemma_directive_shape(sname, sdef, Some(mident), k);
        let last = struct_directive_steps(sname, sdef, bad.0, bad.1, Some(mident));
        lemma_ending_run(Kind::Struct, next, last);
        lemma_ending_run(Kind::Struct, s, last);
    } else if run(s, one).end is Done {
        lemma_done_passes(s, one);
    }
}

proof fn lemma_directive_shape(
    sname: StructName,
    sdef: StructDefinition,
    module: Option<ModuleIdent>,
    k: int,
)
    requires
        0 <= k < sdef.attributes@.len(),
    ensures
        all_allowed(
            Kind::Struct,
            struct_directive_steps(
                sname,
                sdef,
                sdef.attributes@[k].0,
                sdef.attributes@[k].1,
                module,
            ),
        ),
{
    broadcast use group_shape;

    lemma_struct_directives_shape(sname, sdef, module, k);
}

/// The first directive on a struct that cannot be handled is reported: `cmd` does not belong on
/// a struct, and the others take a list.
pub proof fn law_directives_that_cannot_be_handled(
    sname: StructName,
    sdef: StructDefinition,
    mident: ModuleIdent,
    k: int,
    s: State,
)
    requires
        0 <= k < sdef.attributes@.len(),
        forall|j: int| 0 <= j < k ==> good_directive(sdef, #[trigger] sdef.attributes@[j]),
        !good_directive(sdef, sdef.attributes@[k]),
    ensures
        ({
            let (name, attr) = sdef.attributes@[k];
            let end = run(s, struct_directives_from(sname, sdef, Some(mident), 0)).end;
            &&& name.value@ == "cmd"@ ==> end == End::Fail(
                DiagnosticView {
                    loc: attr.loc,
                    message: "the 'cmd' attribute cannot be used on structs"@,
                },
            )
            &&& name.value@ == "show"@ || name.value@ == "show_iter_table"@ ==> match attr.value {
                Attribute_::Parameterized(_, inner) => if name.value@ == "show"@ {
                    end == run(s, show_from(sname, sdef, inner@, Some(mident), 0)).end
                } else {
                    end == run(s, show_iter_table_from(sname, sdef, inner@, Some(mident), 0)).end
                },
                _ => end == End::Fail(
                    DiagnosticView {
                        loc: attr.loc,
                        message:
                            "the 'show' requires a list of function names as argument (e.g. $[show(show_x_as_y)]"@,
                    },
                ),
            }
        }),
{
    let (name, attr) = sdef.attributes@[k];
    lemma_first_bad_directive(sname, sdef, mident, 0, k, s);
    lemma_directives_differ();
    lemma_directive_shape(sname, sdef, Some(mident), k);
    let ended = run(s, newline()).state;
    if let Attribute_::Parameterized(_, inner) = attr.value {
        assert(all_allowed(Kind::Struct, show_from(sname, sdef, inner@, Some(mident), 0))
            && all_allowed(
            Kind::Struct,
            show_iter_table_from(sname, sdef, inner@, Some(mident), 0),
        )) by {
            lemma_show_shape(sname, sdef, inner@, Some(mident), 0);
            lemma_show_iter_table_shape(sname, sdef, inner@, Some(mident), 0);
        }
        let shows = show_from(sname, sdef, inner@, Some(mident), 0);
        let tables = show_iter_table_from(sname, sdef, inner@, Some(mident), 0);
        lemma_ending_run(Kind::Struct, ended, shows);
        lemma_ending_run(Kind::Struct, s, shows);
        lemma_ending_run(Kind::Struct, ended, tables);
        lemma_ending_run(Kind::Struct, s, tables);
    }
    broadcast use group_run;

}

proof fn lemma_first_bad_cmd(
    fname: FunctionName,
    f: Function,
    mident: ModuleIdent,
    i: int,
    k: int,
    s: State,
)
    requires
        0 <= i <= k < f.attributes@.len(),
        forall|j: int|
            i <= j < k ==> ((#[trigger] f.attributes@[j]).0.value@ == "cmd"@ ==> good_cmd(
                f.attributes@[j].1,
            )),
        f.attributes@[k].0.value@ == "cmd"@,
        !good_cmd(f.attributes@[k].1),
    ensures
        match f.attributes@[k].1.value {
            Attribute_::Parameterized(_, params) => cmd_description(params@, 0, None) is Err && run(
                s,
                function_directives_from(fname, f, Some(mident), i),
            ).end == End::Fail(cmd_description(params@, 0, None)->Err_0),
            _ => run(s, function_directives_from(fname, f, Some(mident), i)).end == End::Fail(
                DiagnosticView {
                    loc: f.attributes@[k].1.loc,
                    message: "the 'cmd' attribute cannot be assigned"@,
                },
            ),
        },
    decreases k - i,
{
    broadcast use group_run;

    let attr = f.attributes@[i].1;
    if let Attribute_::Parameterized(_, params) = attr.value {
        law_command_description(params@);
    }
    if i < k {
        let steps = function_directives_from(fname, f, Some(mident), i);
        let rest = function_directives_from(fname, f, Some(mident), i + 1);
        let one = steps.take(steps.len() - rest.len());
        assert(steps =~= one + rest);
        law_command_description(seq![]);
        lemma_run_concat(s, one, rest);
        assert(run(s, one).end is Done) by {
            if f.attributes@[i].0.value@ == "cmd"@ {
                let params = match attr.value {
                    Attribute_::Parameterized(_, params) => params@,
                    _ => seq![],
                };
                assert(one =~= newline() + cmd_directive_steps(fname, f, params, Some(mident)));
            } else {
                assert(one =~= seq![]);
            }
        }
        lemma_first_bad_cmd(fname, f, mident, i + 1, k, run(s, one).state);
    }
}

/// The first directive that declares a function a command and cannot be handled is reported: a
/// value cannot be assigned to it, and its parameters have to be descriptions.
pub proof fn law_commands_that_cannot_be_handled(
    fname: FunctionName,
    f: Function,
    mident: ModuleIdent,
    k: int,
    s: State,
)
    requires
        0 <= k < f.attributes@.len(),
        forall|j: int|
            0 <= j < k ==> ((#[trigger] f.attributes@[j]).0.value@ == "cmd"@ ==> good_cmd(
                f.attributes@[j].1,
            )),
        f.attributes@[k].0.value@ == "cmd"@,
        !good_cmd(f.attributes@[k].1),
    ensures
        match f.attributes@[k].1.value {
            Attribute_::Parameterized(_, params) => cmd_description(params@, 0, None) is Err && run(
                s,
                function_directives_from(fname, f, Some(mident), 0),
            ).end == End::Fail(cmd_description(params@, 0, None)->Err_0),
            _ => run(s, function_directives_from(fname, f, Some(mident), 0)).end == End::Fail(
                DiagnosticView {
                    loc: f.attributes@[k].1.loc,
                    message: "the 'cmd' attribute cannot be assigned"@,
                },
            ),
        },
{
    lemma_first_bad_cmd(fname, f, mident, 0, k, s);
}

/// A show by a function that the module does not have is reported where it is named.
pub proof fn law_show_needs_a_function(
    functions: Seq<(FunctionName, Function)>,
    show: ShowView,
    module: ModuleIdent,
)
    requires
        forall|i: int|
            0 <= i < functions.len() ==> (#[trigger] functions[i]).0.0.value@ != show.fname.value@,
    ensures
        show_verdict(functions, show, Some(module)) == End::Fail(
            DiagnosticView {
                loc: show.fname.loc,
                message: "This function does not exist in current module"@,
            },
        ),
{
    lemma_no_function(functions, show.fname, 0);
}

proof fn lemma_no_function(functions: Seq<(FunctionName, Function)>, name: Name, i: int)
    requires
        0 <= i,
        forall|k: int|
            0 <= k < functions.len() ==> (#[trigger] functions[k]).0.0.value@ != name.value@,
    ensures
        find_function(functions, name, i) is None,
    decreases functions.len() - i,
{
    if i < functions.len() {
        let first = functions[i];
        lemma_no_function(functions, name, i + 1);
    }
}

proof fn lemma_function_found(
    functions: Seq<(FunctionName, Function)>,
    name: Name,
    i: int,
    j: int,
)
    requires
        0 <= i <= j,
        first_named(functions, name, j),
    ensures
        find_function(functions, name, i) == Some(j),
    decreases j - i,
{
    if i < j {
        let first = functions[i];
        lemma_function_found(functions, name, i + 1, j);
    }
}

proof fn lemma_first_other_name(
    of_struct: Seq<StructTypeParameter>,
    of_function: Seq<TParam>,
    i: int,
    k: int,
)
    requires
        0 <= i <= k < of_function.len(),
        of_struct.len() == of_function.len(),
        forall|j: int|
            i <= j < k ==> (#[trigger] of_struct[j]).param.user_specified_name.value@
                == of_function[j].user_specified_name.value@,
        of_struct[k].param.user_specified_name.value@ != of_function[k].user_specified_name.value@,
    ensures
        type_parameters_verdict(of_struct, of_function, i) == End::Fail(
            DiagnosticView {
                loc: of_function[k].user_specified_name.loc,
                message: "Mismatched type parameters"@,
            },
        ),
    decreases k - i,
{
    if i < k {
        let first = of_struct[i];
        lemma_first_other_name(of_struct, of_function, i + 1, k);
    }
}

proof fn lemma_first_other_argument(
    of_struct: Seq<StructTypeParameter>,
    targs: Seq<BaseType>,
    i: int,
    k: int,
)
    requires
        0 <= i <= k < targs.len(),
        k < of_struct.len(),
        forall|j: int|
            i <= j < k ==> ((#[trigger] targs[j]).value matches BaseType_::Param(tp)
                && tp.user_specified_name.value@
                == of_struct[j].param.user_specified_name.value@),
        !(targs[k].value matches BaseType_::Param(tp) && tp.user_specified_name.value@
            == of_struct[k].param.user_specified_name.value@),
    ensures
        type_arguments_verdict(of_struct, targs, i) == End::Fail(
            DiagnosticView { loc: targs[k].loc, message: "Mismatched type parameters"@ },
        ),
    decreases k - i,
{
    if i < k {
        let first = targs[i];
        lemma_first_other_argument(of_struct, targs, i + 1, k);
    }
}

/// What is said of a function that is to show a struct and does not fit: that it has another
/// number of type parameters, the first type parameter with another name, that it does not
/// take a reference to the struct and nothing else, or the first type argument of the struct
/// that is not the type parameter at its place.
pub proof fn law_show_function_has_to_fit(
    functions: Seq<(FunctionName, Function)>,
    show: ShowView,
    module: ModuleIdent,
    i: int,
    k: int,
)
    requires
        first_named(functions, show.fname, i),
    ensures
        ({
            let (name, f) = functions[i];
            let of_struct = show.sdef.type_parameters@;
            let of_function = f.signature.type_parameters@;
            let parameters = f.signature.parameters@;
            let verdict = show_verdict(functions, show, Some(module));
            let same_names = of_function.len() == of_struct.len() && forall|j: int|
                0 <= j < of_struct.len() ==> (
                #[trigger] of_struct[j]).param.user_specified_name.value@
                    == of_function[j].user_specified_name.value@;
            let not_the_struct = End::Fail(
                DiagnosticView {
                    loc: name.0.loc,
                    message: "This function should have &"@ + show.sname.0.value@
                        + " as the only parameter"@,
                },
            );
            &&& of_function.len() != of_struct.len() ==> verdict == End::Fail(
                DiagnosticView {
                    loc: name.0.loc,
                    message: "This function should have the same type parameters as "@
                        + show.sname.0.value@,
                },
            )
            &&& of_function.len() == of_struct.len() && 0 <= k < of_struct.len() && (forall|j: int|
                0 <= j < k ==> (#[trigger] of_struct[j]).param.user_specified_name.value@
                    == of_function[j].user_specified_name.value@)
                && of_struct[k].param.user_specified_name.value@
                != of_function[k].user_specified_name.value@ ==> verdict == End::Fail(
                DiagnosticView {
                    loc: of_function[k].user_specified_name.loc,
                    message: "Mismatched type parameters"@,
                },
            )
            &&& same_names && parameters.len() != 1 ==> verdict == not_the_struct
            &&& same_names && parameters.len() == 1 ==> match parameters[0].1.value {
                SingleType_::Base(_) => verdict == not_the_struct,
                SingleType_::Ref(_, base) => match base.value {
                    BaseType_::Apply(_, typename, targs) => match typename.value {
                        TypeName_::ModuleType(mi, sname) => {
                            let is_struct = module.value.address.hex@ == mi.value.address.hex@
                                && module.value.module.0.value@ == mi.value.module.0.value@
                                && show.sname.0.value@ == sname.0.value@;
                            &&& !is_struct ==> verdict == not_the_struct
                            &&& is_struct && 0 <= k < targs@.len() && k < of_struct.len() && (
                            forall|j: int|
                                0 <= j < k ==> ((#[trigger] targs@[j]).value matches BaseType_::Param(
                                    tp,
                                ) && tp.user_specified_name.value@
                                    == of_struct[j].param.user_specified_name.value@)) && !(
                            targs@[k].value matches BaseType_::Param(tp)
                                && tp.user_specified_name.value@
                                == of_struct[k].param.user_specified_name.value@) ==> verdict
                                == End::Fail(
                                DiagnosticView {
                                    loc: targs@[k].loc,
                                    message: "Mismatched type parameters"@,
                                },
                            )
                        },
                        _ => verdict == not_the_struct,
                    },
                    _ => verdict == not_the_struct,
                },
            }
        }),
{
    lemma_function_found(functions, show.fname, 0, i);
    let (name, f) = functions[i];
    let of_struct = show.sdef.type_parameters@;
    let of_function = f.signature.type_parameters@;
    if of_function.len() == of_struct.len() {
        if 0 <= k < of_struct.len() && (forall|j: int|
            0 <= j < k ==> (#[trigger] of_struct[j]).param.user_specified_name.value@
                == of_function[j].user_specified_name.value@)
            && of_struct[k].param.user_specified_name.value@
            != of_function[k].user_specified_name.value@ {
            lemma_first_other_name(of_struct, of_function, 0, k);
        }
        lemma_type_parameters_verdict(of_struct, of_function, 0);
    }
    if f.signature.parameters@.len() == 1 {
        if let SingleType_::Ref(_, base) = f.signature.parameters@[0].1.value {
            if let BaseType_::Apply(_, typename, targs) = base.value {
                if 0 <= k < targs@.len() && k < of_struct.len() && (forall|j: int|
                    0 <= j < k ==> ((#[trigger] targs@[j]).value matches BaseType_::Param(tp)
                        && tp.user_specified_name.value@
                        == of_struct[j].param.user_specified_name.value@)) && !(
                targs@[k].value matches BaseType_::Param(tp) && tp.user_specified_name.value@
                    == of_struct[k].param.user_specified_name.value@) {
                    lemma_first_other_argument(of_struct, targs@, 0, k);
                }
            }
        }
    }
}

/// The shows of a module are held against its functions in order: the first that does not pass
/// decides.
pub proof fn law_first_show_that_does_not_pass(
    functions: Seq<(FunctionName, Function)>,
    ctx: ContextView,
    k: int,
)
    requires
        0 <= k < ctx.module_shows.len(),
        forall|j: int|
            0 <= j < k ==> show_verdict(
                functions,
                #[trigger] ctx.module_shows[j],
                ctx.current_module,
            ) is Done,
        !(show_verdict(functions, ctx.module_shows[k], ctx.current_module) is Done),
    ensures
        shows_verdict(functions, ctx) == show_verdict(
            functions,
            ctx.module_shows[k],
            ctx.current_module,
        ),
{
    lemma_first_bad_verdict(functions, ctx, 0, k);
}

proof fn lemma_first_bad_verdict(
    functions: Seq<(FunctionName, Function)>,
    ctx: ContextView,
    i: int,
    k: int,
)
    requires
        0 <= i <= k < ctx.module_shows.len(),
        forall|j: int|
            0 <= j < k ==> show_verdict(
                functions,
                #[trigger] ctx.module_shows[j],
                ctx.current_module,
            ) is Done,
        !(show_verdict(functions, ctx.module_shows[k], ctx.current_module) is Done),
    ensures
        shows_verdict_from(functions, ctx, i) == show_verdict(
            functions,
            ctx.module_shows[k],
            ctx.current_module,
        ),
    decreases k - i,
{
    if i < k {
        let first = ctx.module_shows[i];
        lemma_first_bad_verdict(functions, ctx, i + 1, k);
    }
}

} // verus!
