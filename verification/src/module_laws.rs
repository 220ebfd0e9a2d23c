//! What a module looks like on the page.

use crate::ast::{
    Constant, ConstantName, Function, FunctionName, ModuleDefinition, ModuleIdent,
    StructDefinition, StructName,
};
use crate::ast_to_ts::translated;
use crate::constants::constant_steps;
use crate::exports::line_start;
use crate::function_laws::{law_function_json_on_the_page, law_function_on_the_page};
use crate::functions::{function_json_steps, function_ts_steps};
use crate::indentation::{lemma_constant_shape, lemma_struct_shape};
use crate::laws::law_indentation_restored;
use crate::module::{
    constants_from, constants_steps, functions_from, functions_steps, load_parsers_steps,
    meta_steps, module_steps, package_of, parsers_from, special_module_steps, structs_from,
    structs_steps,
};
use crate::reading::{
    below, group_paged, group_passes, lemma_flatten_skip, lemma_paged_run, lemma_passes_done,
    paged, passes,
};
use crate::script::{group_run, lemma_run_concat, line, newline, run, State, Step};
use crate::shape::{all_allowed, group_shape, Kind};
use crate::shared::{quoted, Config, ContextView};
use crate::stops::lemma_parsers_done;
use crate::structs::struct_steps;
use crate::tsgen_writer::{lemma_page_push, margin, page, Page, Piece};
use crate::types::constant_type;
use vstd::prelude::*;

verus! {

/// The lines that steps write on a page of their own.
pub open spec fn alone(steps: Seq<Step>) -> Seq<Seq<char>> {
    paged(Page { lines: Seq::empty(), cur: Seq::empty(), level: 0 }, steps).lines
}

/// Lines further up do not matter.
proof fn lemma_paged_offset(above: Seq<Seq<char>>, p: Page, steps: Seq<Step>)
    ensures
        paged(Page { lines: above + p.lines, ..p }, steps) == (Page {
            lines: above + paged(p, steps).lines,
            ..paged(p, steps)
        }),
    decreases steps.len(),
{
    broadcast use group_paged;

    if steps.len() == 0 {
        assert(steps =~= Seq::empty());
    } else {
        let before = steps.drop_last();
        assert(before.push(steps.last()) =~= steps);
        lemma_paged_offset(above, p, before);
        let q = paged(p, before);
        assert((above + q.lines).push(q.cur) =~= above + q.lines.push(q.cur));
    }
}

/// What is written from the start of a line on, without indentation, is what is written on a
/// page of its own.
proof fn lemma_alone(s: State, steps: Seq<Step>)
    requires
        page(s.doc).cur.len() == 0,
        page(s.doc).level == 0,
        run(s, steps).end is Done,
    ensures
        page(run(s, steps).state.doc).lines == page(s.doc).lines + alone(steps),
{
    let p = page(s.doc);
    let blank = Page { lines: Seq::empty(), cur: Seq::empty(), level: 0 };
    lemma_paged_run(s, steps);
    lemma_paged_offset(p.lines, blank, steps);
    assert(p.lines + blank.lines =~= p.lines);
    assert(p.cur =~= Seq::empty());
}

/// A run that is done and ends with a line ends at the start of a line.
proof fn lemma_ends_fresh(s: State, steps: Seq<Step>)
    requires
        run(s, steps).end is Done,
        steps.len() > 0,
        steps.last() == Step::Put(Piece::Break),
    ensures
        page(run(s, steps).state.doc).cur.len() == 0,
{
    broadcast use group_paged;

    lemma_paged_run(s, steps);
    assert(steps.drop_last().push(steps.last()) =~= steps);
}

/// Whether a line starts, without indentation.
pub open spec fn fresh(s: State) -> bool {
    page(s.doc).cur.len() == 0 && page(s.doc).level == 0
}

/// The page of a state behind more lines.
spec fn added(s: State, after: State, lines: Seq<Seq<char>>) -> bool {
    &&& page(after.doc).lines == page(s.doc).lines + lines
    &&& fresh(after)
}

proof fn lemma_constants_lines(s: State, constants: Seq<(ConstantName, Constant)>, i: int)
    requires
        fresh(s),
        0 <= i <= constants.len(),
        run(s, constants_from(constants, i)).end is Done,
    ensures
        added(
            s,
            run(s, constants_from(constants, i)).state,
            constants.map_values(
                |c: (ConstantName, Constant)| alone(constant_steps(c.0, c.1)),
            ).skip(i).flatten(),
        ),
    decreases constants.len() - i,
{
    broadcast use group_run;

    let parts = constants.map_values(
        |c: (ConstantName, Constant)| alone(constant_steps(c.0, c.1)),
    );
    lemma_flatten_skip(parts, i);
    let all = parts.skip(i).flatten();
    if i < constants.len() {
        let (name, cdef) = constants[i];
        let one = constant_steps(name, cdef);
        lemma_run_concat(s, one, constants_from(constants, i + 1));
        let next = run(s, one).state;
        lemma_constant_shape(name, cdef);
        law_indentation_restored(s, one);
        lemma_alone(s, one);
        assert(!(constant_type(cdef.signature) is Stuck));
        lemma_ends_fresh(s, one);
        lemma_constants_lines(next, constants, i + 1);
        assert(parts[i] == alone(one));
        assert(page(s.doc).lines + alone(one) + parts.skip(i + 1).flatten() =~= page(s.doc).lines
            + all);
    } else {
        assert(page(s.doc).lines + all =~= page(s.doc).lines);
    }
}

proof fn lemma_structs_lines(
    s: State,
    structs: Seq<(StructName, StructDefinition)>,
    mident: ModuleIdent,
    i: int,
)
    requires
        fresh(s),
        0 <= i <= structs.len(),
        run(s, structs_from(structs, Some(mident), i)).end is Done,
    ensures
        added(
            s,
            run(s, structs_from(structs, Some(mident), i)).state,
            structs.map_values(
                |x: (StructName, StructDefinition)| alone(struct_steps(x.0, x.1, Some(mident))),
            ).skip(i).flatten(),
        ),
    decreases structs.len() - i,
{
    let parts = structs.map_values(
        |x: (StructName, StructDefinition)| alone(struct_steps(x.0, x.1, Some(mident))),
    );
    lemma_flatten_skip(parts, i);
    let all = parts.skip(i).flatten();
    if i < structs.len() {
        let (name, sdef) = structs[i];
        let one = struct_steps(name, sdef, Some(mident));
        lemma_run_concat(s, one, structs_from(structs, Some(mident), i + 1));
        let next = run(s, one).state;
        lemma_struct_shape(name, sdef, Some(mident));
        law_indentation_restored(s, one);
        lemma_alone(s, one);
        lemma_ends_fresh(s, one);
        lemma_structs_lines(next, structs, mident, i + 1);
        assert(parts[i] == alone(one));
        assert(page(s.doc).lines + alone(one) + parts.skip(i + 1).flatten() =~= page(s.doc).lines
            + all);
    } else {
        assert(structs_from(structs, Some(mident), i) =~= Seq::empty());
        broadcast use group_run;

        assert(page(s.doc).lines + all =~= page(s.doc).lines);
    }
}

proof fn lemma_functions_lines(
    s: State,
    functions: Seq<(FunctionName, Function)>,
    json: bool,
    test: bool,
    mident: ModuleIdent,
    i: int,
)
    requires
        fresh(s),
        0 <= i <= functions.len(),
        run(s, functions_from(functions, json, test, Some(mident), i)).end is Done,
    ensures
        added(
            s,
            run(s, functions_from(functions, json, test, Some(mident), i)).state,
            functions.map_values(
                |x: (FunctionName, Function)|
                    alone(
                        if json {
                            function_json_steps(x.0, x.1, test)
                        } else {
                            function_ts_steps(x.0, x.1, test, Some(mident))
                        },
                    ),
            ).skip(i).flatten(),
        ),
    decreases functions.len() - i,
{
    let parts = functions.map_values(
        |x: (FunctionName, Function)|
            alone(
                if json {
                    function_json_steps(x.0, x.1, test)
                } else {
                    function_ts_steps(x.0, x.1, test, Some(mident))
                },
            ),
    );
    lemma_flatten_skip(parts, i);
    let all = parts.skip(i).flatten();
    if i < functions.len() {
        let (name, func) = functions[i];
        let one = if json {
            function_json_steps(name, func, test)
        } else {
            function_ts_steps(name, func, test, Some(mident))
        };
        lemma_run_concat(s, one, functions_from(functions, json, test, Some(mident), i + 1));
        let next = run(s, one).state;
        if json {
            law_function_json_on_the_page(name, func, test, s);
        } else {
            law_function_on_the_page(name, func, test, mident, s);
        }
        lemma_alone(s, one);
        lemma_functions_lines(next, functions, json, test, mident, i + 1);
        assert(parts[i] == alone(one));
        assert(page(s.doc).lines + alone(one) + parts.skip(i + 1).flatten() =~= page(s.doc).lines
            + all);
    } else {
        assert(functions_from(functions, json, test, Some(mident), i) =~= Seq::empty());
        broadcast use group_run;

        assert(page(s.doc).lines + all =~= page(s.doc).lines);
    }
}

proof fn lemma_parsers_below(
    p: Page,
    mident: ModuleIdent,
    structs: Seq<(StructName, StructDefinition)>,
    i: int,
)
    requires
        p.cur.len() == 0,
        0 <= i <= structs.len(),
    ensures
        paged(p, parsers_from(mident, structs, i)) == below(
            p,
            Seq::new(
                (structs.len() - i) as nat,
                |k: int|
                    margin(p.level) + ("  repo.addParser("@ + ("\""@ + (mident.value.address.hex@
                        + "::"@ + mident.value.module.0.value@ + "::"@ + structs[i
                        + k].0.0.value@) + "\""@) + ", "@ + structs[i + k].0.0.value@ + "."@
                        + structs[i + k].0.0.value@ + "Parser);"@),
            ),
        ),
    decreases structs.len() - i,
{
    broadcast use group_paged;

    let q = paged(p, parsers_from(mident, structs, i));
    if i < structs.len() {
        let x = structs[i].0.0.value@;
        let text = "  repo.addParser("@ + ("\""@ + (mident.value.address.hex@ + "::"@
            + mident.value.module.0.value@ + "::"@ + x) + "\""@) + ", "@ + x + "."@ + x
            + "Parser);"@;
        let next = Page {
            lines: p.lines.push(margin(p.level) + text),
            cur: Seq::empty(),
            level: p.level,
        };
        lemma_parsers_below(next, mident, structs, i + 1);
        assert(paged(p, line(text)) == next);
        assert(q == paged(next, parsers_from(mident, structs, i + 1)));
    }
    assert(q.lines =~= p.lines + Seq::new(
        (structs.len() - i) as nat,
        |k: int|
            margin(p.level) + ("  repo.addParser("@ + ("\""@ + (mident.value.address.hex@ + "::"@
                + mident.value.module.0.value@ + "::"@ + structs[i + k].0.0.value@) + "\""@)
                + ", "@ + structs[i + k].0.0.value@ + "."@ + structs[i + k].0.0.value@
                + "Parser);"@),
    ));
    assert(q.cur =~= Seq::empty());
}

/// The function that registers parsers can always be printed. Between its declaration and its
/// closing brace stand as many lines as the module has structs, and each line registers the
/// parser of the struct at the same place, under its full name.
pub proof fn law_each_parser_is_registered(
    mident: ModuleIdent,
    structs: Seq<(StructName, StructDefinition)>,
    s: State,
)
    ensures
        ({
            let o = run(s, load_parsers_steps(mident, structs));
            let before = page(s.doc);
            let after = page(o.state.doc);
            let m = margin(before.level);
            let at = before.lines.len() as int;
            &&& o.end is Done
            &&& o.state.ctx == s.ctx
            &&& after.cur.len() == 0
            &&& after.level == before.level
            &&& after.lines.len() == at + structs.len() + 2
            &&& before.lines.is_prefix_of(after.lines)
            &&& after.lines[at] == line_start(before)
                + "export function loadParsers(repo: AptosParserRepo) {"@
            &&& forall|i: int|
                0 <= i < structs.len() ==> #[trigger] after.lines[at + 1 + i] == m + (
                "  repo.addParser("@ + ("\""@ + (mident.value.address.hex@ + "::"@
                    + mident.value.module.0.value@ + "::"@ + structs[i].0.0.value@) + "\""@) + ", "@
                    + structs[i].0.0.value@ + "."@ + structs[i].0.0.value@ + "Parser);"@)
            &&& after.lines.last() == m + "}"@
        }),
{
    let steps = load_parsers_steps(mident, structs);
    let p = page(s.doc);
    assert(passes(steps) && all_allowed(Kind::Plain, steps)) by {
        broadcast use {group_passes, group_shape};

        reveal(load_parsers_steps);
        lemma_parsers_pass(mident, structs, 0);
    }
    lemma_passes_done(Kind::Plain, s, steps);
    lemma_paged_run(s, steps);
    lemma_parsers_context(mident, structs, s);
    let opened = Page {
        lines: p.lines.push(line_start(p) + "export function loadParsers(repo: AptosParserRepo) {"@),
        cur: Seq::empty(),
        level: p.level,
    };
    lemma_parsers_below(opened, mident, structs, 0);
    assert(paged(p, steps) == paged(
        paged(opened, parsers_from(mident, structs, 0)),
        line("}"@),
    )) by {
        broadcast use group_paged;

        reveal(load_parsers_steps);
    }
    assert(paged(p, steps).lines == paged(opened, parsers_from(mident, structs, 0)).lines.push(
        margin(p.level) + "}"@,
    ) && paged(p, steps).cur.len() == 0 && paged(p, steps).level == p.level) by {
        broadcast use group_paged;

    }
}

/// Parsers can always be registered.
pub proof fn lemma_parsers_pass(
    mident: ModuleIdent,
    structs: Seq<(StructName, StructDefinition)>,
    i: int,
)
    ensures
        passes(parsers_from(mident, structs, i)),
        all_allowed(Kind::Plain, parsers_from(mident, structs, i)),
    decreases structs.len() - i,
{
    broadcast use {group_passes, group_shape};

    if 0 <= i < structs.len() {
        lemma_parsers_pass(mident, structs, i + 1);
    }
}

proof fn lemma_parsers_context(
    mident: ModuleIdent,
    structs: Seq<(StructName, StructDefinition)>,
    s: State,
)
    ensures
        run(s, load_parsers_steps(mident, structs)).state.ctx == s.ctx,
{
    broadcast use group_run;

    reveal(load_parsers_steps);
    lemma_parsers_done(
        run(s, line("export function loadParsers(repo: AptosParserRepo) {"@)).state,
        mident,
        structs,
        0,
    );
}

/// The helper declarations of a module of the framework stand on lines of their own, and no
/// other module has any.
pub proof fn law_special_modules(mi: ModuleIdent, config: Config, s: State)
    ensures
        run(s, special_module_steps(mi, config)).end is Done,
        run(s, special_module_steps(mi, config)).state == (if mi.value.address.hex@ == "0x1"@
            && mi.value.module.0.value@ == "table"@ {
            State {
                doc: s.doc.push(Piece::Text(config.table_helper_decl@)).push(Piece::Break),
                ctx: s.ctx,
            }
        } else if mi.value.address.hex@ == "0x1"@ && mi.value.module.0.value@
            == "iterable_table"@ {
            State {
                doc: s.doc.push(Piece::Text(config.iterable_table_helper_decl@)).push(Piece::Break),
                ctx: s.ctx,
            }
        } else {
            s
        }),
{
    broadcast use group_run;

    reveal(special_module_steps);
}

/// The lines of a module that is printed: which module it is; its constants, its structs and
/// its functions, each as on a page of its own and in order; the functions again as JSON; the
/// registration of the parsers of its structs; and the helper declarations.
pub proof fn law_module_on_the_page(mident: ModuleIdent, mdef: ModuleDefinition, ctx: ContextView)
    requires
        translated(mident, mdef, ctx).end is Done,
    ensures
        ({
            let after = page(translated(mident, mdef, ctx).state.doc);
            let test = ctx.config.test;
            let package = match mdef.package_name {
                Some(name) => name@,
                None => Seq::empty(),
            };
            let hex = mident.value.address.hex@;
            let module = mident.value.module.0.value@;
            let meta = seq![
                "export const "@ + "packageName"@ + " = "@ + ("\""@ + package + "\""@) + ";"@,
                "export const "@ + "moduleAddress"@ + " = "@ + ("new HexString("@ + ("\""@ + hex
                    + "\""@) + ")"@) + ";"@,
                "export const "@ + "moduleName"@ + " = "@ + ("\""@ + module + "\""@) + ";"@,
                Seq::empty(),
            ];
            let constants = mdef.constants@.map_values(
                |c: (ConstantName, Constant)| alone(constant_steps(c.0, c.1)),
            ).flatten();
            let structs = mdef.structs@.map_values(
                |x: (StructName, StructDefinition)| alone(struct_steps(x.0, x.1, Some(mident))),
            ).flatten();
            let functions = mdef.functions@.map_values(
                |x: (FunctionName, Function)|
                    alone(function_ts_steps(x.0, x.1, test, Some(mident))),
            ).flatten();
            let json = mdef.functions@.map_values(
                |x: (FunctionName, Function)| alone(function_json_steps(x.0, x.1, test)),
            ).flatten();
            let parsers = mdef.structs@.map_values(
                |x: (StructName, StructDefinition)|
                    "  repo.addParser("@ + ("\""@ + (hex + "::"@ + module + "::"@ + x.0.0.value@)
                        + "\""@) + ", "@ + x.0.0.value@ + "."@ + x.0.0.value@ + "Parser);"@,
            );
            let helpers = if hex == "0x1"@ && module == "table"@ {
                seq![ctx.config.table_helper_decl@]
            } else if hex == "0x1"@ && module == "iterable_table"@ {
                seq![ctx.config.iterable_table_helper_decl@]
            } else {
                Seq::empty()
            };
            &&& after.cur.len() == 0
            &&& after.level == 0
            &&& after.lines == meta + constants + seq![Seq::empty()] + structs + functions + seq![
                "export const json = {"@,
            ] + json + seq!["};"@, "export function loadParsers(repo: AptosParserRepo) {"@]
                + parsers + seq!["}"@] + helpers
        }),
{
    let test = ctx.config.test;
    let current = Some(mident);
    let s0 = State { doc: Seq::empty(), ctx: ctx.reset_for_module(mident) };
    let steps = module_steps(mident, mdef, ctx.config, current);
    let meta = meta_steps(mident, mdef);
    let constants = constants_steps(mdef.constants@);
    let structs = structs_steps(mdef.structs@, current);
    let functions = functions_steps(mdef.functions@, false, test, current);
    let json = functions_steps(mdef.functions@, true, test, current);
    let off = seq![Step::SetJson(false)];
    let on = seq![Step::SetJson(true)];
    let validate = seq![Step::ValidateShows(mdef.functions@)];
    let opening = line("export const json = {"@);
    let closing = line("};"@);
    let parsers = load_parsers_steps(mident, mdef.structs@);
    let helpers = special_module_steps(mident, ctx.config);
    assert(steps == meta + constants + newline() + structs + off + functions + on + opening + json
        + closing + validate + parsers + helpers);
    let s1 = run(s0, meta).state;
    let s2 = run(s1, constants).state;
    let s3 = run(s2, newline()).state;
    let s4 = run(s3, structs).state;
    let s5 = run(s4, off).state;
    let s6 = run(s5, functions).state;
    let s7 = run(s6, on).state;
    let s8 = run(s7, opening).state;
    let s9 = run(s8, json).state;
    let s10 = run(s9, closing).state;
    let s11 = run(s10, validate).state;
    let s12 = run(s11, parsers).state;
    let s13 = run(s12, helpers).state;
    assert(translated(mident, mdef, ctx).state == s13 && run(s1, constants).end is Done && run(
        s3,
        structs,
    ).end is Done && run(s5, functions).end is Done && run(s8, json).end is Done && run(
        s10,
        validate,
    ).end is Done) by {
        broadcast use lemma_run_concat;

    }
    let margin0 = margin(0);
    assert(margin0 =~= Seq::empty());
    lemma_meta_lines(s0, mident, mdef);
    assert(fresh(s1));
    reveal(constants_steps);
    lemma_constants_lines(s1, mdef.constants@, 0);
    lemma_break_adds(s2);
    reveal(structs_steps);
    lemma_structs_lines(s3, mdef.structs@, mident, 0);
    lemma_same_doc(s4, false, mdef.functions@);
    reveal(functions_steps);
    lemma_functions_lines(s5, mdef.functions@, false, test, mident, 0);
    lemma_same_doc(s6, true, mdef.functions@);
    lemma_line_adds(s7, "export const json = {"@);
    lemma_functions_lines(s8, mdef.functions@, true, test, mident, 0);
    lemma_line_adds(s9, "};"@);
    lemma_same_doc(s10, true, mdef.functions@);
    law_each_parser_is_registered(mident, mdef.structs@, s11);
    law_special_modules(mident, ctx.config, s12);
    if s13 != s12 {
        if mident.value.module.0.value@ == "table"@ {
            lemma_line_adds(s12, ctx.config.table_helper_decl@);
        } else {
            lemma_line_adds(s12, ctx.config.iterable_table_helper_decl@);
        }
        assert(s13 == run(s12, line(
            if mident.value.module.0.value@ == "table"@ {
                ctx.config.table_helper_decl@
            } else {
                ctx.config.iterable_table_helper_decl@
            },
        )).state) by {
            broadcast use group_run;

        }
    }
    let constant_parts = mdef.constants@.map_values(
        |c: (ConstantName, Constant)| alone(constant_steps(c.0, c.1)),
    );
    assert(constant_parts.skip(0) =~= constant_parts);
    let struct_parts = mdef.structs@.map_values(
        |x: (StructName, StructDefinition)| alone(struct_steps(x.0, x.1, Some(mident))),
    );
    assert(struct_parts.skip(0) =~= struct_parts);
    lemma_function_parts(mdef.functions@, false, test, mident);
    lemma_function_parts(mdef.functions@, true, test, mident);
    let function_parts = mdef.functions@.map_values(
        |x: (FunctionName, Function)| alone(function_ts_steps(x.0, x.1, test, Some(mident))),
    );
    let json_parts = mdef.functions@.map_values(
        |x: (FunctionName, Function)| alone(function_json_steps(x.0, x.1, test)),
    );
    let meta_lines = page(s1.doc).lines;
    assert(page(s2.doc).lines == meta_lines + constant_parts.flatten());
    assert(page(s4.doc).lines == page(s3.doc).lines + struct_parts.flatten());
    assert(page(s6.doc).lines == page(s5.doc).lines + function_parts.flatten());
    assert(page(s9.doc).lines == page(s8.doc).lines + json_parts.flatten());
    assert(page(s11.doc).lines == meta_lines + constant_parts.flatten() + seq![Seq::empty()]
        + struct_parts.flatten() + function_parts.flatten() + seq!["export const json = {"@]
        + json_parts.flatten() + seq!["};"@]);
    let listed_parsers = mdef.structs@.map_values(
        |x: (StructName, StructDefinition)|
            "  repo.addParser("@ + ("\""@ + (mident.value.address.hex@ + "::"@
                + mident.value.module.0.value@ + "::"@ + x.0.0.value@) + "\""@) + ", "@
                + x.0.0.value@ + "."@ + x.0.0.value@ + "Parser);"@,
    );
    let before = page(s11.doc).lines;
    let opened = seq!["export function loadParsers(repo: AptosParserRepo) {"@];
    let after = page(s12.doc).lines;
    assert forall|t: Seq<char>| #[trigger] (margin0 + t) == t by {
        assert(margin0 + t =~= t);
    }
    assert(after =~= before + opened + listed_parsers + seq!["}"@]) by {
        let expected = before + opened + listed_parsers + seq!["}"@];
        assert(after.len() == expected.len());
        assert forall|i: int| 0 <= i < after.len() implies after[i] == expected[i] by {
            let at = before.len() as int;
            if i < at {
                assert(before[i] == after[i]);
            } else if at < i < after.len() - 1 {
                assert(after[at + 1 + (i - at - 1)] == after[i]);
                assert(expected[i] == listed_parsers[i - at - 1]);
            }
        }
    }
    let upper = meta_lines + constant_parts.flatten() + seq![Seq::empty()]
        + struct_parts.flatten() + function_parts.flatten() + seq!["export const json = {"@]
        + json_parts.flatten();
    assert(upper + seq!["};"@] + opened =~= upper + seq![
        "};"@,
        "export function loadParsers(repo: AptosParserRepo) {"@,
    ]);
    assert(after + Seq::<Seq<char>>::empty() =~= after);
}

/// The parts that functions are printed as, one by one.
proof fn lemma_function_parts(
    functions: Seq<(FunctionName, Function)>,
    json: bool,
    test: bool,
    mident: ModuleIdent,
)
    ensures
        functions.map_values(
            |x: (FunctionName, Function)|
                alone(
                    if json {
                        function_json_steps(x.0, x.1, test)
                    } else {
                        function_ts_steps(x.0, x.1, test, Some(mident))
                    },
                ),
        ).skip(0) == (if json {
            functions.map_values(
                |x: (FunctionName, Function)| alone(function_json_steps(x.0, x.1, test)),
            )
        } else {
            functions.map_values(
                |x: (FunctionName, Function)|
                    alone(function_ts_steps(x.0, x.1, test, Some(mident))),
            )
        }),
{
    let parts = functions.map_values(
        |x: (FunctionName, Function)|
            alone(
                if json {
                    function_json_steps(x.0, x.1, test)
                } else {
                    function_ts_steps(x.0, x.1, test, Some(mident))
                },
            ),
    );
    if json {
        assert(parts.skip(0) =~= functions.map_values(
            |x: (FunctionName, Function)| alone(function_json_steps(x.0, x.1, test)),
        ));
    } else {
        assert(parts.skip(0) =~= functions.map_values(
            |x: (FunctionName, Function)| alone(function_ts_steps(x.0, x.1, test, Some(mident))),
        ));
    }
}

/// The lines that say which module this is.
pub proof fn lemma_meta_lines(s: State, mident: ModuleIdent, mdef: ModuleDefinition)
    requires
        s.doc == Seq::<Piece>::empty(),
    ensures
        ({
            let o = run(s, meta_steps(mident, mdef));
            let package = match mdef.package_name {
                Some(name) => name@,
                None => Seq::empty(),
            };
            &&& o.end is Done
            &&& fresh(o.state)
            &&& page(o.state.doc).lines == seq![
                "export const "@ + "packageName"@ + " = "@ + ("\""@ + package + "\""@) + ";"@,
                "export const "@ + "moduleAddress"@ + " = "@ + ("new HexString("@ + ("\""@
                    + mident.value.address.hex@ + "\""@) + ")"@) + ";"@,
                "export const "@ + "moduleName"@ + " = "@ + ("\""@ + mident.value.module.0.value@
                    + "\""@) + ";"@,
                Seq::empty(),
            ]
        }),
{
    broadcast use group_run;

    reveal(meta_steps);
    let steps = meta_steps(mident, mdef);
    let o = run(s, steps);
    assert(o.end is Done);
    lemma_paged_run(s, steps);
    reveal_strlit("");
    assert(""@ =~= Seq::<char>::empty());
    assert forall|t: Seq<char>| #[trigger] (margin(0) + t) == t by {
        assert(margin(0) + t =~= t);
    }
    let p = page(s.doc);
    let q = paged(p, steps);
    assert(q.cur.len() == 0 && q.level == 0 && q.lines =~= seq![
        "export const "@ + "packageName"@ + " = "@ + quoted(package_of(mdef)) + ";"@,
        "export const "@ + "moduleAddress"@ + " = "@ + ("new HexString("@ + quoted(
            mident.value.address.hex@,
        ) + ")"@) + ";"@,
        "export const "@ + "moduleName"@ + " = "@ + quoted(mident.value.module.0.value@) + ";"@,
        Seq::empty(),
    ]) by {
        broadcast use group_paged;

    }
}

proof fn lemma_break_adds(s: State)
    requires
        fresh(s),
    ensures
        added(s, run(s, newline()).state, seq![Seq::empty()]),
{
    broadcast use {group_run, lemma_page_push};

    assert(page(s.doc).cur =~= Seq::empty());
    assert(page(s.doc).lines.push(Seq::empty()) =~= page(s.doc).lines + seq![Seq::empty()]);
}

proof fn lemma_line_adds(s: State, t: Seq<char>)
    requires
        fresh(s),
    ensures
        added(s, run(s, line(t)).state, seq![t]),
{
    broadcast use {group_run, lemma_page_push};

    assert(margin(0) + t =~= t);
    assert(page(s.doc).lines.push(t) =~= page(s.doc).lines + seq![t]);
}

proof fn lemma_same_doc(s: State, json: bool, functions: Seq<(FunctionName, Function)>)
    ensures
        run(s, seq![Step::SetJson(json)]).state.doc == s.doc,
        run(s, seq![Step::ValidateShows(functions)]).state.doc == s.doc,
{
    broadcast use group_run;

}

} // verus!
