//! A function is exported once.

use crate::ast::{Diagnostic, Function, FunctionName, ModuleIdent, SingleType, TParam, Var};
use crate::functions::{
    export_declaration, function_body_steps, function_directives_from, function_rest_steps,
    function_ts_steps, parameters_from, payload_args_from, payload_call_steps,
    payload_declaration, payload_rest_steps, payload_steps, test_mark_steps, tparams_steps,
};
use crate::indentation::lemma_function_body_shape;
use crate::laws::law_indentation_restored;
use crate::script::{group_run, lemma_run_concat, line, newline, run, verdict, End, State, Step};
use crate::statement_laws::law_margin;
use crate::tsgen_writer::{lemma_page_push, margin, page, Page, Piece};
use crate::types::valid_parameters;
use vstd::prelude::*;

verus! {

/// How often a line occurs among lines.
pub open spec fn occurrences(lines: Seq<Seq<char>>, line: Seq<char>) -> nat
    decreases lines.len(),
{
    if lines.len() == 0 {
        0
    } else {
        occurrences(lines.drop_last(), line) + if lines.last() == line {
            1nat
        } else {
            0nat
        }
    }
}

proof fn lemma_occurrences_push(lines: Seq<Seq<char>>, last: Seq<char>, line: Seq<char>)
    ensures
        occurrences(lines.push(last), line) == occurrences(lines, line) + if last == line {
            1nat
        } else {
            0nat
        },
{
    assert(lines.push(last).drop_last() =~= lines);
}

/// Whether a line may end in a space and an opening parenthesis, given the text at its end.
spec fn may_open(tail: Seq<char>) -> bool {
    tail.len() > 0 && tail.last() == '(' && (tail.len() == 1 || tail[tail.len() - 2] == ' ')
}

/// The text of the current line that the steps leave, given the text before them.
#[verifier::opaque]
spec fn tail_after(steps: Seq<Step>, tail: Seq<char>) -> Seq<char>
    decreases steps.len(),
{
    if steps.len() == 0 {
        tail
    } else {
        let before = tail_after(steps.drop_last(), tail);
        match steps.last() {
            Step::Put(Piece::Text(s)) => before + s,
            Step::Put(Piece::Break) => Seq::empty(),
            _ => before,
        }
    }
}

/// Whether no line that the steps end may end in a space and an opening parenthesis.
#[verifier::opaque]
spec fn none_opens(steps: Seq<Step>, tail: Seq<char>) -> bool
    decreases steps.len(),
{
    if steps.len() == 0 {
        true
    } else {
        none_opens(steps.drop_last(), tail) && (steps.last() == Step::Put(Piece::Break)
            ==> !may_open(tail_after(steps.drop_last(), tail)))
    }
}

broadcast proof fn lemma_tail_nothing(tail: Seq<char>)
    ensures
        #[trigger] tail_after(Seq::<Step>::empty(), tail) == tail,
{
    reveal(tail_after);
}

broadcast proof fn lemma_tail_push(steps: Seq<Step>, step: Step, tail: Seq<char>)
    ensures
        #[trigger] tail_after(steps.push(step), tail) == match step {
            Step::Put(Piece::Text(s)) => tail_after(steps, tail) + s,
            Step::Put(Piece::Break) => Seq::empty(),
            _ => tail_after(steps, tail),
        },
{
    reveal(tail_after);
    assert(steps.push(step).drop_last() =~= steps);
}

broadcast proof fn lemma_tail_concat(a: Seq<Step>, b: Seq<Step>, tail: Seq<char>)
    ensures
        #[trigger] tail_after(a + b, tail) == tail_after(b, tail_after(a, tail)),
    decreases b.len(),
{
    reveal(tail_after);
    if b.len() == 0 {
        assert(a + b =~= a);
    } else {
        lemma_tail_concat(a, b.drop_last(), tail);
        assert((a + b).drop_last() =~= a + b.drop_last());
    }
}

broadcast proof fn lemma_none_opens_nothing(tail: Seq<char>)
    ensures
        #[trigger] none_opens(Seq::<Step>::empty(), tail),
{
    reveal(none_opens);
}

broadcast proof fn lemma_none_opens_push(steps: Seq<Step>, step: Step, tail: Seq<char>)
    ensures
        #[trigger] none_opens(steps.push(step), tail) == (none_opens(steps, tail) && (step
            == Step::Put(Piece::Break) ==> !may_open(tail_after(steps, tail)))),
{
    reveal(none_opens);
    assert(steps.push(step).drop_last() =~= steps);
}

broadcast proof fn lemma_none_opens_concat(a: Seq<Step>, b: Seq<Step>, tail: Seq<char>)
    ensures
        #[trigger] none_opens(a + b, tail) == (none_opens(a, tail) && none_opens(
            b,
            tail_after(a, tail),
        )),
    decreases b.len(),
{
    reveal(none_opens);
    if b.len() == 0 {
        assert(a + b =~= a);
    } else {
        lemma_none_opens_concat(a, b.drop_last(), tail);
        lemma_tail_concat(a, b.drop_last(), tail);
        assert((a + b).drop_last() =~= a + b.drop_last());
    }
}

broadcast group group_tail {
    lemma_tail_nothing,
    lemma_tail_push,
    lemma_tail_concat,
    lemma_none_opens_nothing,
    lemma_none_opens_push,
    lemma_none_opens_concat,
}

/// Whether the current line of a page is white space and the text `tail`.
spec fn ends_in(cur: Seq<char>, tail: Seq<char>) -> bool {
    &&& tail.len() <= cur.len()
    &&& cur.skip(cur.len() - tail.len()) == tail
    &&& forall|i: int| 0 <= i < cur.len() - tail.len() ==> #[trigger] cur[i] == ' '
}

/// A line that ends in a space and an opening parenthesis.
spec fn opens(line: Seq<char>) -> bool {
    line.len() >= 2 && line.last() == '(' && line[line.len() - 2] == ' '
}

proof fn lemma_lines_not_opening(s: State, steps: Seq<Step>, tail: Seq<char>, x: Seq<char>)
    requires
        run(s, steps).end is Done,
        ends_in(page(s.doc).cur, tail),
        none_opens(steps, tail),
        opens(x),
    ensures
        ends_in(page(run(s, steps).state.doc).cur, tail_after(steps, tail)),
        occurrences(page(run(s, steps).state.doc).lines, x) == occurrences(page(s.doc).lines, x),
    decreases steps.len(),
{
    broadcast use {group_run, group_tail, lemma_page_push};

    if steps.len() == 0 {
        assert(steps =~= Seq::empty());
    } else {
        let before = steps.drop_last();
        assert(before.push(steps.last()) =~= steps);
        lemma_lines_not_opening(s, before, tail, x);
        let p = page(run(s, before).state.doc);
        let t = tail_after(before, tail);
        match steps.last() {
            Step::Put(Piece::Text(text)) => {
                law_margin(p.level);
                let start = if p.cur.len() == 0 {
                    margin(p.level)
                } else {
                    p.cur
                };
                let cur = start + text;
                assert(cur.skip(cur.len() - (t + text).len()) =~= t + text);
                assert(ends_in(cur, t + text));
            },
            Step::Put(Piece::Break) => {
                lemma_occurrences_push(p.lines, p.cur, x);
                if p.cur == x {
                    let n = p.cur.len();
                    let m = t.len();
                    let end = p.cur.skip(n - m);
                    if m > 0 {
                        assert(end[m - 1] == p.cur[n - 1]);
                    }
                    if m > 1 {
                        assert(end[m - 2] == p.cur[n - 2]);
                    }
                    assert(may_open(t));
                }
                assert(Seq::<char>::empty().skip(0) =~= Seq::empty());
            },
            _ => {},
        }
    }
}

proof fn lemma_parameters_tail(parameters: Seq<(Var, SingleType)>, skip_signer: bool, i: int)
    ensures
        none_opens(parameters_from(parameters, skip_signer, i), Seq::empty()),
        tail_after(parameters_from(parameters, skip_signer, i), Seq::empty()) == Seq::<
            char,
        >::empty(),
    decreases parameters.len() - i,
{
    broadcast use group_tail;

    reveal_strlit(",");
    if 0 <= i < parameters.len() {
        lemma_parameters_tail(parameters, skip_signer, i + 1);
    }
}

proof fn lemma_payload_args_tail(parameters: Seq<(Var, SingleType)>, i: int)
    ensures
        none_opens(payload_args_from(parameters, i), Seq::empty()),
        tail_after(payload_args_from(parameters, i), Seq::empty()) == Seq::<char>::empty(),
    decreases parameters.len() - i,
{
    broadcast use group_tail;

    reveal_strlit(",");
    if 0 <= i < parameters.len() {
        lemma_payload_args_tail(parameters, i + 1);
    }
}

proof fn lemma_directives_tail(
    fname: FunctionName,
    f: Function,
    module: Option<ModuleIdent>,
    i: int,
)
    ensures
        none_opens(function_directives_from(fname, f, module, i), Seq::empty()),
    decreases f.attributes@.len() - i,
{
    broadcast use group_tail;

    if 0 <= i < f.attributes@.len() {
        lemma_directives_tail(fname, f, module, i + 1);
    }
}

/// What stands in front of the next text on a page: the indentation, if a line starts.
pub open spec fn line_start(p: Page) -> Seq<char> {
    if p.cur.len() == 0 {
        margin(p.level)
    } else {
        p.cur
    }
}

/// A text that ends a line is the line behind what stood in front of it.
proof fn lemma_line_added(s: State, text: Seq<char>)
    ensures
        run(s, line(text)).end is Done,
        run(s, line(text)).state.ctx == s.ctx,
        page(run(s, line(text)).state.doc) == (Page {
            lines: page(s.doc).lines.push(line_start(page(s.doc)) + text),
            cur: Seq::empty(),
            level: page(s.doc).level,
        }),
{
    broadcast use {group_run, lemma_page_push};

}

proof fn lemma_tparams_tail(tparams: Seq<TParam>)
    ensures
        none_opens(tparams_steps(tparams), Seq::empty()),
        tail_after(tparams_steps(tparams), Seq::empty()) == Seq::<char>::empty(),
{
    broadcast use group_tail;

    reveal_strlit(">*/");
    assert(">*/"@.last() == '/');
}

proof fn lemma_function_rest_tail(func: Function)
    ensures
        none_opens(function_rest_steps(func), Seq::empty()),
        tail_after(function_rest_steps(func), Seq::empty()) == Seq::<char>::empty(),
{
    broadcast use group_tail;

    lemma_parameters_tail(func.signature.parameters@, false, 0);
    lemma_tparams_tail(func.signature.type_parameters@);
    reveal_strlit("  $signer: any,");
    reveal_strlit("{");
    reveal_strlit("  $signer(arguments);");
    reveal_strlit("}");
    assert("  $signer: any,"@.last() == ',');
    assert("{"@.last() == '{');
    assert("  $signer(arguments);"@.last() == ';');
    assert("}"@.last() == '}');
}

/// A line that has just ended leaves nothing on the current line.
proof fn lemma_fresh_line(s: State, steps: Seq<Step>)
    requires
        run(s, steps + newline()).end is Done,
    ensures
        page(run(s, steps + newline()).state.doc).cur.len() == 0,
{
    broadcast use {group_run, lemma_page_push};

}

proof fn lemma_nothing_in_front(cur: Seq<char>)
    requires
        cur.len() == 0,
    ensures
        ends_in(cur, Seq::empty()),
{
    assert(cur.skip(0) =~= Seq::empty());
}

/// A line that ends in the declaration of a function ends in a space and a parenthesis.
proof fn lemma_declaration_opens(name: FunctionName, start: Seq<char>)
    ensures
        opens(start + export_declaration(name)),
{
    reveal_strlit("$ (");
    assert("$ ("@.len() == 3 && "$ ("@[1] == ' ' && "$ ("@[2] == '(');
}

/// Whether a function is marked as a unit test, on a line in front of its declaration.
pub open spec fn is_marked(func: Function, test: bool) -> bool {
    test && func.is_test == Ok::<bool, Diagnostic>(true)
}

/// The line that exports a function which is printed on the page `p`: the declaration, behind
/// the indentation or, if the function is not marked and no line starts on `p`, behind what
/// already stands on the line.
pub open spec fn export_line(name: FunctionName, func: Function, test: bool, p: Page) -> Seq<char> {
    (if is_marked(func, test) {
        margin(p.level)
    } else {
        line_start(p)
    }) + export_declaration(name)
}

proof fn lemma_body_exports_once(name: FunctionName, func: Function, test: bool, s: State)
    requires
        run(s, function_body_steps(name, func, test)).end is Done,
    ensures
        ({
            let after = run(s, function_body_steps(name, func, test)).state;
            let x = export_line(name, func, test, page(s.doc));
            &&& occurrences(page(after.doc).lines, x) == occurrences(page(s.doc).lines, x) + 1
            &&& page(after.doc).cur.len() == 0
            &&& page(after.doc).level == page(s.doc).level
        }),
{
    let x = export_line(name, func, test, page(s.doc));
    let mark = test_mark_steps(func, test, "// #[test]"@);
    let declaration = line(export_declaration(name));
    let rest = function_rest_steps(func);
    reveal(function_body_steps);
    lemma_run_concat(s, mark + declaration + rest, newline());
    lemma_run_concat(s, mark + declaration, rest);
    lemma_run_concat(s, mark, declaration);
    lemma_declaration_opens(
        name,
        if is_marked(func, test) {
            margin(page(s.doc).level)
        } else {
            line_start(page(s.doc))
        },
    );

    let marked = run(s, mark).state;
    assert(line_start(page(marked.doc)) + export_declaration(name) == x && occurrences(
        page(marked.doc).lines,
        x,
    ) == occurrences(page(s.doc).lines, x)) by {
        broadcast use group_run;

        if is_marked(func, test) {
            let first = line_start(page(s.doc)) + "// #[test]"@;
            lemma_line_added(s, "// #[test]"@);
            lemma_occurrences_push(page(s.doc).lines, first, x);
            reveal_strlit("// #[test]");
            assert("// #[test]"@.last() == ']');
            assert(first.last() == ']');
        }
    }
    lemma_line_added(marked, export_declaration(name));
    lemma_occurrences_push(page(marked.doc).lines, x, x);

    let declared = run(marked, declaration).state;
    lemma_function_rest_tail(func);
    lemma_nothing_in_front(page(declared.doc).cur);
    lemma_lines_not_opening(declared, rest, Seq::empty(), x);
    lemma_fresh_line(s, mark + declaration + rest);
    lemma_blank_break(run(declared, rest).state, x);
    lemma_function_body_shape(name, func, test);
    law_indentation_restored(s, function_body_steps(name, func, test));
}

/// A line of white space is not one that ends in a parenthesis.
proof fn lemma_blank_break(s: State, x: Seq<char>)
    requires
        ends_in(page(s.doc).cur, Seq::empty()),
        opens(x),
    ensures
        run(s, newline()).end is Done,
        occurrences(page(run(s, newline()).state.doc).lines, x) == occurrences(
            page(s.doc).lines,
            x,
        ),
        page(run(s, newline()).state.doc).cur.len() == 0,
        page(run(s, newline()).state.doc).level == page(s.doc).level,
{
    broadcast use {group_run, lemma_page_push};

    lemma_occurrences_push(page(s.doc).lines, page(s.doc).cur, x);
}

proof fn lemma_payload_call_tail(name: FunctionName, func: Function, module: ModuleIdent)
    ensures
        none_opens(payload_call_steps(name, func, module), Seq::empty()),
        tail_after(payload_call_steps(name, func, module), Seq::empty()) == Seq::<char>::empty(),
{
    broadcast use group_tail;

    lemma_payload_args_tail(func.signature.parameters@, 0);
    reveal_strlit("const typeParamStrings = $p.map(t=>$.getTypeTagFullname(t));");
    assert("const typeParamStrings = $p.map(t=>$.getTypeTagFullname(t));"@.last() == ';');
    reveal_strlit("const typeParamStrings = [] as string[];");
    assert("const typeParamStrings = [] as string[];"@.last() == ';');
    reveal_strlit("return $.buildPayload(");
    assert("return $.buildPayload("@.len() == 22 && "return $.buildPayload("@[20] == 'd');
    reveal_strlit("\",");
    assert("\","@.last() == ',');
    reveal_strlit("  typeParamStrings,");
    assert("  typeParamStrings,"@.last() == ',');
    reveal_strlit("  []");
    assert("  []"@.last() == ']');
    reveal_strlit("  [");
    assert("  ["@.last() == '[');
    reveal_strlit("  ]");
    assert("  ]"@.last() == ']');
    reveal_strlit(");");
    assert(");"@.last() == ';');
}

proof fn lemma_payload_rest_tail(
    name: FunctionName,
    func: Function,
    module: Option<ModuleIdent>,
)
    ensures
        none_opens(payload_rest_steps(name, func, module) + newline(), Seq::empty()),
{
    broadcast use group_tail;

    lemma_parameters_tail(func.signature.parameters@, true, 0);
    lemma_tparams_tail(func.signature.type_parameters@);
    if let Some(mident) = module {
        lemma_payload_call_tail(name, func, mident);
    }
    reveal_strlit("{");
    assert("{"@.last() == '{');
    reveal_strlit("}");
    assert("}"@.last() == '}');
}

proof fn lemma_payload_exports_nothing(
    name: FunctionName,
    func: Function,
    module: Option<ModuleIdent>,
    s: State,
    x: Seq<char>,
)
    requires
        page(s.doc).cur.len() == 0,
        run(s, payload_steps(name, func, module)).end is Done,
        opens(x),
        x != margin(page(s.doc).level) + payload_declaration(name),
    ensures
        ({
            let after = run(s, payload_steps(name, func, module)).state;
            &&& occurrences(page(after.doc).lines, x) == occurrences(page(s.doc).lines, x)
            &&& page(after.doc).cur.len() == 0
        }),
{
    let declaration = line(payload_declaration(name));
    let rest = payload_rest_steps(name, func, module);
    lemma_payload_parts(name, func, module);
    lemma_run_concat(s, newline() + declaration, rest + newline());
    lemma_run_concat(s, newline(), declaration);

    let start = run(s, newline()).state;
    lemma_nothing_in_front(page(s.doc).cur);
    lemma_blank_break(s, x);
    lemma_line_added(start, payload_declaration(name));
    lemma_occurrences_push(
        page(start.doc).lines,
        margin(page(s.doc).level) + payload_declaration(name),
        x,
    );

    let declared = run(start, declaration).state;
    lemma_nothing_in_front(page(declared.doc).cur);
    lemma_payload_rest_tail(name, func, module);
    lemma_lines_not_opening(declared, rest + newline(), Seq::empty(), x);
    lemma_fresh_line(s, newline() + declaration + rest);
}

proof fn lemma_payload_parts(name: FunctionName, func: Function, module: Option<ModuleIdent>)
    ensures
        ({
            let declaration = line(payload_declaration(name));
            let rest = payload_rest_steps(name, func, module);
            &&& payload_steps(name, func, module) == newline() + declaration + (rest + newline())
            &&& payload_steps(name, func, module) == (newline() + declaration + rest) + newline()
        }),
{
    reveal(payload_steps);
    let declaration = line(payload_declaration(name));
    let rest = payload_rest_steps(name, func, module);
    assert(newline() + declaration + (rest + newline()) =~= (newline() + declaration + rest)
        + newline());
}

/// Printing a function as TypeScript writes the line that exports the function, once. This
/// leaves out the functions whose payload is declared on a line of the very same text.
pub proof fn law_function_is_exported_once(
    name: FunctionName,
    func: Function,
    test: bool,
    module: Option<ModuleIdent>,
    s: State,
)
    requires
        run(s, function_ts_steps(name, func, test, module)).end is Done,
        func.entry is Some && valid_parameters(func.signature.parameters@, 0) == Some(true)
            ==> export_line(name, func, test, page(s.doc)) != margin(page(s.doc).level)
            + payload_declaration(name),
    ensures
        ({
            let after = run(s, function_ts_steps(name, func, test, module)).state;
            let x = export_line(name, func, test, page(s.doc));
            occurrences(page(after.doc).lines, x) == occurrences(page(s.doc).lines, x) + 1
        }),
{
    let x = export_line(name, func, test, page(s.doc));
    let body = function_body_steps(name, func, test);
    let payload = payload_steps(name, func, module);
    let directives = function_directives_from(name, func, module, 0);
    let forget = seq![Step::ForgetSignature];
    let steps = function_ts_steps(name, func, test, module);
    lemma_declaration_opens(
        name,
        if is_marked(func, test) {
            margin(page(s.doc).level)
        } else {
            line_start(page(s.doc))
        },
    );
    if func.entry is Some && valid_parameters(func.signature.parameters@, 0) == Some(true) {
        assert(steps =~= body + payload + (directives + forget));
        lemma_run_concat(s, body + payload, directives + forget);
        lemma_run_concat(s, body, payload);
        lemma_body_exports_once(name, func, test, s);
        let after_body = run(s, body).state;
        lemma_payload_exports_nothing(name, func, module, after_body, x);
        let after_payload = run(after_body, payload).state;
        lemma_nothing_in_front(page(after_payload.doc).cur);
        lemma_directives_tail(name, func, module, 0);
        assert(none_opens(directives + forget, Seq::empty())) by {
            broadcast use group_tail;

        }
        lemma_lines_not_opening(after_payload, directives + forget, Seq::empty(), x);
    } else {
        let rest = steps.skip(body.len() as int);
        assert(steps =~= body + rest);
        lemma_run_concat(s, body, rest);
        lemma_body_exports_once(name, func, test, s);
        lemma_rest_writes_nothing(name, func, test, module, run(s, body).state);
    }
}

/// Nothing is written behind the function proper if the function has no payload.
proof fn lemma_rest_writes_nothing(
    name: FunctionName,
    func: Function,
    test: bool,
    module: Option<ModuleIdent>,
    s: State,
)
    requires
        !(func.entry is Some && valid_parameters(func.signature.parameters@, 0) == Some(true)),
    ensures
        ({
            let body = function_body_steps(name, func, test);
            let rest = function_ts_steps(name, func, test, module).skip(body.len() as int);
            run(s, rest).state.doc == s.doc
        }),
{
    broadcast use group_run;

    let body = function_body_steps(name, func, test);
    let rest = function_ts_steps(name, func, test, module).skip(body.len() as int);
    let forget = seq![Step::ForgetSignature];
    if func.entry is Some && valid_parameters(func.signature.parameters@, 0) is None {
        assert(rest =~= verdict(End::Stuck) + forget);
    } else {
        assert(rest =~= forget);
    }
}

} // verus!
