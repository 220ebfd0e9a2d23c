//! Constructs are printed one after the other, and printing stops at the first that fails.

use crate::ast::{
    Constant, ConstantName, Function, FunctionName, ModuleDefinition, ModuleIdent, Statement,
    StructDefinition, StructName,
};
use crate::constants::constant_steps;
use crate::functions::{function_json_steps, function_ts_steps};
use crate::indentation::lemma_statements_shape;
use crate::laws::law_indentation_restored;
use crate::module::{
    constants_from, constants_steps, contents_steps, functions_from, functions_steps,
    load_parsers_steps, meta_steps, module_steps, parsers_from, special_module_steps,
    structs_from, structs_steps,
};
use crate::script::{
    group_run, lemma_run_concat, line, newline, put, run, End, Outcome, State, Step,
};
use crate::shared::Config;
use crate::shows::shows_verdict;
use crate::statements::{block_steps, empty_block, statement_steps, statements_steps};
use crate::structs::struct_steps;
use crate::tsgen_writer::{lemma_page_push, page, Piece};
use vstd::prelude::*;

verus! {

proof fn lemma_statements_take(block: Seq<Statement>, j: int, i: int)
    requires
        0 <= i <= j < block.len(),
    ensures
        statements_steps(block, i) == statements_steps(block.take(j), i) + statement_steps(
            block[j],
        ) + statements_steps(block, j + 1),
        statements_steps(block.take(j + 1), i) == statements_steps(block.take(j), i)
            + statement_steps(block[j]),
    decreases j - i,
{
    let shorter = block.take(j);
    let longer = block.take(j + 1);
    if i == j {
        assert(statements_steps(shorter, j) =~= seq![]);
        assert(longer[j] == block[j]);
        assert(statements_steps(longer, j + 1) =~= seq![]);
        assert(statements_steps(longer, j) =~= statement_steps(block[j]));
        assert(statements_steps(block, i) =~= statements_steps(shorter, i) + statement_steps(
            block[j],
        ) + statements_steps(block, j + 1));
    } else {
        lemma_statements_take(block, j, i + 1);
        assert(shorter[i] == block[i]);
        assert(longer[i] == block[i]);
        assert(statements_steps(block, i) =~= statements_steps(shorter, i) + statement_steps(
            block[j],
        ) + statements_steps(block, j + 1));
        assert(statements_steps(longer, i) =~= statements_steps(shorter, i) + statement_steps(
            block[j],
        ));
    }
}

/// The state in which the first statement of a block is printed: the opening brace is
/// written, and lines start one level further to the right.
pub open spec fn block_entered(s: State) -> State {
    State {
        doc: s.doc.push(Piece::Text("{"@)).push(Piece::Break).push(Piece::In),
        ctx: s.ctx,
    }
}

/// The outcome of the first `j` statements of a block.
pub open spec fn after_statements(s: State, block: Seq<Statement>, j: int) -> Outcome {
    run(block_entered(s), statements_steps(block.take(j), 0))
}

/// A block behind its last statement: the indentation ends and the closing brace is written.
pub open spec fn block_left(s: State) -> State {
    State {
        doc: s.doc.push(Piece::Out).push(Piece::Text("}"@)).push(Piece::Break),
        ctx: s.ctx,
    }
}

/// The statements of a block are printed once and in order: none is printed at the start, and
/// each is printed where those before it have left off.
pub proof fn law_statements_in_order(s: State, block: Seq<Statement>, j: int)
    requires
        0 <= j < block.len(),
    ensures
        after_statements(s, block, 0) == (Outcome { state: block_entered(s), end: End::Done }),
        after_statements(s, block, j + 1) == (if after_statements(s, block, j).end is Done {
            run(after_statements(s, block, j).state, statement_steps(block[j]))
        } else {
            after_statements(s, block, j)
        }),
{
    broadcast use group_run;

    assert(statements_steps(block.take(0), 0) =~= seq![]);
    lemma_statements_take(block, j, 0);
}

/// A block is done once its statements are and the closing brace is written.
pub proof fn lemma_block_entered(s: State, block: Seq<Statement>)
    ensures
        run(s, block_steps(block)) == (if after_statements(s, block, block.len() as int).end
            is Done {
            Outcome {
                state: block_left(after_statements(s, block, block.len() as int).state),
                end: End::Done,
            }
        } else {
            after_statements(s, block, block.len() as int)
        }),
{
    broadcast use group_run;

    assert(block.take(block.len() as int) =~= block);
    assert(run(s, line("{"@) + put(Piece::In)) == (Outcome {
        state: block_entered(s),
        end: End::Done,
    }));
}

/// A block that can be printed is its statements between two braces, each on a line of its
/// own. The statements are printed one level further to the right, and behind the block the
/// indentation is what it was before.
pub proof fn law_block_is_printed(s: State, block: Seq<Statement>)
    requires
        run(s, block_steps(block)).end is Done,
    ensures
        after_statements(s, block, block.len() as int).end is Done,
        run(s, block_steps(block)).state == block_left(
            after_statements(s, block, block.len() as int).state,
        ),
        forall|j: int|
            0 <= j <= block.len() ==> (#[trigger] after_statements(s, block, j)).end is Done
                && page(after_statements(s, block, j).state.doc).level == page(s.doc).level + 1,
        page(run(s, block_steps(block)).state.doc).level == page(s.doc).level,
{
    lemma_block_entered(s, block);
    assert forall|j: int| 0 <= j <= block.len() implies (#[trigger] after_statements(
        s,
        block,
        j,
    )).end is Done && page(after_statements(s, block, j).state.doc).level == page(s.doc).level
        + 1 by {
        lemma_statements_done(s, block, j);
        lemma_entered_level(s);
        lemma_statements_shape(block.take(j), 0);
        law_indentation_restored(block_entered(s), statements_steps(block.take(j), 0));
    }
    let last = after_statements(s, block, block.len() as int);
    lemma_left_level(last.state);
}

proof fn lemma_entered_level(s: State)
    ensures
        page(block_entered(s).doc).level == page(s.doc).level + 1,
{
    broadcast use lemma_page_push;

}

proof fn lemma_left_level(s: State)
    requires
        page(s.doc).level > 0,
    ensures
        page(block_left(s).doc).level == page(s.doc).level - 1,
{
    broadcast use lemma_page_push;

}

proof fn lemma_statements_done(s: State, block: Seq<Statement>, j: int)
    requires
        0 <= j <= block.len(),
        after_statements(s, block, block.len() as int).end is Done,
    ensures
        after_statements(s, block, j).end is Done,
    decreases block.len() - j,
{
    if j < block.len() {
        lemma_statements_done(s, block, j + 1);
        law_statements_in_order(s, block, j);
    }
}

/// A block that does nothing can always be printed: all that is written are its two braces,
/// and the context stays as it is.
pub proof fn law_empty_block_is_two_braces(s: State, block: Seq<Statement>)
    requires
        empty_block(block),
    ensures
        run(s, block_steps(block)) == (Outcome {
            state: block_left(block_entered(s)),
            end: End::Done,
        }),
{
    lemma_block_entered(s, block);
    if block.len() == 0 {
        assert(block.take(0) =~= block);
        assert(statements_steps(block, 0) =~= seq![]);
        assert(after_statements(s, block, 0) == (Outcome {
            state: block_entered(s),
            end: End::Done,
        })) by {
            broadcast use group_run;

        }
    } else {
        law_statements_in_order(s, block, 0);
        assert(statement_steps(block[0]) =~= seq![]);
        broadcast use group_run;

    }
}

/// The first statement of a block that fails ends the block: no statement behind it and no
/// closing brace is printed.
pub proof fn law_block_stops_at_a_failure(s: State, block: Seq<Statement>, j: int)
    requires
        0 <= j < block.len(),
        after_statements(s, block, j).end is Done,
        run(after_statements(s, block, j).state, statement_steps(block[j])).end is Fail,
    ensures
        run(s, block_steps(block)) == run(
            after_statements(s, block, j).state,
            statement_steps(block[j]),
        ),
{
    lemma_block_entered(s, block);
    law_statements_in_order(s, block, j);
    lemma_failure_stays(s, block, j + 1, block.len() as int);
}

proof fn lemma_failure_stays(s: State, block: Seq<Statement>, j: int, k: int)
    requires
        0 <= j <= k <= block.len(),
        after_statements(s, block, j).end is Fail,
    ensures
        after_statements(s, block, k) == after_statements(s, block, j),
    decreases k - j,
{
    if j < k {
        lemma_failure_stays(s, block, j, k - 1);
        law_statements_in_order(s, block, k - 1);
    }
}

/// The steps behind the shows of a module.
pub open spec fn closing_steps(
    name: ModuleIdent,
    module: ModuleDefinition,
    config: Config,
) -> Seq<Step> {
    load_parsers_steps(name, module.structs@) + special_module_steps(name, config)
}

/// A module ends as its contents do. Where its contents cannot be printed, or its shows do
/// not pass, nothing behind them is printed: the function that registers the parsers is not.
pub proof fn law_module_ends_as_its_contents(
    s: State,
    name: ModuleIdent,
    module: ModuleDefinition,
)
    ensures
        ({
            let (config, current) = (s.ctx.config, s.ctx.current_module);
            let contents = run(s, contents_steps(name, module, config, current));
            let whole = run(s, module_steps(name, module, config, current));
            &&& whole.end == contents.end
            &&& !(contents.end is Done) ==> whole == contents
            &&& contents.end is Done ==> whole == run(
                contents.state,
                closing_steps(name, module, config),
            )
        }),
{
    let (config, current) = (s.ctx.config, s.ctx.current_module);
    let contents = contents_steps(name, module, config, current);
    let closing = closing_steps(name, module, config);
    assert(module_steps(name, module, config, current) =~= contents + closing);
    lemma_run_concat(s, contents, closing);
    lemma_closing_done(run(s, contents).state, name, module, config);
}

proof fn lemma_closing_done(
    s: State,
    name: ModuleIdent,
    module: ModuleDefinition,
    config: Config,
)
    ensures
        run(s, closing_steps(name, module, config)).end is Done,
        run(s, closing_steps(name, module, config)).state.ctx == s.ctx,
{
    broadcast use group_run;

    let opening = line("export function loadParsers(repo: AptosParserRepo) {"@);
    reveal(load_parsers_steps);
    reveal(special_module_steps);
    lemma_parsers_done(run(s, opening).state, name, module.structs@, 0);
}

/// Parsers can always be registered, and nothing is noted.
pub proof fn lemma_parsers_done(
    s: State,
    mident: ModuleIdent,
    structs: Seq<(StructName, StructDefinition)>,
    i: int,
)
    ensures
        run(s, parsers_from(mident, structs, i)).end is Done,
        run(s, parsers_from(mident, structs, i)).state.ctx == s.ctx,
    decreases structs.len() - i,
{
    broadcast use group_run;

    if 0 <= i < structs.len() {
        let steps = parsers_from(mident, structs, i);
        let rest = parsers_from(mident, structs, i + 1);
        let first = steps.take(2);
        assert(steps =~= first + rest);
        assert(first =~= seq![] + seq![steps[0]] + seq![steps[1]]);
        lemma_parsers_done(run(s, first).state, mident, structs, i + 1);
    }
}

/// The shows of a module that is printed pass in the context that the module leaves behind.
pub proof fn law_printed_modules_pass(s: State, name: ModuleIdent, module: ModuleDefinition)
    requires
        run(s, module_steps(name, module, s.ctx.config, s.ctx.current_module)).end is Done,
    ensures
        shows_verdict(
            module.functions@,
            run(s, module_steps(name, module, s.ctx.config, s.ctx.current_module)).state.ctx,
        ) is Done,
{
    let (config, current) = (s.ctx.config, s.ctx.current_module);
    let contents = contents_steps(name, module, config, current);
    let validate = seq![Step::ValidateShows(module.functions@)];
    let before = contents.drop_last();
    assert(contents =~= before + validate);
    law_module_ends_as_its_contents(s, name, module);
    lemma_run_concat(s, before, validate);
    let at = run(s, before).state;
    assert(run(at, validate).end == shows_verdict(module.functions@, at.ctx)
        && run(at, validate).state == at) by {
        broadcast use group_run;

    }
    lemma_closing_done(at, name, module, config);
}

proof fn lemma_constants_take(constants: Seq<(ConstantName, Constant)>, j: int, i: int)
    requires
        0 <= i <= j < constants.len(),
    ensures
        constants_from(constants, i) == constants_from(constants.take(j), i) + constant_steps(
            constants[j].0,
            constants[j].1,
        ) + constants_from(constants, j + 1),
    decreases j - i,
{
    let shorter = constants.take(j);
    if i == j {
        assert(constants_from(shorter, j) =~= seq![]);
    } else {
        lemma_constants_take(constants, j, i + 1);
        assert(shorter[i] == constants[i]);
    }
    assert(constants_from(constants, i) =~= constants_from(shorter, i) + constant_steps(
        constants[j].0,
        constants[j].1,
    ) + constants_from(constants, j + 1));
}

/// The steps of printing a module in front of the constant at `j`.
pub open spec fn steps_before_constant(
    name: ModuleIdent,
    module: ModuleDefinition,
    j: int,
) -> Seq<Step> {
    meta_steps(name, module) + constants_from(module.constants@.take(j), 0)
}

/// A constant that fails ends the printing of its module, with the diagnostic of the
/// constant.
pub proof fn law_module_stops_at_a_constant(
    s: State,
    name: ModuleIdent,
    module: ModuleDefinition,
    j: int,
)
    requires
        0 <= j < module.constants@.len(),
        run(s, steps_before_constant(name, module, j)).end is Done,
        run(
            run(s, steps_before_constant(name, module, j)).state,
            constant_steps(module.constants@[j].0, module.constants@[j].1),
        ).end is Fail,
    ensures
        run(s, module_steps(name, module, s.ctx.config, s.ctx.current_module)) == run(
            run(s, steps_before_constant(name, module, j)).state,
            constant_steps(module.constants@[j].0, module.constants@[j].1),
        ),
{
    let (config, current) = (s.ctx.config, s.ctx.current_module);
    let steps = module_steps(name, module, config, current);
    let before = steps_before_constant(name, module, j);
    let one = constant_steps(module.constants@[j].0, module.constants@[j].1);
    reveal(constants_steps);
    lemma_constants_take(module.constants@, j, 0);
    let behind = steps.skip((before + one).len() as int);
    assert(steps =~= before + one + behind);
    lemma_run_concat(s, before + one, behind);
    lemma_run_concat(s, before, one);
}

proof fn lemma_structs_take(
    structs: Seq<(StructName, StructDefinition)>,
    module: Option<ModuleIdent>,
    j: int,
    i: int,
)
    requires
        0 <= i <= j < structs.len(),
    ensures
        structs_from(structs, module, i) == structs_from(structs.take(j), module, i)
            + struct_steps(structs[j].0, structs[j].1, module) + structs_from(
            structs,
            module,
            j + 1,
        ),
    decreases j - i,
{
    let shorter = structs.take(j);
    if i == j {
        assert(structs_from(shorter, module, j) =~= seq![]);
    } else {
        lemma_structs_take(structs, module, j, i + 1);
        assert(shorter[i] == structs[i]);
    }
    assert(structs_from(structs, module, i) =~= structs_from(shorter, module, i) + struct_steps(
        structs[j].0,
        structs[j].1,
        module,
    ) + structs_from(structs, module, j + 1));
}

/// The steps of printing a module in front of the struct at `j`.
pub open spec fn steps_before_struct(
    name: ModuleIdent,
    module: ModuleDefinition,
    current: Option<ModuleIdent>,
    j: int,
) -> Seq<Step> {
    meta_steps(name, module) + constants_steps(module.constants@) + newline() + structs_from(
        module.structs@.take(j),
        current,
        0,
    )
}

/// A struct that fails ends the printing of its module, with the diagnostic of the struct.
pub proof fn law_module_stops_at_a_struct(
    s: State,
    name: ModuleIdent,
    module: ModuleDefinition,
    j: int,
)
    requires
        0 <= j < module.structs@.len(),
        run(s, steps_before_struct(name, module, s.ctx.current_module, j)).end is Done,
        run(
            run(s, steps_before_struct(name, module, s.ctx.current_module, j)).state,
            struct_steps(module.structs@[j].0, module.structs@[j].1, s.ctx.current_module),
        ).end is Fail,
    ensures
        run(s, module_steps(name, module, s.ctx.config, s.ctx.current_module)) == run(
            run(s, steps_before_struct(name, module, s.ctx.current_module, j)).state,
            struct_steps(module.structs@[j].0, module.structs@[j].1, s.ctx.current_module),
        ),
{
    let (config, current) = (s.ctx.config, s.ctx.current_module);
    let steps = module_steps(name, module, config, current);
    let before = steps_before_struct(name, module, current, j);
    let one = struct_steps(module.structs@[j].0, module.structs@[j].1, current);
    reveal(structs_steps);
    lemma_structs_take(module.structs@, current, j, 0);
    let behind = steps.skip((before + one).len() as int);
    assert(steps =~= before + one + behind);
    lemma_run_concat(s, before + one, behind);
    lemma_run_concat(s, before, one);
}

/// The steps of printing one function, as JSON or not.
pub open spec fn one_function_steps(
    function: (FunctionName, Function),
    json: bool,
    test: bool,
    module: Option<ModuleIdent>,
) -> Seq<Step> {
    if json {
        function_json_steps(function.0, function.1, test)
    } else {
        function_ts_steps(function.0, function.1, test, module)
    }
}

proof fn lemma_functions_take(
    functions: Seq<(FunctionName, Function)>,
    json: bool,
    test: bool,
    module: Option<ModuleIdent>,
    j: int,
    i: int,
)
    requires
        0 <= i <= j < functions.len(),
    ensures
        functions_from(functions, json, test, module, i) == functions_from(
            functions.take(j),
            json,
            test,
            module,
            i,
        ) + one_function_steps(functions[j], json, test, module) + functions_from(
            functions,
            json,
            test,
            module,
            j + 1,
        ),
    decreases j - i,
{
    let shorter = functions.take(j);
    if i == j {
        assert(functions_from(shorter, json, test, module, j) =~= seq![]);
    } else {
        lemma_functions_take(functions, json, test, module, j, i + 1);
        assert(shorter[i] == functions[i]);
    }
    assert(functions_from(functions, json, test, module, i) =~= functions_from(
        shorter,
        json,
        test,
        module,
        i,
    ) + one_function_steps(functions[j], json, test, module) + functions_from(
        functions,
        json,
        test,
        module,
        j + 1,
    ));
}

/// The steps of printing a module in front of the function at `j`, when functions are
/// printed as TypeScript or, behind that, as JSON.
pub open spec fn steps_before_function(
    name: ModuleIdent,
    module: ModuleDefinition,
    config: Config,
    current: Option<ModuleIdent>,
    json: bool,
    j: int,
) -> Seq<Step> {
    meta_steps(name, module) + constants_steps(module.constants@) + newline() + structs_steps(
        module.structs@,
        current,
    ) + seq![Step::SetJson(false)] + (if json {
        functions_steps(module.functions@, false, config.test, current) + seq![
            Step::SetJson(true),
        ] + line("export const json = {"@)
    } else {
        seq![]
    }) + functions_from(module.functions@.take(j), json, config.test, current, 0)
}

/// A function that fails, as TypeScript or as JSON, ends the printing of its module, with the
/// diagnostic of the function.
pub proof fn law_module_stops_at_a_function(
    s: State,
    name: ModuleIdent,
    module: ModuleDefinition,
    json: bool,
    j: int,
)
    requires
        0 <= j < module.functions@.len(),
        run(
            s,
            steps_before_function(name, module, s.ctx.config, s.ctx.current_module, json, j),
        ).end is Done,
        run(
            run(
                s,
                steps_before_function(name, module, s.ctx.config, s.ctx.current_module, json, j),
            ).state,
            one_function_steps(
                module.functions@[j],
                json,
                s.ctx.config.test,
                s.ctx.current_module,
            ),
        ).end is Fail,
    ensures
        run(s, module_steps(name, module, s.ctx.config, s.ctx.current_module)) == run(
            run(
                s,
                steps_before_function(name, module, s.ctx.config, s.ctx.current_module, json, j),
            ).state,
            one_function_steps(
                module.functions@[j],
                json,
                s.ctx.config.test,
                s.ctx.current_module,
            ),
        ),
{
    let (config, current) = (s.ctx.config, s.ctx.current_module);
    let steps = module_steps(name, module, config, current);
    let before = steps_before_function(name, module, config, current, json, j);
    let one = one_function_steps(module.functions@[j], json, config.test, current);
    reveal(functions_steps);
    lemma_functions_take(module.functions@, json, config.test, current, j, 0);
    let behind = steps.skip((before + one).len() as int);
    assert(steps =~= before + one + behind);
    lemma_run_concat(s, before + one, behind);
    lemma_run_concat(s, before, one);
}

} // verus!
