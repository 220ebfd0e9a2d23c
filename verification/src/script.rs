//! What printing a construct amounts to, step by step.
//!
//! The contract of a printer names the steps that it takes, in order. [`run`] says what
//! the steps do to a writer and a context and how they end: a step that cannot be taken
//! ends the run, and the steps behind it are not taken.

use crate::ast::{DiagnosticView, Function, FunctionName, Term, WriteResult};
use crate::shared::{CmdView, ContextView, ShowIterTableView, ShowView};
use crate::shows::shows_verdict;
use crate::tsgen_writer::Piece;
use vstd::prelude::*;

verus! {

/// How a run ends.
pub enum End {
    /// All steps were taken.
    Done,
    /// A construct cannot be translated.
    Fail(DiagnosticView),
    /// The input is none that the compiler hands out: the step is not defined for it.
    Stuck,
}

/// One step of a printer.
pub enum Step {
    /// A piece is written.
    Put(Piece),
    /// The text of a term is asked for: the module imports what the term needs, and the
    /// run fails if the term has no text.
    Ask(Term),
    /// The run goes on or ends here.
    Verdict(End),
    /// A show of the current module is noted.
    NoteShow(ShowView),
    /// An iterable table that is shown is noted.
    NoteShowIterTable(ShowIterTableView),
    /// A command is noted.
    NoteCmd(CmdView),
    /// The shows of the current module are held against its functions.
    ValidateShows(Seq<(FunctionName, Function)>),
    /// Functions are printed as JSON from here on, or not.
    SetJson(bool),
    /// The signature of the current function is forgotten.
    ForgetSignature,
}

/// A writer and a context.
pub struct State {
    pub doc: Seq<Piece>,
    pub ctx: ContextView,
}

/// What a run leaves behind.
pub struct Outcome {
    pub state: State,
    pub end: End,
}

/// The outcome of one step.
pub open spec fn take_step(s: State, step: Step) -> Outcome {
    match step {
        Step::Put(piece) => Outcome { state: State { doc: s.doc.push(piece), ..s }, end: End::Done },
        Step::Ask(term) => Outcome {
            state: State { ctx: s.ctx.import(term), ..s },
            end: match term.text {
                Ok(_) => End::Done,
                Err(d) => End::Fail(d@),
            },
        },
        Step::Verdict(end) => Outcome { state: s, end },
        Step::NoteShow(show) => Outcome {
            state: State {
                ctx: ContextView { module_shows: s.ctx.module_shows.push(show), ..s.ctx },
                ..s
            },
            end: End::Done,
        },
        Step::NoteShowIterTable(show) => Outcome {
            state: State {
                ctx: ContextView {
                    iter_table_shows: s.ctx.iter_table_shows.push(show),
                    ..s.ctx
                },
                ..s
            },
            end: End::Done,
        },
        Step::NoteCmd(cmd) => Outcome {
            state: State { ctx: ContextView { cmds: s.ctx.cmds.push(cmd), ..s.ctx }, ..s },
            end: End::Done,
        },
        Step::ValidateShows(functions) => Outcome { state: s, end: shows_verdict(functions, s.ctx) },
        Step::SetJson(json) => Outcome {
            state: State { ctx: ContextView { json, ..s.ctx }, ..s },
            end: End::Done,
        },
        Step::ForgetSignature => Outcome {
            state: State {
                ctx: ContextView { current_function_signature: None, ..s.ctx },
                ..s
            },
            end: End::Done,
        },
    }
}

/// The outcome of the steps, taken in order up to the first that ends the run.
#[verifier::opaque]
pub open spec fn run(s: State, steps: Seq<Step>) -> Outcome
    decreases steps.len(),
{
    if steps.len() == 0 {
        Outcome { state: s, end: End::Done }
    } else {
        then_step(run(s, steps.drop_last()), steps.last())
    }
}

/// The outcome of one more step, if the run has not ended.
pub open spec fn then_step(o: Outcome, step: Step) -> Outcome {
    if o.end is Done {
        take_step(o.state, step)
    } else {
        o
    }
}

/// The outcome of more steps, if the run has not ended.
pub open spec fn then_run(o: Outcome, steps: Seq<Step>) -> Outcome {
    if o.end is Done {
        run(o.state, steps)
    } else {
        o
    }
}

/// No step leaves everything as it is.
pub broadcast proof fn lemma_run_nothing(s: State)
    ensures
        #[trigger] run(s, Seq::<Step>::empty()) == (Outcome { state: s, end: End::Done }),
{
    reveal(run);
}

/// The last step is taken if those before it are.
pub broadcast proof fn lemma_run_push(s: State, steps: Seq<Step>, step: Step)
    ensures
        #[trigger] run(s, steps.push(step)) == then_step(run(s, steps), step),
{
    reveal(run);
    assert(steps.push(step).drop_last() =~= steps);
}

/// Steps can be taken in two goes.
pub broadcast proof fn lemma_run_concat(s: State, a: Seq<Step>, b: Seq<Step>)
    ensures
        #[trigger] run(s, a + b) == then_run(run(s, a), b),
    decreases b.len(),
{
    reveal(run);
    if b.len() == 0 {
        assert(a + b =~= a);
    } else {
        lemma_run_concat(s, a, b.drop_last());
        assert((a + b).drop_last() =~= a + b.drop_last());
    }
}

/// No step changes the configuration or the current module.
pub broadcast proof fn lemma_run_keeps(s: State, steps: Seq<Step>)
    ensures
        (#[trigger] run(s, steps)).state.ctx.config == s.ctx.config,
        run(s, steps).state.ctx.current_module == s.ctx.current_module,
    decreases steps.len(),
{
    reveal(run);
    if steps.len() > 0 {
        lemma_run_keeps(s, steps.drop_last());
    }
}

pub broadcast group group_run {
    lemma_run_nothing,
    lemma_run_push,
    lemma_run_concat,
}

/// How a run ends for one who gets `r` back.
pub open spec fn end_of(r: WriteResult) -> End {
    match r {
        Ok(_) => End::Done,
        Err(d) => End::Fail(d@),
    }
}

/// Whether the steps turn a writer `w0` and a context `c0` into `w1` and `c1`, and `r`
/// says how they ended.
pub open spec fn performed(
    w0: Seq<Piece>,
    c0: ContextView,
    steps: Seq<Step>,
    w1: Seq<Piece>,
    c1: ContextView,
    r: WriteResult,
) -> bool {
    run(State { doc: w0, ctx: c0 }, steps) == (Outcome {
        state: State { doc: w1, ctx: c1 },
        end: end_of(r),
    })
}

/// Whether each step that is reached is defined.
pub open spec fn defined(w0: Seq<Piece>, c0: ContextView, steps: Seq<Step>) -> bool {
    !(run(State { doc: w0, ctx: c0 }, steps).end is Stuck)
}

/// A piece is written.
pub open spec fn put(piece: Piece) -> Seq<Step> {
    seq![Step::Put(piece)]
}

/// The current line is continued.
pub open spec fn text(s: Seq<char>) -> Seq<Step> {
    put(Piece::Text(s))
}

/// The current line ends.
pub open spec fn newline() -> Seq<Step> {
    put(Piece::Break)
}

/// The current line is continued and ends.
pub open spec fn line(s: Seq<char>) -> Seq<Step> {
    text(s) + newline()
}

/// The text of a term is asked for.
pub open spec fn ask(term: Term) -> Seq<Step> {
    seq![Step::Ask(term)]
}

/// The run goes on or ends here.
pub open spec fn verdict(end: End) -> Seq<Step> {
    seq![Step::Verdict(end)]
}

/// The run fails.
pub open spec fn fail(d: DiagnosticView) -> Seq<Step> {
    verdict(End::Fail(d))
}

/// Indented lines of their own start.
pub open spec fn open_indent() -> Seq<Step> {
    newline() + put(Piece::In)
}

/// Indented lines of their own end.
pub open spec fn close_indent() -> Seq<Step> {
    put(Piece::Out) + newline()
}

/// Indented lines between braces start.
pub open spec fn open_short_block() -> Seq<Step> {
    text("{"@) + open_indent()
}

/// Indented lines between braces end.
pub open spec fn close_short_block() -> Seq<Step> {
    close_indent() + text("}"@)
}

} // verus!
