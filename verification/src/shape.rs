//! What kinds of steps a printer takes, and where they leave the indentation.

use crate::script::{group_run, run, State, Step};
use crate::tsgen_writer::{page, Piece};
use vstd::prelude::*;

verus! {

/// What is printed.
pub enum Kind {
    /// A construct of which nothing is noted.
    Plain,
    /// A struct.
    Struct,
    /// A function.
    Function,
}

/// Whether a printer of some kind may take a step.
pub open spec fn allowed(kind: Kind, step: Step) -> bool {
    match step {
        Step::Put(_) => true,
        Step::Ask(_) => true,
        Step::Verdict(_) => true,
        Step::NoteShow(_) => kind is Struct,
        Step::NoteShowIterTable(_) => kind is Struct,
        Step::NoteCmd(_) => kind is Function,
        Step::ForgetSignature => kind is Function,
        Step::ValidateShows(_) => false,
        Step::SetJson(_) => false,
    }
}

/// Whether a printer of some kind may take all of the steps.
#[verifier::opaque]
pub open spec fn all_allowed(kind: Kind, steps: Seq<Step>) -> bool {
    forall|i: int| 0 <= i < steps.len() ==> allowed(kind, #[trigger] steps[i])
}

pub broadcast proof fn lemma_allowed_nothing(kind: Kind)
    ensures
        #[trigger] all_allowed(kind, Seq::<Step>::empty()),
{
    reveal(all_allowed);
}

pub broadcast proof fn lemma_allowed_push(kind: Kind, steps: Seq<Step>, step: Step)
    ensures
        #[trigger] all_allowed(kind, steps.push(step)) == (all_allowed(kind, steps) && allowed(
            kind,
            step,
        )),
{
    reveal(all_allowed);
    let longer = steps.push(step);
    if all_allowed(kind, longer) {
        assert forall|i: int| 0 <= i < steps.len() implies allowed(kind, #[trigger] steps[i]) by {
            assert(longer[i] == steps[i]);
        }
        assert(longer[steps.len() as int] == step);
    }
}

pub broadcast proof fn lemma_allowed_concat(kind: Kind, a: Seq<Step>, b: Seq<Step>)
    ensures
        #[trigger] all_allowed(kind, a + b) == (all_allowed(kind, a) && all_allowed(kind, b)),
{
    reveal(all_allowed);
    let both = a + b;
    if all_allowed(kind, both) {
        assert forall|i: int| 0 <= i < a.len() implies allowed(kind, #[trigger] a[i]) by {
            assert(both[i] == a[i]);
        }
        assert forall|i: int| 0 <= i < b.len() implies allowed(kind, #[trigger] b[i]) by {
            assert(both[a.len() + i] == b[i]);
        }
    }
}

/// Whether a step is defined whatever the state.
pub open spec fn always_defined(step: Step) -> bool {
    match step {
        Step::Verdict(end) => !(end is Stuck),
        Step::ValidateShows(_) => false,
        _ => true,
    }
}

/// Whether all of the steps are defined whatever the state.
#[verifier::opaque]
pub open spec fn never_stuck(steps: Seq<Step>) -> bool {
    forall|i: int| 0 <= i < steps.len() ==> always_defined(#[trigger] steps[i])
}

pub broadcast proof fn lemma_never_stuck_nothing()
    ensures
        #[trigger] never_stuck(Seq::<Step>::empty()),
{
    reveal(never_stuck);
}

pub broadcast proof fn lemma_never_stuck_push(steps: Seq<Step>, step: Step)
    ensures
        #[trigger] never_stuck(steps.push(step)) == (never_stuck(steps) && always_defined(step)),
{
    reveal(never_stuck);
    let longer = steps.push(step);
    if never_stuck(longer) {
        assert forall|i: int| 0 <= i < steps.len() implies always_defined(#[trigger] steps[i]) by {
            assert(longer[i] == steps[i]);
        }
        assert(longer[steps.len() as int] == step);
    }
}

pub broadcast proof fn lemma_never_stuck_concat(a: Seq<Step>, b: Seq<Step>)
    ensures
        #[trigger] never_stuck(a + b) == (never_stuck(a) && never_stuck(b)),
{
    reveal(never_stuck);
    let both = a + b;
    if never_stuck(both) {
        assert forall|i: int| 0 <= i < a.len() implies always_defined(#[trigger] a[i]) by {
            assert(both[i] == a[i]);
        }
        assert forall|i: int| 0 <= i < b.len() implies always_defined(#[trigger] b[i]) by {
            assert(both[a.len() + i] == b[i]);
        }
    }
}

/// What may be done for a construct of which nothing is noted may be done for any.
pub proof fn lemma_allowed_plain(kind: Kind, steps: Seq<Step>)
    requires
        all_allowed(Kind::Plain, steps),
    ensures
        all_allowed(kind, steps),
{
    reveal(all_allowed);
}

/// The indentation behind the steps if it is `level` in front of them.
#[verifier::opaque]
pub open spec fn level_after(level: nat, steps: Seq<Step>) -> nat
    decreases steps.len(),
{
    if steps.len() == 0 {
        level
    } else {
        level_step(level_after(level, steps.drop_last()), steps.last())
    }
}

/// The indentation behind one step.
pub open spec fn level_step(level: nat, step: Step) -> nat {
    match step {
        Step::Put(Piece::In) => level + 1,
        Step::Put(Piece::Out) => if level == 0 {
            0
        } else {
            (level - 1) as nat
        },
        _ => level,
    }
}

/// Whether the steps leave the indentation as they find it.
pub open spec fn balanced(steps: Seq<Step>) -> bool {
    forall|level: nat| #[trigger] level_after(level, steps) == level
}

pub broadcast proof fn lemma_level_nothing(level: nat)
    ensures
        #[trigger] level_after(level, Seq::<Step>::empty()) == level,
{
    reveal(level_after);
}

pub broadcast proof fn lemma_level_push(level: nat, steps: Seq<Step>, step: Step)
    ensures
        #[trigger] level_after(level, steps.push(step)) == level_step(
            level_after(level, steps),
            step,
        ),
{
    reveal(level_after);
    assert(steps.push(step).drop_last() =~= steps);
}

pub broadcast proof fn lemma_level_concat(level: nat, a: Seq<Step>, b: Seq<Step>)
    ensures
        #[trigger] level_after(level, a + b) == level_after(level_after(level, a), b),
    decreases b.len(),
{
    reveal(level_after);
    if b.len() == 0 {
        assert(a + b =~= a);
    } else {
        lemma_level_concat(level, a, b.drop_last());
        assert((a + b).drop_last() =~= a + b.drop_last());
    }
}

pub broadcast group group_shape {
    lemma_allowed_nothing,
    lemma_allowed_push,
    lemma_allowed_concat,
    lemma_level_nothing,
    lemma_level_push,
    lemma_level_concat,
    lemma_never_stuck_nothing,
    lemma_never_stuck_push,
    lemma_never_stuck_concat,
}

/// Steps that are defined whatever the state do not get stuck.
pub proof fn lemma_run_never_stuck(s: State, steps: Seq<Step>)
    requires
        never_stuck(steps),
    ensures
        !(run(s, steps).end is Stuck),
    decreases steps.len(),
{
    broadcast use {lemma_never_stuck_push, group_run};

    if steps.len() == 0 {
        assert(steps =~= Seq::empty());
    } else {
        assert(steps.drop_last().push(steps.last()) =~= steps);
        lemma_run_never_stuck(s, steps.drop_last());
    }
}

/// What a printer of some kind leaves alone: the format of functions, and the notes that
/// are made of other constructs.
pub proof fn lemma_run_allowed(kind: Kind, s: State, steps: Seq<Step>)
    requires
        all_allowed(kind, steps),
    ensures
        run(s, steps).state.ctx.json == s.ctx.json,
        !(kind is Struct) ==> run(s, steps).state.ctx.module_shows == s.ctx.module_shows,
        !(kind is Struct) ==> run(s, steps).state.ctx.iter_table_shows == s.ctx.iter_table_shows,
        !(kind is Function) ==> run(s, steps).state.ctx.cmds == s.ctx.cmds,
        !(kind is Function) ==> run(s, steps).state.ctx.current_function_signature
            == s.ctx.current_function_signature,
    decreases steps.len(),
{
    reveal(run);
    reveal(all_allowed);
    if steps.len() > 0 {
        let shorter = steps.drop_last();
        assert forall|i: int| 0 <= i < shorter.len() implies allowed(
            kind,
            #[trigger] shorter[i],
        ) by {
            assert(shorter[i] == steps[i]);
        }
        lemma_run_allowed(kind, s, shorter);
        assert(allowed(kind, steps[steps.len() - 1]));
    }
}

/// The indentation behind steps that are all taken is the one that [`level_after`] names.
pub proof fn lemma_run_level(s: State, steps: Seq<Step>)
    requires
        run(s, steps).end is Done,
    ensures
        page(run(s, steps).state.doc).level == level_after(page(s.doc).level, steps),
    decreases steps.len(),
{
    reveal(run);
    reveal(level_after);
    if steps.len() > 0 {
        let before = run(s, steps.drop_last());
        lemma_run_level(s, steps.drop_last());
        if let Step::Put(piece) = steps.last() {
            assert(before.state.doc.push(piece).drop_last() =~= before.state.doc);
        }
    }
}

} // verus!
