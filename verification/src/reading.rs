//! What can be read off steps whatever the state in which they are taken: the page that they
//! make, whether they can all be taken, and the terms that they ask for.

use crate::ast::Term;
use crate::script::{group_run, run, End, State, Step};
use crate::shape::{all_allowed, group_shape, Kind};
use crate::text::views;
use crate::tsgen_writer::{lemma_page_push, page, typeset, Page};
use vstd::prelude::*;

verus! {

/// The page that the steps make of a page, if all of them are taken.
#[verifier::opaque]
pub open spec fn paged(p: Page, steps: Seq<Step>) -> Page
    decreases steps.len(),
{
    if steps.len() == 0 {
        p
    } else {
        match steps.last() {
            Step::Put(piece) => typeset(paged(p, steps.drop_last()), piece),
            _ => paged(p, steps.drop_last()),
        }
    }
}

/// No step leaves the page as it is.
pub broadcast proof fn lemma_paged_nothing(p: Page)
    ensures
        #[trigger] paged(p, Seq::<Step>::empty()) == p,
{
    reveal(paged);
}

/// The last step only counts if it writes a piece.
pub broadcast proof fn lemma_paged_push(p: Page, steps: Seq<Step>, step: Step)
    ensures
        #[trigger] paged(p, steps.push(step)) == match step {
            Step::Put(piece) => typeset(paged(p, steps), piece),
            _ => paged(p, steps),
        },
{
    reveal(paged);
    assert(steps.push(step).drop_last() =~= steps);
}

/// Steps make a page in two goes.
pub broadcast proof fn lemma_paged_concat(p: Page, a: Seq<Step>, b: Seq<Step>)
    ensures
        #[trigger] paged(p, a + b) == paged(paged(p, a), b),
    decreases b.len(),
{
    reveal(paged);
    if b.len() == 0 {
        assert(a + b =~= a);
    } else {
        lemma_paged_concat(p, a, b.drop_last());
        assert((a + b).drop_last() =~= a + b.drop_last());
    }
}

/// A page with more lines below, and nothing behind them.
pub open spec fn below(p: Page, lines: Seq<Seq<char>>) -> Page {
    Page { lines: p.lines + lines, cur: Seq::empty(), level: p.level }
}

/// The parts from one on, put together.
pub proof fn lemma_flatten_skip<A>(parts: Seq<Seq<A>>, i: int)
    requires
        0 <= i <= parts.len(),
    ensures
        i < parts.len() ==> parts.skip(i).flatten() == parts[i] + parts.skip(i + 1).flatten(),
        i == parts.len() ==> parts.skip(i).flatten() == Seq::<A>::empty(),
{
    if i < parts.len() {
        assert(parts.skip(i).drop_first() =~= parts.skip(i + 1));
    }
}

pub broadcast group group_paged {
    lemma_paged_nothing,
    lemma_paged_push,
    lemma_paged_concat,
}

/// A run that is done leaves the page that its steps make.
pub proof fn lemma_paged_run(s: State, steps: Seq<Step>)
    requires
        run(s, steps).end is Done,
    ensures
        page(run(s, steps).state.doc) == paged(page(s.doc), steps),
    decreases steps.len(),
{
    broadcast use {group_paged, group_run, lemma_page_push};

    if steps.len() == 0 {
        assert(steps =~= Seq::empty());
    } else {
        assert(steps.drop_last().push(steps.last()) =~= steps);
        lemma_paged_run(s, steps.drop_last());
    }
}

/// Whether a step can be taken whatever the state, but for the shows of a module.
pub open spec fn can_be_taken(step: Step) -> bool {
    match step {
        Step::Ask(term) => term.text is Ok,
        Step::Verdict(end) => end is Done,
        _ => true,
    }
}

/// Whether all of the steps can be taken, but for the shows of a module.
#[verifier::opaque]
pub open spec fn passes(steps: Seq<Step>) -> bool {
    forall|i: int| 0 <= i < steps.len() ==> can_be_taken(#[trigger] steps[i])
}

/// No step can be taken.
pub broadcast proof fn lemma_passes_nothing()
    ensures
        #[trigger] passes(Seq::<Step>::empty()),
{
    reveal(passes);
}

/// The last step counts like those before it.
pub broadcast proof fn lemma_passes_push(steps: Seq<Step>, step: Step)
    ensures
        #[trigger] passes(steps.push(step)) == (passes(steps) && can_be_taken(step)),
{
    reveal(passes);
    let longer = steps.push(step);
    if passes(longer) {
        assert forall|i: int| 0 <= i < steps.len() implies can_be_taken(#[trigger] steps[i]) by {
            assert(longer[i] == steps[i]);
        }
        assert(longer[steps.len() as int] == step);
    }
}

/// Steps can be taken if they can in two goes.
pub broadcast proof fn lemma_passes_concat(a: Seq<Step>, b: Seq<Step>)
    ensures
        #[trigger] passes(a + b) == (passes(a) && passes(b)),
{
    reveal(passes);
    let both = a + b;
    if passes(both) {
        assert forall|i: int| 0 <= i < a.len() implies can_be_taken(#[trigger] a[i]) by {
            assert(both[i] == a[i]);
        }
        assert forall|i: int| 0 <= i < b.len() implies can_be_taken(#[trigger] b[i]) by {
            assert(both[a.len() + i] == b[i]);
        }
    }
}

pub broadcast group group_passes {
    lemma_passes_nothing,
    lemma_passes_push,
    lemma_passes_concat,
}

/// A run that is done has taken all of its steps.
pub proof fn lemma_done_passes(s: State, steps: Seq<Step>)
    requires
        run(s, steps).end is Done,
    ensures
        passes(steps),
    decreases steps.len(),
{
    broadcast use {group_passes, group_run};

    if steps.len() == 0 {
        assert(steps =~= Seq::empty());
    } else {
        assert(steps.drop_last().push(steps.last()) =~= steps);
        lemma_done_passes(s, steps.drop_last());
    }
}

/// Steps of a construct that can be taken are.
pub proof fn lemma_passes_done(kind: Kind, s: State, steps: Seq<Step>)
    requires
        passes(steps),
        all_allowed(kind, steps),
    ensures
        run(s, steps).end is Done,
    decreases steps.len(),
{
    broadcast use {group_passes, group_run, group_shape};

    if steps.len() == 0 {
        assert(steps =~= Seq::empty());
    } else {
        assert(steps.drop_last().push(steps.last()) =~= steps);
        lemma_passes_done(kind, s, steps.drop_last());
    }
}

/// Whether the steps ask for a term.
#[verifier::opaque]
pub open spec fn asked(steps: Seq<Step>, term: Term) -> bool {
    exists|i: int| 0 <= i < steps.len() && #[trigger] steps[i] == Step::Ask(term)
}

/// No step asks for nothing.
pub broadcast proof fn lemma_asked_nothing(term: Term)
    ensures
        !#[trigger] asked(Seq::<Step>::empty(), term),
{
    reveal(asked);
}

/// The last step may ask for a term.
pub broadcast proof fn lemma_asked_push(steps: Seq<Step>, step: Step, term: Term)
    ensures
        #[trigger] asked(steps.push(step), term) == (asked(steps, term) || step == Step::Ask(
            term,
        )),
{
    reveal(asked);
    let longer = steps.push(step);
    if asked(steps, term) {
        let i = choose|i: int| 0 <= i < steps.len() && #[trigger] steps[i] == Step::Ask(term);
        assert(longer[i] == Step::Ask(term));
    }
    if step == Step::Ask(term) {
        assert(longer[steps.len() as int] == Step::Ask(term));
    }
    if asked(longer, term) {
        let i = choose|i: int| 0 <= i < longer.len() && #[trigger] longer[i] == Step::Ask(term);
        if i < steps.len() {
            assert(steps[i] == Step::Ask(term));
        }
    }
}

/// Steps ask for what they ask for in two goes.
pub broadcast proof fn lemma_asked_concat(a: Seq<Step>, b: Seq<Step>, term: Term)
    ensures
        #[trigger] asked(a + b, term) == (asked(a, term) || asked(b, term)),
    decreases b.len(),
{
    if b.len() == 0 {
        assert(a + b =~= a);
        assert(b =~= Seq::empty());
        lemma_asked_nothing(term);
    } else {
        lemma_asked_concat(a, b.drop_last(), term);
        assert((a + b) =~= (a + b.drop_last()).push(b.last()));
        assert(b =~= b.drop_last().push(b.last()));
        lemma_asked_push(a + b.drop_last(), b.last(), term);
        lemma_asked_push(b.drop_last(), b.last(), term);
    }
}

pub broadcast group group_asked {
    lemma_asked_nothing,
    lemma_asked_push,
    lemma_asked_concat,
}

/// Once a run is done, the module imports what a term needs that was asked for.
pub proof fn lemma_asked_imports(s: State, steps: Seq<Step>, term: Term)
    requires
        run(s, steps).end is Done,
        asked(steps, term),
    ensures
        forall|k: int|
            0 <= k < term.package_imports@.len() ==> run(
                s,
                steps,
            ).state.ctx.package_imports.contains((#[trigger] term.package_imports@[k])@),
        forall|k: int|
            0 <= k < term.module_imports@.len() ==> run(
                s,
                steps,
            ).state.ctx.same_package_imports.contains((#[trigger] term.module_imports@[k])@),
    decreases steps.len(),
{
    broadcast use {group_asked, group_run};

    if steps.len() == 0 {
        assert(steps =~= Seq::empty());
    } else {
        let before = steps.drop_last();
        assert(before.push(steps.last()) =~= steps);
        if steps.last() == Step::Ask(term) {
            assert forall|k: int| 0 <= k < term.package_imports@.len() implies run(
                s,
                steps,
            ).state.ctx.package_imports.contains((#[trigger] term.package_imports@[k])@) by {
                assert(views(term.package_imports@)[k] == term.package_imports@[k]@);
                assert(views(term.package_imports@).to_set().contains(
                    term.package_imports@[k]@,
                ));
            }
            assert forall|k: int| 0 <= k < term.module_imports@.len() implies run(
                s,
                steps,
            ).state.ctx.same_package_imports.contains((#[trigger] term.module_imports@[k])@) by {
                assert(views(term.module_imports@)[k] == term.module_imports@[k]@);
                assert(views(term.module_imports@).to_set().contains(term.module_imports@[k]@));
            }
        } else {
            lemma_asked_imports(s, before, term);
        }
    }
}

/// Whether a term needs a package.
pub open spec fn needs_package(term: Term, name: Seq<char>) -> bool {
    exists|k: int|
        0 <= k < term.package_imports@.len() && (#[trigger] term.package_imports@[k])@ == name
}

/// Whether a term needs a module of the same package.
pub open spec fn needs_module(term: Term, name: Seq<char>) -> bool {
    exists|k: int|
        0 <= k < term.module_imports@.len() && (#[trigger] term.module_imports@[k])@ == name
}

/// What is imported after a run was imported before, or is needed by a term that was asked
/// for.
pub proof fn lemma_imports_asked(s: State, steps: Seq<Step>, name: Seq<char>)
    ensures
        run(s, steps).state.ctx.package_imports.contains(name)
            ==> s.ctx.package_imports.contains(name) || exists|term: Term| #[trigger]
            asked(steps, term) && needs_package(term, name),
        run(s, steps).state.ctx.same_package_imports.contains(name)
            ==> s.ctx.same_package_imports.contains(name) || exists|term: Term| #[trigger]
            asked(steps, term) && needs_module(term, name),
    decreases steps.len(),
{
    broadcast use {group_asked, group_run};

    if steps.len() == 0 {
        assert(steps =~= Seq::empty());
    } else {
        let before = steps.drop_last();
        assert(before.push(steps.last()) =~= steps);
        lemma_imports_asked(s, before, name);
        assert(forall|term: Term| #[trigger] asked(before, term) ==> asked(steps, term));
        if let Step::Ask(term) = steps.last() {
            assert(asked(steps, term));
            if views(term.package_imports@).to_set().contains(name) {
                let k = choose|k: int|
                    0 <= k < views(term.package_imports@).len() && views(term.package_imports@)[k]
                        == name;
                assert(term.package_imports@[k]@ == name);
                assert(needs_package(term, name));
            }
            if views(term.module_imports@).to_set().contains(name) {
                let k = choose|k: int|
                    0 <= k < views(term.module_imports@).len() && views(term.module_imports@)[k]
                        == name;
                assert(term.module_imports@[k]@ == name);
                assert(needs_module(term, name));
            }
        }
    }
}

/// A run that is done imports what was imported before and what the terms need that were asked
/// for.
pub proof fn lemma_imports_exactly(s: State, steps: Seq<Step>, name: Seq<char>)
    requires
        run(s, steps).end is Done,
    ensures
        run(s, steps).state.ctx.package_imports.contains(name)
            <==> s.ctx.package_imports.contains(name) || exists|term: Term| #[trigger]
            asked(steps, term) && needs_package(term, name),
        run(s, steps).state.ctx.same_package_imports.contains(name)
            <==> s.ctx.same_package_imports.contains(name) || exists|term: Term| #[trigger]
            asked(steps, term) && needs_module(term, name),
{
    lemma_imports_asked(s, steps, name);
    lemma_imports_stay(s, steps, name);
    assert forall|term: Term| #[trigger] asked(steps, term) && needs_package(term, name) implies run(
        s,
        steps,
    ).state.ctx.package_imports.contains(name) by {
        lemma_asked_imports(s, steps, term);
    }
    assert forall|term: Term| #[trigger] asked(steps, term) && needs_module(term, name) implies run(
        s,
        steps,
    ).state.ctx.same_package_imports.contains(name) by {
        lemma_asked_imports(s, steps, term);
    }
}

proof fn lemma_imports_stay(s: State, steps: Seq<Step>, name: Seq<char>)
    ensures
        s.ctx.package_imports.contains(name) ==> run(
            s,
            steps,
        ).state.ctx.package_imports.contains(name),
        s.ctx.same_package_imports.contains(name) ==> run(
            s,
            steps,
        ).state.ctx.same_package_imports.contains(name),
    decreases steps.len(),
{
    broadcast use group_run;

    if steps.len() == 0 {
        assert(steps =~= Seq::empty());
    } else {
        assert(steps.drop_last().push(steps.last()) =~= steps);
        lemma_imports_stay(s, steps.drop_last(), name);
    }
}

/// How one step ends, but for the shows of a module.
pub open spec fn step_ending(step: Step) -> End {
    match step {
        Step::Ask(term) => match term.text {
            Ok(_) => End::Done,
            Err(d) => End::Fail(d@),
        },
        Step::Verdict(end) => end,
        _ => End::Done,
    }
}

/// How steps end, but for the shows of a module: as the first that cannot be taken.
#[verifier::opaque]
pub open spec fn ending(steps: Seq<Step>) -> End
    decreases steps.len(),
{
    if steps.len() == 0 {
        End::Done
    } else if ending(steps.drop_last()) is Done {
        step_ending(steps.last())
    } else {
        ending(steps.drop_last())
    }
}

/// No steps are done.
pub broadcast proof fn lemma_ending_nothing()
    ensures
        #[trigger] ending(Seq::<Step>::empty()) == End::Done,
{
    reveal(ending);
}

/// The last step decides if those before it are done.
pub broadcast proof fn lemma_ending_push(steps: Seq<Step>, step: Step)
    ensures
        #[trigger] ending(steps.push(step)) == (if ending(steps) is Done {
            step_ending(step)
        } else {
            ending(steps)
        }),
{
    reveal(ending);
    assert(steps.push(step).drop_last() =~= steps);
}

/// The second of two goes decides if the first is done.
pub broadcast proof fn lemma_ending_concat(a: Seq<Step>, b: Seq<Step>)
    ensures
        #[trigger] ending(a + b) == (if ending(a) is Done {
            ending(b)
        } else {
            ending(a)
        }),
    decreases b.len(),
{
    reveal(ending);
    if b.len() == 0 {
        assert(a + b =~= a);
    } else {
        assert((a + b).drop_last() =~= a + b.drop_last());
        lemma_ending_concat(a, b.drop_last());
    }
}

pub broadcast group group_ending {
    lemma_ending_nothing,
    lemma_ending_push,
    lemma_ending_concat,
}

/// Steps of a construct end like this in every state.
pub proof fn lemma_ending_run(kind: Kind, s: State, steps: Seq<Step>)
    requires
        all_allowed(kind, steps),
    ensures
        run(s, steps).end == ending(steps),
    decreases steps.len(),
{
    broadcast use {group_ending, group_run, group_shape};

    if steps.len() == 0 {
        assert(steps =~= Seq::empty());
    } else {
        assert(steps.drop_last().push(steps.last()) =~= steps);
        lemma_ending_run(kind, s, steps.drop_last());
    }
}

} // verus!
