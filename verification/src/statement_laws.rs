//! What commands, statements and constants look like on the page.

use crate::ast::{
    Block, Command, Command_, Constant, ConstantName, DiagnosticView, Exp, Statement,
    Statement_,
};
use crate::commands::command_steps;
use crate::constants::{constant_steps, lemma_constant_term, rendered_text};
use crate::exports::line_start;
use crate::reading::{group_paged, group_passes, lemma_done_passes, lemma_paged_run, paged};
use crate::script::{group_run, run, End, State};
use crate::statements::{block_steps, empty_block, statement_steps};
use crate::stops::{after_statements, lemma_block_entered};
use crate::text::joined;
use crate::tsgen_writer::{layout, lemma_page_push, margin, page, typeset, Page, Piece};
use crate::types::{constant_term, constant_type, Rendered};
use vstd::prelude::*;

verus! {

/// Lines are indented by two spaces for each level.
pub proof fn law_margin(level: nat)
    ensures
        margin(level).len() == 2 * level,
        forall|i: int| 0 <= i < margin(level).len() ==> #[trigger] margin(level)[i] == ' ',
    decreases level,
{
    reveal_strlit("  ");
    assert("  "@.len() == 2 && "  "@[0] == ' ' && "  "@[1] == ' ');
    if level > 0 {
        let shorter = margin((level - 1) as nat);
        law_margin((level - 1) as nat);
        assert forall|i: int| 0 <= i < margin(level).len() implies #[trigger] margin(level)[i]
            == ' ' by {
            if i < shorter.len() {
                assert(margin(level)[i] == shorter[i]);
            } else {
                assert(margin(level)[i] == "  "@[i - shorter.len()]);
            }
        }
    }
}

/// Texts that are written one behind the other stand behind each other on the line.
pub proof fn law_texts_follow_each_other(p: Page, a: Seq<char>, b: Seq<char>)
    ensures
        typeset(p, Piece::Text(a)) == (Page { cur: line_start(p) + a, ..p }),
        typeset(typeset(p, Piece::Text(a)), Piece::Text(b)) == typeset(p, Piece::Text(a + b)),
        typeset(p, Piece::Break) == (Page {
            lines: p.lines.push(p.cur),
            cur: Seq::empty(),
            level: p.level,
        }),
        typeset(p, Piece::In).level == p.level + 1,
        typeset(p, Piece::Out).level == (if p.level == 0 {
            0
        } else {
            p.level - 1
        }),
        typeset(p, Piece::In).lines == p.lines && typeset(p, Piece::In).cur == p.cur,
        typeset(p, Piece::Out).lines == p.lines && typeset(p, Piece::Out).cur == p.cur,
{
    law_margin(p.level);
    let first = typeset(p, Piece::Text(a));
    if first.cur.len() == 0 {
        assert(margin(p.level) =~= Seq::empty());
        assert(a =~= Seq::empty());
        assert(a + b =~= b);
    }
    assert(line_start(p) + a + b =~= line_start(p) + (a + b));
    assert(typeset(first, Piece::Text(b)).cur =~= typeset(p, Piece::Text(a + b)).cur);
}

/// The text of a page is its lines, with a line feed between each two neighbours.
pub proof fn law_layout(doc: Seq<Piece>)
    ensures
        layout(doc) == joined(page(doc).lines + seq![page(doc).cur], "\n"@),
        page(Seq::<Piece>::empty()) == (Page {
            lines: Seq::empty(),
            cur: Seq::empty(),
            level: 0,
        }),
        forall|piece: Piece| #[trigger] page(doc.push(piece)) == typeset(page(doc), piece),
{
    broadcast use lemma_page_push;

    assert(page(doc).lines.push(page(doc).cur) =~= page(doc).lines + seq![page(doc).cur]);
}

/// Joining puts the separator between each two neighbours of a list and nowhere else.
pub proof fn law_joined(list: Seq<Seq<char>>, last: Seq<char>, sep: Seq<char>)
    ensures
        joined(Seq::<Seq<char>>::empty(), sep) == Seq::<char>::empty(),
        joined(seq![last], sep) == last,
        list.len() > 0 ==> joined(list.push(last), sep) == joined(list, sep) + sep + last,
{
    assert(list.push(last).drop_last() =~= list);
}

/// The line that a command adds, if it adds one, and nothing else.
pub open spec fn command_line(cmd: Command) -> Option<Seq<char>> {
    match cmd.value {
        Command_::Assign(lhs, rhs) => if lhs.binds_nothing {
            Some(rhs.ts.shown() + ";"@)
        } else {
            let unpacks = lhs.lvalues@.len() == 1 && lhs.lvalues@[0].value is Unpack;
            Some(
                (if unpacks {
                    "let "@
                } else {
                    Seq::empty()
                }) + lhs.ts.shown() + " = "@ + rhs.ts.shown() + ";"@,
            )
        },
        Command_::Mutate(lhs, rhs) => if lhs.exp.value is Borrow {
            Some(lhs.ts.shown() + " = "@ + rhs.ts.shown() + ";"@)
        } else {
            Some("$.set("@ + lhs.ts.shown() + ", "@ + rhs.ts.shown() + ");"@)
        },
        Command_::Abort(e) => Some("throw $.abortCode("@ + e.ts.shown() + ");"@),
        Command_::Return { exp, .. } => if exp.exp.value is Unit {
            Some("return;"@)
        } else {
            Some("return "@ + exp.ts.shown() + ";"@)
        },
        Command_::Break => Some("break;"@),
        Command_::Continue => Some("continue;"@),
        Command_::IgnoreAndPop { exp, .. } => if exp.exp.value is Unit {
            None
        } else {
            Some(exp.ts.shown() + ";"@)
        },
        _ => None,
    }
}

/// A command that can be printed adds one line, behind what stands on the current line; only a
/// unit value that is dropped adds none.
pub proof fn law_command_on_the_page(cmd: Command, s: State)
    requires
        run(s, command_steps(cmd)).end is Done,
    ensures
        page(run(s, command_steps(cmd)).state.doc) == match command_line(cmd) {
            Some(text) => Page {
                lines: page(s.doc).lines.push(line_start(page(s.doc)) + text),
                cur: Seq::empty(),
                level: page(s.doc).level,
            },
            None => page(s.doc),
        },
{
    broadcast use {group_paged, group_passes};

    let p = page(s.doc);
    lemma_paged_run(s, command_steps(cmd));
    lemma_done_passes(s, command_steps(cmd));
    if let Command_::Assign(lhs, rhs) = cmd.value {
        if !lhs.binds_nothing {
            let (l, e, r) = (lhs.ts.shown(), " = "@, rhs.ts.shown());
            if lhs.lvalues@.len() == 1 && lhs.lvalues@[0].value is Unpack {
                law_texts_follow_each_other(p, "let "@, l);
                law_texts_follow_each_other(p, "let "@ + l, e);
                law_texts_follow_each_other(p, "let "@ + l + e, r);
                law_texts_follow_each_other(p, "let "@ + l + e + r, ";"@);
            } else {
                assert(Seq::<char>::empty() + l =~= l);
                law_texts_follow_each_other(p, l, e);
                law_texts_follow_each_other(p, l + e, r);
                law_texts_follow_each_other(p, l + e + r, ";"@);
            }
        }
    }
}

/// A command can be printed if and only if it is no jump and no mutation through a dereference,
/// and the texts of its parts that are printed are known. A jump, and a mutation through a
/// dereference, are reported as such.
pub proof fn law_command_can_be_printed(cmd: Command, s: State)
    ensures
        run(s, command_steps(cmd)).end is Done <==> match cmd.value {
            Command_::Assign(lhs, rhs) => rhs.ts.text is Ok && (lhs.binds_nothing || lhs.ts.text
                is Ok),
            Command_::Mutate(lhs, rhs) => !(lhs.exp.value is Dereference) && lhs.ts.text is Ok
                && rhs.ts.text is Ok,
            Command_::Abort(e) => e.ts.text is Ok,
            Command_::Return { exp, .. } => exp.exp.value is Unit || exp.ts.text is Ok,
            Command_::IgnoreAndPop { exp, .. } => exp.exp.value is Unit || exp.ts.text is Ok,
            Command_::Break => true,
            Command_::Continue => true,
            _ => false,
        },
        cmd.value is Jump || cmd.value is JumpIf ==> run(s, command_steps(cmd)).end == End::Fail(
            DiagnosticView { loc: cmd.loc, message: "Unsupported Command (Jump)"@ },
        ),
        cmd.value matches Command_::Mutate(lhs, _) ==> (lhs.exp.value is Dereference ==> run(
            s,
            command_steps(cmd),
        ).end == End::Fail(
            DiagnosticView {
                loc: lhs.exp.loc,
                message: "Dereference in Mutate not implemented yet"@,
            },
        )),
{
    broadcast use group_run;

}

/// If a part of a command has no text, the command fails as that part does: the left-hand side
/// first, where it is printed.
pub proof fn law_command_failures(cmd: Command, s: State)
    ensures
        ({
            let end = run(s, command_steps(cmd)).end;
            match cmd.value {
                Command_::Assign(lhs, rhs) => {
                    &&& !lhs.binds_nothing && lhs.ts.text is Err ==> end == End::Fail(
                        lhs.ts.text->Err_0@,
                    )
                    &&& (lhs.binds_nothing || lhs.ts.text is Ok) && rhs.ts.text is Err ==> end
                        == End::Fail(rhs.ts.text->Err_0@)
                },
                Command_::Mutate(lhs, rhs) => {
                    &&& !(lhs.exp.value is Dereference) && lhs.ts.text is Err ==> end == End::Fail(
                        lhs.ts.text->Err_0@,
                    )
                    &&& !(lhs.exp.value is Dereference) && lhs.ts.text is Ok && rhs.ts.text is Err
                        ==> end == End::Fail(rhs.ts.text->Err_0@)
                },
                Command_::Abort(e) => e.ts.text is Err ==> end == End::Fail(e.ts.text->Err_0@),
                Command_::Return { exp, .. } => !(exp.exp.value is Unit) && exp.ts.text is Err
                    ==> end == End::Fail(exp.ts.text->Err_0@),
                Command_::IgnoreAndPop { exp, .. } => !(exp.exp.value is Unit) && exp.ts.text is Err
                    ==> end == End::Fail(exp.ts.text->Err_0@),
                _ => true,
            }
        }),
{
    broadcast use group_run;

}

/// A block that does nothing has no statement, or just one that drops a unit value.
pub proof fn law_empty_blocks(block: Seq<Statement>)
    ensures
        block.len() == 0 ==> empty_block(block),
        block.len() == 1 ==> (empty_block(block) <==> (
        block[0].value matches Statement_::Command(cmd) && (
        cmd.value matches Command_::IgnoreAndPop { exp, .. } && exp.exp.value is Unit))),
        block.len() > 1 ==> !empty_block(block),
{
}

/// A conditional prints its condition and the branch for it, and the other branch behind
/// `else` if that has a statement. Where the first branch does nothing, it prints the negated
/// condition and the other branch alone. It fails as its condition does.
pub proof fn law_conditional(
    stmt: Statement,
    cond: Exp,
    if_block: Block,
    else_block: Block,
    s: State,
)
    requires
        stmt.value == (Statement_::IfElse { cond, if_block, else_block }),
    ensures
        ({
            let o = run(s, statement_steps(stmt));
            let imported = s.ctx.import(cond.ts);
            match cond.ts.text {
                Err(d) => o.end == End::Fail(d@) && o.state == (State { ctx: imported, ..s }),
                Ok(c) => if empty_block(if_block@) {
                    o == run(
                        State { doc: s.doc.push(Piece::Text("if (!"@ + c@ + ") "@)), ctx: imported },
                        block_steps(else_block@),
                    )
                } else {
                    let first = run(
                        State { doc: s.doc.push(Piece::Text("if ("@ + c@ + ") "@)), ctx: imported },
                        block_steps(if_block@),
                    );
                    if !(first.end is Done) || else_block@.len() == 0 {
                        o == first
                    } else {
                        o == run(
                            State {
                                doc: first.state.doc.push(Piece::Text("else"@)),
                                ctx: first.state.ctx,
                            },
                            block_steps(else_block@),
                        )
                    }
                },
            }
        }),
{
    broadcast use group_run;

}

/// An endless loop prints its block behind a condition that always holds.
pub proof fn law_endless_loop(stmt: Statement, has_break: bool, block: Block, s: State)
    requires
        stmt.value == (Statement_::Loop { has_break, block }),
    ensures
        run(s, statement_steps(stmt)) == run(
            State { doc: s.doc.push(Piece::Text("while (true) "@)), ctx: s.ctx },
            block_steps(block@),
        ),
{
    broadcast use group_run;

}

/// A loop without statements in front of the test prints its condition and then its block,
/// between braces and further to the right.
pub proof fn law_loop_with_a_condition(stmt: Statement, cond: Exp, block: Block, before: Block, s: State)
    requires
        stmt.value == (Statement_::While { cond: (before, cond), block }),
        before@.len() == 0,
    ensures
        ({
            let o = run(s, statement_steps(stmt));
            let imported = s.ctx.import(cond.ts);
            match cond.ts.text {
                Err(d) => o.end == End::Fail(d@) && o.state == (State { ctx: imported, ..s }),
                Ok(c) => {
                    let body = run(
                        State {
                            doc: s.doc.push(Piece::Text("while ("@ + c@ + ") "@)).push(
                                Piece::Text("{"@),
                            ).push(Piece::Break).push(Piece::In),
                            ctx: imported,
                        },
                        block_steps(block@),
                    );
                    if body.end is Done {
                        &&& o.end is Done
                        &&& o.state.ctx == body.state.ctx
                        &&& o.state.doc == body.state.doc.push(Piece::Out).push(Piece::Break).push(
                            Piece::Text("}"@),
                        )
                    } else {
                        o == body
                    }
                },
            }
        }),
{
    broadcast use group_run;

}

/// A loop with statements in front of the test runs for ever: it prints those statements, a
/// break if the condition does not hold, and its block, between braces.
pub proof fn law_loop_with_statements(stmt: Statement, cond: Exp, block: Block, before: Block, s: State)
    requires
        stmt.value == (Statement_::While { cond: (before, cond), block }),
        before@.len() > 0,
    ensures
        ({
            let o = run(s, statement_steps(stmt));
            let first = run(
                State {
                    doc: s.doc.push(Piece::Text("while ("@ + "true"@ + ") "@)).push(
                        Piece::Text("{"@),
                    ).push(Piece::Break).push(Piece::In),
                    ctx: s.ctx,
                },
                block_steps(before@),
            );
            let imported = first.state.ctx.import(cond.ts);
            if !(first.end is Done) {
                o == first
            } else {
                match cond.ts.text {
                    Err(d) => o.end == End::Fail(d@) && o.state == (State {
                        ctx: imported,
                        ..first.state
                    }),
                    Ok(c) => {
                        let body = run(
                            State {
                                doc: first.state.doc.push(
                                    Piece::Text("if (!("@ + c@ + ")) break;"@),
                                ).push(Piece::Break),
                                ctx: imported,
                            },
                            block_steps(block@),
                        );
                        if body.end is Done {
                            &&& o.end is Done
                            &&& o.state.ctx == body.state.ctx
                            &&& o.state.doc == body.state.doc.push(Piece::Out).push(
                                Piece::Break,
                            ).push(Piece::Text("}"@))
                        } else {
                            o == body
                        }
                    },
                }
            }
        }),
{
    broadcast use group_run;

}

/// A constant whose block only returns an expression is that expression, on one line.
pub proof fn law_simple_constant(
    name: ConstantName,
    cdef: Constant,
    cmd: Command,
    exp: Exp,
    from_user: bool,
    s: State,
)
    requires
        cdef.value@.len() == 1,
        cdef.value@[0].value == Statement_::Command(cmd),
        cmd.value == (Command_::Return { from_user, exp }),
        !(constant_type(cdef.signature) is Stuck),
    ensures
        ({
            let o = run(s, constant_steps(name, cdef));
            &&& o.end is Done <==> constant_type(cdef.signature) is Text && exp.ts.text is Ok
            &&& constant_type(cdef.signature) matches Rendered::Fail(d) ==> o.end == End::Fail(d)
            &&& constant_type(cdef.signature) is Text ==> (exp.ts.text matches Err(d) ==> o.end
                == End::Fail(d@))
            &&& o.end is Done ==> page(o.state.doc) == (Page {
                lines: page(s.doc).lines.push(
                    line_start(page(s.doc)) + ("export const "@ + name.0.ts@ + " : "@
                        + rendered_text(constant_type(cdef.signature)) + " = "@ + exp.ts.shown()
                        + ";"@),
                ),
                cur: Seq::empty(),
                level: page(s.doc).level,
            })
        }),
{
    broadcast use group_run;

    let steps = constant_steps(name, cdef);
    lemma_constant_term(cdef.signature);
    let p = page(s.doc);
    let start = "export const "@ + name.0.ts@ + " : "@ + rendered_text(
        constant_type(cdef.signature),
    ) + " = "@;
    if run(s, steps).end is Done {
        lemma_paged_run(s, steps);
        law_texts_follow_each_other(p, start, exp.ts.shown());
        law_texts_follow_each_other(p, start + exp.ts.shown(), ";"@);
        assert(paged(p, steps) == typeset(
            typeset(typeset(typeset(p, Piece::Text(start)), Piece::Text(exp.ts.shown())),
                Piece::Text(";"@)),
            Piece::Break,
        )) by {
            broadcast use group_paged;

        }
    }
}

/// Any other constant is a call of its block: the declaration, the block and the call.
pub proof fn law_constant_with_a_block(name: ConstantName, cdef: Constant, s: State)
    requires
        !(cdef.value@.len() == 1 && (cdef.value@[0].value matches Statement_::Command(cmd)
            && cmd.value is Return)),
        !(constant_type(cdef.signature) is Stuck),
    ensures
        ({
            let o = run(s, constant_steps(name, cdef));
            let imported = s.ctx.import(constant_term(cdef.signature));
            match constant_type(cdef.signature) {
                Rendered::Fail(d) => o.end == End::Fail(d) && o.state.doc == s.doc,
                Rendered::Text(ty) => {
                    let body = run(
                        State {
                            doc: s.doc.push(
                                Piece::Text(
                                    "export const "@ + name.0.ts@ + " : "@ + ty + " = "@,
                                ),
                            ).push(Piece::Text("( () => "@)),
                            ctx: imported,
                        },
                        block_steps(cdef.value@),
                    );
                    if body.end is Done {
                        &&& o.end is Done
                        &&& o.state.ctx == body.state.ctx
                        &&& o.state.doc == body.state.doc.push(Piece::Text(")()"@)).push(
                            Piece::Text(";"@),
                        ).push(Piece::Break)
                    } else {
                        o == body
                    }
                },
                Rendered::Stuck => true,
            }
        }),
{
    broadcast use group_run;

    lemma_constant_term(cdef.signature);
}

/// A block can be printed if and only if all of its statements can be, one behind the other, and
/// ends as they do.
pub proof fn law_block_ends_as_its_statements(s: State, block: Seq<Statement>)
    ensures
        run(s, block_steps(block)).end == after_statements(s, block, block.len() as int).end,
{
    lemma_block_entered(s, block);
}

} // verus!
