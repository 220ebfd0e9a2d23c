//! Blocks and statements.

use crate::ast::{Block, Command_, Statement, Statement_, WriteResult};
use crate::commands::{command_steps, is_exp_unit, write_command};
use crate::script::{
    ask, close_short_block, group_run, line, open_short_block, performed, put, run, text, State,
    Step,
};
use crate::shared::Context;
use crate::text::cat3;
use crate::tsgen_writer::{Piece, TsgenWriter};
use vstd::prelude::*;

verus! {

/// Whether a block does nothing: it has no statement, or its only one drops a unit value.
pub open spec fn empty_block(block: Seq<Statement>) -> bool {
    ||| block.len() == 0
    ||| {
        &&& block.len() == 1
        &&& block[0].value matches Statement_::Command(cmd)
        &&& cmd.value matches Command_::IgnoreAndPop { exp, .. }
        &&& exp.exp.value is Unit
    }
}

pub fn is_empty_block(block: &Block) -> (r: bool)
    ensures
        r == empty_block(block@),
{
    if block.len() == 0 {
        return true;
    } else if block.len() == 1 {
        return match &block[0].value {
            Statement_::Command(cmd) => match &cmd.value {
                Command_::IgnoreAndPop { pop_num: _, exp } => is_exp_unit(exp),
                _ => false,
            },
            _ => false,
        };
    }
    false
}

/// The steps of printing a block.
pub open spec fn block_steps(block: Seq<Statement>) -> Seq<Step>
    decreases block, block.len() + 1,
{
    line("{"@) + put(Piece::In) + statements_steps(block, 0) + put(Piece::Out) + line("}"@)
}

/// The steps of printing the statements of a block from the one at `i` on.
pub open spec fn statements_steps(block: Seq<Statement>, i: int) -> Seq<Step>
    decreases block, block.len() - i,
{
    if 0 <= i < block.len() {
        statement_steps(block[i]) + statements_steps(block, i + 1)
    } else {
        seq![]
    }
}

/// The steps of printing a statement.
pub open spec fn statement_steps(stmt: Statement) -> Seq<Step>
    decreases stmt, 0int,
{
    match stmt.value {
        Statement_::Command(cmd) => command_steps(cmd),
        Statement_::IfElse { cond, if_block, else_block } => if !empty_block(if_block@) {
            ask(cond.ts) + text("if ("@ + cond.ts.shown() + ") "@) + block_steps(if_block@) + (
            if else_block@.len() > 0 {
                text("else"@) + block_steps(else_block@)
            } else {
                seq![]
            })
        } else {
            ask(cond.ts) + text("if (!"@ + cond.ts.shown() + ") "@) + block_steps(else_block@)
        },
        Statement_::While { cond, block } => (if cond.0@.len() > 0 {
            text("while ("@ + "true"@ + ") "@) + open_short_block() + block_steps(cond.0@) + ask(
                cond.1.ts,
            ) + line("if (!("@ + cond.1.ts.shown() + ")) break;"@)
        } else {
            ask(cond.1.ts) + text("while ("@ + cond.1.ts.shown() + ") "@) + open_short_block()
        }) + block_steps(block@) + close_short_block(),
        Statement_::Loop { block, .. } => text("while (true) "@) + block_steps(block@),
    }
}

/// Prints a block between braces.
pub fn write_block(block: &Block, w: &mut TsgenWriter, c: &mut Context) -> (r: WriteResult)
    ensures
        performed(old(w)@, old(c)@, block_steps(block@), final(w)@, final(c)@, r),
    decreases block@, 0nat,
{
    broadcast use group_run;

    let ghost s0 = State { doc: w@, ctx: c@ };
    w.writeln("{");
    w.increase_indent();
    let mut i: usize = 0;
    while i < block.len()
        invariant
            i <= block.len(),
            s0 == (State { doc: old(w)@, ctx: old(c)@ }),
            run(s0, block_steps(block@)) == run(
                State { doc: w@, ctx: c@ },
                statements_steps(block@, i as int) + put(Piece::Out) + line("}"@),
            ),
        decreases block.len() - i,
    {
        broadcast use group_run;

        write_statement(&block[i], w, c)?;
        i = i + 1;
    }
    w.decrease_indent();
    w.writeln("}");
    Ok(())
}

/// Prints a statement.
pub fn write_statement(stmt: &Statement, w: &mut TsgenWriter, c: &mut Context) -> (r: WriteResult)
    ensures
        performed(old(w)@, old(c)@, statement_steps(*stmt), final(w)@, final(c)@, r),
    decreases stmt, 1nat,
{
    broadcast use group_run;

    match &stmt.value {
        Statement_::Command(cmd) => write_command(cmd, w, c),
        Statement_::IfElse { .. } => write_if_else(stmt, w, c),
        Statement_::While { .. } => write_while(stmt, w, c),
        Statement_::Loop { has_break: _, block } => {
            w.write("while (true) ");
            write_block(block, w, c)
        },
    }
}

fn write_if_else(stmt: &Statement, w: &mut TsgenWriter, c: &mut Context) -> (r: WriteResult)
    requires
        stmt.value is IfElse,
    ensures
        performed(old(w)@, old(c)@, statement_steps(*stmt), final(w)@, final(c)@, r),
    decreases stmt, 0nat,
{
    broadcast use group_run;

    if let Statement_::IfElse { cond, if_block, else_block } = &stmt.value {
        let empty = is_empty_block(if_block);
        let t = cond.ts.term(c)?;
        if !empty {
            w.write(cat3("if (", t.as_str(), ") ").as_str());
            write_block(if_block, w, c)?;
            if else_block.len() > 0 {
                w.write("else");
                write_block(else_block, w, c)?;
            }
        } else {
            // there is nothing to do if the condition holds
            w.write(cat3("if (!", t.as_str(), ") ").as_str());
            write_block(else_block, w, c)?;
        }
    }
    Ok(())
}

fn write_while(stmt: &Statement, w: &mut TsgenWriter, c: &mut Context) -> (r: WriteResult)
    requires
        stmt.value is While,
    ensures
        performed(old(w)@, old(c)@, statement_steps(*stmt), final(w)@, final(c)@, r),
    decreases stmt, 0nat,
{
    broadcast use group_run;

    if let Statement_::While { cond, block } = &stmt.value {
        let pre_block = &cond.0;
        let cond_exp = &cond.1;
        let has_pre_block = pre_block.len() > 0;
        let test = if has_pre_block {
            "true".to_owned()
        } else {
            cond_exp.ts.term(c)?
        };
        w.write(cat3("while (", test.as_str(), ") ").as_str());
        w.open_short_block();
        if has_pre_block {
            write_block(pre_block, w, c)?;
            let t = cond_exp.ts.term(c)?;
            w.writeln(cat3("if (!(", t.as_str(), ")) break;").as_str());
        }
        write_block(block, w, c)?;
        w.close_short_block();
    }
    Ok(())
}

} // verus!
