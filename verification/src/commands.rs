//! Commands and the expressions in them.

use crate::ast::{Command, Command_, Exp, LValueList, LValue_, UnannotatedExp_, WriteResult};
use crate::script::{ask, fail, group_run, line, performed, text, Step};
use crate::shared::{derr, says, Context};
use crate::text::{cat2, cat3, cat4, cat5};
use crate::tsgen_writer::TsgenWriter;
use vstd::prelude::*;

verus! {

pub fn is_exp_unit(exp: &Exp) -> (r: bool)
    ensures
        r == (exp.exp.value is Unit),
{
    matches!(exp.exp.value, UnannotatedExp_::Unit)
}

/// Whether the left-hand side of an assignment binds nothing.
pub fn is_empty_lvalue_list(lvalues: &LValueList) -> (r: bool)
    ensures
        r == lvalues.binds_nothing,
{
    lvalues.binds_nothing
}

/// The steps of printing a command.
pub open spec fn command_steps(cmd: Command) -> Seq<Step> {
    match cmd.value {
        Command_::Assign(lhs, rhs) => if lhs.binds_nothing {
            ask(rhs.ts) + line(rhs.ts.shown() + ";"@)
        } else {
            (if lhs.lvalues@.len() == 1 && lhs.lvalues@[0].value is Unpack {
                text("let "@)
            } else {
                seq![]
            }) + ask(lhs.ts) + text(lhs.ts.shown()) + text(" = "@) + ask(rhs.ts) + text(rhs.ts.shown())
                + line(";"@)
        },
        Command_::Mutate(lhs, rhs) => match lhs.exp.value {
            UnannotatedExp_::Borrow => ask(lhs.ts) + ask(rhs.ts) + line(
                lhs.ts.shown() + " = "@ + rhs.ts.shown() + ";"@,
            ),
            UnannotatedExp_::Dereference => fail(
                says(lhs.exp.loc, "Dereference in Mutate not implemented yet"@),
            ),
            _ => ask(lhs.ts) + ask(rhs.ts) + line(
                "$.set("@ + lhs.ts.shown() + ", "@ + rhs.ts.shown() + ");"@,
            ),
        },
        Command_::Abort(e) => ask(e.ts) + line(
            "throw $.abortCode("@ + e.ts.shown() + ");"@,
        ),
        Command_::Return { exp, .. } => if exp.exp.value is Unit {
            line("return;"@)
        } else {
            ask(exp.ts) + line("return "@ + exp.ts.shown() + ";"@)
        },
        Command_::Break => line("break;"@),
        Command_::Continue => line("continue;"@),
        Command_::IgnoreAndPop { exp, .. } => if exp.exp.value is Unit {
            seq![]
        } else {
            ask(exp.ts) + line(exp.ts.shown() + ";"@)
        },
        _ => fail(says(cmd.loc, "Unsupported Command (Jump)"@)),
    }
}

/// Prints a command.
pub fn write_command(cmd: &Command, w: &mut TsgenWriter, c: &mut Context) -> (r: WriteResult)
    ensures
        performed(old(w)@, old(c)@, command_steps(*cmd), final(w)@, final(c)@, r),
{
    broadcast use group_run;

    match &cmd.value {
        Command_::Assign(lvalues, rhs) => {
            if is_empty_lvalue_list(lvalues) {
                let e = rhs.ts.term(c)?;
                w.writeln(cat2(e.as_str(), ";").as_str());
            } else {
                if lvalues.lvalues.len() == 1 && matches!(
                    lvalues.lvalues[0].value,
                    LValue_::Unpack(_, _, _),
                ) {
                    w.write("let ");
                }
                let lhs = lvalues.ts.term(c)?;
                w.write(lhs.as_str());
                w.write(" = ");
                let e = rhs.ts.term(c)?;
                w.write(e.as_str());
                w.writeln(";");
            }
        },
        Command_::Mutate(lhs, rhs) => match lhs.exp.value {
            UnannotatedExp_::Borrow => {
                let l = lhs.ts.term(c)?;
                let r = rhs.ts.term(c)?;
                w.writeln(cat4(l.as_str(), " = ", r.as_str(), ";").as_str());
            },
            UnannotatedExp_::Dereference => {
                return Err(derr(lhs.exp.loc, "Dereference in Mutate not implemented yet"));
            },
            _ => {
                let l = lhs.ts.term(c)?;
                let r = rhs.ts.term(c)?;
                w.writeln(cat5("$.set(", l.as_str(), ", ", r.as_str(), ");").as_str());
            },
        },
        Command_::Abort(e) => {
            let t = e.ts.term(c)?;
            w.writeln(cat3("throw $.abortCode(", t.as_str(), ");").as_str());
        },
        Command_::Return { from_user: _, exp } => {
            if is_exp_unit(exp) {
                w.writeln("return;");
            } else {
                let t = exp.ts.term(c)?;
                w.writeln(cat3("return ", t.as_str(), ";").as_str());
            }
        },
        Command_::Break => w.writeln("break;"),
        Command_::Continue => w.writeln("continue;"),
        Command_::IgnoreAndPop { pop_num: _, exp } => {
            if !is_exp_unit(exp) {
                let t = exp.ts.term(c)?;
                w.writeln(cat2(t.as_str(), ";").as_str());
            }
        },
        _ => {
            return Err(derr(cmd.loc, "Unsupported Command (Jump)"));
        },
    }
    Ok(())
}

} // verus!
