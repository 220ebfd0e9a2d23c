//! The variables that unpacking declares.

use crate::ast::{Block, Command, Command_, Field, LValue, LValue_, Statement, Statement_};
use crate::string_set::StringSet;
use vstd::prelude::*;

verus! {

/// The variables that a left-hand side declares: those into which it unpacks a struct.
pub open spec fn declared_in_lvalue(lvalue: LValue) -> Set<Seq<char>>
    decreases lvalue, 0int,
{
    match lvalue.value {
        LValue_::Unpack(_, _, fields) => declared_in_fields(fields@, 0),
        _ => Set::empty(),
    }
}

/// The variables that the fields of an unpacked struct from the one at `i` on declare.
pub open spec fn declared_in_fields(fields: Seq<(Field, LValue)>, i: int) -> Set<Seq<char>>
    decreases fields, fields.len() - i,
{
    if 0 <= i < fields.len() {
        (match fields[i].1.value {
            LValue_::Var(var, _) => Set::empty().insert(var.0.value@),
            _ => declared_in_lvalue(fields[i].1),
        }).union(declared_in_fields(fields, i + 1))
    } else {
        Set::empty()
    }
}

/// The variables that left-hand sides from the one at `i` on declare.
pub open spec fn declared_in_lvalues(lvalues: Seq<LValue>, i: int) -> Set<Seq<char>>
    decreases lvalues.len() - i,
{
    if 0 <= i < lvalues.len() {
        declared_in_lvalue(lvalues[i]).union(declared_in_lvalues(lvalues, i + 1))
    } else {
        Set::empty()
    }
}

/// The variables that a command declares.
pub open spec fn declared_in_cmd(cmd: Command) -> Set<Seq<char>> {
    match cmd.value {
        Command_::Assign(lhs, _) => declared_in_lvalues(lhs.lvalues@, 0),
        _ => Set::empty(),
    }
}

/// The variables that a statement declares, in whichever of its blocks.
pub open spec fn declared_in_stmt(stmt: Statement) -> Set<Seq<char>>
    decreases stmt, 0int,
{
    match stmt.value {
        Statement_::Command(cmd) => declared_in_cmd(cmd),
        Statement_::IfElse { cond: _, if_block, else_block } => declared_in_stmts(
            if_block@,
            0,
        ).union(declared_in_stmts(else_block@, 0)),
        Statement_::While { cond, block } => declared_in_stmts(block@, 0).union(
            declared_in_stmts(cond.0@, 0),
        ),
        Statement_::Loop { block, .. } => declared_in_stmts(block@, 0),
    }
}

/// The variables that the statements of a block from the one at `i` on declare.
pub open spec fn declared_in_stmts(block: Seq<Statement>, i: int) -> Set<Seq<char>>
    decreases block, block.len() - i,
{
    if 0 <= i < block.len() {
        declared_in_stmt(block[i]).union(declared_in_stmts(block, i + 1))
    } else {
        Set::empty()
    }
}

pub fn identify_declared_vars_in_lvalue(lvalue: &LValue, declared: &mut StringSet)
    ensures
        final(declared)@ == old(declared)@.union(declared_in_lvalue(*lvalue)),
    decreases lvalue,
{
    match &lvalue.value {
        LValue_::Ignore => {
            assert(declared@ =~= declared@.union(Set::empty()));
        },
        LValue_::Var(_, _) => {
            assert(declared@ =~= declared@.union(Set::empty()));
        },
        LValue_::Unpack(_, _, fields) => {
            let mut i: usize = 0;
            while i < fields.len()
                invariant
                    i <= fields.len(),
                    decreases_to!(lvalue => fields@),
                    old(declared)@.union(declared_in_fields(fields@, 0)) == declared@.union(
                        declared_in_fields(fields@, i as int),
                    ),
                decreases fields.len() - i,
            {
                let ghost before = declared@;
                let lvalue = &fields[i].1;
                if let LValue_::Var(var, _) = &lvalue.value {
                    declared.insert(var.0.value.as_str());
                } else {
                    identify_declared_vars_in_lvalue(lvalue, declared);
                }
                proof {
                    assert(before.union(declared_in_fields(fields@, i as int)) =~= declared@.union(
                        declared_in_fields(fields@, i + 1),
                    ));
                }
                i = i + 1;
            }
            assert(declared@ =~= declared@.union(Set::empty()));
        },
    }
}

pub fn identify_declared_vars_in_cmd(cmd: &Command, declared: &mut StringSet)
    ensures
        final(declared)@ == old(declared)@.union(declared_in_cmd(*cmd)),
{
    match &cmd.value {
        Command_::Assign(lhs, _) => {
            let lvalues = &lhs.lvalues;
            let mut i: usize = 0;
            while i < lvalues.len()
                invariant
                    i <= lvalues.len(),
                    old(declared)@.union(declared_in_lvalues(lvalues@, 0)) == declared@.union(
                        declared_in_lvalues(lvalues@, i as int),
                    ),
                decreases lvalues.len() - i,
            {
                let ghost before = declared@;
                identify_declared_vars_in_lvalue(&lvalues[i], declared);
                proof {
                    assert(before.union(declared_in_lvalues(lvalues@, i as int))
                        =~= declared@.union(declared_in_lvalues(lvalues@, i + 1)));
                }
                i = i + 1;
            }
            assert(declared@ =~= declared@.union(Set::empty()));
        },
        _ => {
            assert(declared@ =~= declared@.union(Set::empty()));
        },
    }
}

pub fn identify_declared_vars_in_stmt(stmt: &Statement, declared: &mut StringSet)
    ensures
        final(declared)@ == old(declared)@.union(declared_in_stmt(*stmt)),
    decreases stmt,
{
    match &stmt.value {
        Statement_::Command(cmd) => identify_declared_vars_in_cmd(cmd, declared),
        Statement_::IfElse { cond: _, if_block, else_block } => {
            identify_declared_vars_in_block(if_block, declared);
            identify_declared_vars_in_block(else_block, declared);
        },
        Statement_::While { cond, block } => {
            identify_declared_vars_in_block(block, declared);
            identify_declared_vars_in_block(&cond.0, declared);
        },
        Statement_::Loop { has_break: _, block } => identify_declared_vars_in_block(
            block,
            declared,
        ),
    }
    assert(declared@ =~= old(declared)@.union(declared_in_stmt(*stmt)));
}

pub fn identify_declared_vars_in_block(block: &Block, undeclared: &mut StringSet)
    ensures
        final(undeclared)@ == old(undeclared)@.union(declared_in_stmts(block@, 0)),
    decreases block@,
{
    let mut i: usize = 0;
    while i < block.len()
        invariant
            i <= block.len(),
            old(undeclared)@.union(declared_in_stmts(block@, 0)) == undeclared@.union(
                declared_in_stmts(block@, i as int),
            ),
        decreases block.len() - i,
    {
        let ghost before = undeclared@;
        identify_declared_vars_in_stmt(&block[i], undeclared);
        proof {
            assert(before.union(declared_in_stmts(block@, i as int)) =~= undeclared@.union(
                declared_in_stmts(block@, i + 1),
            ));
        }
        i = i + 1;
    }
    assert(undeclared@ =~= undeclared@.union(Set::empty()));
}

} // verus!
