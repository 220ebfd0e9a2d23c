//! Constants.

use crate::ast::{
    BaseType, BaseType_, Block, Command_, Constant, ConstantName, Statement, Statement_,
    TermResult, TypeName_, WriteResult,
};
use crate::script::{ask, defined, group_run, line, performed, text, verdict, End, Step};
use crate::shared::{rename, Context};
use crate::statements::{block_steps, write_block};
use crate::text::cat5;
use crate::tsgen_writer::TsgenWriter;
use crate::types::{constant_term, constant_type, ts_constant_type, Rendered};
use vstd::prelude::*;

verus! {

impl ConstantName {
    pub fn term(&self, _c: &mut Context) -> (r: TermResult)
        ensures
            r is Ok,
            r->Ok_0@ == self.0.ts@,
            final(_c)@ == old(_c)@,
    {
        Ok(rename(&self.0))
    }
}

/// The steps of printing the value of a constant: an expression if the block only returns
/// one, and else a call of the block.
pub open spec fn constant_block_steps(block: Seq<Statement>) -> Seq<Step> {
    if block.len() == 1 && (block[0].value matches Statement_::Command(cmd)
        && cmd.value is Return) {
        let exp = block[0].value->Command_0.value->Return_exp;
        ask(exp.ts) + text(exp.ts.shown())
    } else {
        text("( () => "@) + block_steps(block) + text(")()"@)
    }
}

/// Prints the value of a constant.
pub fn write_simplify_constant_block(
    block: &Block,
    w: &mut TsgenWriter,
    c: &mut Context,
) -> (r: WriteResult)
    ensures
        performed(old(w)@, old(c)@, constant_block_steps(block@), final(w)@, final(c)@, r),
{
    broadcast use group_run;

    if block.len() == 1 {
        match &block[0].value {
            Statement_::Command(cmd) => match &cmd.value {
                Command_::Return { from_user: _, exp } => {
                    let t = exp.ts.term(c)?;
                    w.write(t.as_str());
                    return Ok(());
                },
                _ => (),
            },
            _ => (),
        }
    }
    w.write("( () => ");
    write_block(block, w, c)?;
    w.write(")()");
    Ok(())
}

/// The text that rendering a construct came to.
pub open spec fn rendered_text(r: Rendered) -> Seq<char> {
    match r {
        Rendered::Text(s) => s,
        _ => Seq::empty(),
    }
}

/// The type of a constant has a text if the term that it is made of has one, and fails as
/// the term does.
pub proof fn lemma_constant_term(ty: BaseType)
    ensures
        match constant_type(ty) {
            Rendered::Text(_) => constant_term(ty).text is Ok,
            Rendered::Fail(d) => constant_term(ty).text is Err && constant_term(ty).text->Err_0@
                == d,
            Rendered::Stuck => true,
        },
    decreases ty,
{
    match ty.value {
        BaseType_::Apply(_, typename, ty_args) => match typename.value {
            TypeName_::Builtin(builtin) => {
                if builtin.value is Vector && ty_args@.len() > 0 {
                    lemma_constant_term(ty_args@[0]);
                }
            },
            _ => {},
        },
        _ => {},
    }
}

/// The steps of printing a constant.
pub open spec fn constant_steps(name: ConstantName, cdef: Constant) -> Seq<Step> {
    let typename = constant_type(cdef.signature);
    if typename is Stuck {
        verdict(End::Stuck)
    } else {
        ask(constant_term(cdef.signature)) + text(
            "export const "@ + name.0.ts@ + " : "@ + rendered_text(typename) + " = "@,
        ) + constant_block_steps(cdef.value@) + line(";"@)
    }
}

/// Prints a constant.
pub fn write_constant(
    name: &ConstantName,
    cdef: &Constant,
    w: &mut TsgenWriter,
    c: &mut Context,
) -> (r: WriteResult)
    requires
        defined(old(w)@, old(c)@, constant_steps(*name, *cdef)),
    ensures
        performed(old(w)@, old(c)@, constant_steps(*name, *cdef), final(w)@, final(c)@, r),
{
    broadcast use group_run;

    proof {
        lemma_constant_term(cdef.signature);
    }
    let typename = ts_constant_type(&cdef.signature, c)?;
    let name = name.term(c)?;
    w.write(cat5("export const ", name.as_str(), " : ", typename.as_str(), " = ").as_str());
    write_simplify_constant_block(&cdef.value, w, c)?;
    w.writeln(";");
    Ok(())
}

} // verus!
