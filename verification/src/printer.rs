//! What can be printed.

use crate::ast::{
    Block, Command, Constant, ConstantName, Function, FunctionName, ModuleDefinition,
    ModuleIdent, Statement, StructDefinition, StructName, WriteResult,
};
use crate::commands::{command_steps, write_command};
use crate::constants::{constant_steps, write_constant};
use crate::functions::{function_steps, write_function};
use crate::module::{module_steps, write_module};
use crate::script::{defined, performed, Step};
use crate::shared::{Context, ContextView};
use crate::statements::{block_steps, statement_steps, write_block, write_statement};
use crate::structs::{struct_steps, write_struct};
use crate::tsgen_writer::TsgenWriter;
use vstd::prelude::*;

verus! {

/// A construct that can be printed.
pub trait AstTsPrinter<'a> {
    /// The steps of printing the construct in a context.
    spec fn steps(&self, ctx: ContextView) -> Seq<Step>;

    /// Prints the construct.
    fn write_ts(&self, w: &mut TsgenWriter, c: &mut Context<'a>) -> (r: WriteResult)
        requires
            defined(old(w)@, old(c)@, self.steps(old(c)@)),
        ensures
            performed(old(w)@, old(c)@, self.steps(old(c)@), final(w)@, final(c)@, r),
    ;
}

impl<'a> AstTsPrinter<'a> for (&'a ModuleIdent, &'a ModuleDefinition) {
    open spec fn steps(&self, ctx: ContextView) -> Seq<Step> {
        module_steps(*self.0, *self.1, ctx.config, ctx.current_module)
    }

    fn write_ts(&self, w: &mut TsgenWriter, c: &mut Context<'a>) -> (r: WriteResult) {
        write_module(self.0, self.1, w, c)
    }
}

impl<'a> AstTsPrinter<'a> for (&'a ConstantName, &'a Constant) {
    open spec fn steps(&self, ctx: ContextView) -> Seq<Step> {
        constant_steps(*self.0, *self.1)
    }

    fn write_ts(&self, w: &mut TsgenWriter, c: &mut Context<'a>) -> (r: WriteResult) {
        write_constant(self.0, self.1, w, c)
    }
}

impl<'a> AstTsPrinter<'a> for (&'a StructName, &'a StructDefinition) {
    open spec fn steps(&self, ctx: ContextView) -> Seq<Step> {
        struct_steps(*self.0, *self.1, ctx.current_module)
    }

    fn write_ts(&self, w: &mut TsgenWriter, c: &mut Context<'a>) -> (r: WriteResult) {
        write_struct(self.0, self.1, w, c)
    }
}

impl<'a> AstTsPrinter<'a> for (&'a FunctionName, &'a Function) {
    open spec fn steps(&self, ctx: ContextView) -> Seq<Step> {
        function_steps(*self.0, *self.1, ctx)
    }

    fn write_ts(&self, w: &mut TsgenWriter, c: &mut Context<'a>) -> (r: WriteResult) {
        write_function(self.0, self.1, w, c)
    }
}

impl<'a> AstTsPrinter<'a> for Block {
    open spec fn steps(&self, ctx: ContextView) -> Seq<Step> {
        block_steps(self@)
    }

    fn write_ts(&self, w: &mut TsgenWriter, c: &mut Context<'a>) -> (r: WriteResult) {
        write_block(self, w, c)
    }
}

impl<'a> AstTsPrinter<'a> for Statement {
    open spec fn steps(&self, ctx: ContextView) -> Seq<Step> {
        statement_steps(*self)
    }

    fn write_ts(&self, w: &mut TsgenWriter, c: &mut Context<'a>) -> (r: WriteResult) {
        write_statement(self, w, c)
    }
}

impl<'a> AstTsPrinter<'a> for Command {
    open spec fn steps(&self, ctx: ContextView) -> Seq<Step> {
        command_steps(*self)
    }

    fn write_ts(&self, w: &mut TsgenWriter, c: &mut Context<'a>) -> (r: WriteResult) {
        write_command(self, w, c)
    }
}

} // verus!
