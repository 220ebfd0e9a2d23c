//! What names, sets of names and the parts of a context mean.

use crate::ast::{
    AbilitySet, Ability_, Attribute, Attribute_, BaseType, BaseType_, Command, Command_, Field,
    LValue, LValue_, ModuleIdent, Name, Statement, Statement_, StructField, Term, TypeName_,
};
use crate::ast_to_ts::file_name;
use crate::declared_vars::{
    declared_in_cmd, declared_in_fields, declared_in_lvalue, declared_in_lvalues,
    declared_in_stmt, declared_in_stmts,
};
use crate::reading::{needs_module, needs_package};
use crate::shared::{assigned_string, quoted, same_module, same_name, ContextView};
use crate::struct_directives::{find_field, iter_table_args};
use crate::text::{precedes, views};
use vstd::prelude::*;

verus! {

/// A string precedes another if and only if it is a proper beginning of it or has the smaller
/// character at the first place at which they differ.
pub proof fn law_precedes(a: Seq<char>, b: Seq<char>)
    ensures
        precedes(a, b) <==> exists|k: int|
            {
                &&& 0 <= k <= a.len()
                &&& k <= b.len()
                &&& #[trigger] a.take(k) == b.take(k)
                &&& (k == a.len() && k < b.len()) || (k < a.len() && k < b.len() && a[k] < b[k])
            },
    decreases a.len(),
{
    if b.len() > 0 && a.len() > 0 && a[0] == b[0] {
        let (x, y) = (a.skip(1), b.skip(1));
        law_precedes(x, y);
        if precedes(a, b) {
            let k = choose|k: int|
                {
                    &&& 0 <= k <= x.len()
                    &&& k <= y.len()
                    &&& #[trigger] x.take(k) == y.take(k)
                    &&& (k == x.len() && k < y.len()) || (k < x.len() && k < y.len() && x[k]
                        < y[k])
                };
            assert(a.take(k + 1) =~= seq![a[0]] + x.take(k));
            assert(b.take(k + 1) =~= seq![b[0]] + y.take(k));
        }
        if exists|k: int|
            {
                &&& 0 <= k <= a.len()
                &&& k <= b.len()
                &&& #[trigger] a.take(k) == b.take(k)
                &&& (k == a.len() && k < b.len()) || (k < a.len() && k < b.len() && a[k] < b[k])
            } {
            let k = choose|k: int|
                {
                    &&& 0 <= k <= a.len()
                    &&& k <= b.len()
                    &&& #[trigger] a.take(k) == b.take(k)
                    &&& (k == a.len() && k < b.len()) || (k < a.len() && k < b.len() && a[k]
                        < b[k])
                };
            assert(k > 0);
            assert(x.take(k - 1) =~= a.take(k).skip(1));
            assert(y.take(k - 1) =~= b.take(k).skip(1));
        }
    } else {
        if precedes(a, b) {
            assert(a.take(0) =~= b.take(0));
        }
        if exists|k: int|
            {
                &&& 0 <= k <= a.len()
                &&& k <= b.len()
                &&& #[trigger] a.take(k) == b.take(k)
                &&& (k == a.len() && k < b.len()) || (k < a.len() && k < b.len() && a[k] < b[k])
            } {
            let k = choose|k: int|
                {
                    &&& 0 <= k <= a.len()
                    &&& k <= b.len()
                    &&& #[trigger] a.take(k) == b.take(k)
                    &&& (k == a.len() && k < b.len()) || (k < a.len() && k < b.len() && a[k]
                        < b[k])
                };
            if k > 0 {
                assert(a.take(k)[0] == b.take(k)[0]);
            }
        }
    }
}

/// Names are the same if and only if the identifiers are, and modules if and only if the
/// addresses and the identifiers are; where they stand does not matter.
pub proof fn law_same_names(a: Name, b: Name, x: ModuleIdent, y: ModuleIdent)
    ensures
        same_name(a, b) <==> a.value@ == b.value@,
        same_module(x, y) <==> x.value.address.hex@ == y.value.address.hex@
            && x.value.module.0.value@ == y.value.module.0.value@,
{
}

/// A text in quotes is one character longer on either side, and that is a double quote.
pub proof fn law_quoted(s: Seq<char>)
    ensures
        quoted(s) == Seq::empty().push('"') + s + Seq::empty().push('"'),
{
    reveal_strlit("\"");
    assert("\""@ =~= Seq::empty().push('"'));
}

/// A file is named by the package and the module.
pub proof fn law_file_name(mident: ModuleIdent)
    ensures
        file_name(mident) == mident.value.address.name@ + "/"@ + mident.value.module.0.value@
            + ".ts"@,
{
}

/// An attribute gives a description if and only if it is assigned a byte string, and then that.
pub proof fn law_assigned_strings(attr: Attribute)
    ensures
        match attr.value {
            Attribute_::Assigned(_, Some(s)) => assigned_string(attr) == Some(s),
            _ => assigned_string(attr) is None,
        },
{
}

/// An ability is in a set if and only if the set has it.
pub proof fn law_abilities(set: AbilitySet)
    ensures
        set.contains(Ability_::Copy) == set.copy,
        set.contains(Ability_::Drop) == set.drop,
        set.contains(Ability_::Store) == set.store,
        set.contains(Ability_::Key) == set.key,
{
}

/// At the start of a module nothing is imported and no show is noted; what was noted of other
/// modules stays.
pub proof fn law_start_of_a_module(ctx: ContextView, mident: ModuleIdent)
    ensures
        ({
            let start = ctx.reset_for_module(mident);
            &&& start.config == ctx.config
            &&& start.package_imports == Set::<Seq<char>>::empty()
            &&& start.same_package_imports == Set::<Seq<char>>::empty()
            &&& start.current_module == Some(mident)
            &&& start.current_function_signature is None
            &&& start.json == ctx.json
            &&& start.module_shows.len() == 0
            &&& start.iter_table_shows == ctx.iter_table_shows
            &&& start.cmds == ctx.cmds
        }),
{
}

/// A term that is shown adds what it needs to the imports and changes nothing else.
pub proof fn law_term_is_imported(ctx: ContextView, term: Term, name: Seq<char>)
    ensures
        ctx.import(term).package_imports.contains(name) <==> ctx.package_imports.contains(name)
            || needs_package(term, name),
        ctx.import(term).same_package_imports.contains(name) <==> ctx.same_package_imports.contains(
            name,
        ) || needs_module(term, name),
        ctx.import(term).config == ctx.config,
        ctx.import(term).current_module == ctx.current_module,
        ctx.import(term).current_function_signature == ctx.current_function_signature,
        ctx.import(term).json == ctx.json,
        ctx.import(term).module_shows == ctx.module_shows,
        ctx.import(term).iter_table_shows == ctx.iter_table_shows,
        ctx.import(term).cmds == ctx.cmds,
{
    let packages = views(term.package_imports@);
    let modules = views(term.module_imports@);
    if packages.to_set().contains(name) {
        let k = choose|k: int| 0 <= k < packages.len() && packages[k] == name;
        assert(term.package_imports@[k]@ == name);
    }
    if needs_package(term, name) {
        let k = choose|k: int|
            0 <= k < term.package_imports@.len() && (#[trigger] term.package_imports@[k])@ == name;
        assert(packages[k] == name);
        assert(packages.to_set().contains(name));
    }
    if modules.to_set().contains(name) {
        let k = choose|k: int| 0 <= k < modules.len() && modules[k] == name;
        assert(term.module_imports@[k]@ == name);
    }
    if needs_module(term, name) {
        let k = choose|k: int|
            0 <= k < term.module_imports@.len() && (#[trigger] term.module_imports@[k])@ == name;
        assert(modules[k] == name);
        assert(modules.to_set().contains(name));
    }
}

proof fn lemma_find_field(fields: Seq<StructField>, name: Name, i: int)
    requires
        0 <= i <= fields.len(),
        forall|k: int| 0 <= k < i ==> (#[trigger] fields[k]).name.0.value@ != name.value@,
    ensures
        match find_field(fields, name, i) {
            Some(j) => {
                &&& 0 <= j < fields.len()
                &&& fields[j].name.0.value@ == name.value@
                &&& forall|k: int| 0 <= k < j ==> (#[trigger] fields[k]).name.0.value@ != name.value@
            },
            None => forall|k: int|
                0 <= k < fields.len() ==> (#[trigger] fields[k]).name.0.value@ != name.value@,
        },
    decreases fields.len() - i,
{
    if i < fields.len() && fields[i].name.0.value@ != name.value@ {
        lemma_find_field(fields, name, i + 1);
    }
}

/// A field is found by its name if there is one of that name, and then the first.
pub proof fn law_field_is_found(fields: Seq<StructField>, name: Name)
    ensures
        match find_field(fields, name, 0) {
            Some(j) => {
                &&& 0 <= j < fields.len()
                &&& fields[j].name.0.value@ == name.value@
                &&& forall|k: int| 0 <= k < j ==> (#[trigger] fields[k]).name.0.value@ != name.value@
            },
            None => forall|k: int|
                0 <= k < fields.len() ==> (#[trigger] fields[k]).name.0.value@ != name.value@,
        },
{
    lemma_find_field(fields, name, 0);
}

/// A type is an iterable table if and only if it is the struct of that name in the module of
/// that name at the address of the framework.
pub proof fn law_iterable_tables(ty: BaseType)
    ensures
        match ty.value {
            BaseType_::Apply(_, typename, targs) => match typename.value {
                TypeName_::ModuleType(mi, sname) => {
                    let is_table = mi.value.address.hex@ == "0x1"@ && mi.value.module.0.value@
                        == "iterable_table"@ && sname.0.value@ == "IterableTable"@;
                    &&& is_table ==> iter_table_args(ty) == Some(targs@)
                    &&& !is_table ==> iter_table_args(ty) is None
                },
                TypeName_::Builtin(_) => iter_table_args(ty) is None,
            },
            _ => iter_table_args(ty) is None,
        },
{
}

proof fn lemma_declared_in_fields(fields: Seq<(Field, LValue)>, i: int, x: Seq<char>)
    requires
        0 <= i <= fields.len(),
    ensures
        declared_in_fields(fields, i).contains(x) <==> exists|k: int|
            i <= k < fields.len() && match (#[trigger] fields[k]).1.value {
                LValue_::Var(var, _) => var.0.value@ == x,
                LValue_::Unpack(_, _, _) => declared_in_lvalue(fields[k].1).contains(x),
                LValue_::Ignore => false,
            },
    decreases fields.len() - i,
{
    if i < fields.len() {
        let first = fields[i].1;
        let rest = declared_in_fields(fields, i + 1);
        lemma_declared_in_fields(fields, i + 1, x);
        match first.value {
            LValue_::Var(var, _) => {
                assert(declared_in_fields(fields, i) == Set::empty().insert(var.0.value@).union(
                    rest,
                ));
            },
            LValue_::Unpack(_, _, _) => {
                assert(declared_in_fields(fields, i) == declared_in_lvalue(first).union(rest));
            },
            LValue_::Ignore => {
                assert(declared_in_lvalue(first) == Set::<Seq<char>>::empty());
                assert(declared_in_fields(fields, i) == declared_in_lvalue(first).union(rest));
            },
        }
    }
}

/// A left-hand side declares a variable if and only if it unpacks a struct and one of the fields
/// is bound to the variable, or is unpacked in turn and declares it there.
pub proof fn law_unpacking_declares(lvalue: LValue, x: Seq<char>)
    ensures
        declared_in_lvalue(lvalue).contains(x) <==> (lvalue.value matches LValue_::Unpack(
            _,
            _,
            fields,
        ) && exists|k: int|
            0 <= k < fields@.len() && match (#[trigger] fields@[k]).1.value {
                LValue_::Var(var, _) => var.0.value@ == x,
                LValue_::Unpack(_, _, _) => declared_in_lvalue(fields@[k].1).contains(x),
                LValue_::Ignore => false,
            }),
{
    if let LValue_::Unpack(_, _, fields) = lvalue.value {
        lemma_declared_in_fields(fields@, 0, x);
    }
}

proof fn lemma_declared_in_lvalues(lvalues: Seq<LValue>, i: int, x: Seq<char>)
    requires
        0 <= i <= lvalues.len(),
    ensures
        declared_in_lvalues(lvalues, i).contains(x) <==> exists|k: int|
            i <= k < lvalues.len() && declared_in_lvalue(#[trigger] lvalues[k]).contains(x),
    decreases lvalues.len() - i,
{
    if i < lvalues.len() {
        lemma_declared_in_lvalues(lvalues, i + 1, x);
    }
}

/// A command declares a variable if and only if it is an assignment one of whose left-hand sides
/// declares it.
pub proof fn law_commands_declare(cmd: Command, x: Seq<char>)
    ensures
        declared_in_cmd(cmd).contains(x) <==> (cmd.value matches Command_::Assign(lhs, _)
            && exists|k: int|
            0 <= k < lhs.lvalues@.len() && declared_in_lvalue(
                #[trigger] lhs.lvalues@[k],
            ).contains(x)),
{
    if let Command_::Assign(lhs, _) = cmd.value {
        lemma_declared_in_lvalues(lhs.lvalues@, 0, x);
    }
}

proof fn lemma_declared_in_stmts(block: Seq<Statement>, i: int, x: Seq<char>)
    requires
        0 <= i <= block.len(),
    ensures
        declared_in_stmts(block, i).contains(x) <==> exists|k: int|
            i <= k < block.len() && declared_in_stmt(#[trigger] block[k]).contains(x),
    decreases block.len() - i,
{
    if i < block.len() {
        lemma_declared_in_stmts(block, i + 1, x);
    }
}

/// A block declares a variable if and only if one of its statements does.
pub proof fn law_blocks_declare(block: Seq<Statement>, x: Seq<char>)
    ensures
        declared_in_stmts(block, 0).contains(x) <==> exists|k: int|
            0 <= k < block.len() && declared_in_stmt(#[trigger] block[k]).contains(x),
{
    lemma_declared_in_stmts(block, 0, x);
}

/// A statement declares a variable if and only if its command or one of its blocks does: either
/// branch of a conditional, and the statements in front of the test of a loop or its body.
pub proof fn law_statements_declare(stmt: Statement, x: Seq<char>)
    ensures
        declared_in_stmt(stmt).contains(x) <==> match stmt.value {
            Statement_::Command(cmd) => declared_in_cmd(cmd).contains(x),
            Statement_::IfElse { cond: _, if_block, else_block } => declared_in_stmts(
                if_block@,
                0,
            ).contains(x) || declared_in_stmts(else_block@, 0).contains(x),
            Statement_::While { cond, block } => declared_in_stmts(cond.0@, 0).contains(x)
                || declared_in_stmts(block@, 0).contains(x),
            Statement_::Loop { has_break: _, block } => declared_in_stmts(block@, 0).contains(x),
        },
{
}

} // verus!
