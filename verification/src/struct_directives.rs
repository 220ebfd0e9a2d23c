//! Directives on structs.

use crate::ast::{
    Attribute, Attribute_, Attributes, BaseType, BaseType_, ModuleIdent, Name, StructDefinition,
    StructField, StructFields, StructName, TypeName_, WriteResult,
};
use crate::script::{
    ask, defined, fail, group_run, lemma_run_keeps, line, newline, performed, run, verdict, End,
    State, Step,
};
use crate::shared::{
    derr, format_address_hex, is_same_name, same_name, says, Context, ShowIterTableView,
    ShowView,
};
use crate::text::{cat2, cat3, cat5, cat7, same_text};
use crate::tsgen_writer::TsgenWriter;
use vstd::prelude::*;

verus! {

/// Where the first field from the one at `i` on stands that has the given name.
pub open spec fn find_field(fields: Seq<StructField>, name: Name, i: int) -> Option<int>
    decreases fields.len() - i,
{
    if 0 <= i < fields.len() {
        if same_name(fields[i].name.0, name) {
            Some(i)
        } else {
            find_field(fields, name, i + 1)
        }
    } else {
        None
    }
}

/// The type arguments of a type that is an iterable table.
pub open spec fn iter_table_args(ty: BaseType) -> Option<Seq<BaseType>> {
    match ty.value {
        BaseType_::Apply(_, typename, targs) => match typename.value {
            TypeName_::ModuleType(mi, sname) => if mi.value.address.hex@ == "0x1"@
                && mi.value.module.0.value@ == "iterable_table"@ && sname.0.value@
                == "IterableTable"@ {
                Some(targs@)
            } else {
                None
            },
            _ => None,
        },
        _ => None,
    }
}

fn iter_table_targs(ty: &BaseType) -> (r: Option<&Vec<BaseType>>)
    ensures
        match r {
            Some(targs) => iter_table_args(*ty) == Some(targs@),
            None => iter_table_args(*ty) is None,
        },
{
    match &ty.value {
        BaseType_::Apply(_, typename, targs) => match &typename.value {
            TypeName_::ModuleType(table_mi, table_sname) => {
                if !same_text(format_address_hex(&table_mi.value.address), "0x1") || !same_text(
                    table_mi.value.module.0.value.as_str(),
                    "iterable_table",
                ) || !same_text(table_sname.0.value.as_str(), "IterableTable") {
                    None
                } else {
                    Some(targs)
                }
            },
            _ => None,
        },
        _ => None,
    }
}

/// The steps of printing the method that lists the entries of the table in a field.
pub open spec fn iter_table_method_steps(
    sname: StructName,
    field_name: Name,
    key: BaseType,
    value: BaseType,
) -> Seq<Step> {
    ask(key.ts) + ask(value.ts) + line(
        "async getIterTableEntries_"@ + field_name.value@
            + "(client: AptosClient, repo: AptosParserRepo) {"@,
    ) + line("  const cache = new DummyCache();"@) + line(
        "  const tags = (this.typeTag as StructTag).typeParams;"@,
    ) + line(
        "  const iterTableField = "@ + sname.0.value@ + ".fields.filter(f=>f.name === '"@
            + field_name.value@ + "')[0]"@,
    ) + line(
        "  const typedIterTable = this."@ + field_name.value@ + ".toTypedIterTable<"@
            + key.ts.shown() + ","@ + value.ts.shown() + ">(iterTableField);"@,
    ) + line("  return await typedIterTable.fetchAll(client, repo);"@) + line("}"@)
}

fn write_iter_table_method(
    sname: &StructName,
    field_name: &Name,
    key: &BaseType,
    value: &BaseType,
    w: &mut TsgenWriter,
    c: &mut Context,
) -> (r: WriteResult)
    ensures
        performed(
            old(w)@,
            old(c)@,
            iter_table_method_steps(*sname, *field_name, *key, *value),
            final(w)@,
            final(c)@,
            r,
        ),
{
    broadcast use group_run;

    let key_ts_type = key.ts.term(c)?;
    let value_ts_type = value.ts.term(c)?;
    let field = field_name.value.as_str();
    w.writeln(
        cat3(
            "async getIterTableEntries_",
            field,
            "(client: AptosClient, repo: AptosParserRepo) {",
        ).as_str(),
    );
    w.writeln("  const cache = new DummyCache();");
    w.writeln("  const tags = (this.typeTag as StructTag).typeParams;");
    w.writeln(
        cat5(
            "  const iterTableField = ",
            sname.0.value.as_str(),
            ".fields.filter(f=>f.name === '",
            field,
            "')[0]",
        ).as_str(),
    );
    w.writeln(
        cat7(
            "  const typedIterTable = this.",
            field,
            ".toTypedIterTable<",
            key_ts_type.as_str(),
            ",",
            value_ts_type.as_str(),
            ">(iterTableField);",
        ).as_str(),
    );
    w.writeln("  return await typedIterTable.fetchAll(client, repo);");
    w.writeln("}");
    Ok(())
}

/// The steps of handling a directive to show the iterable table in a field.
#[verifier::opaque]
pub open spec fn show_iter_table_steps(
    sname: StructName,
    sdef: StructDefinition,
    field_name: Name,
    module: Option<ModuleIdent>,
) -> Seq<Step> {
    match module {
        None => verdict(End::Stuck),
        Some(module) => seq![
            Step::NoteShowIterTable(ShowIterTableView { module, sname, sdef, field_name }),
        ] + newline() + (match sdef.fields {
            StructFields::Native(_) => fail(
                says(field_name.loc, "cannot show iterable tables from native struct"@),
            ),
            StructFields::Defined(fields) => match find_field(fields@, field_name, 0) {
                None => fail(
                    says(field_name.loc, "Field "@ + field_name.value@ + " does not exist"@),
                ),
                Some(i) => match iter_table_args(fields@[i].ty) {
                    None => fail(
                        says(
                            field_name.loc,
                            "Field "@ + field_name.value@ + " is not an IterableTable"@,
                        ),
                    ),
                    Some(targs) => if targs.len() != 2 {
                        fail(
                            says(
                                fields@[i].name.0.loc,
                                "IterableTable should have 2 type arguments "@,
                            ),
                        )
                    } else {
                        iter_table_method_steps(sname, field_name, targs[0], targs[1])
                    },
                },
            },
        }),
    }
}

fn show_iter_table<'a>(
    sname: &'a StructName,
    sdef: &'a StructDefinition,
    field_name: &'a Name,
    w: &mut TsgenWriter,
    c: &mut Context<'a>,
) -> (r: WriteResult)
    requires
        defined(
            old(w)@,
            old(c)@,
            show_iter_table_steps(*sname, *sdef, *field_name, old(c)@.current_module),
        ),
    ensures
        performed(
            old(w)@,
            old(c)@,
            show_iter_table_steps(*sname, *sdef, *field_name, old(c)@.current_module),
            final(w)@,
            final(c)@,
            r,
        ),
{
    broadcast use group_run;

    reveal(show_iter_table_steps);
    let module = c.current_module.unwrap();
    c.add_show_iter_table(module, sname, sdef, field_name);
    w.new_line();
    let fields = match &sdef.fields {
        StructFields::Defined(fields) => fields,
        StructFields::Native(_) => {
            return Err(derr(field_name.loc, "cannot show iterable tables from native struct"));
        },
    };
    let mut i: usize = 0;
    while i < fields.len() && !is_same_name(&fields[i].name.0, field_name)
        invariant
            i <= fields.len(),
            find_field(fields@, *field_name, 0) == find_field(fields@, *field_name, i as int),
        decreases fields.len() - i,
    {
        i = i + 1;
    }
    if i == fields.len() {
        return Err(
            derr(
                field_name.loc,
                cat3("Field ", field_name.value.as_str(), " does not exist").as_str(),
            ),
        );
    }
    let field = &fields[i];
    let table_targs = match iter_table_targs(&field.ty) {
        Some(targs) => targs,
        None => {
            return Err(
                derr(
                    field_name.loc,
                    cat3("Field ", field_name.value.as_str(), " is not an IterableTable").as_str(),
                ),
            );
        },
    };
    if table_targs.len() != 2 {
        return Err(derr(field.name.0.loc, "IterableTable should have 2 type arguments "));
    }
    write_iter_table_method(sname, field_name, &table_targs[0], &table_targs[1], w, c)
}

/// The steps of handling the fields that a directive names from the one at `i` on, whose
/// iterable tables are to be shown.
pub open spec fn show_iter_table_from(
    sname: StructName,
    sdef: StructDefinition,
    attrs: Seq<(Name, Attribute)>,
    module: Option<ModuleIdent>,
    i: int,
) -> Seq<Step>
    decreases attrs.len() - i,
{
    if 0 <= i < attrs.len() {
        let pattr = attrs[i].1;
        (match pattr.value {
            Attribute_::Name(field_name) => show_iter_table_steps(sname, sdef, field_name, module),
            _ => fail(
                says(
                    pattr.loc,
                    "show_iter_table directive expects only a field name as argument"@,
                ),
            ),
        }) + show_iter_table_from(sname, sdef, attrs, module, i + 1)
    } else {
        seq![]
    }
}

/// Handles a directive to show iterable tables in fields of a struct.
pub fn handle_struct_show_iter_table_directive<'a>(
    sname: &'a StructName,
    sdef: &'a StructDefinition,
    inner_attrs: &'a Attributes,
    w: &mut TsgenWriter,
    c: &mut Context<'a>,
) -> (r: WriteResult)
    requires
        defined(
            old(w)@,
            old(c)@,
            show_iter_table_from(*sname, *sdef, inner_attrs@, old(c)@.current_module, 0),
        ),
    ensures
        performed(
            old(w)@,
            old(c)@,
            show_iter_table_from(*sname, *sdef, inner_attrs@, old(c)@.current_module, 0),
            final(w)@,
            final(c)@,
            r,
        ),
{
    broadcast use group_run;

    let ghost module = c@.current_module;
    let ghost s0 = State { doc: w@, ctx: c@ };
    let ghost steps = show_iter_table_from(*sname, *sdef, inner_attrs@, module, 0);
    let mut i: usize = 0;
    while i < inner_attrs.len()
        invariant
            i <= inner_attrs.len(),
            s0 == (State { doc: old(w)@, ctx: old(c)@ }),
            module == old(c)@.current_module,
            module == c@.current_module,
            steps == show_iter_table_from(*sname, *sdef, inner_attrs@, module, 0),
            !(run(s0, steps).end is Stuck),
            run(s0, steps) == run(
                State { doc: w@, ctx: c@ },
                show_iter_table_from(*sname, *sdef, inner_attrs@, module, i as int),
            ),
        decreases inner_attrs.len() - i,
    {
        broadcast use {group_run, lemma_run_keeps};

        let pattr = &inner_attrs[i].1;
        match &pattr.value {
            Attribute_::Name(field_name) => {
                show_iter_table(sname, sdef, field_name, w, c)?;
            },
            _ => {
                return Err(
                    derr(
                        pattr.loc,
                        "show_iter_table directive expects only a field name as argument",
                    ),
                );
            },
        }
        i = i + 1;
    }
    Ok(())
}

/// The steps of handling a directive to show a struct by a function.
#[verifier::opaque]
pub open spec fn show_steps(
    sname: StructName,
    sdef: StructDefinition,
    fname: Name,
    module: Option<ModuleIdent>,
) -> Seq<Step> {
    match module {
        None => verdict(End::Stuck),
        Some(module) => seq![Step::NoteShow(ShowView { module, sname, sdef, fname })] + newline()
            + line(fname.value@ + "() {"@) + line("  const cache = new DummyCache();"@) + line(
            "  const tags = (this.typeTag as StructTag).typeParams;"@,
        ) + line("  return "@ + fname.value@ + "$(this, cache, tags);"@) + line("}"@),
    }
}

fn show_by_function<'a>(
    sname: &'a StructName,
    sdef: &'a StructDefinition,
    fname: &'a Name,
    w: &mut TsgenWriter,
    c: &mut Context<'a>,
) -> (r: WriteResult)
    requires
        defined(old(w)@, old(c)@, show_steps(*sname, *sdef, *fname, old(c)@.current_module)),
    ensures
        performed(
            old(w)@,
            old(c)@,
            show_steps(*sname, *sdef, *fname, old(c)@.current_module),
            final(w)@,
            final(c)@,
            r,
        ),
{
    broadcast use group_run;

    reveal(show_steps);
    let module = c.current_module.unwrap();
    // whether the function fits is checked at the end of the module
    c.add_show(module, sname, sdef, fname);
    w.new_line();
    w.writeln(cat2(fname.value.as_str(), "() {").as_str());
    w.writeln("  const cache = new DummyCache();");
    w.writeln("  const tags = (this.typeTag as StructTag).typeParams;");
    w.writeln(cat3("  return ", fname.value.as_str(), "$(this, cache, tags);").as_str());
    w.writeln("}");
    Ok(())
}

/// The steps of handling the functions that a directive names from the one at `i` on, which
/// are to show a struct.
pub open spec fn show_from(
    sname: StructName,
    sdef: StructDefinition,
    attrs: Seq<(Name, Attribute)>,
    module: Option<ModuleIdent>,
    i: int,
) -> Seq<Step>
    decreases attrs.len() - i,
{
    if 0 <= i < attrs.len() {
        let pattr = attrs[i].1;
        (match pattr.value {
            Attribute_::Name(fname) => show_steps(sname, sdef, fname, module),
            _ => fail(
                says(
                    pattr.loc,
                    "show directive expects only a list of function names as argument"@,
                ),
            ),
        }) + show_from(sname, sdef, attrs, module, i + 1)
    } else {
        seq![]
    }
}

/// Handles a directive to show a struct by functions.
pub fn handle_struct_show_directive<'a>(
    sname: &'a StructName,
    sdef: &'a StructDefinition,
    inner_attrs: &'a Attributes,
    w: &mut TsgenWriter,
    c: &mut Context<'a>,
) -> (r: WriteResult)
    requires
        defined(
            old(w)@,
            old(c)@,
            show_from(*sname, *sdef, inner_attrs@, old(c)@.current_module, 0),
        ),
    ensures
        performed(
            old(w)@,
            old(c)@,
            show_from(*sname, *sdef, inner_attrs@, old(c)@.current_module, 0),
            final(w)@,
            final(c)@,
            r,
        ),
{
    broadcast use group_run;

    let ghost module = c@.current_module;
    let ghost s0 = State { doc: w@, ctx: c@ };
    let ghost steps = show_from(*sname, *sdef, inner_attrs@, module, 0);
    let mut i: usize = 0;
    while i < inner_attrs.len()
        invariant
            i <= inner_attrs.len(),
            s0 == (State { doc: old(w)@, ctx: old(c)@ }),
            module == old(c)@.current_module,
            module == c@.current_module,
            steps == show_from(*sname, *sdef, inner_attrs@, module, 0),
            !(run(s0, steps).end is Stuck),
            run(s0, steps) == run(
                State { doc: w@, ctx: c@ },
                show_from(*sname, *sdef, inner_attrs@, module, i as int),
            ),
        decreases inner_attrs.len() - i,
    {
        broadcast use {group_run, lemma_run_keeps};

        let pattr = &inner_attrs[i].1;
        match &pattr.value {
            Attribute_::Name(fname) => {
                show_by_function(sname, sdef, fname, w, c)?;
            },
            _ => {
                return Err(
                    derr(
                        pattr.loc,
                        "show directive expects only a list of function names as argument",
                    ),
                );
            },
        }
        i = i + 1;
    }
    Ok(())
}

/// The steps of handling one directive on a struct.
pub open spec fn struct_directive_steps(
    sname: StructName,
    sdef: StructDefinition,
    name: Name,
    attr: Attribute,
    module: Option<ModuleIdent>,
) -> Seq<Step> {
    if name.value@ == "cmd"@ {
        fail(says(attr.loc, "the 'cmd' attribute cannot be used on structs"@))
    } else if name.value@ == "show"@ {
        match attr.value {
            Attribute_::Parameterized(_, inner_attrs) => newline() + show_from(
                sname,
                sdef,
                inner_attrs@,
                module,
                0,
            ),
            _ => fail(
                says(
                    attr.loc,
                    "the 'show' requires a list of function names as argument (e.g. $[show(show_x_as_y)]"@,
                ),
            ),
        }
    } else if name.value@ == "show_iter_table"@ {
        match attr.value {
            Attribute_::Parameterized(_, inner_attrs) => newline() + show_iter_table_from(
                sname,
                sdef,
                inner_attrs@,
                module,
                0,
            ),
            _ => fail(
                says(
                    attr.loc,
                    "the 'show' requires a list of function names as argument (e.g. $[show(show_x_as_y)]"@,
                ),
            ),
        }
    } else {
        seq![]
    }
}

fn handle_struct_directive<'a>(
    sname: &'a StructName,
    sdef: &'a StructDefinition,
    name: &'a Name,
    attr: &'a Attribute,
    w: &mut TsgenWriter,
    c: &mut Context<'a>,
) -> (r: WriteResult)
    requires
        defined(
            old(w)@,
            old(c)@,
            struct_directive_steps(*sname, *sdef, *name, *attr, old(c)@.current_module),
        ),
    ensures
        performed(
            old(w)@,
            old(c)@,
            struct_directive_steps(*sname, *sdef, *name, *attr, old(c)@.current_module),
            final(w)@,
            final(c)@,
            r,
        ),
{
    broadcast use group_run;

    if same_text(name.value.as_str(), "cmd") {
        return Err(derr(attr.loc, "the 'cmd' attribute cannot be used on structs"));
    } else if same_text(name.value.as_str(), "show") {
        match &attr.value {
            Attribute_::Parameterized(_, inner_attrs) => {
                w.new_line();
                handle_struct_show_directive(sname, sdef, inner_attrs, w, c)?;
            },
            _ => {
                return Err(
                    derr(
                        attr.loc,
                        "the 'show' requires a list of function names as argument (e.g. $[show(show_x_as_y)]",
                    ),
                );
            },
        }
    } else if same_text(name.value.as_str(), "show_iter_table") {
        match &attr.value {
            Attribute_::Parameterized(_, inner_attrs) => {
                w.new_line();
                handle_struct_show_iter_table_directive(sname, sdef, inner_attrs, w, c)?;
            },
            _ => {
                return Err(
                    derr(
                        attr.loc,
                        "the 'show' requires a list of function names as argument (e.g. $[show(show_x_as_y)]",
                    ),
                );
            },
        }
    }
    Ok(())
}

/// The steps of handling the directives on a struct from the one at `i` on.
pub open spec fn struct_directives_from(
    sname: StructName,
    sdef: StructDefinition,
    module: Option<ModuleIdent>,
    i: int,
) -> Seq<Step>
    decreases sdef.attributes@.len() - i,
{
    if 0 <= i < sdef.attributes@.len() {
        struct_directive_steps(
            sname,
            sdef,
            sdef.attributes@[i].0,
            sdef.attributes@[i].1,
            module,
        ) + struct_directives_from(sname, sdef, module, i + 1)
    } else {
        seq![]
    }
}

/// Handles the directives on a struct.
pub fn handle_struct_directives<'a>(
    sname: &'a StructName,
    sdef: &'a StructDefinition,
    w: &mut TsgenWriter,
    c: &mut Context<'a>,
) -> (r: WriteResult)
    requires
        defined(
            old(w)@,
            old(c)@,
            struct_directives_from(*sname, *sdef, old(c)@.current_module, 0),
        ),
    ensures
        performed(
            old(w)@,
            old(c)@,
            struct_directives_from(*sname, *sdef, old(c)@.current_module, 0),
            final(w)@,
            final(c)@,
            r,
        ),
{
    broadcast use group_run;

    let attrs = &sdef.attributes;
    let ghost module = c@.current_module;
    let ghost s0 = State { doc: w@, ctx: c@ };
    let ghost steps = struct_directives_from(*sname, *sdef, module, 0);
    let mut i: usize = 0;
    while i < attrs.len()
        invariant
            i <= attrs.len(),
            attrs == sdef.attributes,
            s0 == (State { doc: old(w)@, ctx: old(c)@ }),
            module == old(c)@.current_module,
            module == c@.current_module,
            steps == struct_directives_from(*sname, *sdef, module, 0),
            !(run(s0, steps).end is Stuck),
            run(s0, steps) == run(
                State { doc: w@, ctx: c@ },
                struct_directives_from(*sname, *sdef, module, i as int),
            ),
        decreases attrs.len() - i,
    {
        broadcast use {group_run, lemma_run_keeps};

        handle_struct_directive(sname, sdef, &attrs[i].0, &attrs[i].1, w, c)?;
        i = i + 1;
    }
    Ok(())
}

} // verus!
