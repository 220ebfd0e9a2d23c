//! Structs.

use crate::ast::{
    Ability_, ModuleIdent, StructDefinition, StructField, StructFields, StructName,
    StructTypeParameter, TermResult, WriteResult,
};
use crate::script::{
    ask, close_indent, close_short_block, defined, group_run, lemma_run_keeps, line, newline,
    open_indent, open_short_block, performed, run, text, State, Step,
};
use crate::shared::{format_address, quote, quoted, rename, Context};
use crate::struct_directives::{handle_struct_directives, struct_directives_from};
use crate::text::{cat3, cat4, cat5, cat7, same_text};
use crate::tsgen_writer::{Piece, TsgenWriter};
use vstd::prelude::*;

verus! {

impl StructName {
    pub fn term(&self, _c: &mut Context) -> (r: TermResult)
        ensures
            r is Ok,
            r->Ok_0@ == self.0.ts@,
            final(_c)@ == old(_c)@,
    {
        Ok(rename(&self.0))
    }
}

/// A truth value in TypeScript.
pub open spec fn bool_text(b: bool) -> Seq<char> {
    if b {
        "true"@
    } else {
        "false"@
    }
}

/// The description of a type parameter.
pub open spec fn tparam_text(tparam: StructTypeParameter) -> Seq<char> {
    "{ name: "@ + tparam.quoted_ts@ + ", isPhantom: "@ + bool_text(tparam.is_phantom) + " }"@
}

impl StructTypeParameter {
    pub fn term(&self, _c: &mut Context) -> (r: TermResult)
        ensures
            r is Ok,
            r->Ok_0@ == tparam_text(*self),
            final(_c)@ == old(_c)@,
    {
        let is_phantom = if self.is_phantom {
            "true"
        } else {
            "false"
        };
        Ok(cat5("{ name: ", self.quoted_ts.as_str(), ", isPhantom: ", is_phantom, " }"))
    }
}

/// The steps behind the item at `i` of a list of `len` items, one to a line: the last item
/// has no separator and does not end its line.
pub open spec fn separator_steps(sep: Seq<char>, i: int, len: int) -> Seq<Step> {
    if i + 1 != len {
        text(sep) + newline()
    } else {
        seq![]
    }
}

fn write_separator(sep: &str, i: usize, len: usize, w: &mut TsgenWriter)
    requires
        i < len,
    ensures
        final(w)@ == if i + 1 != len {
            old(w)@.push(Piece::Text(sep@)).push(Piece::Break)
        } else {
            old(w)@
        },
{
    if i + 1 != len {
        w.write(sep);
        w.new_line();
    }
}

/// The steps of describing the fields of a struct from the one at `i` on.
pub open spec fn static_fields_from(fields: Seq<StructField>, i: int) -> Seq<Step>
    decreases fields.len() - i,
{
    if 0 <= i < fields.len() {
        ask(fields[i].typetag) + text(
            "{ name: "@ + quoted(fields[i].name.0.ts@) + ", typeTag: "@ + fields[i].typetag.shown() + " }"@,
        ) + separator_steps(","@, i, fields.len() as int)
            + static_fields_from(fields, i + 1)
    } else {
        seq![]
    }
}

fn write_static_fields(fields: &Vec<StructField>, w: &mut TsgenWriter, c: &mut Context) -> (r: WriteResult)
    ensures
        performed(old(w)@, old(c)@, static_fields_from(fields@, 0), final(w)@, final(c)@, r),
{
    broadcast use group_run;

    let ghost s0 = State { doc: w@, ctx: c@ };
    let mut i: usize = 0;
    while i < fields.len()
        invariant
            i <= fields.len(),
            s0 == (State { doc: old(w)@, ctx: old(c)@ }),
            run(s0, static_fields_from(fields@, 0)) == run(
                State { doc: w@, ctx: c@ },
                static_fields_from(fields@, i as int),
            ),
        decreases fields.len() - i,
    {
        broadcast use group_run;

        let field = &fields[i];
        let tag = field.typetag.term(c)?;
        w.write(
            cat5(
                "{ name: ",
                quote(rename(&field.name.0).as_str()).as_str(),
                ", typeTag: ",
                tag.as_str(),
                " }",
            ).as_str(),
        );
        write_separator(",", i, fields.len(), w);
        i = i + 1;
    }
    Ok(())
}

/// The steps of declaring the fields of a class from the one at `i` on.
pub open spec fn class_fields_from(fields: Seq<StructField>, i: int) -> Seq<Step>
    decreases fields.len() - i,
{
    if 0 <= i < fields.len() {
        ask(fields[i].ty.ts) + text(
            fields[i].name.0.ts@ + ": "@ + fields[i].ty.ts.shown() + ";"@,
        ) + separator_steps(""@, i, fields.len() as int)
            + class_fields_from(fields, i + 1)
    } else {
        seq![]
    }
}

fn write_class_fields(fields: &Vec<StructField>, w: &mut TsgenWriter, c: &mut Context) -> (r: WriteResult)
    ensures
        performed(old(w)@, old(c)@, class_fields_from(fields@, 0), final(w)@, final(c)@, r),
{
    broadcast use group_run;

    let ghost s0 = State { doc: w@, ctx: c@ };
    let mut i: usize = 0;
    while i < fields.len()
        invariant
            i <= fields.len(),
            s0 == (State { doc: old(w)@, ctx: old(c)@ }),
            run(s0, class_fields_from(fields@, 0)) == run(
                State { doc: w@, ctx: c@ },
                class_fields_from(fields@, i as int),
            ),
        decreases fields.len() - i,
    {
        broadcast use group_run;

        let field = &fields[i];
        let tstype = field.ty.ts.term(c)?;
        w.write(cat4(rename(&field.name.0).as_str(), ": ", tstype.as_str(), ";").as_str());
        write_separator("", i, fields.len(), w);
        i = i + 1;
    }
    Ok(())
}

/// The steps of setting the fields of a class in its constructor from the one at `i` on.
pub open spec fn ctor_fields_from(fields: Seq<StructField>, i: int) -> Seq<Step>
    decreases fields.len() - i,
{
    if 0 <= i < fields.len() {
        ask(fields[i].ty.ts) + text(
            "this."@ + fields[i].name.0.ts@ + " = proto['"@ + fields[i].name.0.ts@ + "'] as "@
                + fields[i].ty.ts.shown() + ";"@,
        ) + separator_steps(""@, i, fields.len() as int)
            + ctor_fields_from(fields, i + 1)
    } else {
        seq![]
    }
}

fn write_ctor_fields(fields: &Vec<StructField>, w: &mut TsgenWriter, c: &mut Context) -> (r: WriteResult)
    ensures
        performed(old(w)@, old(c)@, ctor_fields_from(fields@, 0), final(w)@, final(c)@, r),
{
    broadcast use group_run;

    let ghost s0 = State { doc: w@, ctx: c@ };
    let mut i: usize = 0;
    while i < fields.len()
        invariant
            i <= fields.len(),
            s0 == (State { doc: old(w)@, ctx: old(c)@ }),
            run(s0, ctor_fields_from(fields@, 0)) == run(
                State { doc: w@, ctx: c@ },
                ctor_fields_from(fields@, i as int),
            ),
        decreases fields.len() - i,
    {
        broadcast use group_run;

        let field = &fields[i];
        let name = rename(&field.name.0);
        let tstype = field.ty.ts.term(c)?;
        w.write(
            cat7(
                "this.",
                name.as_str(),
                " = proto['",
                name.as_str(),
                "'] as ",
                tstype.as_str(),
                ";",
            ).as_str(),
        );
        write_separator("", i, fields.len(), w);
        i = i + 1;
    }
    Ok(())
}

/// The steps of describing the type parameters of a struct from the one at `i` on.
pub open spec fn struct_tparams_from(tparams: Seq<StructTypeParameter>, i: int) -> Seq<Step>
    decreases tparams.len() - i,
{
    if 0 <= i < tparams.len() {
        text(tparam_text(tparams[i])) + separator_steps(","@, i, tparams.len() as int)
            + struct_tparams_from(tparams, i + 1)
    } else {
        seq![]
    }
}

fn write_struct_tparams(
    tparams: &Vec<StructTypeParameter>,
    w: &mut TsgenWriter,
    c: &mut Context,
) -> (r: WriteResult)
    ensures
        performed(old(w)@, old(c)@, struct_tparams_from(tparams@, 0), final(w)@, final(c)@, r),
{
    broadcast use group_run;

    let ghost s0 = State { doc: w@, ctx: c@ };
    let mut i: usize = 0;
    while i < tparams.len()
        invariant
            i <= tparams.len(),
            s0 == (State { doc: old(w)@, ctx: old(c)@ }),
            run(s0, struct_tparams_from(tparams@, 0)) == run(
                State { doc: w@, ctx: c@ },
                struct_tparams_from(tparams@, i as int),
            ),
        decreases tparams.len() - i,
    {
        broadcast use group_run;

        let tparam = tparams[i].term(c)?;
        w.write(tparam.as_str());
        write_separator(",", i, tparams.len(), w);
        i = i + 1;
    }
    Ok(())
}

/// The steps of printing the methods that some structs of the framework have besides.
pub open spec fn special_struct_steps(name: StructName, module: Option<ModuleIdent>) -> Seq<Step> {
    match module {
        None => seq![],
        Some(mident) => {
            let package = mident.value.address.name@;
            let module_name = mident.value.module.0.value@;
            if package == "std"@ {
                if module_name == "string"@ && name.0.value@ == "String"@ {
                    line("str(): string { return $.u8str(this.bytes); }"@)
                } else {
                    seq![]
                }
            } else if package == "aptos_framework"@ {
                (if module_name == "iterable_table"@ && name.0.value@ == "IterableTable"@ {
                    line(
                        "toTypedIterTable<K, V>(field: $.FieldDeclType) { return TypedIterableTable<K, V>.buildFromField(this, field); }"@,
                    )
                } else {
                    seq![]
                }) + (if module_name == "type_info"@ && name.0.value@ == "TypeInfo"@ {
                    line("typeFullname(): string {"@) + line(
                        "  return `${this.account_address.toShortString()}::${$.u8str(this.module_name)}::${$.u8str(this.struct_name)}`;"@,
                    ) + line("}"@) + line(
                        "toTypeTag() { return $.parseTypeTagOrThrow(this.typeFullname()); }"@,
                    ) + line(
                        "moduleName() { return (this.toTypeTag() as $.StructTag).module; }"@,
                    ) + line("structName() { return (this.toTypeTag() as $.StructTag).name; }"@)
                } else {
                    seq![]
                })
            } else {
                seq![]
            }
        },
    }
}

/// Prints the methods that some structs of the framework have besides.
pub fn handle_special_structs(
    name: &StructName,
    w: &mut TsgenWriter,
    c: &mut Context,
) -> (r: WriteResult)
    ensures
        performed(
            old(w)@,
            old(c)@,
            special_struct_steps(*name, old(c)@.current_module),
            final(w)@,
            final(c)@,
            r,
        ),
{
    broadcast use group_run;

    let mident = match c.current_module {
        Some(mident) => mident,
        None => {
            return Ok(());
        },
    };
    let package_name = format_address(&mident.value.address);
    let module_name = mident.value.module.0.value.as_str();
    let struct_name = name.0.value.as_str();
    if same_text(package_name, "std") {
        if same_text(module_name, "string") && same_text(struct_name, "String") {
            w.writeln("str(): string { return $.u8str(this.bytes); }");
        }
    } else if same_text(package_name, "aptos_framework") {
        if same_text(module_name, "iterable_table") && same_text(struct_name, "IterableTable") {
            w.writeln(
                "toTypedIterTable<K, V>(field: $.FieldDeclType) { return TypedIterableTable<K, V>.buildFromField(this, field); }",
            );
        }
        if same_text(module_name, "type_info") && same_text(struct_name, "TypeInfo") {
            w.writeln("typeFullname(): string {");
            w.writeln(
                "  return `${this.account_address.toShortString()}::${$.u8str(this.module_name)}::${$.u8str(this.struct_name)}`;",
            );
            w.writeln("}");
            w.writeln("toTypeTag() { return $.parseTypeTagOrThrow(this.typeFullname()); }");
            w.writeln("moduleName() { return (this.toTypeTag() as $.StructTag).module; }");
            w.writeln("structName() { return (this.toTypeTag() as $.StructTag).name; }");
        }
    }
    Ok(())
}

/// The steps of printing the fields of a class and its constructor.
#[verifier::opaque]
pub open spec fn fields_steps(fields: Seq<StructField>) -> Seq<Step> {
    line("static fields: FieldDeclType[] = ["@) + static_fields_from(fields, 0) + line("];"@)
        + newline() + (if fields.len() > 0 {
        class_fields_from(fields, 0) + newline() + newline()
    } else {
        seq![]
    }) + text("constructor(proto: any, public typeTag: TypeTag) {"@) + open_indent()
        + ctor_fields_from(fields, 0) + close_indent() + line("}"@)
}

fn write_fields(fields: &Vec<StructField>, w: &mut TsgenWriter, c: &mut Context) -> (r:
    WriteResult)
    ensures
        performed(old(w)@, old(c)@, fields_steps(fields@), final(w)@, final(c)@, r),
{
    broadcast use group_run;

    reveal(fields_steps);
    w.writeln("static fields: FieldDeclType[] = [");
    write_static_fields(fields, w, c)?;
    w.writeln("];");
    w.new_line();
    if fields.len() > 0 {
        write_class_fields(fields, w, c)?;
        w.new_line();
        w.new_line();
    }
    w.write("constructor(proto: any, public typeTag: TypeTag) {");
    w.open_indent();
    write_ctor_fields(fields, w, c)?;
    w.close_indent();
    w.writeln("}");
    Ok(())
}

/// The steps of printing the parser of a class and, for a resource, its loader.
#[verifier::opaque]
pub open spec fn parser_steps(name: Seq<char>, is_resource: bool) -> Seq<Step> {
    newline() + line(
        "static "@ + name + "Parser(data:any, typeTag: TypeTag, repo: AptosParserRepo) : "@ + name
            + " {"@,
    ) + line("  const proto = $.parseStructProto(data, typeTag, repo, "@ + name + ");"@) + line(
        "  return new "@ + name + "(proto, typeTag);"@,
    ) + line("}"@) + (if is_resource {
        newline() + line(
            "static async load(repo: AptosParserRepo, client: AptosClient, address: HexString, typeParams: TypeTag[]) {"@,
        ) + line(
            "  const result = await repo.loadResource(client, address, "@ + name + ", typeParams);"@,
        ) + line("  return result as unknown as "@ + name + ";"@) + text("}"@)
    } else {
        seq![]
    })
}

fn write_parser(
    name: &str,
    is_resource: bool,
    w: &mut TsgenWriter,
    c: &mut Context,
) -> (r: WriteResult)
    ensures
        performed(old(w)@, old(c)@, parser_steps(name@, is_resource), final(w)@, final(c)@, r),
{
    broadcast use group_run;

    reveal(parser_steps);
    w.new_line();
    w.writeln(
        cat5(
            "static ",
            name,
            "Parser(data:any, typeTag: TypeTag, repo: AptosParserRepo) : ",
            name,
            " {",
        ).as_str(),
    );
    w.writeln(
        cat3("  const proto = $.parseStructProto(data, typeTag, repo, ", name, ");").as_str(),
    );
    w.writeln(cat3("  return new ", name, "(proto, typeTag);").as_str());
    w.writeln("}");
    if is_resource {
        w.new_line();
        w.writeln(
            "static async load(repo: AptosParserRepo, client: AptosClient, address: HexString, typeParams: TypeTag[]) {",
        );
        w.writeln(
            cat3(
                "  const result = await repo.loadResource(client, address, ",
                name,
                ", typeParams);",
            ).as_str(),
        );
        w.writeln(cat3("  return result as unknown as ", name, ";").as_str());
        w.write("}");
    }
    Ok(())
}

/// The steps of printing the fields of a class and its methods but for those that directives
/// ask for.
pub open spec fn class_steps(
    name: StructName,
    sdef: StructDefinition,
    fields: Seq<StructField>,
    module: Option<ModuleIdent>,
) -> Seq<Step> {
    fields_steps(fields) + parser_steps(
        name.0.value@,
        sdef.abilities.contains(Ability_::Key),
    ) + special_struct_steps(name, module)
}

/// The steps of printing what a class has if the fields of the struct are known.
#[verifier::opaque]
pub open spec fn defined_struct_steps(
    name: StructName,
    sdef: StructDefinition,
    module: Option<ModuleIdent>,
) -> Seq<Step> {
    match sdef.fields {
        StructFields::Native(_) => seq![],
        StructFields::Defined(fields) => class_steps(name, sdef, fields@, module)
            + struct_directives_from(name, sdef, module, 0),
    }
}

fn write_defined_struct<'a>(
    name: &'a StructName,
    sdef: &'a StructDefinition,
    w: &mut TsgenWriter,
    c: &mut Context<'a>,
) -> (r: WriteResult)
    requires
        defined(old(w)@, old(c)@, defined_struct_steps(*name, *sdef, old(c)@.current_module)),
    ensures
        performed(
            old(w)@,
            old(c)@,
            defined_struct_steps(*name, *sdef, old(c)@.current_module),
            final(w)@,
            final(c)@,
            r,
        ),
{
    broadcast use {group_run, lemma_run_keeps};

    reveal(defined_struct_steps);
    match &sdef.fields {
        StructFields::Native(_) => Ok(()),
        StructFields::Defined(fields) => {
            write_fields(fields, w, c)?;
            let is_resource = sdef.abilities.has_ability_(Ability_::Key);
            write_parser(name.0.value.as_str(), is_resource, w, c)?;
            handle_special_structs(name, w, c)?;
            handle_struct_directives(name, sdef, w, c)
        },
    }
}

/// The steps of printing the head of a class.
pub open spec fn class_head_steps(name: StructName, sdef: StructDefinition) -> Seq<Step> {
    newline() + line("export class "@ + name.0.ts@ + " "@) + open_short_block() + line(
        "static moduleAddress = moduleAddress;"@,
    ) + line("static moduleName = moduleName;"@) + line(
        "static structName: string = "@ + quoted(name.0.ts@) + ";"@,
    ) + text("static typeParameters: TypeParamDeclType[] = ["@) + open_indent()
        + struct_tparams_from(sdef.type_parameters@, 0) + close_indent() + line("];"@)
}

/// The steps of printing a struct as a class.
pub open spec fn struct_steps(
    name: StructName,
    sdef: StructDefinition,
    module: Option<ModuleIdent>,
) -> Seq<Step> {
    class_head_steps(name, sdef) + defined_struct_steps(name, sdef, module) + close_short_block()
        + newline()
}

/// Prints a struct as a class.
pub fn write_struct<'a>(
    name: &'a StructName,
    sdef: &'a StructDefinition,
    w: &mut TsgenWriter,
    c: &mut Context<'a>,
) -> (r: WriteResult)
    requires
        defined(old(w)@, old(c)@, struct_steps(*name, *sdef, old(c)@.current_module)),
    ensures
        performed(
            old(w)@,
            old(c)@,
            struct_steps(*name, *sdef, old(c)@.current_module),
            final(w)@,
            final(c)@,
            r,
        ),
{
    broadcast use {group_run, lemma_run_keeps};

    w.new_line();
    let class = name.term(c)?;
    w.writeln(cat3("export class ", class.as_str(), " ").as_str());
    w.open_short_block();
    w.writeln("static moduleAddress = moduleAddress;");
    w.writeln("static moduleName = moduleName;");
    w.writeln(
        cat3("static structName: string = ", quote(class.as_str()).as_str(), ";").as_str(),
    );
    w.write("static typeParameters: TypeParamDeclType[] = [");
    w.open_indent();
    write_struct_tparams(&sdef.type_parameters, w, c)?;
    w.close_indent();
    w.writeln("];");
    write_defined_struct(name, sdef, w, c)?;
    w.close_short_block();
    w.new_line();
    Ok(())
}

} // verus!
