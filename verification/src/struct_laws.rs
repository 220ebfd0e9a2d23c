//! What a struct looks like on the page.

use crate::ast::{
    Attribute, Attribute_, BaseType, ModuleIdent, Name, StructDefinition, StructField,
    StructFields, StructName, StructTypeParameter,
};
use crate::directives::lemma_directives_differ;
use crate::exports::line_start;
use crate::indentation::lemma_struct_shape;
use crate::reading::{
    below, group_paged, group_passes, lemma_done_passes, lemma_flatten_skip, lemma_paged_run,
    lemma_passes_done, paged, passes,
};
use crate::script::{
    close_indent, close_short_block, defined, group_run, line, newline, open_indent,
    open_short_block, run, text, State,
};
use crate::shape::{group_shape, Kind};
use crate::shared::quoted;
use crate::struct_directives::{
    find_field, iter_table_args, show_from, show_iter_table_from, show_iter_table_steps,
    show_steps, struct_directive_steps, struct_directives_from,
};
use crate::structs::{
    class_fields_from, class_head_steps, ctor_fields_from, defined_struct_steps, fields_steps,
    parser_steps, special_struct_steps, static_fields_from, struct_steps, struct_tparams_from,
};
use crate::tsgen_writer::{margin, page, Page};
use vstd::prelude::*;

verus! {

/// The lines of a list, one item to a line, with `sep` behind each item but the last and `end`
/// behind that.
pub open spec fn listed(items: Seq<Seq<char>>, sep: Seq<char>, end: Seq<char>) -> Seq<Seq<char>> {
    Seq::new(
        items.len(),
        |k: int|
            items[k] + (if k + 1 < items.len() {
                sep
            } else {
                end
            }),
    )
}

spec fn described(f: StructField, m: Seq<char>) -> Seq<char> {
    m + ("{ name: "@ + ("\""@ + f.name.0.ts@ + "\""@) + ", typeTag: "@ + f.typetag.shown() + " }"@)
}

proof fn lemma_static_fields_below(p: Page, fields: Seq<StructField>, i: int)
    requires
        p.cur.len() == 0,
        0 <= i <= fields.len(),
    ensures
        ({
            let q = paged(p, static_fields_from(fields, i) + line("];"@));
            let m = margin(p.level);
            &&& i < fields.len() ==> q == below(
                p,
                Seq::new(
                    (fields.len() - i) as nat,
                    |k: int|
                        described(fields[i + k], m) + (if i + k + 1 < fields.len() {
                            ","@
                        } else {
                            "];"@
                        }),
                ),
            )
            &&& i == fields.len() ==> q == below(p, seq![m + "];"@])
        }),
        passes(static_fields_from(fields, i)) <==> forall|k: int|
            i <= k < fields.len() ==> (#[trigger] fields[k]).typetag.text is Ok,
    decreases fields.len() - i,
{
    broadcast use {group_paged, group_passes};

    let m = margin(p.level);
    let q = paged(p, static_fields_from(fields, i) + line("];"@));
    assert(p.cur =~= Seq::empty());
    if i < fields.len() {
        reveal_strlit(" }");
        assert(" }"@.len() == 2);
        let item = described(fields[i], m);
        assert(item.len() > 0);
        assert(static_fields_from(fields, fields.len() as int) =~= seq![]);
        if i + 1 < fields.len() {
            let next = Page { lines: p.lines.push(item + ","@), cur: Seq::empty(), level: p.level };
            lemma_static_fields_below(next, fields, i + 1);
            assert(q == paged(next, static_fields_from(fields, i + 1) + line("];"@)));
        } else {
            assert(q.lines == p.lines.push(item + "];"@));
        }
        assert(q.lines =~= p.lines + Seq::new(
            (fields.len() - i) as nat,
            |k: int|
                described(fields[i + k], m) + (if i + k + 1 < fields.len() {
                    ","@
                } else {
                    "];"@
                }),
        ));
    } else {
        assert(q.lines =~= p.lines + seq![m + "];"@]);
    }
    assert(q.cur =~= Seq::empty());
}

proof fn lemma_class_fields_below(p: Page, fields: Seq<StructField>, i: int)
    requires
        p.cur.len() == 0,
        0 <= i <= fields.len(),
    ensures
        ({
            let q = paged(p, class_fields_from(fields, i) + newline());
            i < fields.len() ==> q == below(
                p,
                Seq::new(
                    (fields.len() - i) as nat,
                    |k: int|
                        margin(p.level) + (fields[i + k].name.0.ts@ + ": "@
                            + fields[i + k].ty.ts.shown() + ";"@),
                ),
            )
        }),
        passes(class_fields_from(fields, i)) <==> forall|k: int|
            i <= k < fields.len() ==> (#[trigger] fields[k]).ty.ts.text is Ok,
    decreases fields.len() - i,
{
    broadcast use {group_paged, group_passes};

    let m = margin(p.level);
    let q = paged(p, class_fields_from(fields, i) + newline());
    if i < fields.len() {
        reveal_strlit(";");
        reveal_strlit("");
        let item = m + (fields[i].name.0.ts@ + ": "@ + fields[i].ty.ts.shown() + ";"@);
        assert(item.len() > 0);
        assert(item + ""@ =~= item);
        assert(class_fields_from(fields, fields.len() as int) =~= seq![]);
        if i + 1 < fields.len() {
            let next = Page { lines: p.lines.push(item), cur: Seq::empty(), level: p.level };
            lemma_class_fields_below(next, fields, i + 1);
            assert(q == paged(next, class_fields_from(fields, i + 1) + newline()));
        } else {
            assert(q.lines == p.lines.push(item));
        }
        assert(q.lines =~= p.lines + Seq::new(
            (fields.len() - i) as nat,
            |k: int|
                margin(p.level) + (fields[i + k].name.0.ts@ + ": "@ + fields[i + k].ty.ts.shown()
                    + ";"@),
        ));
        assert(q.cur =~= Seq::empty());
    }
}

proof fn lemma_ctor_fields_below(p: Page, fields: Seq<StructField>, i: int)
    requires
        p.cur.len() == 0,
        0 <= i <= fields.len(),
    ensures
        ({
            let q = paged(p, ctor_fields_from(fields, i) + newline());
            i < fields.len() ==> q == below(
                p,
                Seq::new(
                    (fields.len() - i) as nat,
                    |k: int|
                        margin(p.level) + ("this."@ + fields[i + k].name.0.ts@ + " = proto['"@
                            + fields[i + k].name.0.ts@ + "'] as "@ + fields[i + k].ty.ts.shown()
                            + ";"@),
                ),
            )
        }),
        passes(ctor_fields_from(fields, i)) <==> forall|k: int|
            i <= k < fields.len() ==> (#[trigger] fields[k]).ty.ts.text is Ok,
    decreases fields.len() - i,
{
    broadcast use {group_paged, group_passes};

    let m = margin(p.level);
    let q = paged(p, ctor_fields_from(fields, i) + newline());
    if i < fields.len() {
        reveal_strlit(";");
        reveal_strlit("");
        let item = m + ("this."@ + fields[i].name.0.ts@ + " = proto['"@ + fields[i].name.0.ts@
            + "'] as "@ + fields[i].ty.ts.shown() + ";"@);
        assert(item.len() > 0);
        assert(item + ""@ =~= item);
        assert(ctor_fields_from(fields, fields.len() as int) =~= seq![]);
        if i + 1 < fields.len() {
            let next = Page { lines: p.lines.push(item), cur: Seq::empty(), level: p.level };
            lemma_ctor_fields_below(next, fields, i + 1);
            assert(q == paged(next, ctor_fields_from(fields, i + 1) + newline()));
        } else {
            assert(q.lines == p.lines.push(item));
        }
        assert(q.lines =~= p.lines + Seq::new(
            (fields.len() - i) as nat,
            |k: int|
                margin(p.level) + ("this."@ + fields[i + k].name.0.ts@ + " = proto['"@
                    + fields[i + k].name.0.ts@ + "'] as "@ + fields[i + k].ty.ts.shown() + ";"@),
        ));
        assert(q.cur =~= Seq::empty());
    }
}

spec fn tparam_described(t: StructTypeParameter, m: Seq<char>) -> Seq<char> {
    m + ("{ name: "@ + t.quoted_ts@ + ", isPhantom: "@ + (if t.is_phantom {
        "true"@
    } else {
        "false"@
    }) + " }"@)
}

proof fn lemma_struct_tparams_below(p: Page, tparams: Seq<StructTypeParameter>, i: int)
    requires
        p.cur.len() == 0,
        0 <= i <= tparams.len(),
    ensures
        ({
            let q = paged(p, struct_tparams_from(tparams, i) + newline());
            i < tparams.len() ==> q == below(
                p,
                Seq::new(
                    (tparams.len() - i) as nat,
                    |k: int|
                        tparam_described(tparams[i + k], margin(p.level)) + (if i + k + 1
                            < tparams.len() {
                            ","@
                        } else {
                            Seq::empty()
                        }),
                ),
            )
        }),
        passes(struct_tparams_from(tparams, i)),
    decreases tparams.len() - i,
{
    broadcast use {group_paged, group_passes};

    let m = margin(p.level);
    let q = paged(p, struct_tparams_from(tparams, i) + newline());
    if i < tparams.len() {
        reveal_strlit(" }");
        let item = tparam_described(tparams[i], m);
        assert(item.len() > 0);
        assert(item + Seq::empty() =~= item);
        assert(struct_tparams_from(tparams, tparams.len() as int) =~= seq![]);
        if i + 1 < tparams.len() {
            let next = Page { lines: p.lines.push(item + ","@), cur: Seq::empty(), level: p.level };
            lemma_struct_tparams_below(next, tparams, i + 1);
            assert(q == paged(next, struct_tparams_from(tparams, i + 1) + newline()));
        } else {
            assert(q.lines == p.lines.push(item));
        }
        assert(q.lines =~= p.lines + Seq::new(
            (tparams.len() - i) as nat,
            |k: int|
                tparam_described(tparams[i + k], margin(p.level)) + (if i + k + 1
                    < tparams.len() {
                    ","@
                } else {
                    Seq::empty()
                }),
        ));
        assert(q.cur =~= Seq::empty());
    }
}

/// The lines of the fields of a class and its constructor.
spec fn field_section(fields: Seq<StructField>, level: nat) -> Seq<Seq<char>> {
    let m = margin(level);
    let m1 = margin(level + 1);
    seq![m + "static fields: FieldDeclType[] = ["@] + (if fields.len() == 0 {
        seq![m + "];"@]
    } else {
        listed(fields.map_values(|f: StructField| described(f, m)), ","@, "];"@)
    }) + seq![Seq::empty()] + (if fields.len() == 0 {
        Seq::empty()
    } else {
        fields.map_values(
            |f: StructField| m + (f.name.0.ts@ + ": "@ + f.ty.ts.shown() + ";"@),
        ) + seq![Seq::empty()]
    }) + seq![m + "constructor(proto: any, public typeTag: TypeTag) {"@] + (if fields.len()
        == 0 {
        seq![Seq::empty()]
    } else {
        fields.map_values(
            |f: StructField|
                m1 + ("this."@ + f.name.0.ts@ + " = proto['"@ + f.name.0.ts@ + "'] as "@
                    + f.ty.ts.shown() + ";"@),
        )
    }) + seq![m + "}"@]
}

proof fn lemma_descriptions_below(p: Page, fields: Seq<StructField>)
    requires
        p.cur.len() == 0,
    ensures
        ({
            let m = margin(p.level);
            paged(p, static_fields_from(fields, 0) + line("];"@)) == below(
                p,
                if fields.len() == 0 {
                    seq![m + "];"@]
                } else {
                    listed(fields.map_values(|f: StructField| described(f, m)), ","@, "];"@)
                },
            )
        }),
{
    lemma_static_fields_below(p, fields, 0);
    let m = margin(p.level);
    if fields.len() > 0 {
        assert(Seq::new(
            (fields.len() - 0) as nat,
            |k: int|
                described(fields[0 + k], m) + (if 0 + k + 1 < fields.len() {
                    ","@
                } else {
                    "];"@
                }),
        ) =~= listed(fields.map_values(|f: StructField| described(f, m)), ","@, "];"@));
    }
}

proof fn lemma_declarations_below(p: Page, fields: Seq<StructField>)
    requires
        p.cur.len() == 0,
        fields.len() > 0,
    ensures
        paged(p, class_fields_from(fields, 0) + newline() + newline()) == below(
            p,
            fields.map_values(
                |f: StructField| margin(p.level) + (f.name.0.ts@ + ": "@ + f.ty.ts.shown() + ";"@),
            ) + seq![Seq::empty()],
        ),
{
    broadcast use group_paged;

    lemma_class_fields_below(p, fields, 0);
    let q = paged(p, class_fields_from(fields, 0) + newline() + newline());
    assert(q.lines =~= p.lines + (fields.map_values(
        |f: StructField| margin(p.level) + (f.name.0.ts@ + ": "@ + f.ty.ts.shown() + ";"@),
    ) + seq![Seq::empty()]));
    assert(q.cur =~= Seq::empty());
}

proof fn lemma_constructor_below(p: Page, fields: Seq<StructField>)
    requires
        p.cur.len() == 0,
    ensures
        ({
            let m = margin(p.level);
            let m1 = margin(p.level + 1);
            paged(
                p,
                text("constructor(proto: any, public typeTag: TypeTag) {"@) + open_indent()
                    + ctor_fields_from(fields, 0) + close_indent() + line("}"@),
            ) == below(
                p,
                seq![m + "constructor(proto: any, public typeTag: TypeTag) {"@] + (if fields.len()
                    == 0 {
                    seq![Seq::empty()]
                } else {
                    fields.map_values(
                        |f: StructField|
                            m1 + ("this."@ + f.name.0.ts@ + " = proto['"@ + f.name.0.ts@
                                + "'] as "@ + f.ty.ts.shown() + ";"@),
                    )
                }) + seq![m + "}"@],
            )
        }),
{
    broadcast use group_paged;

    let m = margin(p.level);
    let m1 = margin(p.level + 1);
    let head = text("constructor(proto: any, public typeTag: TypeTag) {"@) + open_indent();
    let inner = Page {
        lines: p.lines.push(m + "constructor(proto: any, public typeTag: TypeTag) {"@),
        cur: Seq::empty(),
        level: p.level + 1,
    };
    assert(paged(p, head) == inner);
    lemma_ctor_fields_below(inner, fields, 0);
    let ended = paged(inner, ctor_fields_from(fields, 0) + newline());
    let q = paged(p, head + ctor_fields_from(fields, 0) + close_indent() + line("}"@));
    if fields.len() == 0 {
        assert(ctor_fields_from(fields, 0) =~= Seq::empty());
    }
    assert(q.lines == ended.lines.push(m + "}"@));
    assert(q.lines =~= p.lines + (seq![
        m + "constructor(proto: any, public typeTag: TypeTag) {"@,
    ] + (if fields.len() == 0 {
        seq![Seq::empty()]
    } else {
        fields.map_values(
            |f: StructField|
                m1 + ("this."@ + f.name.0.ts@ + " = proto['"@ + f.name.0.ts@ + "'] as "@
                    + f.ty.ts.shown() + ";"@),
        )
    }) + seq![m + "}"@]));
    assert(q.cur =~= Seq::empty());
}

proof fn lemma_fields_below(p: Page, fields: Seq<StructField>)
    requires
        p.cur.len() == 0,
    ensures
        paged(p, fields_steps(fields)) == below(p, field_section(fields, p.level)),
        passes(fields_steps(fields)) <==> forall|k: int|
            0 <= k < fields.len() ==> (#[trigger] fields[k]).typetag.text is Ok
                && fields[k].ty.ts.text is Ok,
{
    broadcast use {group_paged, group_passes};

    reveal(fields_steps);
    let m = margin(p.level);
    lemma_static_fields_below(p, fields, 0);
    lemma_class_fields_below(p, fields, 0);
    lemma_ctor_fields_below(p, fields, 0);
    let p1 = Page {
        lines: p.lines.push(m + "static fields: FieldDeclType[] = ["@),
        cur: Seq::empty(),
        level: p.level,
    };
    assert(paged(p, line("static fields: FieldDeclType[] = ["@)) == p1);
    lemma_descriptions_below(p1, fields);
    let p2 = paged(p1, static_fields_from(fields, 0) + line("];"@));
    let p3 = Page { lines: p2.lines.push(Seq::empty()), ..p2 };
    assert(paged(p2, newline()) == p3);
    let declarations = if fields.len() > 0 {
        class_fields_from(fields, 0) + newline() + newline()
    } else {
        seq![]
    };
    if fields.len() > 0 {
        lemma_declarations_below(p3, fields);
    }
    let p4 = paged(p3, declarations);
    lemma_constructor_below(p4, fields);
    let ctor = text("constructor(proto: any, public typeTag: TypeTag) {"@) + open_indent()
        + ctor_fields_from(fields, 0) + close_indent() + line("}"@);
    let q = paged(p, fields_steps(fields));
    assert(q == paged(p4, ctor));
    assert(q.lines =~= p.lines + field_section(fields, p.level));
}

/// The lines of the parser of a class and the loader of a resource but for its last brace.
spec fn parser_section(name: Seq<char>, key: bool, level: nat) -> Seq<Seq<char>> {
    let m = margin(level);
    seq![
        Seq::empty(),
        m + ("static "@ + name + "Parser(data:any, typeTag: TypeTag, repo: AptosParserRepo) : "@
            + name + " {"@),
        m + ("  const proto = $.parseStructProto(data, typeTag, repo, "@ + name + ");"@),
        m + ("  return new "@ + name + "(proto, typeTag);"@),
        m + "}"@,
    ] + (if key {
        seq![
            Seq::empty(),
            m
                + "static async load(repo: AptosParserRepo, client: AptosClient, address: HexString, typeParams: TypeTag[]) {"@,
            m + ("  const result = await repo.loadResource(client, address, "@ + name
                + ", typeParams);"@),
            m + ("  return result as unknown as "@ + name + ";"@),
        ]
    } else {
        Seq::empty()
    })
}

proof fn lemma_parser_below(p: Page, name: Seq<char>, key: bool)
    requires
        p.cur.len() == 0,
    ensures
        paged(p, parser_steps(name, key)) == (Page {
            lines: p.lines + parser_section(name, key, p.level),
            cur: if key {
                margin(p.level) + "}"@
            } else {
                Seq::empty()
            },
            level: p.level,
        }),
        passes(parser_steps(name, key)),
{
    broadcast use {group_paged, group_passes};

    reveal(parser_steps);
    let q = paged(p, parser_steps(name, key));
    assert(p.cur =~= Seq::empty());
    assert(q.lines =~= p.lines + parser_section(name, key, p.level));
    if !key {
        assert(q.cur =~= Seq::empty());
    }
}

/// The methods that some structs of the framework have besides, line by line.
pub open spec fn special_methods(name: StructName, mident: ModuleIdent) -> Seq<Seq<char>> {
    let package = mident.value.address.name@;
    let module = mident.value.module.0.value@;
    let sname = name.0.value@;
    if package == "std"@ && module == "string"@ && sname == "String"@ {
        seq!["str(): string { return $.u8str(this.bytes); }"@]
    } else if package == "aptos_framework"@ && module == "iterable_table"@ && sname
        == "IterableTable"@ {
        seq![
            "toTypedIterTable<K, V>(field: $.FieldDeclType) { return TypedIterableTable<K, V>.buildFromField(this, field); }"@,
        ]
    } else if package == "aptos_framework"@ && module == "type_info"@ && sname == "TypeInfo"@ {
        seq![
            "typeFullname(): string {"@,
            "  return `${this.account_address.toShortString()}::${$.u8str(this.module_name)}::${$.u8str(this.struct_name)}`;"@,
            "}"@,
            "toTypeTag() { return $.parseTypeTagOrThrow(this.typeFullname()); }"@,
            "moduleName() { return (this.toTypeTag() as $.StructTag).module; }"@,
            "structName() { return (this.toTypeTag() as $.StructTag).name; }"@,
        ]
    } else {
        Seq::empty()
    }
}

/// A page on which lines are written, the first of them behind what stands on the current line.
pub open spec fn continued(p: Page, lines: Seq<Seq<char>>) -> Page {
    if lines.len() == 0 {
        p
    } else {
        Page {
            lines: p.lines + seq![line_start(p) + lines[0]] + lines.skip(1).map_values(
                |line: Seq<char>| margin(p.level) + line,
            ),
            cur: Seq::empty(),
            level: p.level,
        }
    }
}

proof fn lemma_framework_names_differ()
    ensures
        "std"@ != "aptos_framework"@,
        "iterable_table"@ != "type_info"@,
{
    reveal_strlit("std");
    reveal_strlit("aptos_framework");
    reveal_strlit("iterable_table");
    reveal_strlit("type_info");
    assert("std"@.len() != "aptos_framework"@.len());
    assert("iterable_table"@.len() != "type_info"@.len());
}

proof fn lemma_special_below(p: Page, name: StructName, mident: ModuleIdent)
    ensures
        paged(p, special_struct_steps(name, Some(mident))) == continued(
            p,
            special_methods(name, mident),
        ),
        passes(special_struct_steps(name, Some(mident))),
{
    broadcast use {group_paged, group_passes};

    lemma_framework_names_differ();
    let q = paged(p, special_struct_steps(name, Some(mident)));
    let lines = special_methods(name, mident);
    if lines.len() > 0 {
        assert(q.lines =~= continued(p, lines).lines);
        assert(q.cur =~= Seq::empty());
    }
}

/// Some structs of the framework have methods besides, and no others have.
pub proof fn law_special_methods(name: StructName, mident: ModuleIdent, s: State)
    ensures
        run(s, special_struct_steps(name, Some(mident))).end is Done,
        page(run(s, special_struct_steps(name, Some(mident))).state.doc) == continued(
            page(s.doc),
            special_methods(name, mident),
        ),
        run(s, special_struct_steps(name, None)).state == s,
{
    broadcast use {group_run, group_shape};

    let steps = special_struct_steps(name, Some(mident));
    lemma_special_below(page(s.doc), name, mident);
    lemma_passes_done(Kind::Plain, s, steps);
    lemma_paged_run(s, steps);
}

/// The lines of the method for a function that is to show a struct.
pub open spec fn show_method(inner: (Name, Attribute), m: Seq<char>) -> Seq<Seq<char>> {
    match inner.1.value {
        Attribute_::Name(f) => seq![
            Seq::empty(),
            m + (f.value@ + "() {"@),
            m + "  const cache = new DummyCache();"@,
            m + "  const tags = (this.typeTag as StructTag).typeParams;"@,
            m + ("  return "@ + f.value@ + "$(this, cache, tags);"@),
            m + "}"@,
        ],
        _ => Seq::empty(),
    }
}

proof fn lemma_show_one_below(
    p: Page,
    sname: StructName,
    sdef: StructDefinition,
    f: Name,
    mident: ModuleIdent,
    inner: (Name, Attribute),
)
    requires
        p.cur.len() == 0,
        inner.1.value == Attribute_::Name(f),
    ensures
        paged(p, show_steps(sname, sdef, f, Some(mident))) == below(
            p,
            show_method(inner, margin(p.level)),
        ),
        passes(show_steps(sname, sdef, f, Some(mident))),
{
    broadcast use {group_paged, group_passes};

    reveal(show_steps);
    let q = paged(p, show_steps(sname, sdef, f, Some(mident)));
    assert(p.cur =~= Seq::empty());
    assert(q.lines =~= p.lines + show_method(inner, margin(p.level)));
    assert(q.cur =~= Seq::empty());
}

proof fn lemma_show_below(
    p: Page,
    sname: StructName,
    sdef: StructDefinition,
    attrs: Seq<(Name, Attribute)>,
    mident: ModuleIdent,
    i: int,
)
    requires
        p.cur.len() == 0,
        0 <= i <= attrs.len(),
    ensures
        ({
            let steps = show_from(sname, sdef, attrs, Some(mident), i);
            let m = margin(p.level);
            &&& passes(steps) ==> paged(p, steps) == below(
                p,
                attrs.map_values(|x: (Name, Attribute)| show_method(x, m)).skip(i).flatten(),
            )
            &&& passes(steps) <==> forall|k: int|
                i <= k < attrs.len() ==> (#[trigger] attrs[k]).1.value is Name
        }),
    decreases attrs.len() - i,
{
    broadcast use {group_paged, group_passes};

    let m = margin(p.level);
    let parts = attrs.map_values(|x: (Name, Attribute)| show_method(x, m));
    let steps = show_from(sname, sdef, attrs, Some(mident), i);
    lemma_flatten_skip(parts, i);
    if i < attrs.len() {
        if let Attribute_::Name(f) = attrs[i].1.value {
            lemma_show_one_below(p, sname, sdef, f, mident, attrs[i]);
            let next = below(p, show_method(attrs[i], m));
            lemma_show_below(next, sname, sdef, attrs, mident, i + 1);
            assert(parts[i] == show_method(attrs[i], m));
        }
    }
    if passes(steps) {
        let q = paged(p, steps);
        assert(q.lines =~= p.lines + parts.skip(i).flatten());
        assert(q.cur =~= Seq::empty());
    }
}

/// The key and value types of the iterable table in the first field of a name, if there is one.
pub open spec fn table_in_field(sdef: StructDefinition, name: Name) -> Option<(BaseType, BaseType)> {
    match sdef.fields {
        StructFields::Defined(fields) => match find_field(fields@, name, 0) {
            Some(i) => match iter_table_args(fields@[i].ty) {
                Some(targs) => if targs.len() == 2 {
                    Some((targs[0], targs[1]))
                } else {
                    None
                },
                None => None,
            },
            None => None,
        },
        _ => None,
    }
}

/// The lines of the method that lists the entries of an iterable table.
pub open spec fn table_method(
    sname: StructName,
    sdef: StructDefinition,
    inner: (Name, Attribute),
    m: Seq<char>,
) -> Seq<Seq<char>> {
    match inner.1.value {
        Attribute_::Name(f) => match table_in_field(sdef, f) {
            Some((key, value)) => seq![
                Seq::empty(),
                m + ("async getIterTableEntries_"@ + f.value@
                    + "(client: AptosClient, repo: AptosParserRepo) {"@),
                m + "  const cache = new DummyCache();"@,
                m + "  const tags = (this.typeTag as StructTag).typeParams;"@,
                m + ("  const iterTableField = "@ + sname.0.value@
                    + ".fields.filter(f=>f.name === '"@ + f.value@ + "')[0]"@),
                m + ("  const typedIterTable = this."@ + f.value@ + ".toTypedIterTable<"@
                    + key.ts.shown() + ","@ + value.ts.shown() + ">(iterTableField);"@),
                m + "  return await typedIterTable.fetchAll(client, repo);"@,
                m + "}"@,
            ],
            None => Seq::empty(),
        },
        _ => Seq::empty(),
    }
}

/// Whether a directive names a field that holds an iterable table whose types have texts.
pub open spec fn good_table(sdef: StructDefinition, inner: (Name, Attribute)) -> bool {
    &&& inner.1.value matches Attribute_::Name(f)
    &&& table_in_field(sdef, f) matches Some((key, value))
    &&& key.ts.text is Ok
    &&& value.ts.text is Ok
}

proof fn lemma_table_one_below(
    p: Page,
    sname: StructName,
    sdef: StructDefinition,
    f: Name,
    mident: ModuleIdent,
    inner: (Name, Attribute),
)
    requires
        p.cur.len() == 0,
        inner.1.value == Attribute_::Name(f),
    ensures
        passes(show_iter_table_steps(sname, sdef, f, Some(mident))) ==> paged(
            p,
            show_iter_table_steps(sname, sdef, f, Some(mident)),
        ) == below(p, table_method(sname, sdef, inner, margin(p.level))),
        passes(show_iter_table_steps(sname, sdef, f, Some(mident))) <==> good_table(sdef, inner),
{
    broadcast use {group_paged, group_passes};

    reveal(show_iter_table_steps);
    if good_table(sdef, inner) {
        let q = paged(p, show_iter_table_steps(sname, sdef, f, Some(mident)));
        assert(p.cur =~= Seq::empty());
        assert(q.lines =~= p.lines + table_method(sname, sdef, inner, margin(p.level)));
        assert(q.cur =~= Seq::empty());
    }
}

proof fn lemma_tables_below(
    p: Page,
    sname: StructName,
    sdef: StructDefinition,
    attrs: Seq<(Name, Attribute)>,
    mident: ModuleIdent,
    i: int,
)
    requires
        p.cur.len() == 0,
        0 <= i <= attrs.len(),
    ensures
        ({
            let steps = show_iter_table_from(sname, sdef, attrs, Some(mident), i);
            let m = margin(p.level);
            &&& passes(steps) ==> paged(p, steps) == below(
                p,
                attrs.map_values(
                    |x: (Name, Attribute)| table_method(sname, sdef, x, m),
                ).skip(i).flatten(),
            )
            &&& passes(steps) <==> forall|k: int|
                i <= k < attrs.len() ==> good_table(sdef, #[trigger] attrs[k])
        }),
    decreases attrs.len() - i,
{
    broadcast use {group_paged, group_passes};

    let m = margin(p.level);
    let parts = attrs.map_values(|x: (Name, Attribute)| table_method(sname, sdef, x, m));
    let steps = show_iter_table_from(sname, sdef, attrs, Some(mident), i);
    lemma_flatten_skip(parts, i);
    if i < attrs.len() {
        if let Attribute_::Name(f) = attrs[i].1.value {
            lemma_table_one_below(p, sname, sdef, f, mident, attrs[i]);
            let next = below(p, table_method(sname, sdef, attrs[i], m));
            lemma_tables_below(next, sname, sdef, attrs, mident, i + 1);
            assert(parts[i] == table_method(sname, sdef, attrs[i], m));
        }
    }
    if passes(steps) {
        let q = paged(p, steps);
        assert(q.lines =~= p.lines + parts.skip(i).flatten());
        assert(q.cur =~= Seq::empty());
    }
}

/// The lines that a directive on a struct adds: a blank line and the methods that it asks for.
pub open spec fn directive_lines(
    sname: StructName,
    sdef: StructDefinition,
    attr: (Name, Attribute),
    m: Seq<char>,
) -> Seq<Seq<char>> {
    match attr.1.value {
        Attribute_::Parameterized(_, inner) => if attr.0.value@ == "show"@ {
            seq![Seq::empty()] + inner@.map_values(
                |x: (Name, Attribute)| show_method(x, m),
            ).flatten()
        } else if attr.0.value@ == "show_iter_table"@ {
            seq![Seq::empty()] + inner@.map_values(
                |x: (Name, Attribute)| table_method(sname, sdef, x, m),
            ).flatten()
        } else {
            Seq::empty()
        },
        _ => Seq::empty(),
    }
}

/// Whether a directive on a struct can be handled.
pub open spec fn good_directive(sdef: StructDefinition, attr: (Name, Attribute)) -> bool {
    &&& attr.0.value@ != "cmd"@
    &&& attr.0.value@ == "show"@ ==> (attr.1.value matches Attribute_::Parameterized(_, inner)
        && forall|k: int| 0 <= k < inner@.len() ==> (#[trigger] inner@[k]).1.value is Name)
    &&& attr.0.value@ == "show_iter_table"@ ==> (
    attr.1.value matches Attribute_::Parameterized(_, inner) && forall|k: int|
        0 <= k < inner@.len() ==> good_table(sdef, #[trigger] inner@[k]))
}

/// The lines that the directives on a struct add from the one at `i` on.
spec fn directives_lines(
    sname: StructName,
    sdef: StructDefinition,
    m: Seq<char>,
    i: int,
) -> Seq<Seq<char>> {
    sdef.attributes@.map_values(
        |a: (Name, Attribute)| directive_lines(sname, sdef, a, m),
    ).skip(i).flatten()
}

/// The page behind lines the first of which is blank: it ends the current line.
spec fn behind_blank(p: Page, lines: Seq<Seq<char>>) -> Page {
    if lines.len() == 0 {
        p
    } else {
        Page { lines: p.lines.push(p.cur) + lines.skip(1), cur: Seq::empty(), level: p.level }
    }
}

proof fn lemma_directives_start_blank(
    sname: StructName,
    sdef: StructDefinition,
    m: Seq<char>,
    i: int,
)
    requires
        0 <= i <= sdef.attributes@.len(),
    ensures
        directives_lines(sname, sdef, m, i).len() > 0 ==> directives_lines(sname, sdef, m, i)[0]
            == Seq::<char>::empty(),
    decreases sdef.attributes@.len() - i,
{
    let parts = sdef.attributes@.map_values(
        |a: (Name, Attribute)| directive_lines(sname, sdef, a, m),
    );
    lemma_flatten_skip(parts, i);
    if i < sdef.attributes@.len() {
        lemma_directives_start_blank(sname, sdef, m, i + 1);
        assert(parts[i] == directive_lines(sname, sdef, sdef.attributes@[i], m));
        if parts[i].len() > 0 {
            assert(parts[i][0] =~= Seq::empty());
        } else {
            assert(directives_lines(sname, sdef, m, i) =~= directives_lines(
                sname,
                sdef,
                m,
                i + 1,
            ));
        }
    }
}

proof fn lemma_directive_below(
    p: Page,
    sname: StructName,
    sdef: StructDefinition,
    attr: (Name, Attribute),
    mident: ModuleIdent,
)
    ensures
        ({
            let steps = struct_directive_steps(sname, sdef, attr.0, attr.1, Some(mident));
            let m = margin(p.level);
            &&& passes(steps) ==> paged(p, steps) == behind_blank(
                p,
                directive_lines(sname, sdef, attr, m),
            )
            &&& passes(steps) <==> good_directive(sdef, attr)
        }),
{
    broadcast use {group_paged, group_passes};

    lemma_directives_differ();
    let steps = struct_directive_steps(sname, sdef, attr.0, attr.1, Some(mident));
    let m = margin(p.level);
    let ended = Page { lines: p.lines.push(p.cur), cur: Seq::empty(), level: p.level };
    assert(paged(p, newline()) == ended);
    if let Attribute_::Parameterized(_, inner) = attr.1.value {
        lemma_show_below(ended, sname, sdef, inner@, mident, 0);
        lemma_tables_below(ended, sname, sdef, inner@, mident, 0);
        let shows = inner@.map_values(|x: (Name, Attribute)| show_method(x, m));
        let tables = inner@.map_values(|x: (Name, Attribute)| table_method(sname, sdef, x, m));
        assert(shows.skip(0) =~= shows);
        assert(tables.skip(0) =~= tables);
        let blank = seq![Seq::<char>::empty()];
        assert((blank + shows.flatten()).skip(1) =~= shows.flatten());
        assert((blank + tables.flatten()).skip(1) =~= tables.flatten());
    }
}

/// A directive on a struct can be handled if and only if it is a good one.
pub proof fn lemma_directive_passes(
    sname: StructName,
    sdef: StructDefinition,
    attr: (Name, Attribute),
    mident: ModuleIdent,
)
    ensures
        passes(struct_directive_steps(sname, sdef, attr.0, attr.1, Some(mident)))
            <==> good_directive(sdef, attr),
{
    let start = Page { lines: Seq::empty(), cur: Seq::empty(), level: 0 };
    lemma_directive_below(start, sname, sdef, attr, mident);
}

proof fn lemma_directives_below(
    p: Page,
    sname: StructName,
    sdef: StructDefinition,
    mident: ModuleIdent,
    i: int,
)
    requires
        0 <= i <= sdef.attributes@.len(),
    ensures
        ({
            let steps = struct_directives_from(sname, sdef, Some(mident), i);
            &&& passes(steps) ==> paged(p, steps) == behind_blank(
                p,
                directives_lines(sname, sdef, margin(p.level), i),
            )
            &&& passes(steps) <==> forall|k: int|
                i <= k < sdef.attributes@.len() ==> good_directive(
                    sdef,
                    #[trigger] sdef.attributes@[k],
                )
        }),
    decreases sdef.attributes@.len() - i,
{
    broadcast use {group_paged, group_passes};

    let m = margin(p.level);
    let attrs = sdef.attributes@;
    let steps = struct_directives_from(sname, sdef, Some(mident), i);
    let parts = attrs.map_values(|a: (Name, Attribute)| directive_lines(sname, sdef, a, m));
    lemma_flatten_skip(parts, i);
    if i < attrs.len() {
        lemma_directive_below(p, sname, sdef, attrs[i], mident);
        let part = directive_lines(sname, sdef, attrs[i], m);
        assert(parts[i] == part);
        let next = behind_blank(p, part);
        lemma_directives_below(next, sname, sdef, mident, i + 1);
        lemma_directives_start_blank(sname, sdef, m, i + 1);
        let all = directives_lines(sname, sdef, m, i);
        let rest = directives_lines(sname, sdef, m, i + 1);
        assert(all == part + rest);
        if part.len() == 0 {
            assert(all =~= rest);
        } else {
            assert(behind_blank(next, rest).lines =~= behind_blank(p, all).lines);
            assert(behind_blank(next, rest).cur =~= behind_blank(p, all).cur);
        }
    }
}

/// The lines of a class in front of what depends on its fields.
spec fn head_section(name: StructName, sdef: StructDefinition, level: nat) -> Seq<Seq<char>> {
    let m = margin(level);
    let m1 = margin(level + 1);
    let m2 = margin(level + 2);
    seq![
        m + ("export class "@ + name.0.ts@ + " "@),
        m + "{"@,
        m1 + "static moduleAddress = moduleAddress;"@,
        m1 + "static moduleName = moduleName;"@,
        m1 + ("static structName: string = "@ + ("\""@ + name.0.ts@ + "\""@) + ";"@),
        m1 + "static typeParameters: TypeParamDeclType[] = ["@,
    ] + (if sdef.type_parameters@.len() == 0 {
        seq![Seq::empty()]
    } else {
        listed(
            sdef.type_parameters@.map_values(
                |t: StructTypeParameter| tparam_described(t, m2),
            ),
            ","@,
            Seq::empty(),
        )
    }) + seq![m1 + "];"@]
}

proof fn lemma_head_below(p: Page, name: StructName, sdef: StructDefinition)
    ensures
        paged(p, class_head_steps(name, sdef)) == (Page {
            lines: p.lines.push(p.cur) + head_section(name, sdef, p.level),
            cur: Seq::empty(),
            level: p.level + 1,
        }),
        passes(class_head_steps(name, sdef)),
{
    broadcast use {group_paged, group_passes};

    let m = margin(p.level);
    let m1 = margin(p.level + 1);
    let m2 = margin(p.level + 2);
    let tparams = sdef.type_parameters@;
    let opening = newline() + line("export class "@ + name.0.ts@ + " "@) + open_short_block()
        + line("static moduleAddress = moduleAddress;"@) + line(
        "static moduleName = moduleName;"@,
    ) + line("static structName: string = "@ + quoted(name.0.ts@) + ";"@) + text(
        "static typeParameters: TypeParamDeclType[] = ["@,
    ) + open_indent();
    let inner = Page {
        lines: p.lines.push(p.cur) + head_section(name, sdef, p.level).take(6),
        cur: Seq::empty(),
        level: p.level + 2,
    };
    let opened = paged(p, opening);
    assert(opened.lines =~= inner.lines);
    assert(opened == inner);
    lemma_struct_tparams_below(inner, tparams, 0);
    let ended = paged(inner, struct_tparams_from(tparams, 0) + newline());
    if tparams.len() == 0 {
        assert(struct_tparams_from(tparams, 0) =~= Seq::empty());
    } else {
        assert(Seq::new(
            (tparams.len() - 0) as nat,
            |k: int|
                tparam_described(tparams[0 + k], m2) + (if 0 + k + 1 < tparams.len() {
                    ","@
                } else {
                    Seq::empty()
                }),
        ) =~= listed(
            tparams.map_values(|t: StructTypeParameter| tparam_described(t, m2)),
            ","@,
            Seq::empty(),
        ));
    }
    let q = paged(p, class_head_steps(name, sdef));
    assert(q.lines == ended.lines.push(m1 + "];"@));
    assert(q.lines =~= p.lines.push(p.cur) + head_section(name, sdef, p.level));
    assert(q.cur =~= Seq::empty());
}

/// The page of a class whose fields are known, up to the brace that closes it.
spec fn class_page(
    p: Page,
    name: StructName,
    sdef: StructDefinition,
    fields: Seq<StructField>,
    mident: ModuleIdent,
) -> Page {
    behind_blank(
        continued(
            Page {
                lines: p.lines + field_section(fields, p.level) + parser_section(
                    name.0.value@,
                    sdef.abilities.key,
                    p.level,
                ),
                cur: if sdef.abilities.key {
                    margin(p.level) + "}"@
                } else {
                    Seq::empty()
                },
                level: p.level,
            },
            special_methods(name, mident),
        ),
        directives_lines(name, sdef, margin(p.level), 0),
    )
}

proof fn lemma_class_below(
    p: Page,
    name: StructName,
    sdef: StructDefinition,
    fields: Seq<StructField>,
    mident: ModuleIdent,
)
    requires
        p.cur.len() == 0,
        sdef.fields matches StructFields::Defined(list) && list@ == fields,
    ensures
        ({
            let steps = defined_struct_steps(name, sdef, Some(mident));
            &&& passes(steps) ==> paged(p, steps) == class_page(p, name, sdef, fields, mident)
            &&& passes(steps) <==> {
                &&& forall|k: int|
                    0 <= k < fields.len() ==> (#[trigger] fields[k]).typetag.text is Ok
                        && fields[k].ty.ts.text is Ok
                &&& forall|k: int|
                    0 <= k < sdef.attributes@.len() ==> good_directive(
                        sdef,
                        #[trigger] sdef.attributes@[k],
                    )
            }
        }),
{
    broadcast use {group_paged, group_passes};

    reveal(defined_struct_steps);
    lemma_fields_below(p, fields);
    let p1 = below(p, field_section(fields, p.level));
    lemma_parser_below(p1, name.0.value@, sdef.abilities.key);
    let p2 = paged(p1, parser_steps(name.0.value@, sdef.abilities.key));
    lemma_special_below(p2, name, mident);
    let p3 = continued(p2, special_methods(name, mident));
    lemma_directives_below(p3, name, sdef, mident, 0);
}

proof fn lemma_struct_below(
    p: Page,
    name: StructName,
    sdef: StructDefinition,
    mident: ModuleIdent,
)
    ensures
        ({
            let steps = struct_steps(name, sdef, Some(mident));
            let start = Page {
                lines: p.lines.push(p.cur) + head_section(name, sdef, p.level),
                cur: Seq::empty(),
                level: p.level + 1,
            };
            let inner = match sdef.fields {
                StructFields::Native(_) => start,
                StructFields::Defined(fields) => class_page(start, name, sdef, fields@, mident),
            };
            &&& passes(steps) ==> paged(p, steps) == (Page {
                lines: inner.lines.push(inner.cur).push(margin(p.level) + "}"@),
                cur: Seq::empty(),
                level: p.level,
            })
            &&& passes(steps) <==> (sdef.fields matches StructFields::Defined(fields) ==> {
                &&& forall|k: int|
                    0 <= k < fields@.len() ==> (#[trigger] fields@[k]).typetag.text is Ok
                        && fields@[k].ty.ts.text is Ok
                &&& forall|k: int|
                    0 <= k < sdef.attributes@.len() ==> good_directive(
                        sdef,
                        #[trigger] sdef.attributes@[k],
                    )
            })
        }),
{
    broadcast use {group_paged, group_passes};

    let steps = struct_steps(name, sdef, Some(mident));
    let defined = defined_struct_steps(name, sdef, Some(mident));
    lemma_head_below(p, name, sdef);
    let start = paged(p, class_head_steps(name, sdef));
    assert(steps == class_head_steps(name, sdef) + defined + close_short_block() + newline());
    match sdef.fields {
        StructFields::Native(_) => {
            reveal(defined_struct_steps);
            assert(defined =~= Seq::empty());
        },
        StructFields::Defined(fields) => {
            lemma_class_below(start, name, sdef, fields@, mident);
        },
    }
    assert(passes(steps) == passes(defined));
    if passes(steps) {
        let inner = paged(start, defined);
        let q = paged(p, steps);
        assert(q == paged(inner, close_short_block() + newline()));
        assert(inner.level == p.level + 1);
        assert(q.cur =~= Seq::empty());
    }
}

/// A struct can be printed in a module if and only if it is native, or each of its fields has a
/// type with a text and a type tag with a text and each of its directives can be handled.
pub proof fn law_struct_can_be_printed(
    name: StructName,
    sdef: StructDefinition,
    mident: ModuleIdent,
    s: State,
)
    ensures
        run(s, struct_steps(name, sdef, Some(mident))).end is Done <==> (
        sdef.fields matches StructFields::Defined(fields) ==> {
            &&& forall|k: int|
                0 <= k < fields@.len() ==> (#[trigger] fields@[k]).typetag.text is Ok
                    && fields@[k].ty.ts.text is Ok
            &&& forall|k: int|
                0 <= k < sdef.attributes@.len() ==> good_directive(
                    sdef,
                    #[trigger] sdef.attributes@[k],
                )
        }),
{
    let steps = struct_steps(name, sdef, Some(mident));
    lemma_struct_below(page(s.doc), name, sdef, mident);
    lemma_struct_shape(name, sdef, Some(mident));
    if passes(steps) {
        lemma_passes_done(Kind::Struct, s, steps);
    }
    if run(s, steps).end is Done {
        lemma_done_passes(s, steps);
    }
}

/// Printing a struct adds a class to the page: it ends the current line and adds the head of
/// the class with one description for each type parameter; if the fields of the struct are
/// known, one description, one declaration and one assignment in the constructor for each
/// field, all in order and with a separator between each two neighbours, the parser, the
/// loader if the struct is a resource, the methods that the struct has besides and those that
/// its directives ask for, in order; and the closing brace.
#[verifier::rlimit(40)]
pub proof fn law_class_on_the_page(
    name: StructName,
    sdef: StructDefinition,
    mident: ModuleIdent,
    s: State,
)
    requires
        run(s, struct_steps(name, sdef, Some(mident))).end is Done,
    ensures
        ({
            let before = page(s.doc);
            let after = page(run(s, struct_steps(name, sdef, Some(mident))).state.doc);
            let m = margin(before.level);
            let m1 = margin(before.level + 1);
            let m2 = margin(before.level + 2);
            let type_parameters = sdef.type_parameters@;
            let head = seq![
                before.cur,
                m + ("export class "@ + name.0.ts@ + " "@),
                m + "{"@,
                m1 + "static moduleAddress = moduleAddress;"@,
                m1 + "static moduleName = moduleName;"@,
                m1 + ("static structName: string = "@ + ("\""@ + name.0.ts@ + "\""@) + ";"@),
                m1 + "static typeParameters: TypeParamDeclType[] = ["@,
            ] + (if type_parameters.len() == 0 {
                seq![Seq::empty()]
            } else {
                listed(
                    type_parameters.map_values(
                        |t: StructTypeParameter|
                            m2 + ("{ name: "@ + t.quoted_ts@ + ", isPhantom: "@ + (
                            if t.is_phantom {
                                "true"@
                            } else {
                                "false"@
                            }) + " }"@),
                    ),
                    ","@,
                    Seq::empty(),
                )
            }) + seq![m1 + "];"@];
            let x = name.0.value@;
            let parser = seq![
                Seq::empty(),
                m1 + ("static "@ + x
                    + "Parser(data:any, typeTag: TypeTag, repo: AptosParserRepo) : "@ + x + " {"@),
                m1 + ("  const proto = $.parseStructProto(data, typeTag, repo, "@ + x + ");"@),
                m1 + ("  return new "@ + x + "(proto, typeTag);"@),
                m1 + "}"@,
            ];
            let loader = if sdef.abilities.key {
                seq![
                    Seq::empty(),
                    m1
                        + "static async load(repo: AptosParserRepo, client: AptosClient, address: HexString, typeParams: TypeTag[]) {"@,
                    m1 + ("  const result = await repo.loadResource(client, address, "@ + x
                        + ", typeParams);"@),
                    m1 + ("  return result as unknown as "@ + x + ";"@),
                ]
            } else {
                Seq::empty()
            };
            let brace = if sdef.abilities.key {
                m1 + "}"@
            } else {
                Seq::empty()
            };
            let special = special_methods(name, mident);
            let methods = if special.len() == 0 {
                seq![brace]
            } else {
                seq![
                    (if sdef.abilities.key {
                        brace
                    } else {
                        m1
                    }) + special[0],
                ] + special.skip(1).map_values(|l: Seq<char>| m1 + l) + seq![Seq::empty()]
            };
            let asked_for = sdef.attributes@.map_values(
                |a: (Name, Attribute)| directive_lines(name, sdef, a, m1),
            ).flatten();
            &&& after.cur.len() == 0
            &&& after.level == before.level
            &&& match sdef.fields {
                StructFields::Native(_) => after.lines == before.lines + head + seq![
                    Seq::empty(),
                    m + "}"@,
                ],
                StructFields::Defined(list) => {
                    let fields = list@;
                    let descriptions = seq![m1 + "static fields: FieldDeclType[] = ["@] + (
                    if fields.len() == 0 {
                        seq![m1 + "];"@]
                    } else {
                        listed(
                            fields.map_values(
                                |f: StructField|
                                    m1 + ("{ name: "@ + ("\""@ + f.name.0.ts@ + "\""@)
                                        + ", typeTag: "@ + f.typetag.shown() + " }"@),
                            ),
                            ","@,
                            "];"@,
                        )
                    }) + seq![Seq::empty()];
                    let declarations = if fields.len() == 0 {
                        Seq::empty()
                    } else {
                        fields.map_values(
                            |f: StructField|
                                m1 + (f.name.0.ts@ + ": "@ + f.ty.ts.shown() + ";"@),
                        ) + seq![Seq::empty()]
                    };
                    let constructor = seq![
                        m1 + "constructor(proto: any, public typeTag: TypeTag) {"@,
                    ] + (if fields.len() == 0 {
                        seq![Seq::empty()]
                    } else {
                        fields.map_values(
                            |f: StructField|
                                m2 + ("this."@ + f.name.0.ts@ + " = proto['"@ + f.name.0.ts@
                                    + "'] as "@ + f.ty.ts.shown() + ";"@),
                        )
                    }) + seq![m1 + "}"@];
                    after.lines == before.lines + head + descriptions + declarations
                        + constructor + parser + loader + methods + asked_for.push(
                        Seq::empty(),
                    ).skip(1) + seq![m + "}"@]
                },
            }
        }),
{
    let steps = struct_steps(name, sdef, Some(mident));
    let p = page(s.doc);
    lemma_paged_run(s, steps);
    lemma_done_passes(s, steps);
    lemma_struct_below(p, name, sdef, mident);
    let m = margin(p.level);
    let m1 = margin(p.level + 1);
    let m2 = margin(p.level + 2);
    let tparams = sdef.type_parameters@;
    assert(tparams.map_values(|t: StructTypeParameter| tparam_described(t, m2))
        =~= tparams.map_values(
        |t: StructTypeParameter|
            m2 + ("{ name: "@ + t.quoted_ts@ + ", isPhantom: "@ + (if t.is_phantom {
                "true"@
            } else {
                "false"@
            }) + " }"@),
    ));
    let opening = seq![
        m + ("export class "@ + name.0.ts@ + " "@),
        m + "{"@,
        m1 + "static moduleAddress = moduleAddress;"@,
        m1 + "static moduleName = moduleName;"@,
        m1 + ("static structName: string = "@ + ("\""@ + name.0.ts@ + "\""@) + ";"@),
        m1 + "static typeParameters: TypeParamDeclType[] = ["@,
    ];
    let ended_opening = seq![
        p.cur,
        m + ("export class "@ + name.0.ts@ + " "@),
        m + "{"@,
        m1 + "static moduleAddress = moduleAddress;"@,
        m1 + "static moduleName = moduleName;"@,
        m1 + ("static structName: string = "@ + ("\""@ + name.0.ts@ + "\""@) + ";"@),
        m1 + "static typeParameters: TypeParamDeclType[] = ["@,
    ];
    assert(ended_opening =~= seq![p.cur] + opening);
    let listed_tparams = if tparams.len() == 0 {
        seq![Seq::empty()]
    } else {
        listed(
            tparams.map_values(|t: StructTypeParameter| tparam_described(t, m2)),
            ","@,
            Seq::empty(),
        )
    };
    let closing = seq![m1 + "];"@];
    let head = ended_opening + listed_tparams + closing;
    assert(head_section(name, sdef, p.level) == opening + listed_tparams + closing);
    assert(head =~= seq![p.cur] + head_section(name, sdef, p.level));
    let start = Page {
        lines: p.lines.push(p.cur) + head_section(name, sdef, p.level),
        cur: Seq::empty(),
        level: p.level + 1,
    };
    assert(start.lines =~= p.lines + head);
    match sdef.fields {
        StructFields::Native(_) => {
            assert(start.lines.push(Seq::empty()).push(m + "}"@) =~= start.lines + seq![
                Seq::empty(),
                m + "}"@,
            ]);
        },
        StructFields::Defined(list) => {
            lemma_class_parts(start, name, sdef, list@, mident);
            let inner = class_page(start, name, sdef, list@, mident);
            assert(inner.lines.push(inner.cur).push(m + "}"@) =~= inner.lines.push(inner.cur)
                + seq![m + "}"@]);
        },
    }
}

/// The parts of a class whose fields are known, one behind the other.
proof fn lemma_class_parts(
    start: Page,
    name: StructName,
    sdef: StructDefinition,
    fields: Seq<StructField>,
    mident: ModuleIdent,
)
    ensures
        ({
            let m1 = margin(start.level);
            let m2 = margin(start.level + 1);
            let x = name.0.value@;
            let parser = seq![
                Seq::empty(),
                m1 + ("static "@ + x
                    + "Parser(data:any, typeTag: TypeTag, repo: AptosParserRepo) : "@ + x + " {"@),
                m1 + ("  const proto = $.parseStructProto(data, typeTag, repo, "@ + x + ");"@),
                m1 + ("  return new "@ + x + "(proto, typeTag);"@),
                m1 + "}"@,
            ];
            let loader = if sdef.abilities.key {
                seq![
                    Seq::empty(),
                    m1
                        + "static async load(repo: AptosParserRepo, client: AptosClient, address: HexString, typeParams: TypeTag[]) {"@,
                    m1 + ("  const result = await repo.loadResource(client, address, "@ + x
                        + ", typeParams);"@),
                    m1 + ("  return result as unknown as "@ + x + ";"@),
                ]
            } else {
                Seq::empty()
            };
            let brace = if sdef.abilities.key {
                m1 + "}"@
            } else {
                Seq::empty()
            };
            let special = special_methods(name, mident);
            let methods = if special.len() == 0 {
                seq![brace]
            } else {
                seq![
                    (if sdef.abilities.key {
                        brace
                    } else {
                        m1
                    }) + special[0],
                ] + special.skip(1).map_values(|l: Seq<char>| m1 + l) + seq![Seq::empty()]
            };
            let asked_for = sdef.attributes@.map_values(
                |a: (Name, Attribute)| directive_lines(name, sdef, a, m1),
            ).flatten();
            let descriptions = seq![m1 + "static fields: FieldDeclType[] = ["@] + (
            if fields.len() == 0 {
                seq![m1 + "];"@]
            } else {
                listed(
                    fields.map_values(
                        |f: StructField|
                            m1 + ("{ name: "@ + ("\""@ + f.name.0.ts@ + "\""@) + ", typeTag: "@
                                + f.typetag.shown() + " }"@),
                    ),
                    ","@,
                    "];"@,
                )
            }) + seq![Seq::empty()];
            let declarations = if fields.len() == 0 {
                Seq::empty()
            } else {
                fields.map_values(
                    |f: StructField| m1 + (f.name.0.ts@ + ": "@ + f.ty.ts.shown() + ";"@),
                ) + seq![Seq::empty()]
            };
            let constructor = seq![
                m1 + "constructor(proto: any, public typeTag: TypeTag) {"@,
            ] + (if fields.len() == 0 {
                seq![Seq::empty()]
            } else {
                fields.map_values(
                    |f: StructField|
                        m2 + ("this."@ + f.name.0.ts@ + " = proto['"@ + f.name.0.ts@ + "'] as "@
                            + f.ty.ts.shown() + ";"@),
                )
            }) + seq![m1 + "}"@];
            let inner = class_page(start, name, sdef, fields, mident);
            inner.lines.push(inner.cur) == start.lines + descriptions + declarations + constructor
                + parser + loader + methods + asked_for.push(Seq::empty()).skip(1)
        }),
{
    let m1 = margin(start.level);
    let m2 = margin(start.level + 1);
    let attributes = sdef.attributes@.map_values(
        |a: (Name, Attribute)| directive_lines(name, sdef, a, m1),
    );
    assert(attributes.skip(0) =~= attributes);
    let asked_for = directives_lines(name, sdef, m1, 0);
    assert(fields.map_values(|f: StructField| described(f, m1)) =~= fields.map_values(
        |f: StructField|
            m1 + ("{ name: "@ + ("\""@ + f.name.0.ts@ + "\""@) + ", typeTag: "@
                + f.typetag.shown() + " }"@),
    ));
    let described_fields = if fields.len() == 0 {
        seq![m1 + "];"@]
    } else {
        listed(fields.map_values(|f: StructField| described(f, m1)), ","@, "];"@)
    };
    let declarations = if fields.len() == 0 {
        Seq::empty()
    } else {
        fields.map_values(
            |f: StructField| m1 + (f.name.0.ts@ + ": "@ + f.ty.ts.shown() + ";"@),
        ) + seq![Seq::empty()]
    };
    let assignments = if fields.len() == 0 {
        seq![Seq::empty()]
    } else {
        fields.map_values(
            |f: StructField|
                m2 + ("this."@ + f.name.0.ts@ + " = proto['"@ + f.name.0.ts@ + "'] as "@
                    + f.ty.ts.shown() + ";"@),
        )
    };
    let section = field_section(fields, start.level);
    let parser = parser_section(name.0.value@, sdef.abilities.key, start.level);
    lemma_regroup(
        start.lines,
        seq![m1 + "static fields: FieldDeclType[] = ["@],
        described_fields,
        seq![Seq::empty()],
        declarations,
        seq![m1 + "constructor(proto: any, public typeTag: TypeTag) {"@],
        assignments,
        seq![m1 + "}"@],
    );
    let brace = if sdef.abilities.key {
        m1 + "}"@
    } else {
        Seq::empty()
    };
    let p2 = Page { lines: start.lines + section + parser, cur: brace, level: start.level };
    reveal_strlit("}");
    assert("}"@.len() == 1);
    let special = special_methods(name, mident);
    let p3 = continued(p2, special);
    let methods = if special.len() == 0 {
        seq![brace]
    } else {
        seq![
            (if sdef.abilities.key {
                brace
            } else {
                m1
            }) + special[0],
        ] + special.skip(1).map_values(|l: Seq<char>| m1 + l) + seq![Seq::empty()]
    };
    assert(p3.lines.push(p3.cur) == p2.lines + methods) by {
        if special.len() > 0 {
            assert(special.skip(1).map_values(|line: Seq<char>| margin(p2.level) + line)
                =~= special.skip(1).map_values(|l: Seq<char>| m1 + l));
        }
        assert(p3.lines.push(p3.cur) =~= p2.lines + methods);
    }
    let p4 = behind_blank(p3, asked_for);
    assert(p4.lines.push(p4.cur) =~= p2.lines + methods + asked_for.push(Seq::empty()).skip(1));
    let short = parser.take(5);
    let loader = parser.skip(5);
    assert(parser =~= short + loader);
    assert(p2.lines =~= start.lines + section + short + loader);
}

proof fn lemma_regroup(
    x: Seq<Seq<char>>,
    a: Seq<Seq<char>>,
    b: Seq<Seq<char>>,
    c: Seq<Seq<char>>,
    d: Seq<Seq<char>>,
    e: Seq<Seq<char>>,
    f: Seq<Seq<char>>,
    g: Seq<Seq<char>>,
)
    ensures
        x + (a + b + c + d + e + f + g) == x + (a + b + c) + d + (e + f + g),
{
    assert(x + (a + b + c + d + e + f + g) =~= x + (a + b + c) + d + (e + f + g));
}

/// The text of a field that describes it.
pub open spec fn field_description(f: StructField) -> Seq<char> {
    "{ name: "@ + ("\""@ + f.name.0.ts@ + "\""@) + ", typeTag: "@ + f.typetag.shown() + " }"@
}

/// Behind the line that opens the descriptions of the fields of a class stands one description
/// for each field, in order, each on a line of its own. There is a comma behind each but the
/// last, and the closing bracket behind that.
pub proof fn law_each_field_is_described(
    name: StructName,
    sdef: StructDefinition,
    fields: Seq<StructField>,
    mident: ModuleIdent,
    s: State,
)
    requires
        run(s, struct_steps(name, sdef, Some(mident))).end is Done,
        sdef.fields matches StructFields::Defined(list) && list@ == fields,
    ensures
        ({
            let after = page(run(s, struct_steps(name, sdef, Some(mident))).state.doc).lines;
            let m1 = margin(page(s.doc).level + 1);
            let n = fields.len() as int;
            let t = sdef.type_parameters@.len() as int;
            let at = page(s.doc).lines.len() + 8 + (if t == 0 {
                1
            } else {
                t
            });
            &&& at + n + 1 < after.len()
            &&& after[at] == m1 + "static fields: FieldDeclType[] = ["@
            &&& forall|k: int|
                0 <= k < n - 1 ==> #[trigger] after[at + 1 + k] == m1 + field_description(fields[k])
                    + ","@
            &&& n > 0 ==> after[at + n] == m1 + field_description(fields[n - 1]) + "];"@
            &&& n == 0 ==> after[at + 1] == m1 + "];"@
        }),
{
    law_class_on_the_page(name, sdef, mident, s);
}

} // verus!
