use move_to_ts::ast::{
    AbilitySet, Ability_, Address, Attribute, Attribute_, Attributes, BaseType, BaseType_, Block,
    BuiltinTypeName, BuiltinTypeName_, Command, Command_, Constant, ConstantName, Diagnostic,
    Exp, Field, Function, FunctionName, FunctionSignature, LValue, LValueList, LValue_, Loc,
    ModuleDefinition, ModuleIdent, ModuleIdent_, ModuleName, Name, SingleType, SingleType_,
    Statement, Statement_, StructDefinition, StructField, StructFields, StructName,
    StructTypeParameter, TParam, Term, Type, TypeName, TypeName_, UnannotatedExp,
    UnannotatedExp_, Var,
};
use move_to_ts::ast_to_ts::{
    extract_builtin_from_base_type, extract_builtin_type,
    get_ts_handler_for_script_function_param, get_ts_handler_for_vector_in_vector,
    handle_function_cmd_directive, handle_function_directives, handle_special_module,
    handle_special_structs, handle_struct_directives, handle_struct_show_directive,
    handle_struct_show_iter_table_directive, identify_declared_vars_in_block,
    identify_declared_vars_in_cmd, identify_declared_vars_in_lvalue,
    identify_declared_vars_in_stmt, is_base_type_signer, is_empty_block, is_exp_unit,
    is_type_signer, script_function_has_valid_parameter, to_ts_string, translate_module,
    ts_constant_type, validate_show_functions, write_load_parsers, write_parameters,
    write_parameters_json, write_simplify_constant_block,
};
use move_to_ts::printer::AstTsPrinter;
use move_to_ts::shared::{
    format_address, format_address_hex, is_same_module, is_same_name, quote, rename, Config,
    Context,
};
use move_to_ts::string_set::StringSet;
use move_to_ts::tsgen_writer::TsgenWriter;

fn loc(start: u32) -> Loc {
    Loc { file_hash: 7, start, end: start + 1 }
}

fn name_at(value: &str, start: u32) -> Name {
    Name { loc: loc(start), value: value.to_string(), ts: value.to_string() }
}

fn name(value: &str) -> Name {
    name_at(value, 0)
}

fn renamed(value: &str, ts: &str) -> Name {
    Name { loc: loc(0), value: value.to_string(), ts: ts.to_string() }
}

fn strings(list: &[&str]) -> Vec<String> {
    list.iter().map(|s| s.to_string()).collect()
}

fn term(s: &str) -> Term {
    importing(s, &[], &[])
}

fn importing(s: &str, packages: &[&str], modules: &[&str]) -> Term {
    Term {
        text: Ok(s.to_string()),
        package_imports: strings(packages),
        module_imports: strings(modules),
    }
}

fn failing(start: u32, message: &str) -> Term {
    Term {
        text: Err(Diagnostic { loc: loc(start), message: message.to_string() }),
        package_imports: vec![],
        module_imports: vec![],
    }
}

fn config() -> Config {
    Config {
        test: false,
        table_helper_decl: "class TypedTable {}".to_string(),
        iterable_table_helper_decl: "class TypedIterableTable {}".to_string(),
    }
}

fn module_ident(package: &str, hex: &str, module: &str) -> ModuleIdent {
    ModuleIdent {
        loc: loc(0),
        value: ModuleIdent_ {
            address: Address { name: package.to_string(), hex: hex.to_string() },
            module: ModuleName(name(module)),
        },
    }
}

fn bank() -> ModuleIdent {
    module_ident("finance", "0xaa", "bank")
}

const NO_ABILITIES: AbilitySet = AbilitySet { copy: false, drop: false, store: false, key: false };

fn ts_of(b: BuiltinTypeName_) -> &'static str {
    match b {
        BuiltinTypeName_::Address => "HexString",
        BuiltinTypeName_::Signer => "HexString",
        BuiltinTypeName_::U8 => "U8",
        BuiltinTypeName_::U64 => "U64",
        BuiltinTypeName_::U128 => "U128",
        BuiltinTypeName_::Vector => "Vector",
        BuiltinTypeName_::Bool => "boolean",
    }
}

fn applied_builtin(b: BuiltinTypeName_, args: Vec<BaseType>, ts: &str) -> BaseType {
    let builtin = BuiltinTypeName { loc: loc(0), value: b, ts: term(ts_of(b)) };
    let typename = TypeName { loc: loc(0), value: TypeName_::Builtin(builtin) };
    BaseType {
        loc: loc(60),
        value: BaseType_::Apply(NO_ABILITIES, typename, args),
        ts: term(ts),
    }
}

fn builtin(b: BuiltinTypeName_) -> BaseType {
    applied_builtin(b, vec![], ts_of(b))
}

fn vector(element: BaseType, ts: &str) -> BaseType {
    applied_builtin(BuiltinTypeName_::Vector, vec![element], ts)
}

fn param_type(value: &str, start: u32) -> BaseType {
    BaseType {
        loc: loc(start),
        value: BaseType_::Param(TParam { user_specified_name: name(value) }),
        ts: term("any"),
    }
}

fn struct_type(module: ModuleIdent, sname: &str, args: Vec<BaseType>, ts: Term) -> BaseType {
    let value = TypeName_::ModuleType(module, StructName(name(sname)));
    BaseType {
        loc: loc(61),
        value: BaseType_::Apply(NO_ABILITIES, TypeName { loc: loc(0), value }, args),
        ts,
    }
}

fn by_value(b: BaseType, ts: &str) -> SingleType {
    SingleType { loc: loc(62), value: SingleType_::Base(b), ts: term(ts) }
}

fn by_ref(b: BaseType, ts: &str) -> SingleType {
    SingleType { loc: loc(63), value: SingleType_::Ref(false, b), ts: term(ts) }
}

fn of(b: BuiltinTypeName_) -> SingleType {
    by_value(builtin(b), ts_of(b))
}

fn u64_() -> SingleType {
    of(BuiltinTypeName_::U64)
}

fn signer_ref() -> SingleType {
    by_ref(builtin(BuiltinTypeName_::Signer), "HexString")
}

fn var(value: &str) -> Var {
    Var(name(value))
}

fn tparams(list: &[&str]) -> Vec<TParam> {
    list.iter().map(|s| TParam { user_specified_name: name(s) }).collect()
}

fn signature(type_params: &[&str], parameters: Vec<(Var, SingleType)>, ret: &str) -> FunctionSignature {
    FunctionSignature {
        type_parameters: tparams(type_params),
        parameters,
        return_type: Type { loc: loc(0), ts: term(ret) },
    }
}

fn function(type_params: &[&str], parameters: Vec<(Var, SingleType)>, ret: &str) -> Function {
    Function {
        attributes: vec![],
        entry: None,
        signature: signature(type_params, parameters, ret),
        is_test: Ok(false),
    }
}

fn entry(type_params: &[&str], parameters: Vec<(Var, SingleType)>) -> Function {
    Function { entry: Some(loc(9)), ..function(type_params, parameters, "void") }
}

fn named(value: &str) -> FunctionName {
    FunctionName(name(value))
}

fn type_parameter(value: &str, is_phantom: bool) -> StructTypeParameter {
    StructTypeParameter {
        is_phantom,
        param: TParam { user_specified_name: name(value) },
        quoted_ts: format!("\"{}\"", value),
    }
}

fn field(value: &str, ty: BaseType, typetag: &str) -> StructField {
    StructField { name: Field(name_at(value, 44)), ty, typetag: term(typetag) }
}

fn structure(fields: Vec<StructField>) -> StructDefinition {
    StructDefinition {
        attributes: vec![],
        abilities: NO_ABILITIES,
        type_parameters: vec![],
        fields: StructFields::Defined(fields),
    }
}

fn attr_name(value: &str, start: u32) -> (Name, Attribute) {
    let value_ = Attribute_::Name(name_at(value, start));
    (name_at(value, start), Attribute { loc: loc(start), value: value_ })
}

fn attr_assigned(value: &str, text: Option<&str>, start: u32) -> (Name, Attribute) {
    let value_ = Attribute_::Assigned(name_at(value, start), text.map(|s| s.to_string()));
    (name_at(value, start + 1), Attribute { loc: loc(start), value: value_ })
}

fn attr_list(value: &str, inner: Attributes, start: u32) -> (Name, Attribute) {
    let value_ = Attribute_::Parameterized(name_at(value, start), inner);
    (name_at(value, start), Attribute { loc: loc(start), value: value_ })
}

fn exp(value: UnannotatedExp_, ts: &str) -> Exp {
    Exp { exp: UnannotatedExp { loc: loc(70), value }, ts: term(ts) }
}

fn e(ts: &str) -> Exp {
    exp(UnannotatedExp_::Other, ts)
}

fn unit() -> Exp {
    exp(UnannotatedExp_::Unit, "UNIT")
}

fn command(value: Command_) -> Command {
    Command { loc: loc(71), value }
}

fn stmt(value: Statement_) -> Statement {
    Statement { loc: loc(72), value }
}

fn cmd(value: Command_) -> Statement {
    stmt(Statement_::Command(command(value)))
}

fn ret(exp: Exp) -> Statement {
    cmd(Command_::Return { from_user: true, exp })
}

fn pop(exp: Exp) -> Statement {
    cmd(Command_::IgnoreAndPop { pop_num: 1, exp })
}

fn lvalue(value: LValue_) -> LValue {
    LValue { loc: loc(73), value }
}

fn lvar(value: &str) -> LValue {
    lvalue(LValue_::Var(var(value), u64_()))
}

fn unpack(fields: Vec<(&str, LValue)>) -> LValue {
    let fields = fields.into_iter().map(|(f, l)| (Field(name(f)), l)).collect();
    lvalue(LValue_::Unpack(StructName(name("S")), vec![], fields))
}

fn lhs(lvalues: Vec<LValue>, ts: &str) -> LValueList {
    LValueList { lvalues, binds_nothing: false, ts: term(ts) }
}

fn constant(signature: BaseType, value: Block) -> Constant {
    Constant { loc: loc(0), signature, value }
}

fn empty_module() -> ModuleDefinition {
    ModuleDefinition { package_name: None, structs: vec![], constants: vec![], functions: vec![] }
}

fn text_of<'a, P: AstTsPrinter<'a>>(v: &P, c: &mut Context<'a>) -> String {
    let mut w = TsgenWriter::new();
    v.write_ts(&mut w, c).unwrap();
    w.to_text()
}

fn plain_text_of<P: for<'a> AstTsPrinter<'a>>(v: &P) -> String {
    text_of(v, &mut Context::new(config()))
}

fn error_of<'a, P: AstTsPrinter<'a>>(v: &P, c: &mut Context<'a>) -> (u32, String) {
    let mut w = TsgenWriter::new();
    let d = v.write_ts(&mut w, c).unwrap_err();
    (d.loc.start, d.message)
}

fn module_error(mident: &ModuleIdent, mdef: &ModuleDefinition) -> (u32, String) {
    let mut c = Context::new(config());
    let mut diags = translate_module(mident, mdef, &mut c).unwrap_err().diags;
    assert_eq!(diags.len(), 1);
    let d = diags.pop().unwrap();
    (d.loc.start, d.message)
}

fn lines(list: &[&str]) -> String {
    list.join("\n")
}

const COMMON: [&str; 7] = [
    "import * as $ from \"@manahippo/move-to-ts\";",
    "import {AptosDataCache, AptosParserRepo, DummyCache} from \"@manahippo/move-to-ts\";",
    "import {U8, U64, U128} from \"@manahippo/move-to-ts\";",
    "import {u8, u64, u128} from \"@manahippo/move-to-ts\";",
    "import {TypeParamDeclType, FieldDeclType} from \"@manahippo/move-to-ts\";",
    "import {AtomicTypeTag, StructTag, TypeTag, VectorTag} from \"@manahippo/move-to-ts\";",
    "import {HexString, AptosClient} from \"aptos\";",
];

// the writer

#[test]
fn writer_indents_lines_and_leaves_blank_lines_blank() {
    let mut w = TsgenWriter::new();
    assert_eq!(w.to_text(), "");
    w.writeln("a");
    w.increase_indent();
    w.write("b");
    w.write("c");
    w.new_line();
    w.new_line();
    w.increase_indent();
    w.writeln("d");
    w.decrease_indent();
    w.decrease_indent();
    w.decrease_indent();
    w.write("e");
    assert_eq!(w.to_text(), "a\n  bc\n\n    d\ne");
}

#[test]
fn short_block_stands_between_braces() {
    let mut w = TsgenWriter::new();
    w.write("f() ");
    w.open_short_block();
    w.write("x");
    w.close_short_block();
    w.new_line();
    assert_eq!(w.to_text(), "f() {\n  x\n}\n");
}

#[test]
fn exported_constant_is_declared_on_a_line() {
    let mut w = TsgenWriter::new();
    w.export_const("moduleName", "\"bank\"");
    assert_eq!(w.to_text(), "export const moduleName = \"bank\";\n");
}

#[test]
fn ended_lines_do_not_change() {
    let mut w = TsgenWriter::new();
    w.writeln("one");
    w.increase_indent();
    w.writeln("two");
    let before = w.to_text();
    w.decrease_indent();
    w.writeln("three");
    assert_eq!(before, "one\n  two\n");
    assert_eq!(w.to_text(), "one\n  two\nthree\n");
}

// shared forms

#[test]
fn names_and_addresses_have_their_forms() {
    let m = bank();
    assert_eq!(quote("x"), "\"x\"");
    assert_eq!(rename(&renamed("default", "__default")), "__default");
    assert_eq!(format_address(&m.value.address), "finance");
    assert_eq!(format_address_hex(&m.value.address), "0xaa");
}

#[test]
fn names_are_the_same_wherever_they_stand() {
    assert!(is_same_name(&name_at("x", 1), &name_at("x", 2)));
    assert!(!is_same_name(&name("x"), &name("y")));
    assert!(is_same_module(&bank(), &bank()));
    assert!(!is_same_module(&bank(), &module_ident("finance", "0xab", "bank")));
    assert!(!is_same_module(&bank(), &module_ident("finance", "0xaa", "coin")));
}

#[test]
fn abilities_are_looked_up() {
    let set = AbilitySet { copy: true, drop: false, store: true, key: false };
    assert!(set.has_ability_(Ability_::Copy));
    assert!(!set.has_ability_(Ability_::Drop));
    assert!(set.has_ability_(Ability_::Store));
    assert!(!set.has_ability_(Ability_::Key));
}

// commands

#[test]
fn assignments_are_printed() {
    let one = command(Command_::Assign(lhs(vec![lvar("x")], "x"), e("1")));
    assert_eq!(plain_text_of(&one), "x = 1;\n");
    let unpacking =
        command(Command_::Assign(lhs(vec![unpack(vec![("a", lvar("y"))])], "{ a: y }"), e("s")));
    assert_eq!(plain_text_of(&unpacking), "let { a: y } = s;\n");
    let two = command(Command_::Assign(
        lhs(vec![unpack(vec![("a", lvar("y"))]), lvar("z")], "[{ a: y }, z]"),
        e("pair"),
    ));
    assert_eq!(plain_text_of(&two), "[{ a: y }, z] = pair;\n");
    let nothing = LValueList { lvalues: vec![], binds_nothing: true, ts: term("[]") };
    assert_eq!(plain_text_of(&command(Command_::Assign(nothing, e("f()")))), "f();\n");
}

#[test]
fn mutations_are_printed() {
    let borrowed = command(Command_::Mutate(exp(UnannotatedExp_::Borrow, "s.x"), e("1")));
    assert_eq!(plain_text_of(&borrowed), "s.x = 1;\n");
    let other = command(Command_::Mutate(e("r"), e("2")));
    assert_eq!(plain_text_of(&other), "$.set(r, 2);\n");
}

#[test]
fn mutation_through_a_dereference_is_refused() {
    let deref = command(Command_::Mutate(exp(UnannotatedExp_::Dereference, "r"), e("2")));
    let mut c = Context::new(config());
    assert_eq!(
        error_of(&deref, &mut c),
        (70, "Dereference in Mutate not implemented yet".to_string())
    );
}

#[test]
fn jumps_are_refused() {
    let mut c = Context::new(config());
    let jump = command(Command_::Jump { from_user: false, target: 3 });
    assert_eq!(error_of(&jump, &mut c), (71, "Unsupported Command (Jump)".to_string()));
    let jump_if = command(Command_::JumpIf { cond: e("x"), if_true: 1, if_false: 2 });
    assert_eq!(error_of(&jump_if, &mut c), (71, "Unsupported Command (Jump)".to_string()));
}

#[test]
fn other_commands_are_printed() {
    assert_eq!(plain_text_of(&command(Command_::Abort(e("E")))), "throw $.abortCode(E);\n");
    assert_eq!(plain_text_of(&ret(e("x"))), "return x;\n");
    assert_eq!(plain_text_of(&ret(unit())), "return;\n");
    assert_eq!(plain_text_of(&command(Command_::Break)), "break;\n");
    assert_eq!(plain_text_of(&command(Command_::Continue)), "continue;\n");
    assert_eq!(plain_text_of(&pop(e("f()"))), "f();\n");
    assert_eq!(plain_text_of(&pop(unit())), "");
}

#[test]
fn a_term_without_text_is_refused() {
    let mut c = Context::new(config());
    let bad = Exp {
        exp: UnannotatedExp { loc: loc(1), value: UnannotatedExp_::Other },
        ts: failing(31, "no text"),
    };
    assert_eq!(error_of(&command(Command_::Abort(bad)), &mut c), (31, "no text".to_string()));
}

#[test]
fn unit_expressions_are_recognized() {
    assert!(is_exp_unit(&unit()));
    assert!(!is_exp_unit(&e("1")));
    assert!(!is_exp_unit(&exp(UnannotatedExp_::Borrow, "x")));
}

// statements

#[test]
fn blocks_that_do_nothing_are_recognized() {
    assert!(is_empty_block(&vec![]));
    assert!(is_empty_block(&vec![pop(unit())]));
    assert!(!is_empty_block(&vec![pop(e("f()"))]));
    assert!(!is_empty_block(&vec![ret(unit())]));
    assert!(!is_empty_block(&vec![pop(unit()), pop(unit())]));
    assert!(!is_empty_block(&vec![stmt(Statement_::Loop { has_break: true, block: vec![] })]));
}

#[test]
fn conditional_is_printed_with_both_branches() {
    let s = stmt(Statement_::IfElse {
        cond: e("x"),
        if_block: vec![ret(e("1"))],
        else_block: vec![ret(e("2")), cmd(Command_::Break)],
    });
    let expected = lines(&["if (x) {", "  return 1;", "}", "else{", "  return 2;", "  break;", "}", ""]);
    assert_eq!(plain_text_of(&s), expected);
}

#[test]
fn conditional_without_else_is_printed_with_one_branch() {
    let s = stmt(Statement_::IfElse {
        cond: e("x"),
        if_block: vec![ret(e("1"))],
        else_block: vec![],
    });
    assert_eq!(plain_text_of(&s), "if (x) {\n  return 1;\n}\n");
}

#[test]
fn empty_branch_negates_the_condition() {
    let s = stmt(Statement_::IfElse {
        cond: e("x"),
        if_block: vec![pop(unit())],
        else_block: vec![ret(e("2"))],
    });
    assert_eq!(plain_text_of(&s), "if (!x) {\n  return 2;\n}\n");
}

#[test]
fn while_loop_tests_its_condition() {
    let s = stmt(Statement_::While {
        cond: (vec![], e("i < n")),
        block: vec![cmd(Command_::Continue)],
    });
    let expected = lines(&["while (i < n) {", "  {", "    continue;", "  }", "", "}"]);
    assert_eq!(plain_text_of(&s), expected);
}

#[test]
fn while_loop_with_statements_before_the_test_breaks() {
    let s = stmt(Statement_::While {
        cond: (vec![pop(e("f()"))], e("t")),
        block: vec![cmd(Command_::Continue)],
    });
    let expected = lines(&[
        "while (true) {",
        "  {",
        "    f();",
        "  }",
        "  if (!(t)) break;",
        "  {",
        "    continue;",
        "  }",
        "",
        "}",
    ]);
    assert_eq!(plain_text_of(&s), expected);
}

#[test]
fn endless_loop_and_nested_blocks_are_printed() {
    let inner = stmt(Statement_::Loop { has_break: true, block: vec![cmd(Command_::Break)] });
    let block: Block = vec![inner, ret(unit())];
    let expected = lines(&[
        "{",
        "  while (true) {",
        "    break;",
        "  }",
        "  return;",
        "}",
        "",
    ]);
    assert_eq!(plain_text_of(&block), expected);
}

#[test]
fn indentation_is_restored_behind_a_statement() {
    let s = stmt(Statement_::While { cond: (vec![], e("b")), block: vec![ret(unit())] });
    let mut c = Context::new(config());
    let mut w = TsgenWriter::new();
    w.increase_indent();
    s.write_ts(&mut w, &mut c).unwrap();
    w.new_line();
    w.write("x");
    assert!(w.to_text().ends_with("\n  x"));
}

#[test]
fn nothing_is_written_behind_a_failure() {
    let block: Block = vec![
        cmd(Command_::Break),
        cmd(Command_::Jump { from_user: true, target: 0 }),
        cmd(Command_::Continue),
    ];
    let mut c = Context::new(config());
    let mut w = TsgenWriter::new();
    assert!(block.write_ts(&mut w, &mut c).is_err());
    assert_eq!(w.to_text(), "{\n  break;\n");
}

// constants

#[test]
fn constant_is_an_expression_if_it_only_returns_one() {
    let cname = ConstantName(renamed("E", "E_"));
    let cdef = constant(builtin(BuiltinTypeName_::U64), vec![ret(e("u64(\"1\")"))]);
    let mut c = Context::new(config());
    assert_eq!(text_of(&(&cname, &cdef), &mut c), "export const E_ : U64 = u64(\"1\");\n");
}

#[test]
fn constant_is_a_call_of_its_block_otherwise() {
    let cname = ConstantName(name("E"));
    let cdef = constant(builtin(BuiltinTypeName_::Bool), vec![pop(e("f()")), ret(e("true"))]);
    let mut c = Context::new(config());
    let expected = lines(&[
        "export const E : boolean = ( () => {",
        "  f();",
        "  return true;",
        "}",
        ")();",
        "",
    ]);
    assert_eq!(text_of(&(&cname, &cdef), &mut c), expected);
    let mut w = TsgenWriter::new();
    write_simplify_constant_block(&vec![], &mut w, &mut c).unwrap();
    assert_eq!(w.to_text(), "( () => {\n}\n)()");
}

#[test]
fn type_of_a_constant_is_built_in() {
    let mut c = Context::new(config());
    let nested = vector(vector(builtin(BuiltinTypeName_::U8), "_"), "_");
    assert_eq!(ts_constant_type(&nested, &mut c).unwrap(), "U8[][]");
    assert_eq!(ts_constant_type(&builtin(BuiltinTypeName_::Address), &mut c).unwrap(), "HexString");
    let unnamed = BaseType {
        loc: loc(0),
        value: BaseType_::Apply(
            NO_ABILITIES,
            TypeName {
                loc: loc(0),
                value: TypeName_::Builtin(BuiltinTypeName {
                    loc: loc(0),
                    value: BuiltinTypeName_::U64,
                    ts: failing(12, "no type"),
                }),
            },
            vec![],
        ),
        ts: term("_"),
    };
    assert_eq!(ts_constant_type(&vector(unnamed, "_"), &mut c).unwrap_err().message, "no type");
}

// types

#[test]
fn builtin_types_are_extracted() {
    let v = vector(builtin(BuiltinTypeName_::U8), "_");
    let (b, args) = extract_builtin_from_base_type(&v).unwrap();
    assert_eq!(*b, BuiltinTypeName_::Vector);
    assert_eq!(args.len(), 1);
    let s = struct_type(bank(), "Account", vec![], term("Account"));
    assert_eq!(extract_builtin_from_base_type(&s).err(), Some(false));
    assert_eq!(extract_builtin_from_base_type(&param_type("T", 0)).err(), Some(false));
    let r = by_ref(builtin(BuiltinTypeName_::Bool), "boolean");
    assert_eq!(*extract_builtin_type(&r).unwrap().0, BuiltinTypeName_::Bool);
    assert!(extract_builtin_type(&by_value(param_type("T", 0), "any")).is_err());
}

#[test]
fn signers_are_recognized_behind_a_reference() {
    assert!(is_base_type_signer(&builtin(BuiltinTypeName_::Signer)));
    assert!(!is_base_type_signer(&builtin(BuiltinTypeName_::Address)));
    assert!(!is_base_type_signer(&vector(builtin(BuiltinTypeName_::Signer), "_")));
    assert!(!is_base_type_signer(&param_type("T", 0)));
    assert!(is_type_signer(&signer_ref()));
    assert!(is_type_signer(&of(BuiltinTypeName_::Signer)));
    assert!(!is_type_signer(&u64_()));
}

#[test]
fn parameters_are_turned_into_arguments() {
    let p = Var(renamed("in", "__in"));
    for b in [
        BuiltinTypeName_::Bool,
        BuiltinTypeName_::Address,
        BuiltinTypeName_::U8,
        BuiltinTypeName_::U64,
        BuiltinTypeName_::U128,
    ] {
        let arg = get_ts_handler_for_script_function_param(&p, &of(b)).unwrap();
        assert_eq!(arg, "$.payloadArg(__in)");
    }
    let bytes = by_ref(vector(builtin(BuiltinTypeName_::U8), "_"), "U8[]");
    assert_eq!(
        get_ts_handler_for_script_function_param(&p, &bytes).unwrap(),
        "$.u8ArrayArg(__in)"
    );
    for b in [
        BuiltinTypeName_::Bool,
        BuiltinTypeName_::Address,
        BuiltinTypeName_::U64,
        BuiltinTypeName_::U128,
    ] {
        let list = by_value(vector(builtin(b), "_"), "_");
        assert_eq!(
            get_ts_handler_for_script_function_param(&p, &list).unwrap(),
            "__in.map(element => $.payloadArg(element))"
        );
    }
    let deep = by_value(
        vector(vector(vector(builtin(BuiltinTypeName_::U8), "_"), "_"), "_"),
        "_",
    );
    assert_eq!(
        get_ts_handler_for_script_function_param(&p, &deep).unwrap(),
        "__in.map(array => array.map(array => $.u8ArrayArg(array)))"
    );
}

#[test]
fn vectors_in_vectors_are_turned_into_arguments() {
    assert_eq!(
        get_ts_handler_for_vector_in_vector(&builtin(BuiltinTypeName_::U8)).unwrap(),
        "array => $.u8ArrayArg(array)"
    );
    assert_eq!(
        get_ts_handler_for_vector_in_vector(&builtin(BuiltinTypeName_::U128)).unwrap(),
        "array => array.map(ele => $.payloadArg(ele))"
    );
    let v = vector(builtin(BuiltinTypeName_::Address), "_");
    assert_eq!(
        get_ts_handler_for_vector_in_vector(&v).unwrap(),
        "array => array.map(array => array.map(ele => $.payloadArg(ele)))"
    );
    let d = get_ts_handler_for_vector_in_vector(&vector(param_type("T", 33), "_")).unwrap_err();
    assert_eq!((d.loc.start, d.message.as_str()), (33, "Unsupported vector-in-vector type"));
}

#[test]
fn types_that_cannot_be_passed_are_refused() {
    let p = var("x");
    let s = by_value(struct_type(bank(), "Account", vec![], term("Account")), "Account");
    let d = get_ts_handler_for_script_function_param(&p, &s).unwrap_err();
    assert_eq!(
        (d.loc.start, d.message.as_str()),
        (62, "This type is not supported as parameter of script function")
    );
    let v = by_ref(vector(param_type("T", 0), "_"), "any[]");
    let d = get_ts_handler_for_script_function_param(&p, &v).unwrap_err();
    assert_eq!(
        (d.loc.start, d.message.as_str()),
        (63, "This vector type is not supported as parameter of a script function")
    );
    let vv = by_value(vector(vector(param_type("T", 34), "_"), "_"), "any[][]");
    let d = get_ts_handler_for_script_function_param(&p, &vv).unwrap_err();
    assert_eq!((d.loc.start, d.message.as_str()), (34, "Unsupported vector-in-vector type"));
}

#[test]
fn parameters_are_valid_if_each_is_a_signer_or_an_argument() {
    let good = signature(&[], vec![(var("s"), signer_ref()), (var("x"), u64_())], "void");
    assert!(script_function_has_valid_parameter(&good));
    assert!(script_function_has_valid_parameter(&signature(&[], vec![], "void")));
    let bad = signature(
        &["T"],
        vec![(var("x"), u64_()), (var("t"), by_value(param_type("T", 0), "any"))],
        "void",
    );
    assert!(!script_function_has_valid_parameter(&bad));
}

// parameters

#[test]
fn signers_are_skipped_on_demand() {
    let sig = signature(
        &[],
        vec![
            (var("account"), signer_ref()),
            (Var(renamed("in", "__in")), u64_()),
            (var("other"), of(BuiltinTypeName_::Signer)),
        ],
        "void",
    );
    let rest = signature(&[], vec![(Var(renamed("in", "__in")), u64_())], "void");
    let mut c = Context::new(config());
    let mut print = |sig: &FunctionSignature, skip: bool| {
        let mut w = TsgenWriter::new();
        write_parameters(sig, &mut w, &mut c, skip).unwrap();
        w.to_text()
    };
    assert_eq!(print(&sig, false), "  account: HexString,\n  __in: U64,\n  other: HexString,\n");
    assert_eq!(print(&sig, true), "  __in: U64,\n");
    assert_eq!(print(&sig, true), print(&rest, false));
}

#[test]
fn parameters_are_printed_as_json() {
    let sig = signature(&[], vec![(var("account"), signer_ref()), (var("x"), u64_())], "void");
    let mut c = Context::new(config());
    let mut w = TsgenWriter::new();
    write_parameters_json(&sig, &mut w, &mut c, false).unwrap();
    write_parameters_json(&sig, &mut w, &mut c, true).unwrap();
    assert_eq!(
        w.to_text(),
        "  \"account\": \"HexString\",\n  \"x\": \"U64\",\n  \"x\": \"U64\",\n"
    );
}

#[test]
fn a_parameter_without_a_type_is_refused() {
    let bad = SingleType {
        loc: loc(0),
        value: SingleType_::Base(param_type("T", 0)),
        ts: failing(41, "no such type"),
    };
    let sig = signature(&[], vec![(var("x"), bad)], "void");
    let mut c = Context::new(config());
    let mut w = TsgenWriter::new();
    assert_eq!(write_parameters(&sig, &mut w, &mut c, false).unwrap_err().message, "no such type");
    assert_eq!(
        write_parameters_json(&sig, &mut w, &mut c, true).unwrap_err().message,
        "no such type"
    );
}

// functions

#[test]
fn function_is_printed() {
    let fname = FunctionName(renamed("delete", "delete__"));
    let f = function(&["X", "Y"], vec![(var("a"), u64_())], "boolean");
    let mut c = Context::new(config());
    let expected = lines(&[
        "export function delete__$ (",
        "  a: U64,",
        "  $signer: any,",
        "  $p: TypeTag[], /* <X, Y>*/",
        "): boolean {",
        "  $signer(arguments);",
        "}",
        "",
        "",
    ]);
    assert_eq!(text_of(&(&fname, &f), &mut c), expected);
}

#[test]
fn function_is_printed_as_json() {
    let fname = named("f");
    let f = function(&["X", "Y"], vec![(var("a"), u64_())], "boolean");
    let plain = function(&[], vec![], "void");
    let mut c = Context::new(config());
    c.json = true;
    let expected = lines(&[
        "{",
        "  \"name\": \"f\",",
        "  \"a\": \"U64\",",
        "  \"types\": [\"X\", \"Y\"],",
        "  \"returnType\": \"boolean\",",
        "},",
        "",
    ]);
    assert_eq!(text_of(&(&fname, &f), &mut c), expected);
    let expected = lines(&[
        "{",
        "  \"name\": \"f\",",
        "  \"types\": [],",
        "  \"returnType\": \"void\",",
        "},",
        "",
    ]);
    assert_eq!(text_of(&(&fname, &plain), &mut c), expected);
}

#[test]
fn unit_tests_are_marked_if_asked_for() {
    let fname = named("t");
    let f = Function { is_test: Ok(true), ..function(&[], vec![], "void") };
    let other = function(&[], vec![], "void");
    let mut c = Context::new(Config { test: true, ..config() });
    assert!(text_of(&(&fname, &f), &mut c).starts_with("// #[test]\nexport function t$ (\n"));
    assert!(text_of(&(&fname, &other), &mut c).starts_with("export function t$ (\n"));
    c.json = true;
    assert!(text_of(&(&fname, &f), &mut c).starts_with("{\n  \"test\": true,\n  \"name\""));
    let mut c = Context::new(config());
    assert!(text_of(&(&fname, &f), &mut c).starts_with("export function t$ (\n"));
}

#[test]
fn test_attributes_that_are_not_valid_are_refused_if_tests_are_marked() {
    let fname = named("t");
    let bad = Diagnostic { loc: loc(51), message: "bad test".to_string() };
    let f = Function { is_test: Err(bad), ..function(&[], vec![], "void") };
    let mut c = Context::new(Config { test: true, ..config() });
    assert_eq!(error_of(&(&fname, &f), &mut c), (51, "bad test".to_string()));
    c.json = true;
    assert_eq!(error_of(&(&fname, &f), &mut c), (51, "bad test".to_string()));
    let mut c = Context::new(config());
    assert!(text_of(&(&fname, &f), &mut c).starts_with("export function t$ ("));
}

#[test]
fn entry_function_gets_a_payload() {
    let m = bank();
    let fname = FunctionName(renamed("delete", "delete__"));
    let f = entry(
        &["X", "Y"],
        vec![
            (var("account"), signer_ref()),
            (var("amount"), u64_()),
            (var("memo"), by_value(vector(builtin(BuiltinTypeName_::U8), "U8[]"), "U8[]")),
        ],
    );
    let mut c = Context::new(config());
    c.reset_for_module(&m);
    let expected = lines(&[
        "export function delete__$ (",
        "  account: HexString,",
        "  amount: U64,",
        "  memo: U8[],",
        "  $signer: any,",
        "  $p: TypeTag[], /* <X, Y>*/",
        "): void {",
        "  $signer(arguments);",
        "}",
        "",
        "",
        "export function buildPayload_delete (",
        "  amount: U64,",
        "  memo: U8[],",
        "  $p: TypeTag[], /* <X, Y>*/",
        ") {",
        "  const typeParamStrings = $p.map(t=>$.getTypeTagFullname(t));",
        "  return $.buildPayload(",
        "    \"0xaa::bank::delete\",",
        "    typeParamStrings,",
        "    [",
        "      $.payloadArg(amount),",
        "      $.u8ArrayArg(memo),",
        "    ]",
        "  );",
        "",
        "}",
        "",
    ]);
    assert_eq!(text_of(&(&fname, &f), &mut c), expected);
}

#[test]
fn payload_of_an_entry_function_with_signers_alone_has_no_arguments() {
    let m = bank();
    let fname = named("f");
    let f = entry(&[], vec![(var("account"), signer_ref())]);
    let mut c = Context::new(config());
    c.reset_for_module(&m);
    let expected = lines(&[
        "export function buildPayload_f (",
        ") {",
        "  const typeParamStrings = [] as string[];",
        "  return $.buildPayload(",
        "    \"0xaa::bank::f\",",
        "    typeParamStrings,",
        "    []",
        "  );",
        "",
        "}",
        "",
    ]);
    assert!(text_of(&(&fname, &f), &mut c).ends_with(&expected));
}

#[test]
fn entry_function_whose_parameters_cannot_be_passed_gets_no_payload() {
    let m = bank();
    let fname = named("f");
    let mut f = entry(&["T"], vec![(var("t"), by_value(param_type("T", 0), "any"))]);
    f.attributes = vec![attr_name("cmd", 1)];
    let mut c = Context::new(config());
    c.reset_for_module(&m);
    assert!(!text_of(&(&fname, &f), &mut c).contains("buildPayload"));
    assert!(c.cmds.is_empty());
}

// directives on functions

#[test]
fn command_is_noted_with_its_description() {
    let m = bank();
    let fname = named("deposit");
    let plain = entry(&[], vec![]);
    let inner = vec![
        attr_assigned("desc", Some("first"), 1),
        attr_assigned("desc", Some("second"), 2),
    ];
    let mut c = Context::new(config());
    c.reset_for_module(&m);
    let mut w = TsgenWriter::new();
    handle_function_cmd_directive(&fname, &plain, None, &mut w, &mut c).unwrap();
    handle_function_cmd_directive(&fname, &plain, Some(&inner), &mut w, &mut c).unwrap();
    assert_eq!(w.to_text(), "");
    assert_eq!(c.cmds.len(), 2);
    assert_eq!(c.cmds[0].fname.0.value, "deposit");
    assert_eq!(c.cmds[0].module.value.module.0.value, "bank");
    assert!(c.cmds[0].function.entry.is_some());
    assert!(c.cmds[0].desc.is_none());
    assert_eq!(c.cmds[1].desc.map(|s| s.as_str()), Some("second"));
}

#[test]
fn parameters_of_a_command_are_checked() {
    let m = bank();
    let fname = named("f");
    let f = entry(&[], vec![]);
    let no_string = vec![attr_assigned("desc", None, 20)];
    let not_assigned = vec![attr_name("desc", 22)];
    let unknown = vec![attr_assigned("description", Some("x"), 24)];
    let mut c = Context::new(config());
    c.reset_for_module(&m);
    let mut w = TsgenWriter::new();
    let needs_string = "desc needs to be assigned a byte string value (e.g. b\"description\")";
    let d = handle_function_cmd_directive(&fname, &f, Some(&no_string), &mut w, &mut c).unwrap_err();
    assert_eq!((d.loc.start, d.message.as_str()), (20, needs_string));
    let d =
        handle_function_cmd_directive(&fname, &f, Some(&not_assigned), &mut w, &mut c).unwrap_err();
    assert_eq!((d.loc.start, d.message.as_str()), (22, needs_string));
    let d = handle_function_cmd_directive(&fname, &f, Some(&unknown), &mut w, &mut c).unwrap_err();
    assert_eq!(
        (d.loc.start, d.message.as_str()),
        (25, "Unrecognized parameter to cmd directive")
    );
    assert!(c.cmds.is_empty());
}

#[test]
fn directives_on_a_function_are_handled_in_order() {
    let m = bank();
    let fname = named("f");
    let mut f = entry(&[], vec![]);
    f.attributes = vec![
        attr_name("view", 1),
        attr_name("cmd", 2),
        attr_list("cmd", vec![attr_assigned("desc", Some("d"), 4)], 3),
    ];
    let mut c = Context::new(config());
    c.reset_for_module(&m);
    let mut w = TsgenWriter::new();
    handle_function_directives(&fname, &f, &mut w, &mut c).unwrap();
    assert_eq!(w.to_text(), "\n\n");
    assert_eq!(c.cmds.len(), 2);
    assert!(c.cmds[0].desc.is_none());
    assert_eq!(c.cmds[1].desc.map(|s| s.as_str()), Some("d"));
}

#[test]
fn command_cannot_be_assigned() {
    let m = bank();
    let fname = named("f");
    let mut f = entry(&[], vec![]);
    f.attributes = vec![attr_assigned("cmd", Some("x"), 26)];
    let mut c = Context::new(config());
    c.reset_for_module(&m);
    assert_eq!(
        error_of(&(&fname, &f), &mut c),
        (26, "the 'cmd' attribute cannot be assigned".to_string())
    );
}

#[test]
fn only_entry_functions_become_commands_and_each_once() {
    let m = bank();
    let mut mdef = empty_module();
    let cmd_entry = Function { attributes: vec![attr_name("cmd", 1)], ..entry(&[], vec![]) };
    let cmd_plain =
        Function { attributes: vec![attr_name("cmd", 1)], ..function(&[], vec![], "void") };
    mdef.functions = vec![
        (named("plain"), cmd_plain),
        (named("run"), cmd_entry),
        (named("silent"), entry(&[], vec![])),
    ];
    let other = module_ident("finance", "0xaa", "other");
    let other_def = ModuleDefinition {
        functions: vec![(
            named("go"),
            Function { attributes: vec![attr_name("cmd", 1)], ..entry(&[], vec![]) },
        )],
        ..empty_module()
    };
    let mut c = Context::new(config());
    translate_module(&m, &mdef, &mut c).unwrap();
    assert_eq!(c.cmds.len(), 1);
    assert_eq!(c.cmds[0].fname.0.value, "run");
    translate_module(&other, &other_def, &mut c).unwrap();
    assert_eq!(c.cmds.len(), 2);
    assert_eq!(c.cmds[1].fname.0.value, "go");
    assert_eq!(c.cmds[1].module.value.module.0.value, "other");
}

// structs

#[test]
fn resource_is_printed_as_a_class() {
    let sname = StructName(renamed("Account", "Account_"));
    let mut sdef = structure(vec![
        field("balance", builtin(BuiltinTypeName_::U64), "AtomicTypeTag.U64"),
        StructField {
            name: Field(renamed("default", "__default")),
            ty: builtin(BuiltinTypeName_::Address),
            typetag: term("AtomicTypeTag.Address"),
        },
    ]);
    sdef.abilities.key = true;
    sdef.type_parameters = vec![type_parameter("T", true), type_parameter("U", false)];
    let mut c = Context::new(config());
    let expected = lines(&[
        "",
        "export class Account_ ",
        "{",
        "  static moduleAddress = moduleAddress;",
        "  static moduleName = moduleName;",
        "  static structName: string = \"Account_\";",
        "  static typeParameters: TypeParamDeclType[] = [",
        "    { name: \"T\", isPhantom: true },",
        "    { name: \"U\", isPhantom: false }",
        "  ];",
        "  static fields: FieldDeclType[] = [",
        "  { name: \"balance\", typeTag: AtomicTypeTag.U64 },",
        "  { name: \"__default\", typeTag: AtomicTypeTag.Address }];",
        "",
        "  balance: U64;",
        "  __default: HexString;",
        "",
        "  constructor(proto: any, public typeTag: TypeTag) {",
        "    this.balance = proto['balance'] as U64;",
        "    this.__default = proto['__default'] as HexString;",
        "  }",
        "",
        "  static AccountParser(data:any, typeTag: TypeTag, repo: AptosParserRepo) : Account {",
        "    const proto = $.parseStructProto(data, typeTag, repo, Account);",
        "    return new Account(proto, typeTag);",
        "  }",
        "",
        "  static async load(repo: AptosParserRepo, client: AptosClient, address: HexString, typeParams: TypeTag[]) {",
        "    const result = await repo.loadResource(client, address, Account, typeParams);",
        "    return result as unknown as Account;",
        "  }",
        "}",
        "",
    ]);
    assert_eq!(text_of(&(&sname, &sdef), &mut c), expected);
}

#[test]
fn struct_without_fields_is_printed_as_a_class() {
    let sname = StructName(name("Empty"));
    let sdef = structure(vec![]);
    let mut c = Context::new(config());
    let expected = lines(&[
        "",
        "export class Empty ",
        "{",
        "  static moduleAddress = moduleAddress;",
        "  static moduleName = moduleName;",
        "  static structName: string = \"Empty\";",
        "  static typeParameters: TypeParamDeclType[] = [",
        "",
        "  ];",
        "  static fields: FieldDeclType[] = [",
        "  ];",
        "",
        "  constructor(proto: any, public typeTag: TypeTag) {",
        "",
        "  }",
        "",
        "  static EmptyParser(data:any, typeTag: TypeTag, repo: AptosParserRepo) : Empty {",
        "    const proto = $.parseStructProto(data, typeTag, repo, Empty);",
        "    return new Empty(proto, typeTag);",
        "  }",
        "",
        "}",
        "",
    ]);
    assert_eq!(text_of(&(&sname, &sdef), &mut c), expected);
}

#[test]
fn native_struct_has_no_fields_and_no_methods() {
    let sname = StructName(name("Raw"));
    let mut sdef = structure(vec![]);
    sdef.fields = StructFields::Native(loc(3));
    sdef.attributes = vec![attr_name("cmd", 1)];
    let mut c = Context::new(config());
    let expected = lines(&[
        "",
        "export class Raw ",
        "{",
        "  static moduleAddress = moduleAddress;",
        "  static moduleName = moduleName;",
        "  static structName: string = \"Raw\";",
        "  static typeParameters: TypeParamDeclType[] = [",
        "",
        "  ];",
        "",
        "}",
        "",
    ]);
    assert_eq!(text_of(&(&sname, &sdef), &mut c), expected);
}

#[test]
fn field_whose_type_has_no_text_is_refused() {
    let sname = StructName(name("S"));
    let mut bad_tag = field("x", builtin(BuiltinTypeName_::U8), "_");
    bad_tag.typetag = failing(81, "no tag");
    let sdef = structure(vec![bad_tag]);
    let mut bad_type = field("x", builtin(BuiltinTypeName_::U8), "_");
    bad_type.ty.ts = failing(82, "no type");
    let other = structure(vec![bad_type]);
    let mut c = Context::new(config());
    assert_eq!(error_of(&(&sname, &sdef), &mut c), (81, "no tag".to_string()));
    assert_eq!(error_of(&(&sname, &other), &mut c), (82, "no type".to_string()));
}

fn special(package: &str, module: &str, sname: &str) -> String {
    let m = module_ident(package, "0x1", module);
    let sname = StructName(name(sname));
    let mut c = Context::new(config());
    c.reset_for_module(&m);
    let mut w = TsgenWriter::new();
    handle_special_structs(&sname, &mut w, &mut c).unwrap();
    w.to_text()
}

#[test]
fn some_structs_of_the_framework_have_more_methods() {
    assert_eq!(
        special("std", "string", "String"),
        "str(): string { return $.u8str(this.bytes); }\n"
    );
    assert_eq!(
        special("aptos_framework", "iterable_table", "IterableTable"),
        "toTypedIterTable<K, V>(field: $.FieldDeclType) { return TypedIterableTable<K, V>.buildFromField(this, field); }\n"
    );
    assert_eq!(
        special("aptos_framework", "type_info", "TypeInfo"),
        lines(&[
            "typeFullname(): string {",
            "  return `${this.account_address.toShortString()}::${$.u8str(this.module_name)}::${$.u8str(this.struct_name)}`;",
            "}",
            "toTypeTag() { return $.parseTypeTagOrThrow(this.typeFullname()); }",
            "moduleName() { return (this.toTypeTag() as $.StructTag).module; }",
            "structName() { return (this.toTypeTag() as $.StructTag).name; }",
            "",
        ])
    );
    assert_eq!(special("std", "string", "Str"), "");
    assert_eq!(special("aptos_framework", "string", "String"), "");
    assert_eq!(special("std", "type_info", "TypeInfo"), "");
    let sname = StructName(name("String"));
    let mut c = Context::new(config());
    let mut w = TsgenWriter::new();
    handle_special_structs(&sname, &mut w, &mut c).unwrap();
    assert_eq!(w.to_text(), "");
}

// directives on structs

#[test]
fn show_directive_prints_a_method_for_each_function() {
    let m = bank();
    let sname = StructName(name("Account"));
    let sdef = structure(vec![]);
    let inner = vec![attr_name("show_a", 1), attr_name("show_b", 2)];
    let mut c = Context::new(config());
    c.reset_for_module(&m);
    let mut w = TsgenWriter::new();
    handle_struct_show_directive(&sname, &sdef, &inner, &mut w, &mut c).unwrap();
    let expected = lines(&[
        "",
        "show_a() {",
        "  const cache = new DummyCache();",
        "  const tags = (this.typeTag as StructTag).typeParams;",
        "  return show_a$(this, cache, tags);",
        "}",
        "",
        "show_b() {",
        "  const cache = new DummyCache();",
        "  const tags = (this.typeTag as StructTag).typeParams;",
        "  return show_b$(this, cache, tags);",
        "}",
        "",
    ]);
    assert_eq!(w.to_text(), expected);
    assert_eq!(c.module_shows.len(), 2);
    assert_eq!(c.module_shows[0].sname.0.value, "Account");
    assert_eq!(c.module_shows[0].fname.value, "show_a");
    assert_eq!(c.module_shows[1].fname.value, "show_b");
    assert_eq!(c.module_shows[1].module.value.module.0.value, "bank");
}

#[test]
fn show_directive_takes_names_only() {
    let m = bank();
    let sname = StructName(name("Account"));
    let sdef = structure(vec![]);
    let inner = vec![attr_assigned("f", Some("x"), 27)];
    let mut c = Context::new(config());
    c.reset_for_module(&m);
    let mut w = TsgenWriter::new();
    let d = handle_struct_show_directive(&sname, &sdef, &inner, &mut w, &mut c).unwrap_err();
    assert_eq!(
        (d.loc.start, d.message.as_str()),
        (27, "show directive expects only a list of function names as argument")
    );
}

fn table(args: Vec<BaseType>) -> BaseType {
    struct_type(
        module_ident("aptos_framework", "0x1", "iterable_table"),
        "IterableTable",
        args,
        term("IterableTable"),
    )
}

#[test]
fn show_iter_table_directive_prints_a_method() {
    let m = bank();
    let sname = StructName(name("Ledger"));
    let sdef = structure(vec![
        field("total", builtin(BuiltinTypeName_::U64), "_"),
        field(
            "rows",
            table(vec![
                builtin(BuiltinTypeName_::Address),
                struct_type(bank(), "Row", vec![], importing("Row", &["lib"], &["rows"])),
            ]),
            "_",
        ),
    ]);
    let inner = vec![attr_name("rows", 1)];
    let mut c = Context::new(config());
    c.reset_for_module(&m);
    let mut w = TsgenWriter::new();
    handle_struct_show_iter_table_directive(&sname, &sdef, &inner, &mut w, &mut c).unwrap();
    let expected = lines(&[
        "",
        "async getIterTableEntries_rows(client: AptosClient, repo: AptosParserRepo) {",
        "  const cache = new DummyCache();",
        "  const tags = (this.typeTag as StructTag).typeParams;",
        "  const iterTableField = Ledger.fields.filter(f=>f.name === 'rows')[0]",
        "  const typedIterTable = this.rows.toTypedIterTable<HexString,Row>(iterTableField);",
        "  return await typedIterTable.fetchAll(client, repo);",
        "}",
        "",
    ]);
    assert_eq!(w.to_text(), expected);
    assert_eq!(c.iter_table_shows.len(), 1);
    assert_eq!(c.iter_table_shows[0].sname.0.value, "Ledger");
    assert_eq!(c.iter_table_shows[0].field_name.value, "rows");
    assert_eq!(c.package_imports.names(), &vec!["lib"]);
    assert_eq!(c.same_package_imports.names(), &vec!["rows"]);
}

fn iter_table_error(sdef: &StructDefinition, inner: Attributes) -> (u32, String) {
    let m = bank();
    let sname = StructName(name("Ledger"));
    let mut c = Context::new(config());
    c.reset_for_module(&m);
    let mut w = TsgenWriter::new();
    let d = handle_struct_show_iter_table_directive(&sname, sdef, &inner, &mut w, &mut c)
        .unwrap_err();
    (d.loc.start, d.message)
}

#[test]
fn show_iter_table_directive_is_checked() {
    let key = || builtin(BuiltinTypeName_::U64);
    let sdef = structure(vec![
        field("total", key(), "_"),
        field("one", table(vec![key()]), "_"),
        field(
            "elsewhere",
            struct_type(
                module_ident("aptos_framework", "0x2", "iterable_table"),
                "IterableTable",
                vec![key(), key()],
                term("_"),
            ),
            "_",
        ),
        field(
            "plain",
            struct_type(
                module_ident("aptos_framework", "0x1", "table"),
                "IterableTable",
                vec![key(), key()],
                term("_"),
            ),
            "_",
        ),
        field(
            "other",
            struct_type(
                module_ident("aptos_framework", "0x1", "iterable_table"),
                "Table",
                vec![key(), key()],
                term("_"),
            ),
            "_",
        ),
        field("param", param_type("T", 0), "_"),
    ]);
    let native = StructDefinition { fields: StructFields::Native(loc(0)), ..structure(vec![]) };
    assert_eq!(
        iter_table_error(&native, vec![attr_name("rows", 11)]),
        (11, "cannot show iterable tables from native struct".to_string())
    );
    assert_eq!(
        iter_table_error(&sdef, vec![attr_name("rows", 12)]),
        (12, "Field rows does not exist".to_string())
    );
    for f in ["total", "elsewhere", "plain", "other", "param"] {
        assert_eq!(
            iter_table_error(&sdef, vec![attr_name(f, 13)]),
            (13, format!("Field {} is not an IterableTable", f))
        );
    }
    assert_eq!(
        iter_table_error(&sdef, vec![attr_name("one", 14)]),
        (44, "IterableTable should have 2 type arguments ".to_string())
    );
    assert_eq!(
        iter_table_error(&sdef, vec![attr_list("one", vec![], 15)]),
        (15, "show_iter_table directive expects only a field name as argument".to_string())
    );
    let mut bad = structure(vec![field("rows", table(vec![key(), key()]), "_")]);
    if let StructFields::Defined(fields) = &mut bad.fields {
        if let BaseType_::Apply(_, _, args) = &mut fields[0].ty.value {
            args[1].ts = failing(16, "no value type");
        }
    }
    assert_eq!(
        iter_table_error(&bad, vec![attr_name("rows", 17)]),
        (16, "no value type".to_string())
    );
}

fn struct_directive_error(attr: (Name, Attribute)) -> (u32, String) {
    let m = bank();
    let sname = StructName(name("S"));
    let mut sdef = structure(vec![]);
    sdef.attributes = vec![attr];
    let mut c = Context::new(config());
    c.reset_for_module(&m);
    let mut w = TsgenWriter::new();
    let d = handle_struct_directives(&sname, &sdef, &mut w, &mut c).unwrap_err();
    (d.loc.start, d.message)
}

#[test]
fn directives_on_a_struct_are_checked() {
    let list = "the 'show' requires a list of function names as argument (e.g. $[show(show_x_as_y)]";
    assert_eq!(
        struct_directive_error(attr_name("cmd", 18)),
        (18, "the 'cmd' attribute cannot be used on structs".to_string())
    );
    assert_eq!(struct_directive_error(attr_name("show", 19)), (19, list.to_string()));
    let assigned = attr_assigned("show", Some("x"), 21);
    assert_eq!(struct_directive_error(assigned), (21, list.to_string()));
    let bare = attr_name("show_iter_table", 23);
    assert_eq!(struct_directive_error(bare), (23, list.to_string()));
}

#[test]
fn directives_on_a_struct_are_handled_in_order() {
    let m = bank();
    let sname = StructName(name("Ledger"));
    let rows = table(vec![builtin(BuiltinTypeName_::U8), builtin(BuiltinTypeName_::U64)]);
    let mut sdef = structure(vec![field("rows", rows, "_")]);
    sdef.attributes = vec![
        attr_name("test_only", 1),
        attr_list("show", vec![attr_name("f", 2)], 1),
        attr_list("show_iter_table", vec![attr_name("rows", 3)], 1),
    ];
    let mut c = Context::new(config());
    c.reset_for_module(&m);
    let mut w = TsgenWriter::new();
    handle_struct_directives(&sname, &sdef, &mut w, &mut c).unwrap();
    let text = w.to_text();
    assert!(text.starts_with("\n\nf() {\n"));
    assert!(text.contains("}\n\n\nasync getIterTableEntries_rows(client: AptosClient, repo: AptosParserRepo) {\n"));
    assert_eq!((c.module_shows.len(), c.iter_table_shows.len()), (1, 1));
}

// shows

fn wallet(args: Vec<BaseType>) -> BaseType {
    struct_type(bank(), "Wallet", args, term("Wallet"))
}

fn wallet_struct() -> StructDefinition {
    StructDefinition {
        attributes: vec![attr_list("show", vec![attr_name("show", 90)], 1)],
        type_parameters: vec![type_parameter("A", false), type_parameter("B", false)],
        ..structure(vec![])
    }
}

fn own_args() -> Vec<BaseType> {
    vec![param_type("A", 0), param_type("B", 0)]
}

fn show_result(f: Option<Function>) -> Result<(), (u32, String)> {
    let m = bank();
    let sname = StructName(name("Wallet"));
    let sdef = wallet_struct();
    let fname = name_at("show", 90);
    let mut functions = vec![(named("other"), function(&[], vec![], "void"))];
    if let Some(f) = f {
        functions.push((FunctionName(name_at("show", 91)), f));
    }
    let mut c = Context::new(config());
    c.reset_for_module(&m);
    c.add_show(&m, &sname, &sdef, &fname);
    validate_show_functions(&functions, &c).map_err(|d| (d.loc.start, d.message))
}

#[test]
fn function_that_takes_a_reference_to_the_struct_can_show_it() {
    let by_reference = function(&["A", "B"], vec![(var("w"), by_ref(wallet(own_args()), "_"))], "U64");
    assert_eq!(show_result(Some(by_reference)), Ok(()));
}

#[test]
fn function_that_takes_the_struct_by_value_cannot_show_it() {
    let f = function(&["A", "B"], vec![(var("w"), by_value(wallet(own_args()), "_"))], "U64");
    assert_eq!(
        show_result(Some(f)),
        Err((91, "This function should have &Wallet as the only parameter".to_string()))
    );
}

#[test]
fn function_that_shows_a_struct_has_to_exist() {
    assert_eq!(
        show_result(None),
        Err((90, "This function does not exist in current module".to_string()))
    );
}

#[test]
fn function_that_shows_a_struct_has_its_type_parameters() {
    let fewer = function(&["A"], vec![(var("w"), by_ref(wallet(own_args()), "_"))], "U64");
    assert_eq!(
        show_result(Some(fewer)),
        Err((91, "This function should have the same type parameters as Wallet".to_string()))
    );
    let mut swapped = function(&["A", "B"], vec![(var("w"), by_ref(wallet(own_args()), "_"))], "U64");
    swapped.signature.type_parameters[1].user_specified_name = name_at("C", 92);
    assert_eq!(show_result(Some(swapped)), Err((92, "Mismatched type parameters".to_string())));
}

#[test]
fn function_that_shows_a_struct_takes_nothing_else() {
    let only = Err((91, "This function should have &Wallet as the only parameter".to_string()));
    let none = function(&["A", "B"], vec![], "U64");
    assert_eq!(show_result(Some(none)), only);
    let two = function(
        &["A", "B"],
        vec![(var("w"), by_ref(wallet(own_args()), "_")), (var("x"), u64_())],
        "U64",
    );
    assert_eq!(show_result(Some(two)), only);
    for ty in [
        builtin(BuiltinTypeName_::U64),
        param_type("A", 0),
        struct_type(bank(), "Purse", own_args(), term("_")),
        struct_type(module_ident("finance", "0xaa", "shop"), "Wallet", own_args(), term("_")),
    ] {
        let f = function(&["A", "B"], vec![(var("w"), by_ref(ty, "_"))], "U64");
        assert_eq!(show_result(Some(f)), only);
    }
}

#[test]
fn function_that_shows_a_struct_applies_it_to_its_parameters_in_order() {
    let swapped = vec![param_type("B", 93), param_type("A", 94)];
    let f = function(&["A", "B"], vec![(var("w"), by_ref(wallet(swapped), "_"))], "U64");
    assert_eq!(show_result(Some(f)), Err((93, "Mismatched type parameters".to_string())));
    let fixed = vec![param_type("A", 0), builtin(BuiltinTypeName_::U8)];
    let f = function(&["A", "B"], vec![(var("w"), by_ref(wallet(fixed), "_"))], "U64");
    assert_eq!(show_result(Some(f)), Err((60, "Mismatched type parameters".to_string())));
}

#[test]
fn shows_are_validated_at_the_end_of_the_module() {
    let m = bank();
    let mut mdef = empty_module();
    mdef.structs = vec![(StructName(name("Wallet")), wallet_struct())];
    assert_eq!(
        module_error(&m, &mdef),
        (90, "This function does not exist in current module".to_string())
    );
    let f = function(&["A", "B"], vec![(var("w"), by_ref(wallet(own_args()), "_"))], "U64");
    mdef.functions = vec![(named("show"), f)];
    let mut c = Context::new(config());
    let (_, text) = translate_module(&m, &mdef, &mut c).unwrap();
    assert!(text.contains("\n  show() {\n    const cache = new DummyCache();\n"));
}

// declared variables

fn declared(list: &[&str]) -> Vec<String> {
    strings(list)
}

#[test]
fn unpacking_declares_variables() {
    let nested = unpack(vec![
        ("a", lvar("x")),
        ("b", unpack(vec![("c", lvar("z")), ("d", lvalue(LValue_::Ignore))])),
        ("e", lvar("y")),
    ]);
    let mut set = StringSet::new();
    identify_declared_vars_in_lvalue(&lvar("plain"), &mut set);
    identify_declared_vars_in_lvalue(&lvalue(LValue_::Ignore), &mut set);
    assert!(set.names().is_empty());
    identify_declared_vars_in_lvalue(&nested, &mut set);
    assert_eq!(set.names(), &declared(&["x", "y", "z"]));
}

#[test]
fn variables_are_declared_in_all_blocks_of_a_statement() {
    let unpacking = |v: &str| {
        cmd(Command_::Assign(lhs(vec![lvar("p"), unpack(vec![("f", lvar(v))])], "_"), e("s")))
    };
    let mut set = StringSet::new();
    identify_declared_vars_in_cmd(&command(Command_::Break), &mut set);
    assert!(set.names().is_empty());
    identify_declared_vars_in_stmt(&unpacking("a"), &mut set);
    identify_declared_vars_in_stmt(
        &stmt(Statement_::IfElse {
            cond: e("c"),
            if_block: vec![unpacking("b")],
            else_block: vec![unpacking("c")],
        }),
        &mut set,
    );
    identify_declared_vars_in_stmt(
        &stmt(Statement_::While { cond: (vec![unpacking("d")], e("c")), block: vec![unpacking("e")] }),
        &mut set,
    );
    identify_declared_vars_in_stmt(
        &stmt(Statement_::Loop { has_break: false, block: vec![unpacking("f")] }),
        &mut set,
    );
    assert_eq!(set.names(), &declared(&["a", "b", "c", "d", "e", "f"]));
}

#[test]
fn two_blocks_declare_what_each_of_them_declares() {
    let unpacking =
        |v: &str| cmd(Command_::Assign(lhs(vec![unpack(vec![("f", lvar(v))])], "_"), e("s")));
    let mut both = StringSet::new();
    identify_declared_vars_in_block(&vec![unpacking("b"), unpacking("a"), unpacking("b")], &mut both);
    let mut apart = StringSet::new();
    identify_declared_vars_in_block(&vec![unpacking("b")], &mut apart);
    identify_declared_vars_in_block(&vec![unpacking("a"), unpacking("b")], &mut apart);
    assert_eq!(both.names(), &declared(&["a", "b"]));
    assert_eq!(apart.names(), both.names());
}

// modules

#[test]
fn parsers_of_all_structs_are_registered() {
    let m = bank();
    let mut mdef = empty_module();
    mdef.structs = vec![
        (StructName(renamed("A", "A_")), structure(vec![])),
        (StructName(name("B")), structure(vec![])),
    ];
    let mut c = Context::new(config());
    let mut w = TsgenWriter::new();
    write_load_parsers(&m, &mdef, &mut w, &mut c).unwrap();
    let expected = lines(&[
        "export function loadParsers(repo: AptosParserRepo) {",
        "  repo.addParser(\"0xaa::bank::A\", A.AParser);",
        "  repo.addParser(\"0xaa::bank::B\", B.BParser);",
        "}",
        "",
    ]);
    assert_eq!(w.to_text(), expected);
}

fn special_of_module(hex: &str, module: &str) -> String {
    let m = module_ident("aptos_framework", hex, module);
    let mut c = Context::new(config());
    let mut w = TsgenWriter::new();
    handle_special_module(&m, &empty_module(), &mut w, &mut c).unwrap();
    w.to_text()
}

#[test]
fn some_modules_of_the_framework_have_helpers() {
    assert_eq!(special_of_module("0x1", "table"), "class TypedTable {}\n");
    assert_eq!(special_of_module("0x1", "iterable_table"), "class TypedIterableTable {}\n");
    assert_eq!(special_of_module("0x1", "coin"), "");
    assert_eq!(special_of_module("0x2", "table"), "");
}

#[test]
fn module_is_printed_into_a_file() {
    let m = bank();
    let mut mdef = empty_module();
    mdef.package_name = Some("Finance".to_string());
    mdef.constants = vec![(
        ConstantName(name("E")),
        constant(builtin(BuiltinTypeName_::U64), vec![ret(e("u64(\"1\")"))]),
    )];
    let mut sdef = structure(vec![field(
        "coin",
        struct_type(bank(), "Coin", vec![], importing("Coin", &["std", "lib"], &["coin"])),
        "_",
    )]);
    sdef.abilities.key = true;
    mdef.structs = vec![(StructName(name("Purse")), sdef)];
    let mut f = function(&[], vec![], "Stdlib.Option.Option");
    f.signature.return_type.ts = importing("Option", &["lib", "aptos"], &["a_module", "coin"]);
    mdef.functions = vec![(named("peek"), f)];
    let mut c = Context::new(config());
    let (file, text) = translate_module(&m, &mdef, &mut c).unwrap();
    assert_eq!(file, "finance/bank.ts");
    let mut expected: Vec<&str> = COMMON.to_vec();
    expected.extend([
        "import * as aptos$_ from \"../aptos\";",
        "import * as lib$_ from \"../lib\";",
        "import * as std$_ from \"../std\";",
        "import * as a_module$_ from \"./a_module\";",
        "import * as coin$_ from \"./coin\";",
        "export const packageName = \"Finance\";",
        "export const moduleAddress = new HexString(\"0xaa\");",
        "export const moduleName = \"bank\";",
        "",
        "export const E : U64 = u64(\"1\");",
        "",
        "",
        "export class Purse ",
        "{",
        "  static moduleAddress = moduleAddress;",
        "  static moduleName = moduleName;",
        "  static structName: string = \"Purse\";",
        "  static typeParameters: TypeParamDeclType[] = [",
        "",
        "  ];",
        "  static fields: FieldDeclType[] = [",
        "  { name: \"coin\", typeTag: _ }];",
        "",
        "  coin: Coin;",
        "",
        "  constructor(proto: any, public typeTag: TypeTag) {",
        "    this.coin = proto['coin'] as Coin;",
        "  }",
        "",
        "  static PurseParser(data:any, typeTag: TypeTag, repo: AptosParserRepo) : Purse {",
        "    const proto = $.parseStructProto(data, typeTag, repo, Purse);",
        "    return new Purse(proto, typeTag);",
        "  }",
        "",
        "  static async load(repo: AptosParserRepo, client: AptosClient, address: HexString, typeParams: TypeTag[]) {",
        "    const result = await repo.loadResource(client, address, Purse, typeParams);",
        "    return result as unknown as Purse;",
        "  }",
        "}",
        "export function peek$ (",
        "  $signer: any,",
        "): Option {",
        "  $signer(arguments);",
        "}",
        "",
        "export const json = {",
        "{",
        "  \"name\": \"peek\",",
        "  \"types\": [],",
        "  \"returnType\": \"Option\",",
        "},",
        "};",
        "export function loadParsers(repo: AptosParserRepo) {",
        "  repo.addParser(\"0xaa::bank::Purse\", Purse.PurseParser);",
        "}",
        "",
    ]);
    assert_eq!(text, expected.join("\n"));
    assert!(c.json);
}

#[test]
fn module_without_contents_is_printed() {
    let m = module_ident("aptos_framework", "0x1", "table");
    let mdef = empty_module();
    let mut c = Context::new(config());
    let (file, text) = translate_module(&m, &mdef, &mut c).unwrap();
    assert_eq!(file, "aptos_framework/table.ts");
    let mut expected: Vec<&str> = COMMON.to_vec();
    expected.extend([
        "export const packageName = \"\";",
        "export const moduleAddress = new HexString(\"0x1\");",
        "export const moduleName = \"table\";",
        "",
        "",
        "export const json = {",
        "};",
        "export function loadParsers(repo: AptosParserRepo) {",
        "}",
        "class TypedTable {}",
        "",
    ]);
    assert_eq!(text, expected.join("\n"));
}

#[test]
fn first_failure_of_a_module_is_reported() {
    let m = bank();
    let bad = |start: u32| {
        constant(
            builtin(BuiltinTypeName_::U64),
            vec![ret(Exp {
                exp: UnannotatedExp { loc: loc(0), value: UnannotatedExp_::Other },
                ts: failing(start, "no value"),
            })],
        )
    };
    let mut mdef = empty_module();
    mdef.constants =
        vec![(ConstantName(name("A")), bad(5)), (ConstantName(name("B")), bad(6))];
    assert_eq!(module_error(&m, &mdef), (5, "no value".to_string()));
}

#[test]
fn file_of_a_module_ends_without_indentation() {
    let m = bank();
    let mut mdef = empty_module();
    mdef.structs = vec![(StructName(name("S")), structure(vec![]))];
    mdef.functions = vec![(named("f"), entry(&[], vec![(var("x"), u64_())]))];
    let mut c = Context::new(config());
    c.reset_for_module(&m);
    let mut w = TsgenWriter::new();
    (&m, &mdef).write_ts(&mut w, &mut c).unwrap();
    w.write("end");
    assert!(w.to_text().ends_with("\n}\nend"));
}

#[test]
fn imports_are_those_of_what_is_shown() {
    let mut c = Context::new(config());
    let shown = command(Command_::Abort(Exp {
        exp: UnannotatedExp { loc: loc(0), value: UnannotatedExp_::Other },
        ts: importing("E", &["std"], &["errors"]),
    }));
    let hidden = command(Command_::Return {
        from_user: true,
        exp: Exp {
            exp: UnannotatedExp { loc: loc(0), value: UnannotatedExp_::Unit },
            ts: importing("()", &["hidden"], &["hidden"]),
        },
    });
    let text = to_ts_string(&hidden, &mut c).unwrap();
    assert_eq!(text, format!("{}\nreturn;\n", COMMON.join("\n")));
    let text = to_ts_string(&shown, &mut c).unwrap();
    let imports = "import * as std$_ from \"../std\";\nimport * as errors$_ from \"./errors\";";
    assert_eq!(text, format!("{}\n{}\nthrow $.abortCode(E);\n", COMMON.join("\n"), imports));
}

#[test]
fn modules_do_not_depend_on_those_before() {
    let m = bank();
    let mut mdef = empty_module();
    mdef.functions = vec![(named("f"), function(&[], vec![], "void"))];
    let other = module_ident("finance", "0xaa", "other");
    let mut other_def = empty_module();
    let mut g = function(&[], vec![], "X");
    g.signature.return_type.ts = importing("X", &["std"], &["x"]);
    other_def.functions = vec![(named("g"), g)];
    let mut alone = Context::new(config());
    let mut after = Context::new(config());
    translate_module(&other, &other_def, &mut after).unwrap();
    let a = translate_module(&m, &mdef, &mut alone).unwrap();
    let b = translate_module(&m, &mdef, &mut after).unwrap();
    assert_eq!(a, b);
    let again = translate_module(&m, &mdef, &mut after).unwrap();
    assert_eq!(a, again);
}

#[test]
fn context_is_reset_for_a_module() {
    let m = bank();
    let sname = StructName(name("S"));
    let sdef = structure(vec![]);
    let fname = name("f");
    let fun = named("f");
    let f = entry(&[], vec![]);
    let mut c = Context::new(config());
    assert!(c.current_module.is_none());
    c.package_imports.insert("std");
    c.same_package_imports.insert("x");
    c.add_show(&m, &sname, &sdef, &fname);
    c.add_show_iter_table(&m, &sname, &sdef, &fname);
    c.add_cmd(&m, &fun, &f, None);
    c.current_function_signature = Some(&f.signature);
    c.reset_for_module(&m);
    assert!(c.package_imports.names().is_empty());
    assert!(c.same_package_imports.names().is_empty());
    assert!(c.module_shows.is_empty());
    assert!(c.current_function_signature.is_none());
    assert_eq!(c.current_module.unwrap().value.module.0.value, "bank");
    assert_eq!((c.iter_table_shows.len(), c.cmds.len()), (1, 1));
}

#[test]
fn signature_of_the_current_function_is_forgotten() {
    let fname = named("f");
    let f = function(&[], vec![], "void");
    let mut c = Context::new(config());
    c.current_function_signature = Some(&f.signature);
    c.json = true;
    text_of(&(&fname, &f), &mut c);
    assert!(c.current_function_signature.is_some());
    c.json = false;
    text_of(&(&fname, &f), &mut c);
    assert!(c.current_function_signature.is_none());
}

#[test]
fn names_of_constants_functions_and_structs_are_renamed() {
    let mut c = Context::new(config());
    assert_eq!(ConstantName(renamed("a", "a_")).term(&mut c).unwrap(), "a_");
    assert_eq!(FunctionName(renamed("b", "b_")).term(&mut c).unwrap(), "b_");
    assert_eq!(StructName(renamed("c", "c_")).term(&mut c).unwrap(), "c_");
    assert_eq!(
        type_parameter("T", true).term(&mut c).unwrap(),
        "{ name: \"T\", isPhantom: true }"
    );
}

#[test]
fn module_whose_directives_do_not_fit_is_refused() {
    let m = bank();
    let mut mdef = empty_module();
    let mut sdef = structure(vec![field("total", builtin(BuiltinTypeName_::U64), "_")]);
    sdef.attributes = vec![attr_name("cmd", 8)];
    mdef.structs = vec![(StructName(name("S")), sdef)];
    assert_eq!(
        module_error(&m, &mdef),
        (8, "the 'cmd' attribute cannot be used on structs".to_string())
    );
    mdef.structs[0].1.attributes =
        vec![attr_list("show_iter_table", vec![attr_name("total", 10)], 9)];
    assert_eq!(
        module_error(&m, &mdef),
        (10, "Field total is not an IterableTable".to_string())
    );
    mdef.structs[0].1.attributes = vec![];
    let mut f = entry(&[], vec![]);
    f.attributes = vec![attr_list("cmd", vec![attr_name("desc", 12)], 11)];
    mdef.functions = vec![(named("f"), f)];
    assert_eq!(
        module_error(&m, &mdef),
        (
            12,
            "desc needs to be assigned a byte string value (e.g. b\"description\")".to_string()
        )
    );
}

#[test]
fn well_formed_module_is_printed_or_refused() {
    let m = bank();
    let mut mdef = empty_module();
    mdef.structs = vec![(StructName(name("Wallet")), wallet_struct())];
    let f = function(&["A", "B"], vec![(var("w"), by_ref(wallet(own_args()), "_"))], "U64");
    let nested = by_value(vector(vector(builtin(BuiltinTypeName_::Bool), "_"), "_"), "boolean[][]");
    mdef.functions = vec![
        (named("show"), f),
        (named("run"), entry(&[], vec![(var("s"), signer_ref()), (var("x"), nested)])),
    ];
    mdef.constants = vec![(
        ConstantName(name("LIST")),
        constant(vector(builtin(BuiltinTypeName_::U8), "_"), vec![ret(e("[]"))]),
    )];
    let mut c = Context::new(config());
    let (_, text) = translate_module(&m, &mdef, &mut c).unwrap();
    assert!(text.contains("\nexport const LIST : U8[] = [];\n"));
    assert!(text.contains("\n      x.map(array => array.map(ele => $.payloadArg(ele))),\n"));
    mdef.functions.remove(0);
    assert_eq!(
        module_error(&m, &mdef),
        (90, "This function does not exist in current module".to_string())
    );
}

#[test]
fn function_is_exported_once() {
    let m = bank();
    let fname = named("f");
    let f = entry(&["T"], vec![(var("s"), signer_ref()), (var("x"), u64_())]);
    let plain = function(&[], vec![], "export function f$ (");
    let mut c = Context::new(config());
    c.reset_for_module(&m);
    for text in [text_of(&(&fname, &f), &mut c), text_of(&(&fname, &plain), &mut c)] {
        let n = text.lines().filter(|line| *line == "export function f$ (").count();
        assert_eq!(n, 1);
    }
}

#[test]
fn block_that_does_nothing_is_two_braces() {
    let none: Block = vec![];
    let dropped: Block = vec![pop(unit())];
    assert_eq!(plain_text_of(&none), "{\n}\n");
    assert_eq!(plain_text_of(&dropped), "{\n}\n");
}

fn text_before_failure(m: &ModuleIdent, mdef: &ModuleDefinition) -> (String, String) {
    let mut c = Context::new(Config { test: true, ..config() });
    c.reset_for_module(m);
    let mut w = TsgenWriter::new();
    let d = (m, mdef).write_ts(&mut w, &mut c).unwrap_err();
    (w.to_text(), d.message)
}

#[test]
fn parsers_are_not_registered_behind_a_failure() {
    let m = bank();
    let mut constant_fails = empty_module();
    let jump = cmd(Command_::Jump { from_user: true, target: 0 });
    constant_fails.constants =
        vec![(ConstantName(name("A")), constant(builtin(BuiltinTypeName_::U8), vec![jump]))];
    let mut struct_fails = empty_module();
    let mut sdef = structure(vec![]);
    sdef.attributes = vec![attr_name("cmd", 1)];
    struct_fails.structs = vec![(StructName(name("S")), sdef)];
    let mut function_fails = empty_module();
    let bad = Diagnostic { loc: loc(51), message: "bad test".to_string() };
    function_fails.functions =
        vec![(named("t"), Function { is_test: Err(bad), ..function(&[], vec![], "void") })];
    let mut show_fails = empty_module();
    show_fails.structs = vec![(StructName(name("Wallet")), wallet_struct())];
    for (mdef, message) in [
        (&constant_fails, "Unsupported Command (Jump)"),
        (&struct_fails, "the 'cmd' attribute cannot be used on structs"),
        (&function_fails, "bad test"),
        (&show_fails, "This function does not exist in current module"),
    ] {
        let (text, said) = text_before_failure(&m, mdef);
        assert_eq!(said, message);
        assert!(text.starts_with("export const packageName = \"\";\n"));
        assert!(!text.contains("export function loadParsers"));
    }
    assert!(text_before_failure(&m, &show_fails).0.ends_with("export const json = {\n};\n"));
}

#[test]
fn shows_of_a_printed_module_pass_in_the_context_it_leaves() {
    let m = bank();
    let mut mdef = empty_module();
    mdef.structs = vec![(StructName(name("Wallet")), wallet_struct())];
    let f = function(&["A", "B"], vec![(var("w"), by_ref(wallet(own_args()), "_"))], "U64");
    mdef.functions = vec![(named("show"), f)];
    let mut c = Context::new(config());
    translate_module(&m, &mdef, &mut c).unwrap();
    assert_eq!(c.module_shows.len(), 1);
    assert!(validate_show_functions(&mdef.functions, &c).is_ok());
}

#[test]
fn function_behind_the_start_of_a_line_is_exported_on_that_line() {
    let fname = named("t");
    let f = Function { is_test: Ok(true), ..function(&[], vec![], "void") };
    let print = |test: bool| {
        let mut c = Context::new(Config { test, ..config() });
        let mut w = TsgenWriter::new();
        w.increase_indent();
        w.write("/* t */ ");
        (&fname, &f).write_ts(&mut w, &mut c).unwrap();
        w.to_text()
    };
    assert!(print(false).starts_with("  /* t */ export function t$ (\n"));
    assert!(print(true).starts_with("  /* t */ // #[test]\n  export function t$ (\n"));
}

#[test]
fn commands_of_a_module_are_noted_once_in_the_order_of_its_functions() {
    let m = bank();
    let described = |text: &str| {
        attr_list("cmd", vec![attr_assigned("desc", Some(text), 4)], 3)
    };
    let mut mdef = empty_module();
    mdef.functions = vec![
        (named("b"), Function { attributes: vec![described("B")], ..entry(&[], vec![]) }),
        (named("none"), entry(&[], vec![])),
        (
            named("a"),
            Function {
                attributes: vec![attr_name("view", 1), attr_name("cmd", 2)],
                ..entry(&[], vec![(var("s"), signer_ref())])
            },
        ),
    ];
    let mut c = Context::new(config());
    translate_module(&m, &mdef, &mut c).unwrap();
    let noted: Vec<(&str, Option<&str>)> = c
        .cmds
        .iter()
        .map(|cmd| (cmd.fname.0.value.as_str(), cmd.desc.map(|s| s.as_str())))
        .collect();
    assert_eq!(noted, vec![("b", Some("B")), ("a", None)]);
}
