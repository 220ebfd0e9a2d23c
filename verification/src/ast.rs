//! A Move module as the printer reads it.
//!
//! The tree has the shape of the compiler's high level IR. Names, types and expressions
//! are rendered before a module is printed, so such a node carries its TypeScript text in
//! a [`Term`] (or, for a name, in [`Name::ts`]) besides the structure that the printer
//! decides on. The maps of the IR are lists here, in the order in which they are visited.

use vstd::prelude::*;

verus! {

/// A range of characters in a source file.
#[derive(Clone, Copy, Debug, PartialEq, Eq, Structural)]
pub struct Loc {
    pub file_hash: u64,
    pub start: u32,
    pub end: u32,
}

/// Why a construct cannot be translated, and where it stands.
#[derive(Debug)]
pub struct Diagnostic {
    pub loc: Loc,
    pub message: String,
}

/// What a [`Diagnostic`] says.
pub struct DiagnosticView {
    pub loc: Loc,
    pub message: Seq<char>,
}

impl View for Diagnostic {
    type V = DiagnosticView;

    open spec fn view(&self) -> DiagnosticView {
        DiagnosticView { loc: self.loc, message: self.message@ }
    }
}

/// The diagnostics of one module.
#[derive(Debug)]
pub struct Diagnostics {
    pub diags: Vec<Diagnostic>,
}

/// The outcome of writing a construct.
pub type WriteResult = Result<(), Diagnostic>;

/// The text of a construct.
pub type TermResult = Result<String, Diagnostic>;

/// A rendered name of a type, type or expression: its text, or the reason why it has
/// none, and what a module that shows it has to import.
#[derive(Debug)]
pub struct Term {
    pub text: TermResult,
    /// Packages, each imported from the directory above.
    pub package_imports: Vec<String>,
    /// Modules of the same package, each imported from the directory of the module.
    pub module_imports: Vec<String>,
}

/// An identifier.
#[derive(Debug)]
pub struct Name {
    pub loc: Loc,
    /// The identifier as the module has it.
    pub value: String,
    /// The identifier as TypeScript has it, where some words are taken.
    pub ts: String,
}

#[derive(Debug)]
pub struct ModuleName(pub Name);

#[derive(Debug)]
pub struct StructName(pub Name);

#[derive(Debug)]
pub struct FunctionName(pub Name);

#[derive(Debug)]
pub struct ConstantName(pub Name);

#[derive(Debug)]
pub struct Field(pub Name);

#[derive(Debug)]
pub struct Var(pub Name);

/// The address of a module.
#[derive(Debug)]
pub struct Address {
    /// What the package at the address is called.
    pub name: String,
    /// The address as a hexadecimal number with `0x` in front and no leading zero.
    pub hex: String,
}

#[derive(Debug)]
pub struct ModuleIdent_ {
    pub address: Address,
    pub module: ModuleName,
}

#[derive(Debug)]
pub struct ModuleIdent {
    pub loc: Loc,
    pub value: ModuleIdent_,
}

#[derive(Debug)]
pub enum Attribute_ {
    /// `#[name]`
    Name(Name),
    /// `#[name = value]`, with the text of the value if that is a byte string.
    Assigned(Name, Option<String>),
    /// `#[name(inner, ..)]`
    Parameterized(Name, Vec<(Name, Attribute)>),
}

#[derive(Debug)]
pub struct Attribute {
    pub loc: Loc,
    pub value: Attribute_,
}

pub type Attributes = Vec<(Name, Attribute)>;

#[derive(Clone, Copy, Debug, PartialEq, Eq, Structural)]
pub enum Ability_ {
    Copy,
    Drop,
    Store,
    Key,
}

#[derive(Clone, Copy, Debug, PartialEq, Eq, Structural)]
pub struct AbilitySet {
    pub copy: bool,
    pub drop: bool,
    pub store: bool,
    pub key: bool,
}

impl AbilitySet {
    /// Whether an ability is in the set.
    pub open spec fn contains(self, ability: Ability_) -> bool {
        match ability {
            Ability_::Copy => self.copy,
            Ability_::Drop => self.drop,
            Ability_::Store => self.store,
            Ability_::Key => self.key,
        }
    }

    pub fn has_ability_(&self, ability: Ability_) -> (r: bool)
        ensures
            r == self.contains(ability),
    {
        match ability {
            Ability_::Copy => self.copy,
            Ability_::Drop => self.drop,
            Ability_::Store => self.store,
            Ability_::Key => self.key,
        }
    }
}

/// A type parameter.
#[derive(Debug)]
pub struct TParam {
    pub user_specified_name: Name,
}

#[derive(Debug)]
pub struct StructTypeParameter {
    pub is_phantom: bool,
    pub param: TParam,
    /// The name in double quotes, as TypeScript has it.
    pub quoted_ts: String,
}

#[derive(Clone, Copy, Debug, PartialEq, Eq, Structural)]
pub enum BuiltinTypeName_ {
    Address,
    Signer,
    U8,
    U64,
    U128,
    Vector,
    Bool,
}

#[derive(Debug)]
pub struct BuiltinTypeName {
    pub loc: Loc,
    pub value: BuiltinTypeName_,
    /// The TypeScript name of the type.
    pub ts: Term,
}

#[derive(Debug)]
pub enum TypeName_ {
    Builtin(BuiltinTypeName),
    ModuleType(ModuleIdent, StructName),
}

#[derive(Debug)]
pub struct TypeName {
    pub loc: Loc,
    pub value: TypeName_,
}

#[derive(Debug)]
pub enum BaseType_ {
    Param(TParam),
    Apply(AbilitySet, TypeName, Vec<BaseType>),
    Unreachable,
    UnresolvedError,
}

#[derive(Debug)]
pub struct BaseType {
    pub loc: Loc,
    pub value: BaseType_,
    /// The type in TypeScript.
    pub ts: Term,
}

#[derive(Debug)]
pub enum SingleType_ {
    Base(BaseType),
    /// A reference, mutable or not.
    Ref(bool, BaseType),
}

#[derive(Debug)]
pub struct SingleType {
    pub loc: Loc,
    pub value: SingleType_,
    /// The type in TypeScript.
    pub ts: Term,
}

/// What a function returns.
#[derive(Debug)]
pub struct Type {
    pub loc: Loc,
    /// The type in TypeScript.
    pub ts: Term,
}

#[derive(Debug)]
pub struct StructField {
    pub name: Field,
    pub ty: BaseType,
    /// The expression that builds the tag of the type at run time.
    pub typetag: Term,
}

#[derive(Debug)]
pub enum StructFields {
    Defined(Vec<StructField>),
    Native(Loc),
}

#[derive(Debug)]
pub struct StructDefinition {
    pub attributes: Attributes,
    pub abilities: AbilitySet,
    pub type_parameters: Vec<StructTypeParameter>,
    pub fields: StructFields,
}

#[derive(Debug)]
pub struct FunctionSignature {
    pub type_parameters: Vec<TParam>,
    pub parameters: Vec<(Var, SingleType)>,
    pub return_type: Type,
}

#[derive(Debug)]
pub struct Function {
    pub attributes: Attributes,
    /// Where the function is declared an entry point, if it is one.
    pub entry: Option<Loc>,
    pub signature: FunctionSignature,
    /// Whether the function is a unit test, or why its test attributes are not valid.
    pub is_test: Result<bool, Diagnostic>,
}

#[derive(Debug)]
pub struct Constant {
    pub loc: Loc,
    pub signature: BaseType,
    pub value: Block,
}

#[derive(Clone, Copy, Debug, PartialEq, Eq, Structural)]
pub enum UnannotatedExp_ {
    Unit,
    /// A borrowed field.
    Borrow,
    Dereference,
    /// Any other expression.
    Other,
}

#[derive(Debug)]
pub struct UnannotatedExp {
    pub loc: Loc,
    pub value: UnannotatedExp_,
}

#[derive(Debug)]
pub struct Exp {
    pub exp: UnannotatedExp,
    /// The expression in TypeScript.
    pub ts: Term,
}

#[derive(Debug)]
pub enum LValue_ {
    Ignore,
    Var(Var, SingleType),
    Unpack(StructName, Vec<BaseType>, Vec<(Field, LValue)>),
}

#[derive(Debug)]
pub struct LValue {
    pub loc: Loc,
    pub value: LValue_,
}

/// The left-hand side of an assignment.
#[derive(Debug)]
pub struct LValueList {
    pub lvalues: Vec<LValue>,
    /// Whether nothing is bound, so that only the right-hand side is evaluated.
    pub binds_nothing: bool,
    /// The left-hand side in TypeScript.
    pub ts: Term,
}

#[derive(Debug)]
pub enum Command_ {
    Assign(LValueList, Exp),
    Mutate(Exp, Exp),
    Abort(Exp),
    Return { from_user: bool, exp: Exp },
    Break,
    Continue,
    IgnoreAndPop { pop_num: usize, exp: Exp },
    Jump { from_user: bool, target: u64 },
    JumpIf { cond: Exp, if_true: u64, if_false: u64 },
}

#[derive(Debug)]
pub struct Command {
    pub loc: Loc,
    pub value: Command_,
}

#[derive(Debug)]
#[allow(inconsistent_fields)]
pub enum Statement_ {
    Command(Command),
    IfElse { cond: Exp, if_block: Vec<Statement>, else_block: Vec<Statement> },
    /// The statements that run before each test of the condition, the condition and the body.
    While { cond: (Vec<Statement>, Exp), block: Vec<Statement> },
    Loop { has_break: bool, block: Vec<Statement> },
}

#[derive(Debug)]
pub struct Statement {
    pub loc: Loc,
    pub value: Statement_,
}

pub type Block = Vec<Statement>;

#[derive(Debug)]
pub struct ModuleDefinition {
    pub package_name: Option<String>,
    pub structs: Vec<(StructName, StructDefinition)>,
    pub constants: Vec<(ConstantName, Constant)>,
    pub functions: Vec<(FunctionName, Function)>,
}

} // verus!
