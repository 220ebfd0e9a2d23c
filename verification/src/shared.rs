//! What the printers of all constructs share: the context and the forms of names.

use crate::ast::{
    Address, Attribute, Attribute_, Diagnostic, DiagnosticView, Diagnostics, Function,
    FunctionName, FunctionSignature, Loc, ModuleIdent, Name, StructDefinition, StructName, Term,
    TermResult,
};
use crate::string_set::StringSet;
use crate::text::{cat3, same_text, views};
use vstd::prelude::*;

verus! {

/// What does not change from module to module.
#[derive(Debug)]
pub struct Config {
    /// Whether unit tests are marked as such.
    pub test: bool,
    /// The helper declarations that belong to the module `0x1::table`.
    pub table_helper_decl: String,
    /// The helper declarations that belong to the module `0x1::iterable_table`.
    pub iterable_table_helper_decl: String,
}

/// A struct that a function of its module shows.
#[derive(Debug)]
pub struct Show<'a> {
    pub module: &'a ModuleIdent,
    pub sname: &'a StructName,
    pub sdef: &'a StructDefinition,
    pub fname: &'a Name,
}

/// What a [`Show`] refers to.
pub struct ShowView {
    pub module: ModuleIdent,
    pub sname: StructName,
    pub sdef: StructDefinition,
    pub fname: Name,
}

impl<'a> View for Show<'a> {
    type V = ShowView;

    open spec fn view(&self) -> ShowView {
        ShowView {
            module: *self.module,
            sname: *self.sname,
            sdef: *self.sdef,
            fname: *self.fname,
        }
    }
}

/// A struct that lists the entries of an iterable table in one of its fields.
#[derive(Debug)]
pub struct ShowIterTable<'a> {
    pub module: &'a ModuleIdent,
    pub sname: &'a StructName,
    pub sdef: &'a StructDefinition,
    pub field_name: &'a Name,
}

/// What a [`ShowIterTable`] refers to.
pub struct ShowIterTableView {
    pub module: ModuleIdent,
    pub sname: StructName,
    pub sdef: StructDefinition,
    pub field_name: Name,
}

impl<'a> View for ShowIterTable<'a> {
    type V = ShowIterTableView;

    open spec fn view(&self) -> ShowIterTableView {
        ShowIterTableView {
            module: *self.module,
            sname: *self.sname,
            sdef: *self.sdef,
            field_name: *self.field_name,
        }
    }
}

/// An entry function that is offered as a command.
#[derive(Debug)]
pub struct Cmd<'a> {
    pub module: &'a ModuleIdent,
    pub fname: &'a FunctionName,
    pub function: &'a Function,
    pub desc: Option<&'a String>,
}

/// What a [`Cmd`] refers to.
pub struct CmdView {
    pub module: ModuleIdent,
    pub fname: FunctionName,
    pub function: Function,
    pub desc: Option<String>,
}

impl<'a> View for Cmd<'a> {
    type V = CmdView;

    open spec fn view(&self) -> CmdView {
        CmdView {
            module: *self.module,
            fname: *self.fname,
            function: *self.function,
            desc: match self.desc {
                Some(d) => Some(*d),
                None => None,
            },
        }
    }
}

/// What is known while a module is printed, and what is collected on the way.
#[derive(Debug)]
pub struct Context<'a> {
    pub config: Config,
    /// The packages that the module imports.
    pub package_imports: StringSet,
    /// The modules of its own package that the module imports.
    pub same_package_imports: StringSet,
    pub current_module: Option<&'a ModuleIdent>,
    pub current_function_signature: Option<&'a FunctionSignature>,
    /// Whether functions are printed as JSON.
    pub json: bool,
    /// The shows of the current module.
    pub module_shows: Vec<Show<'a>>,
    /// The iterable tables of all modules that are shown.
    pub iter_table_shows: Vec<ShowIterTable<'a>>,
    /// The commands of all modules.
    pub cmds: Vec<Cmd<'a>>,
}

/// What a [`Context`] holds.
pub struct ContextView {
    pub config: Config,
    pub package_imports: Set<Seq<char>>,
    pub same_package_imports: Set<Seq<char>>,
    pub current_module: Option<ModuleIdent>,
    pub current_function_signature: Option<FunctionSignature>,
    pub json: bool,
    pub module_shows: Seq<ShowView>,
    pub iter_table_shows: Seq<ShowIterTableView>,
    pub cmds: Seq<CmdView>,
}

impl<'a> View for Context<'a> {
    type V = ContextView;

    open spec fn view(&self) -> ContextView {
        ContextView {
            config: self.config,
            package_imports: self.package_imports@,
            same_package_imports: self.same_package_imports@,
            current_module: match self.current_module {
                Some(m) => Some(*m),
                None => None,
            },
            current_function_signature: match self.current_function_signature {
                Some(f) => Some(*f),
                None => None,
            },
            json: self.json,
            module_shows: self.module_shows@.map_values(|s: Show<'a>| s@),
            iter_table_shows: self.iter_table_shows@.map_values(|s: ShowIterTable<'a>| s@),
            cmds: self.cmds@.map_values(|s: Cmd<'a>| s@),
        }
    }
}

impl ContextView {
    /// The context at the start of a module: what belongs to one module is forgotten.
    pub open spec fn reset_for_module(self, mident: ModuleIdent) -> ContextView {
        ContextView {
            package_imports: Set::empty(),
            same_package_imports: Set::empty(),
            current_module: Some(mident),
            current_function_signature: None,
            module_shows: Seq::empty(),
            ..self
        }
    }

    /// The context once the module imports what a term needs.
    pub open spec fn import(self, term: Term) -> ContextView {
        ContextView {
            package_imports: self.package_imports.union(
                views(term.package_imports@).to_set(),
            ),
            same_package_imports: self.same_package_imports.union(
                views(term.module_imports@).to_set(),
            ),
            ..self
        }
    }
}

impl<'a> Context<'a> {
    pub fn new(config: Config) -> (c: Self)
        ensures
            c@ == (ContextView {
                config,
                package_imports: Set::empty(),
                same_package_imports: Set::empty(),
                current_module: None,
                current_function_signature: None,
                json: false,
                module_shows: Seq::empty(),
                iter_table_shows: Seq::empty(),
                cmds: Seq::empty(),
            }),
    {
        let c = Context {
            config,
            package_imports: StringSet::new(),
            same_package_imports: StringSet::new(),
            current_module: None,
            current_function_signature: None,
            json: false,
            module_shows: Vec::new(),
            iter_table_shows: Vec::new(),
            cmds: Vec::new(),
        };
        assert(c@.module_shows =~= Seq::empty());
        assert(c@.iter_table_shows =~= Seq::empty());
        assert(c@.cmds =~= Seq::empty());
        c
    }

    pub fn reset_for_module(&mut self, mident: &'a ModuleIdent)
        ensures
            final(self)@ == old(self)@.reset_for_module(*mident),
    {
        self.package_imports = StringSet::new();
        self.same_package_imports = StringSet::new();
        self.current_module = Some(mident);
        self.current_function_signature = None;
        self.module_shows = Vec::new();
        assert(self@.module_shows =~= Seq::empty());
    }

    pub fn add_show(
        &mut self,
        module: &'a ModuleIdent,
        sname: &'a StructName,
        sdef: &'a StructDefinition,
        fname: &'a Name,
    )
        ensures
            final(self)@ == (ContextView {
                module_shows: old(self)@.module_shows.push(
                    ShowView { module: *module, sname: *sname, sdef: *sdef, fname: *fname },
                ),
                ..old(self)@
            }),
    {
        let show = Show { module, sname, sdef, fname };
        self.module_shows.push(show);
        assert(self@.module_shows =~= old(self)@.module_shows.push(show@));
    }

    pub fn add_show_iter_table(
        &mut self,
        module: &'a ModuleIdent,
        sname: &'a StructName,
        sdef: &'a StructDefinition,
        field_name: &'a Name,
    )
        ensures
            final(self)@ == (ContextView {
                iter_table_shows: old(self)@.iter_table_shows.push(
                    ShowIterTableView {
                        module: *module,
                        sname: *sname,
                        sdef: *sdef,
                        field_name: *field_name,
                    },
                ),
                ..old(self)@
            }),
    {
        let show = ShowIterTable { module, sname, sdef, field_name };
        self.iter_table_shows.push(show);
        assert(self@.iter_table_shows =~= old(self)@.iter_table_shows.push(show@));
    }

    pub fn add_cmd(
        &mut self,
        module: &'a ModuleIdent,
        fname: &'a FunctionName,
        function: &'a Function,
        desc: Option<&'a String>,
    )
        ensures
            final(self)@ == (ContextView {
                cmds: old(self)@.cmds.push(
                    CmdView {
                        module: *module,
                        fname: *fname,
                        function: *function,
                        desc: match desc {
                            Some(d) => Some(*d),
                            None => None,
                        },
                    },
                ),
                ..old(self)@
            }),
    {
        let cmd = Cmd { module, fname, function, desc };
        self.cmds.push(cmd);
        assert(self@.cmds =~= old(self)@.cmds.push(cmd@));
    }
}

fn insert_all(set: &mut StringSet, names: &Vec<String>)
    ensures
        final(set)@ == old(set)@.union(views(names@).to_set()),
{
    let ghost all = views(names@);
    let mut i: usize = 0;
    assert(all.take(0).to_set() =~= Set::empty());
    assert(set@ =~= set@.union(all.take(0).to_set()));
    while i < names.len()
        invariant
            i <= names.len(),
            all == views(names@),
            set@ == old(set)@.union(all.take(i as int).to_set()),
        decreases names.len() - i,
    {
        set.insert(names[i].as_str());
        proof {
            let shorter = all.take(i as int);
            let longer = all.take(i + 1);
            assert forall|x: Seq<char>| longer.contains(x) == (shorter.contains(x) || x == all[
                i as int
            ]) by {
                if longer.contains(x) {
                    let k = choose|k: int| 0 <= k < longer.len() && longer[k] == x;
                    if k < i {
                        assert(shorter[k] == x);
                    }
                }
                if shorter.contains(x) {
                    let k = choose|k: int| 0 <= k < shorter.len() && shorter[k] == x;
                    assert(longer[k] == x);
                }
                assert(longer[i as int] == all[i as int]);
            }
            assert(longer.to_set() =~= shorter.to_set().insert(all[i as int]));
            assert(set@ =~= old(set)@.union(longer.to_set()));
        }
        i = i + 1;
    }
    assert(all.take(all.len() as int) =~= all);
}

impl Term {
    /// The text of a term that has one.
    pub open spec fn shown(self) -> Seq<char> {
        match self.text {
            Ok(s) => s@,
            Err(_) => Seq::empty(),
        }
    }

    /// The text of the term, which the module now shows.
    pub fn term(&self, c: &mut Context) -> (r: TermResult)
        ensures
            final(c)@ == old(c)@.import(*self),
            match self.text {
                Ok(s) => r is Ok && r->Ok_0@ == s@,
                Err(d) => r is Err && r->Err_0@ == d@,
            },
    {
        insert_all(&mut c.package_imports, &self.package_imports);
        insert_all(&mut c.same_package_imports, &self.module_imports);
        match &self.text {
            Ok(s) => Ok(s.clone()),
            Err(d) => Err(copy_diagnostic(d)),
        }
    }
}

impl Diagnostics {
    pub fn new() -> (r: Self)
        ensures
            r.diags@ == Seq::<Diagnostic>::empty(),
    {
        Diagnostics { diags: Vec::new() }
    }

    pub fn add(&mut self, diag: Diagnostic)
        ensures
            final(self).diags@ == old(self).diags@.push(diag),
    {
        self.diags.push(diag);
    }
}

pub fn copy_diagnostic(d: &Diagnostic) -> (r: Diagnostic)
    ensures
        r@ == d@,
{
    Diagnostic { loc: d.loc, message: d.message.clone() }
}

/// A diagnostic with a message of its own.
pub open spec fn says(loc: Loc, message: Seq<char>) -> DiagnosticView {
    DiagnosticView { loc, message }
}

pub fn derr(loc: Loc, message: &str) -> (r: Diagnostic)
    ensures
        r@ == says(loc, message@),
{
    Diagnostic { loc, message: message.to_owned() }
}

/// A text between double quotes.
pub open spec fn quoted(s: Seq<char>) -> Seq<char> {
    "\""@ + s + "\""@
}

pub fn quote(s: &str) -> (r: String)
    ensures
        r@ == quoted(s@),
{
    cat3("\"", s, "\"")
}

/// The identifier as TypeScript has it.
pub fn rename(name: &Name) -> (r: String)
    ensures
        r@ == name.ts@,
{
    name.ts.clone()
}

/// What the package at an address is called.
pub fn format_address(address: &Address) -> (r: &str)
    ensures
        r@ == address.name@,
{
    address.name.as_str()
}

/// An address as a hexadecimal number.
pub fn format_address_hex(address: &Address) -> (r: &str)
    ensures
        r@ == address.hex@,
{
    address.hex.as_str()
}

/// Whether two names are the same, wherever they stand.
pub open spec fn same_name(a: Name, b: Name) -> bool {
    a.value@ == b.value@
}

pub fn is_same_name(a: &Name, b: &Name) -> (r: bool)
    ensures
        r == same_name(*a, *b),
{
    same_text(a.value.as_str(), b.value.as_str())
}

/// Whether two modules have the same address and the same name.
pub open spec fn same_module(a: ModuleIdent, b: ModuleIdent) -> bool {
    a.value.address.hex@ == b.value.address.hex@ && same_name(a.value.module.0, b.value.module.0)
}

pub fn is_same_module(a: &ModuleIdent, b: &ModuleIdent) -> (r: bool)
    ensures
        r == same_module(*a, *b),
{
    same_text(a.value.address.hex.as_str(), b.value.address.hex.as_str()) && is_same_name(
        &a.value.module.0,
        &b.value.module.0,
    )
}

/// The byte string that an attribute is assigned, if it is assigned one.
pub open spec fn assigned_string(attr: Attribute) -> Option<String> {
    match attr.value {
        Attribute_::Assigned(_, value) => value,
        _ => None,
    }
}

pub fn extract_attribute_value_string(attr: &Attribute) -> (r: Option<&String>)
    ensures
        match r {
            Some(s) => assigned_string(*attr) == Some(*s),
            None => assigned_string(*attr) is None,
        },
{
    match &attr.value {
        Attribute_::Assigned(_, value) => value.as_ref(),
        _ => None,
    }
}

} // verus!
