//! Prints a Move module as TypeScript.

pub mod ast;
pub mod ast_to_ts;
pub mod commands;
pub mod constants;
pub mod context_laws;
pub mod declared_vars;
pub mod definedness;
pub mod diagnostic_laws;
pub mod directives;
pub mod exports;
pub mod failure_laws;
pub mod function_laws;
pub mod functions;
pub mod import_laws;
pub mod indentation;
pub mod laws;
pub mod module;
pub mod module_laws;
pub mod naming_laws;
pub mod note_laws;
pub mod printer;
pub mod reading;
pub mod script;
pub mod shape;
pub mod shared;
pub mod shows;
pub mod statement_laws;
pub mod statements;
pub mod stops;
pub mod string_set;
pub mod struct_directives;
pub mod struct_laws;
pub mod structs;
pub mod text;
pub mod tsgen_writer;
pub mod type_laws;
pub mod types;
