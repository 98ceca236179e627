pub mod error;
pub mod grammar;
pub mod hooks;
pub mod ir;
pub mod laws;
pub mod sexp;
pub mod transpiler;

pub use crate::error::Error;
pub use crate::hooks::{import_hook, module_format, ModuleFormat, LOLC_EXTENSION, LOL_EXTENSION};
pub use crate::ir::{Expr, Function, Literal, Module, ModuleMeta, Operator, Scope, Stmt};
pub use crate::sexp::SExp;
pub use crate::transpiler::Transpiler;
