use vstd::prelude::*;

use crate::transpiler::is_keyword;
use vstd::string::StringExecFns;

verus! {

/// The extension of a module's source file.
pub const LOL_EXTENSION: &'static str = "lol";

/// The extension of a module compiled ahead of time.
pub const LOLC_EXTENSION: &'static str = "lolc";

/// How a module file is loaded.
#[derive(Clone, Copy, Debug, PartialEq, Eq, Structural)]
pub enum ModuleFormat {
    /// Source text: parsed and translated.
    Source,
    /// A module stored after an earlier build: read back as it is.
    Compiled,
}

/// How a file with extension `ext` is loaded; `None` where it is no module file.
pub fn module_format(ext: &str) -> (r: Option<ModuleFormat>)
    ensures
        r == (if ext@ == LOL_EXTENSION@ {
            Some(ModuleFormat::Source)
        } else if ext@ == LOLC_EXTENSION@ {
            Some(ModuleFormat::Compiled)
        } else {
            None
        }),
{
    let e = String::from_str(ext);
    if is_keyword(&e, LOL_EXTENSION) {
        Some(ModuleFormat::Source)
    } else if is_keyword(&e, LOLC_EXTENSION) {
        Some(ModuleFormat::Compiled)
    } else {
        None
    }
}

/// The name under which a function of an imported module is bound: the
/// module's name and the function's joined by `-`. A function that belongs
/// to no module keeps its own name.
pub fn import_hook(module: Option<&str>, name: &str) -> (r: String)
    ensures
        r@ == (match module {
            Some(m) => m@ + "-"@ + name@,
            None => name@,
        }),
{
    match module {
        Some(m) => {
            let mut r = String::from_str(m);
            r.append("-");
            r.append(name);
            r
        },
        None => String::from_str(name),
    }
}

} // verus!
