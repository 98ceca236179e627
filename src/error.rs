use vstd::prelude::*;

verus! {

/// Why a module could not be built. The first failure aborts the whole
/// translation; no partial module is ever handed out.
#[derive(Debug, PartialEq, Eq)]
pub enum Error {
    /// Wrong element count or kind at a fixed position of the grammar.
    MalformedForm,
    /// A top-level form headed by a symbol other than `def` or `import`.
    UnknownTopLevelKeyword,
    /// A top-level form that is not a list headed by a symbol.
    UnexpectedTopLevelShape,
    /// `not` with other than one operand, or `ret` with more than one.
    ArityMismatch,
    /// The S-expression parser refused the source text; its message.
    UnderlyingParseError(String),
    /// The downstream module builder refused the finished module; its message.
    BuildError(String),
}

} // verus!
