use vstd::prelude::*;

use crate::error::Error;
use crate::ir::{ExprView, FunctionView, LiteralView, ModuleView, Operator, Scope, StmtView};
use crate::sexp::SExpView;

verus! {

/// The operator a symbol names, if any.
pub open spec fn operator_spec(name: Seq<char>) -> Option<Operator> {
    if name == "+"@ {
        Some(Operator::Add)
    } else if name == "-"@ {
        Some(Operator::Sub)
    } else if name == "*"@ {
        Some(Operator::Mul)
    } else if name == "/"@ {
        Some(Operator::Div)
    } else if name == "%"@ {
        Some(Operator::Rem)
    } else if name == "eq"@ {
        Some(Operator::Equal)
    } else if name == "ne"@ {
        Some(Operator::NotEqual)
    } else if name == "ge"@ {
        Some(Operator::GreaterEqual)
    } else if name == "gt"@ {
        Some(Operator::GreaterThan)
    } else if name == "le"@ {
        Some(Operator::LessEqual)
    } else if name == "lt"@ {
        Some(Operator::LessThan)
    } else if name == "and"@ {
        Some(Operator::And)
    } else if name == "or"@ {
        Some(Operator::Or)
    } else {
        None
    }
}

/// The operands of an operator node: for division the first operand is
/// converted to a float.
pub open spec fn operands_spec(op: Operator, args: Seq<ExprView>) -> Seq<ExprView> {
    if op == Operator::Div && args.len() > 0 {
        args.update(0, ExprView::ToFloat(Box::new(args[0])))
    } else {
        args
    }
}

/// An S-expression in value position, as an expression.
pub open spec fn expr_of(s: SExpView) -> Result<ExprView, Error>
    decreases s,
{
    match s {
        SExpView::Sym(n) => Ok(ExprView::Var(n)),
        SExpView::Str(t) => Ok(ExprView::Lit(LiteralView::Str(t))),
        SExpView::Char(c) => Ok(ExprView::Lit(LiteralView::Str(seq![c]))),
        SExpView::Int(n) => Ok(ExprView::Lit(LiteralView::Int(n))),
        SExpView::Float(b) => Ok(ExprView::Lit(LiteralView::Float(b))),
        SExpView::List(l) => list_expr_of(l),
    }
}

/// A list in value position, dispatched on its head symbol.
pub open spec fn list_expr_of(l: Seq<SExpView>) -> Result<ExprView, Error>
    decreases l,
{
    if l.len() == 0 {
        Err(Error::MalformedForm)
    } else {
        match l[0] {
            SExpView::Sym(name) => {
                let rest = l.subrange(1, l.len() as int);
                match operator_spec(name) {
                    Some(op) => match exprs_of(rest) {
                        Ok(args) => Ok(ExprView::Op(op, operands_spec(op, args))),
                        Err(e) => Err(e),
                    },
                    None => if name == "not"@ {
                        match exprs_of(rest) {
                            Ok(xs) => if xs.len() != 1 {
                                Err(Error::ArityMismatch)
                            } else {
                                Ok(ExprView::Not(Box::new(xs[0])))
                            },
                            Err(e) => Err(e),
                        }
                    } else if name == "dict"@ {
                        match entries_of(rest) {
                            Ok(kvs) => Ok(ExprView::Dict(kvs)),
                            Err(e) => Err(e),
                        }
                    } else if name == "list"@ {
                        match exprs_of(rest) {
                            Ok(xs) => Ok(ExprView::List(xs)),
                            Err(e) => Err(e),
                        }
                    } else if name == "range"@ {
                        match exprs_of(rest) {
                            Ok(xs) => if xs.len() == 1 {
                                Ok(
                                    ExprView::Range(
                                        Box::new(ExprView::Lit(LiteralView::Nil)),
                                        Box::new(xs[0]),
                                    ),
                                )
                            } else if xs.len() == 2 {
                                Ok(ExprView::Range(Box::new(xs[0]), Box::new(xs[1])))
                            } else {
                                Err(Error::MalformedForm)
                            },
                            Err(e) => Err(e),
                        }
                    } else {
                        match exprs_of(rest) {
                            Ok(xs) => Ok(ExprView::Call(name, xs)),
                            Err(e) => Err(e),
                        }
                    },
                }
            },
            _ => Err(Error::MalformedForm),
        }
    }
}

/// Each element as an expression, in order; the first failure wins.
pub open spec fn exprs_of(l: Seq<SExpView>) -> Result<Seq<ExprView>, Error>
    decreases l,
{
    if l.len() == 0 {
        Ok(seq![])
    } else {
        match expr_of(l[0]) {
            Ok(x) => match exprs_of(l.subrange(1, l.len() as int)) {
                Ok(xs) => Ok(seq![x] + xs),
                Err(e) => Err(e),
            },
            Err(e) => Err(e),
        }
    }
}

/// Each element as a key/value pair: a list of exactly two expressions.
pub open spec fn entries_of(l: Seq<SExpView>) -> Result<Seq<(ExprView, ExprView)>, Error>
    decreases l,
{
    if l.len() == 0 {
        Ok(seq![])
    } else {
        match l[0] {
            SExpView::List(kv) => if kv.len() != 2 {
                Err(Error::MalformedForm)
            } else {
                match expr_of(kv[0]) {
                    Ok(k) => match expr_of(kv[1]) {
                        Ok(v) => match entries_of(l.subrange(1, l.len() as int)) {
                            Ok(kvs) => Ok(seq![(k, v)] + kvs),
                            Err(e) => Err(e),
                        },
                        Err(e) => Err(e),
                    },
                    Err(e) => Err(e),
                }
            },
            _ => Err(Error::MalformedForm),
        }
    }
}

/// An S-expression in statement position, as a statement.
pub open spec fn stmt_of(s: SExpView) -> Result<StmtView, Error>
    decreases s,
{
    match s {
        SExpView::List(l) => list_stmt_of(l),
        _ => Err(Error::MalformedForm),
    }
}

/// The name held at position `i`, where that element is a symbol.
pub open spec fn sym_at(l: Seq<SExpView>, i: int) -> Option<Seq<char>> {
    if 0 <= i < l.len() {
        match l[i] {
            SExpView::Sym(n) => Some(n),
            _ => None,
        }
    } else {
        None
    }
}

/// A statement form of one head symbol and one module name.
pub open spec fn import_of(l: Seq<SExpView>, scope: Scope) -> Result<StmtView, Error> {
    if l.len() == 2 && sym_at(l, 1) is Some {
        Ok(StmtView::Import(sym_at(l, 1)->0, scope))
    } else {
        Err(Error::MalformedForm)
    }
}

/// A list in statement position, dispatched on its head symbol.
pub open spec fn list_stmt_of(l: Seq<SExpView>) -> Result<StmtView, Error>
    decreases l,
{
    if l.len() == 0 {
        Err(Error::MalformedForm)
    } else {
        match l[0] {
            SExpView::Sym(name) => {
                let rest = l.subrange(1, l.len() as int);
                if name == "break"@ {
                    if rest.len() == 0 {
                        Ok(StmtView::Break)
                    } else {
                        Err(Error::MalformedForm)
                    }
                } else if name == "continue"@ {
                    if rest.len() == 0 {
                        Ok(StmtView::Continue)
                    } else {
                        Err(Error::MalformedForm)
                    }
                } else if name == "do"@ {
                    match stmts_of(rest) {
                        Ok(b) => Ok(StmtView::Block(b)),
                        Err(e) => Err(e),
                    }
                } else if name == "foreach"@ {
                    if rest.len() >= 1 && l[1] is List && l[1]->List_0.len() == 2 && sym_at(
                        l[1]->List_0,
                        1,
                    ) is Some {
                        match expr_of(l[1]->List_0[0]) {
                            Ok(it) => match stmts_of(l.subrange(2, l.len() as int)) {
                                Ok(b) => Ok(StmtView::ForEach(it, sym_at(l[1]->List_0, 1)->0, b)),
                                Err(e) => Err(e),
                            },
                            Err(e) => Err(e),
                        }
                    } else {
                        Err(Error::MalformedForm)
                    }
                } else if name == "if"@ {
                    if rest.len() == 0 {
                        Err(Error::MalformedForm)
                    } else {
                        match expr_of(l[1]) {
                            Ok(c) => if rest.len() < 2 {
                                Err(Error::MalformedForm)
                            } else {
                                match stmt_of(l[2]) {
                                    Ok(t) => if rest.len() == 2 {
                                        Ok(StmtView::If(c, Box::new(t), None))
                                    } else {
                                        match stmt_of(l[3]) {
                                            Ok(e) => if rest.len() == 3 {
                                                Ok(StmtView::If(c, Box::new(t), Some(Box::new(e))))
                                            } else {
                                                Err(Error::MalformedForm)
                                            },
                                            Err(e) => Err(e),
                                        }
                                    },
                                    Err(e) => Err(e),
                                }
                            },
                            Err(e) => Err(e),
                        }
                    }
                } else if name == "import"@ {
                    import_of(l, Scope::Local)
                } else if name == "import-global"@ {
                    import_of(l, Scope::Global)
                } else if name == "let"@ {
                    if rest.len() == 2 && sym_at(l, 1) is Some {
                        match expr_of(l[2]) {
                            Ok(v) => Ok(StmtView::Let(sym_at(l, 1)->0, v)),
                            Err(e) => Err(e),
                        }
                    } else {
                        Err(Error::MalformedForm)
                    }
                } else if name == "loop"@ {
                    match stmts_of(rest) {
                        Ok(b) => Ok(StmtView::Loop(b)),
                        Err(e) => Err(e),
                    }
                } else if name == "ret"@ {
                    if rest.len() == 0 {
                        Ok(StmtView::Return(None))
                    } else if rest.len() == 1 {
                        match expr_of(l[1]) {
                            Ok(v) => Ok(StmtView::Return(Some(v))),
                            Err(e) => Err(e),
                        }
                    } else {
                        Err(Error::ArityMismatch)
                    }
                } else {
                    match exprs_of(rest) {
                        Ok(xs) => Ok(StmtView::Call(name, xs)),
                        Err(e) => Err(e),
                    }
                }
            },
            _ => Err(Error::MalformedForm),
        }
    }
}

/// Each element as a statement, in order; the first failure wins.
pub open spec fn stmts_of(l: Seq<SExpView>) -> Result<Seq<StmtView>, Error>
    decreases l,
{
    if l.len() == 0 {
        Ok(seq![])
    } else {
        match stmt_of(l[0]) {
            Ok(x) => match stmts_of(l.subrange(1, l.len() as int)) {
                Ok(xs) => Ok(seq![x] + xs),
                Err(e) => Err(e),
            },
            Err(e) => Err(e),
        }
    }
}

/// The parameter names of a `def`: every element a symbol, no name twice.
pub open spec fn params_of(ps: Seq<SExpView>) -> Option<Seq<Seq<char>>> {
    if (forall|i: int| 0 <= i < ps.len() ==> ps[i] is Sym) && (forall|i: int, j: int|
        0 <= i < j < ps.len() ==> ps[i]->Sym_0 != ps[j]->Sym_0) {
        Some(Seq::new(ps.len(), |i: int| ps[i]->Sym_0))
    } else {
        None
    }
}

/// A `def` form: its name, parameter list and body statements.
pub open spec fn define_of(l: Seq<SExpView>) -> Result<(Seq<char>, FunctionView), Error> {
    if l.len() >= 3 && sym_at(l, 1) is Some && l[2] is List && params_of(l[2]->List_0) is Some {
        match stmts_of(l.subrange(3, l.len() as int)) {
            Ok(body) => Ok(
                (sym_at(l, 1)->0, FunctionView { params: params_of(l[2]->List_0)->0, body }),
            ),
            Err(e) => Err(e),
        }
    } else {
        Err(Error::MalformedForm)
    }
}

/// The dependency list with `d` declared: unchanged where it is already there.
pub open spec fn with_dependency(ds: Seq<Seq<char>>, d: Seq<char>) -> Seq<Seq<char>> {
    if ds.contains(d) {
        ds
    } else {
        ds.push(d)
    }
}

/// The module after one top-level form.
pub open spec fn module_step(m: ModuleView, form: SExpView) -> Result<ModuleView, Error> {
    match form {
        SExpView::List(l) => if l.len() > 0 && l[0] is Sym {
            if l[0]->Sym_0 == "def"@ {
                match define_of(l) {
                    Ok(d) => Ok(ModuleView { functions: m.functions.insert(d.0, d.1), ..m }),
                    Err(e) => Err(e),
                }
            } else if l[0]->Sym_0 == "import"@ {
                if l.len() == 2 && sym_at(l, 1) is Some {
                    Ok(ModuleView { deps: with_dependency(m.deps, sym_at(l, 1)->0), ..m })
                } else {
                    Err(Error::MalformedForm)
                }
            } else {
                Err(Error::UnknownTopLevelKeyword)
            }
        } else {
            Err(Error::UnexpectedTopLevelShape)
        },
        _ => Err(Error::UnexpectedTopLevelShape),
    }
}

/// The module after the top-level forms, in order; the first failure wins.
pub open spec fn module_of(m: ModuleView, forms: Seq<SExpView>) -> Result<ModuleView, Error>
    decreases forms.len(),
{
    if forms.len() == 0 {
        Ok(m)
    } else {
        match module_step(m, forms[0]) {
            Ok(m2) => module_of(m2, forms.subrange(1, forms.len() as int)),
            Err(e) => Err(e),
        }
    }
}

} // verus!
