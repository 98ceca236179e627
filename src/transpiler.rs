use vstd::prelude::*;

use crate::error::Error;
use crate::grammar::{
    define_of, entries_of, expr_of, exprs_of, list_expr_of, list_stmt_of, module_of, module_step,
    operands_spec, operator_spec, params_of, stmt_of, stmts_of, sym_at,
};
use crate::ir::{
    exprs_view, pairs_view, stmts_view, strings_view, Expr, ExprView, Function, FunctionView, Literal,
    Module, ModuleMeta, ModuleView, Operator, Scope, Stmt, StmtView,
};
use crate::sexp::{items_view, SExp, SExpView};
use vstd::string::StringExecFns;

verus! {

broadcast use vstd::std_specs::vec::group_vec_axioms;

/// The value of a translation: the view of what was built, or the error.
pub open spec fn expr_result(r: Result<Expr, Error>) -> Result<ExprView, Error> {
    match r {
        Ok(x) => Ok(x@),
        Err(e) => Err(e),
    }
}

/// The value of a translation, as for `expr_result`.
pub open spec fn exprs_result(r: Result<Vec<Expr>, Error>) -> Result<Seq<ExprView>, Error> {
    match r {
        Ok(xs) => Ok(exprs_view(xs)),
        Err(e) => Err(e),
    }
}

/// The value of a translation, as for `expr_result`.
pub open spec fn pairs_result(r: Result<Vec<(Expr, Expr)>, Error>) -> Result<
    Seq<(ExprView, ExprView)>,
    Error,
> {
    match r {
        Ok(kvs) => Ok(pairs_view(kvs)),
        Err(e) => Err(e),
    }
}

/// `pre` followed by the sequence in `r`, or the failure in `r`.
pub open spec fn prefixed<T>(pre: Seq<T>, r: Result<Seq<T>, Error>) -> Result<Seq<T>, Error> {
    match r {
        Ok(xs) => Ok(pre + xs),
        Err(e) => Err(e),
    }
}

/// Whether `name` spells the keyword `kw`.
pub(crate) fn is_keyword(name: &String, kw: &str) -> (r: bool)
    ensures
        r == (name@ == kw@),
{
    let k = String::from_str(kw);
    *name == k
}

/// Relies on std's `char::to_string`: the string of that one character.
#[verifier::external_body]
fn char_string(c: char) -> (r: String)
    ensures
        r@ == seq![c],
{
    c.to_string()
}

/// The operator a symbol names, if any.
pub fn maps_to_operator(name: &String) -> (r: Option<Operator>)
    ensures
        r == operator_spec(name@),
{
    if is_keyword(name, "+") {
        Some(Operator::Add)
    } else if is_keyword(name, "-") {
        Some(Operator::Sub)
    } else if is_keyword(name, "*") {
        Some(Operator::Mul)
    } else if is_keyword(name, "/") {
        Some(Operator::Div)
    } else if is_keyword(name, "%") {
        Some(Operator::Rem)
    } else if is_keyword(name, "eq") {
        Some(Operator::Equal)
    } else if is_keyword(name, "ne") {
        Some(Operator::NotEqual)
    } else if is_keyword(name, "ge") {
        Some(Operator::GreaterEqual)
    } else if is_keyword(name, "gt") {
        Some(Operator::GreaterThan)
    } else if is_keyword(name, "le") {
        Some(Operator::LessEqual)
    } else if is_keyword(name, "lt") {
        Some(Operator::LessThan)
    } else if is_keyword(name, "and") {
        Some(Operator::And)
    } else if is_keyword(name, "or") {
        Some(Operator::Or)
    } else {
        None
    }
}

/// Translates an S-expression in value position into an expression.
pub fn translate_expr(s: &SExp) -> (r: Result<Expr, Error>)
    ensures
        expr_result(r) == expr_of(s@),
    decreases s, 2int,
{
    match s {
        SExp::Sym(n) => Ok(Expr::Var(n.clone())),
        SExp::Str(t) => Ok(Expr::Lit(Literal::Str(t.clone()))),
        SExp::Char(c) => Ok(Expr::Lit(Literal::Str(char_string(*c)))),
        SExp::Int(n) => Ok(Expr::Lit(Literal::Int(*n))),
        SExp::Float(b) => Ok(Expr::Lit(Literal::Float(*b))),
        SExp::List(l) => translate_list_expr(l),
    }
}

/// Translates the elements of `l` from `start` on, in order.
pub fn translate_exprs(l: &Vec<SExp>, start: usize) -> (r: Result<Vec<Expr>, Error>)
    requires
        start <= l.len(),
    ensures
        exprs_result(r) == exprs_of(items_view(*l).subrange(start as int, l.len() as int)),
    decreases l, 0int,
{
    let ghost all = items_view(*l);
    let ghost n = l.len() as int;
    let mut out: Vec<Expr> = Vec::new();
    let mut i: usize = start;
    proof {
        assert(exprs_view(out) =~= Seq::<ExprView>::empty());
        assert(seq![] + exprs_of(all.subrange(start as int, n))->Ok_0 =~= exprs_of(
            all.subrange(start as int, n),
        )->Ok_0);
    }
    while i < l.len()
        invariant
            start <= i <= l.len(),
            n == l.len(),
            all == items_view(*l),
            exprs_of(all.subrange(start as int, n)) == prefixed(
                exprs_view(out),
                exprs_of(all.subrange(i as int, n)),
            ),
        decreases l.len() - i,
    {
        let ghost tail = all.subrange(i as int, n);
        proof {
            assert(tail[0] == l[i as int]@);
            assert(tail.subrange(1, tail.len() as int) =~= all.subrange(i + 1, n));
        }
        match translate_expr(&l[i]) {
            Err(e) => {
                return Err(e);
            },
            Ok(x) => {
                let ghost before = exprs_view(out);
                out.push(x);
                proof {
                    assert(exprs_view(out) =~= before.push(x@));
                    match exprs_of(all.subrange(i + 1, n)) {
                        Ok(xs) => {
                            assert(before + (seq![x@] + xs) =~= before.push(x@) + xs);
                        },
                        Err(_) => {},
                    }
                }
                i = i + 1;
            },
        }
    }
    proof {
        assert(all.subrange(i as int, n) =~= Seq::<crate::sexp::SExpView>::empty());
        assert(exprs_view(out) + seq![] =~= exprs_view(out));
    }
    Ok(out)
}

/// Translates the key/value pairs of a `dict` form from `start` on.
pub fn translate_entries(l: &Vec<SExp>, start: usize) -> (r: Result<Vec<(Expr, Expr)>, Error>)
    requires
        start <= l.len(),
    ensures
        pairs_result(r) == entries_of(items_view(*l).subrange(start as int, l.len() as int)),
    decreases l, 0int,
{
    let ghost all = items_view(*l);
    let ghost n = l.len() as int;
    let mut out: Vec<(Expr, Expr)> = Vec::new();
    let mut i: usize = start;
    proof {
        assert(pairs_view(out) =~= Seq::<(ExprView, ExprView)>::empty());
        assert(seq![] + entries_of(all.subrange(start as int, n))->Ok_0 =~= entries_of(
            all.subrange(start as int, n),
        )->Ok_0);
    }
    while i < l.len()
        invariant
            start <= i <= l.len(),
            n == l.len(),
            all == items_view(*l),
            entries_of(all.subrange(start as int, n)) == prefixed(
                pairs_view(out),
                entries_of(all.subrange(i as int, n)),
            ),
        decreases l.len() - i,
    {
        let ghost tail = all.subrange(i as int, n);
        proof {
            assert(tail[0] == l[i as int]@);
            assert(tail.subrange(1, tail.len() as int) =~= all.subrange(i + 1, n));
        }
        match &l[i] {
            SExp::List(kv) => {
                if kv.len() != 2 {
                    return Err(Error::MalformedForm);
                }
                proof {
                    assert(items_view(*kv)[0] == kv[0]@);
                    assert(items_view(*kv)[1] == kv[1]@);
                }
                let k = match translate_expr(&kv[0]) {
                    Ok(k) => k,
                    Err(e) => {
                        return Err(e);
                    },
                };
                let v = match translate_expr(&kv[1]) {
                    Ok(v) => v,
                    Err(e) => {
                        return Err(e);
                    },
                };
                let ghost before = pairs_view(out);
                let ghost kvv = (k@, v@);
                out.push((k, v));
                proof {
                    assert(pairs_view(out) =~= before.push(kvv));
                    match entries_of(all.subrange(i + 1, n)) {
                        Ok(xs) => {
                            assert(before + (seq![kvv] + xs) =~= before.push(kvv) + xs);
                        },
                        Err(_) => {},
                    }
                }
                i = i + 1;
            },
            _ => {
                return Err(Error::MalformedForm);
            },
        }
    }
    proof {
        assert(all.subrange(i as int, n) =~= Seq::<crate::sexp::SExpView>::empty());
        assert(pairs_view(out) + seq![] =~= pairs_view(out));
    }
    Ok(out)
}

/// Translates a list in value position, dispatched on its head symbol.
pub fn translate_list_expr(l: &Vec<SExp>) -> (r: Result<Expr, Error>)
    ensures
        expr_result(r) == list_expr_of(items_view(*l)),
    decreases l, 1int,
{
    let ghost all = items_view(*l);
    if l.len() == 0 {
        return Err(Error::MalformedForm);
    }
    proof {
        assert(all[0] == l[0]@);
        assert(l.len() > 1 ==> all[1] == l[1]@);
        assert(l.len() > 2 ==> all[2] == l[2]@);
    }
    let name = match &l[0] {
        SExp::Sym(name) => name,
        _ => {
            return Err(Error::MalformedForm);
        },
    };
    let ghost rest = all.subrange(1, all.len() as int);
    if let Some(op) = maps_to_operator(name) {
        let mut args = match translate_exprs(l, 1) {
            Ok(args) => args,
            Err(e) => {
                return Err(e);
            },
        };
        let ghost before = exprs_view(args);
        if op == Operator::Div && args.len() > 0 {
            let first = args.remove(0);
            args.insert(0, Expr::ToFloat(Box::new(first)));
            proof {
                assert(exprs_view(args) =~= operands_spec(op, before));
            }
        }
        return Ok(Expr::Op(op, args));
    }
    if is_keyword(name, "not") {
        let mut xs = match translate_exprs(l, 1) {
            Ok(xs) => xs,
            Err(e) => {
                return Err(e);
            },
        };
        if xs.len() != 1 {
            return Err(Error::ArityMismatch);
        }
        let ghost before = exprs_view(xs);
        match xs.pop() {
            Some(x) => {
                assert(before[0] == x@);
                Ok(Expr::Not(Box::new(x)))
            },
            None => Err(Error::ArityMismatch),
        }
    } else if is_keyword(name, "dict") {
        match translate_entries(l, 1) {
            Ok(kvs) => Ok(Expr::Dict(kvs)),
            Err(e) => Err(e),
        }
    } else if is_keyword(name, "list") {
        match translate_exprs(l, 1) {
            Ok(xs) => Ok(Expr::List(xs)),
            Err(e) => Err(e),
        }
    } else if is_keyword(name, "range") {
        let mut xs = match translate_exprs(l, 1) {
            Ok(xs) => xs,
            Err(e) => {
                return Err(e);
            },
        };
        let ghost before = exprs_view(xs);
        if xs.len() == 1 {
            match xs.pop() {
                Some(to) => {
                    assert(before[0] == to@);
                    let nil = Expr::Lit(Literal::Nil);
                    assert(nil@ == ExprView::Lit(crate::ir::LiteralView::Nil));
                    Ok(Expr::Range(Box::new(nil), Box::new(to)))
                },
                None => Err(Error::MalformedForm),
            }
        } else if xs.len() == 2 {
            let to = xs.pop();
            let from = xs.pop();
            match (from, to) {
                (Some(from), Some(to)) => {
                    assert(before[0] == from@);
                    assert(before[1] == to@);
                    Ok(Expr::Range(Box::new(from), Box::new(to)))
                },
                _ => Err(Error::MalformedForm),
            }
        } else {
            Err(Error::MalformedForm)
        }
    } else {
        match translate_exprs(l, 1) {
            Ok(xs) => Ok(Expr::Call(name.clone(), xs)),
            Err(e) => Err(e),
        }
    }
}

/// The value of a translation, as for `expr_result`.
pub open spec fn stmt_result(r: Result<Stmt, Error>) -> Result<StmtView, Error> {
    match r {
        Ok(x) => Ok(x@),
        Err(e) => Err(e),
    }
}

/// The value of a translation, as for `expr_result`.
pub open spec fn stmts_result(r: Result<Vec<Stmt>, Error>) -> Result<Seq<StmtView>, Error> {
    match r {
        Ok(xs) => Ok(stmts_view(xs)),
        Err(e) => Err(e),
    }
}

/// Translates an S-expression in statement position into a statement.
pub fn translate_stmt(s: &SExp) -> (r: Result<Stmt, Error>)
    ensures
        stmt_result(r) == stmt_of(s@),
    decreases s, 2int,
{
    match s {
        SExp::List(l) => translate_list_stmt(l),
        _ => Err(Error::MalformedForm),
    }
}

/// Translates the elements of `l` from `start` on as statements, in order.
pub fn translate_stmts(l: &Vec<SExp>, start: usize) -> (r: Result<Vec<Stmt>, Error>)
    requires
        start <= l.len(),
    ensures
        stmts_result(r) == stmts_of(items_view(*l).subrange(start as int, l.len() as int)),
    decreases l, 0int,
{
    let ghost all = items_view(*l);
    let ghost n = l.len() as int;
    let mut out: Vec<Stmt> = Vec::new();
    let mut i: usize = start;
    proof {
        assert(stmts_view(out) =~= Seq::<StmtView>::empty());
        assert(seq![] + stmts_of(all.subrange(start as int, n))->Ok_0 =~= stmts_of(
            all.subrange(start as int, n),
        )->Ok_0);
    }
    while i < l.len()
        invariant
            start <= i <= l.len(),
            n == l.len(),
            all == items_view(*l),
            stmts_of(all.subrange(start as int, n)) == prefixed(
                stmts_view(out),
                stmts_of(all.subrange(i as int, n)),
            ),
        decreases l.len() - i,
    {
        let ghost tail = all.subrange(i as int, n);
        proof {
            assert(tail[0] == l[i as int]@);
            assert(tail.subrange(1, tail.len() as int) =~= all.subrange(i + 1, n));
        }
        match translate_stmt(&l[i]) {
            Err(e) => {
                return Err(e);
            },
            Ok(x) => {
                let ghost before = stmts_view(out);
                out.push(x);
                proof {
                    assert(stmts_view(out) =~= before.push(x@));
                    match stmts_of(all.subrange(i + 1, n)) {
                        Ok(xs) => {
                            assert(before + (seq![x@] + xs) =~= before.push(x@) + xs);
                        },
                        Err(_) => {},
                    }
                }
                i = i + 1;
            },
        }
    }
    proof {
        assert(all.subrange(i as int, n) =~= Seq::<SExpView>::empty());
        assert(stmts_view(out) + seq![] =~= stmts_view(out));
    }
    Ok(out)
}

/// The name at position `i` of `l`, where that element is a symbol.
fn symbol_at(l: &Vec<SExp>, i: usize) -> (r: Option<&String>)
    ensures
        r matches Some(n) ==> sym_at(items_view(*l), i as int) == Some(n@),
        r is None ==> sym_at(items_view(*l), i as int) is None,
{
    if i < l.len() {
        proof {
            assert(items_view(*l)[i as int] == l[i as int]@);
        }
        match &l[i] {
            SExp::Sym(n) => Some(n),
            _ => None,
        }
    } else {
        None
    }
}

/// Translates a list in statement position, dispatched on its head symbol.
pub fn translate_list_stmt(l: &Vec<SExp>) -> (r: Result<Stmt, Error>)
    ensures
        stmt_result(r) == list_stmt_of(items_view(*l)),
    decreases l, 1int,
{
    let ghost all = items_view(*l);
    if l.len() == 0 {
        return Err(Error::MalformedForm);
    }
    proof {
        assert(all[0] == l[0]@);
        assert(l.len() > 1 ==> all[1] == l[1]@);
        assert(l.len() > 2 ==> all[2] == l[2]@);
        assert(l.len() > 3 ==> all[3] == l[3]@);
    }
    let name = match &l[0] {
        SExp::Sym(name) => name,
        _ => {
            return Err(Error::MalformedForm);
        },
    };
    if is_keyword(name, "break") {
        if l.len() == 1 {
            Ok(Stmt::Break)
        } else {
            Err(Error::MalformedForm)
        }
    } else if is_keyword(name, "continue") {
        if l.len() == 1 {
            Ok(Stmt::Continue)
        } else {
            Err(Error::MalformedForm)
        }
    } else if is_keyword(name, "do") {
        match translate_stmts(l, 1) {
            Ok(b) => Ok(Stmt::Block(b)),
            Err(e) => Err(e),
        }
    } else if is_keyword(name, "foreach") {
        if l.len() < 2 {
            return Err(Error::MalformedForm);
        }
        let head = match &l[1] {
            SExp::List(head) => head,
            _ => {
                return Err(Error::MalformedForm);
            },
        };
        if head.len() != 2 {
            return Err(Error::MalformedForm);
        }
        let item = match symbol_at(head, 1) {
            Some(item) => item,
            None => {
                return Err(Error::MalformedForm);
            },
        };
        proof {
            assert(items_view(*head)[0] == head[0]@);
        }
        let it = match translate_expr(&head[0]) {
            Ok(it) => it,
            Err(e) => {
                return Err(e);
            },
        };
        match translate_stmts(l, 2) {
            Ok(b) => Ok(Stmt::ForEach(it, item.clone(), b)),
            Err(e) => Err(e),
        }
    } else if is_keyword(name, "if") {
        if l.len() < 2 {
            return Err(Error::MalformedForm);
        }
        let c = match translate_expr(&l[1]) {
            Ok(c) => c,
            Err(e) => {
                return Err(e);
            },
        };
        if l.len() < 3 {
            return Err(Error::MalformedForm);
        }
        let t = match translate_stmt(&l[2]) {
            Ok(t) => t,
            Err(e) => {
                return Err(e);
            },
        };
        if l.len() == 3 {
            return Ok(Stmt::If(c, Box::new(t), None));
        }
        let e = match translate_stmt(&l[3]) {
            Ok(e) => e,
            Err(e) => {
                return Err(e);
            },
        };
        if l.len() == 4 {
            Ok(Stmt::If(c, Box::new(t), Some(Box::new(e))))
        } else {
            Err(Error::MalformedForm)
        }
    } else if is_keyword(name, "import") {
        translate_import(l, Scope::Local)
    } else if is_keyword(name, "import-global") {
        translate_import(l, Scope::Global)
    } else if is_keyword(name, "let") {
        if l.len() != 3 {
            return Err(Error::MalformedForm);
        }
        let target = match symbol_at(l, 1) {
            Some(target) => target,
            None => {
                return Err(Error::MalformedForm);
            },
        };
        match translate_expr(&l[2]) {
            Ok(v) => Ok(Stmt::Let(target.clone(), v)),
            Err(e) => Err(e),
        }
    } else if is_keyword(name, "loop") {
        match translate_stmts(l, 1) {
            Ok(b) => Ok(Stmt::Loop(b)),
            Err(e) => Err(e),
        }
    } else if is_keyword(name, "ret") {
        if l.len() == 1 {
            Ok(Stmt::Return(None))
        } else if l.len() == 2 {
            match translate_expr(&l[1]) {
                Ok(v) => Ok(Stmt::Return(Some(v))),
                Err(e) => Err(e),
            }
        } else {
            Err(Error::ArityMismatch)
        }
    } else {
        match translate_exprs(l, 1) {
            Ok(xs) => Ok(Stmt::Call(name.clone(), xs)),
            Err(e) => Err(e),
        }
    }
}

/// Translates an `import` or `import-global` statement form.
fn translate_import(l: &Vec<SExp>, scope: Scope) -> (r: Result<Stmt, Error>)
    ensures
        stmt_result(r) == crate::grammar::import_of(items_view(*l), scope),
{
    if l.len() != 2 {
        return Err(Error::MalformedForm);
    }
    match symbol_at(l, 1) {
        Some(m) => Ok(Stmt::Import(m.clone(), scope)),
        None => Err(Error::MalformedForm),
    }
}

/// The parameter names of a `def`, where each is a symbol and none repeats.
pub fn translate_params(ps: &Vec<SExp>) -> (r: Option<Vec<String>>)
    ensures
        r matches Some(v) ==> params_of(items_view(*ps)) == Some(strings_view(v)),
        r is None ==> params_of(items_view(*ps)) is None,
{
    let ghost all = items_view(*ps);
    let mut out: Vec<String> = Vec::new();
    let mut i: usize = 0;
    while i < ps.len()
        invariant
            i <= ps.len(),
            all == items_view(*ps),
            out.len() == i,
            forall|k: int| 0 <= k < i ==> all[k] is Sym && out[k]@ == all[k]->Sym_0,
            forall|a: int, b: int| 0 <= a < b < i ==> all[a]->Sym_0 != all[b]->Sym_0,
        decreases ps.len() - i,
    {
        assert(all[i as int] == ps[i as int]@);
        match &ps[i] {
            SExp::Sym(n) => {
                let mut j: usize = 0;
                while j < i
                    invariant
                        j <= i,
                        i < ps.len(),
                        out.len() == i,
                        all == items_view(*ps),
                        all.len() == ps.len(),
                        all[i as int] == SExpView::Sym(n@),
                        forall|k: int| 0 <= k < i ==> all[k] is Sym && out[k]@ == all[k]->Sym_0,
                        forall|k: int| 0 <= k < j ==> out[k]@ != n@,
                    decreases i - j,
                {
                    if out[j] == *n {
                        assert(all[j as int]->Sym_0 == all[i as int]->Sym_0);
                        return None;
                    }
                    j = j + 1;
                }
                out.push(n.clone());
            },
            _ => {
                return None;
            },
        }
        i = i + 1;
    }
    assert(Seq::new(all.len(), |k: int| all[k]->Sym_0) =~= strings_view(out));
    Some(out)
}

/// Translates a `def` form into a function definition.
pub fn translate_define(l: &Vec<SExp>) -> (r: Result<Function, Error>)
    ensures
        r matches Ok(f) ==> define_of(items_view(*l)) == Ok::<(Seq<char>, FunctionView), Error>((f.name@, f@)),
        r matches Err(e) ==> define_of(items_view(*l)) == Err::<(Seq<char>, FunctionView), Error>(e),
{
    let ghost all = items_view(*l);
    if l.len() < 3 {
        return Err(Error::MalformedForm);
    }
    let name = match symbol_at(l, 1) {
        Some(name) => name,
        None => {
            return Err(Error::MalformedForm);
        },
    };
    assert(all[2] == l[2]@);
    let params = match &l[2] {
        SExp::List(ps) => match translate_params(ps) {
            Some(params) => params,
            None => {
                return Err(Error::MalformedForm);
            },
        },
        _ => {
            return Err(Error::MalformedForm);
        },
    };
    match translate_stmts(l, 3) {
        Ok(body) => Ok(Function { name: name.clone(), params, body }),
        Err(e) => Err(e),
    }
}

/// Adds one top-level form to the module: a `def` enters a function, an
/// `import` declares a dependency.
pub fn translate_toplevel(m: &mut Module, form: &SExp) -> (r: Result<(), Error>)
    requires
        old(m).wf(),
    ensures
        final(m).wf(),
        final(m).meta == old(m).meta,
        r is Ok ==> module_step(old(m)@, form@) == Ok::<ModuleView, Error>(final(m)@),
        r matches Err(e) ==> module_step(old(m)@, form@) == Err::<ModuleView, Error>(e),
        r is Err ==> final(m)@ == old(m)@,
{
    let l = match form {
        SExp::List(l) => l,
        _ => {
            return Err(Error::UnexpectedTopLevelShape);
        },
    };
    let ghost all = items_view(*l);
    if l.len() == 0 {
        return Err(Error::UnexpectedTopLevelShape);
    }
    assert(all[0] == l[0]@);
    let name = match &l[0] {
        SExp::Sym(name) => name,
        _ => {
            return Err(Error::UnexpectedTopLevelShape);
        },
    };
    if is_keyword(name, "def") {
        let f = match translate_define(l) {
            Ok(f) => f,
            Err(e) => {
                return Err(e);
            },
        };
        m.define(f);
        Ok(())
    } else if is_keyword(name, "import") {
        if l.len() != 2 {
            return Err(Error::MalformedForm);
        }
        match symbol_at(l, 1) {
            Some(dep) => {
                m.add_dependency(dep.clone());
                Ok(())
            },
            None => Err(Error::MalformedForm),
        }
    } else {
        Err(Error::UnknownTopLevelKeyword)
    }
}

/// The value of a translation, as for `expr_result`.
pub open spec fn module_result(r: Result<Module, Error>) -> Result<ModuleView, Error> {
    match r {
        Ok(m) => Ok(m@),
        Err(e) => Err(e),
    }
}

/// The module that holds nothing yet, with the given identity.
pub open spec fn initial(meta: ModuleMeta) -> ModuleView {
    ModuleView {
        name: meta.name@,
        loc: match meta.loc {
            Some(l) => Some(l@),
            None => None,
        },
        functions: Map::empty(),
        deps: seq![],
    }
}

/// Turns parsed S-expressions into modules of the intermediate representation.
pub struct Transpiler;

impl Transpiler {
    pub fn new() -> (r: Transpiler) {
        Transpiler
    }

    /// Translates the top-level forms of one module, in order. The first
    /// failure aborts the translation and is returned.
    pub fn translate(&mut self, meta: ModuleMeta, forms: &Vec<SExp>) -> (r: Result<Module, Error>)
        ensures
            module_result(r) == module_of(initial(meta), items_view(*forms)),
            r matches Ok(m) ==> m.wf() && m.meta == meta,
    {
        let ghost all = items_view(*forms);
        let ghost n = forms.len() as int;
        let ghost start = initial(meta);
        let mut m = Module::empty(meta);
        assert(m@ =~= start);
        assert(all.subrange(0, n) =~= all);
        let mut i: usize = 0;
        while i < forms.len()
            invariant
                i <= forms.len(),
                n == forms.len(),
                all == items_view(*forms),
                m.wf(),
                m.meta == meta,
                start == initial(meta),
                module_of(start, all) == module_of(m@, all.subrange(i as int, n)),
            decreases forms.len() - i,
        {
            let ghost tail = all.subrange(i as int, n);
            proof {
                assert(tail[0] == forms[i as int]@);
                assert(tail.subrange(1, tail.len() as int) =~= all.subrange(i + 1, n));
            }
            let ghost before = m@;
            match translate_toplevel(&mut m, &forms[i]) {
                Ok(()) => {},
                Err(e) => {
                    assert(module_of(before, tail) == Err::<ModuleView, Error>(e));
                    return Err(e);
                },
            }
            i = i + 1;
        }
        assert(all.subrange(i as int, n) =~= Seq::<SExpView>::empty());
        Ok(m)
    }
}

} // verus!
