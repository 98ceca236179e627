use vstd::prelude::*;

use crate::error::Error;
use crate::grammar::{
    define_of, entries_of, expr_of, exprs_of, list_expr_of, module_of, module_step, operator_spec, stmt_of,
    stmts_of,
};
use crate::ir::{ExprView, LiteralView, ModuleView, Operator, StmtView};
use crate::sexp::SExpView;

verus! {

/// `/` names division, and `not` names no operator.
proof fn lemma_operator_symbols()
    ensures
        operator_spec("/"@) == Some(Operator::Div),
        operator_spec("not"@) is None,
{
    reveal_strlit("not");
    reveal_strlit("+");
    reveal_strlit("-");
    reveal_strlit("*");
    reveal_strlit("/");
    reveal_strlit("%");
    reveal_strlit("eq");
    reveal_strlit("ne");
    reveal_strlit("ge");
    reveal_strlit("gt");
    reveal_strlit("le");
    reveal_strlit("lt");
    reveal_strlit("and");
    reveal_strlit("or");
    assert("/"@ != "+"@ && "/"@ != "-"@ && "/"@ != "*"@) by {
        assert("/"@[0] != "+"@[0]);
        assert("/"@[0] != "-"@[0]);
        assert("/"@[0] != "*"@[0]);
    }
    assert("not"@.len() == 3);
    assert("+"@.len() == 1 && "-"@.len() == 1 && "*"@.len() == 1 && "/"@.len() == 1 && "%"@.len()
        == 1);
    assert("eq"@.len() == 2 && "ne"@.len() == 2 && "ge"@.len() == 2 && "gt"@.len() == 2
        && "le"@.len() == 2 && "lt"@.len() == 2 && "or"@.len() == 2);
    assert("not"@ != "and"@) by {
        assert("not"@[0] != "and"@[0]);
    }
}

/// Translation is a function of its input: translating the same forms into
/// the same module twice gives the same result, module or error.
pub proof fn lemma_translation_deterministic(m: ModuleView, a: Seq<SExpView>, b: Seq<SExpView>)
    requires
        a == b,
    ensures
        module_of(m, a) == module_of(m, b),
{
}

/// The operands of a list, each translated, in order.
proof fn lemma_exprs_of_pair(a: SExpView, b: SExpView)
    requires
        expr_of(a) is Ok,
        expr_of(b) is Ok,
    ensures
        exprs_of(seq![a, b]) == Ok::<Seq<ExprView>, Error>(seq![expr_of(a)->Ok_0, expr_of(b)->Ok_0]),
{
    let l = seq![a, b];
    assert(l.subrange(1, 2) =~= seq![b]);
    assert(l.subrange(1, 2).subrange(1, 1) =~= Seq::<SExpView>::empty());
    assert(exprs_of(Seq::<SExpView>::empty()) == Ok::<Seq<ExprView>, Error>(seq![]));
    assert(seq![expr_of(b)->Ok_0] + Seq::<ExprView>::empty() =~= seq![expr_of(b)->Ok_0]);
    assert(exprs_of(seq![b]) == Ok::<Seq<ExprView>, Error>(seq![expr_of(b)->Ok_0]));
    assert(seq![expr_of(a)->Ok_0] + seq![expr_of(b)->Ok_0] =~= seq![
        expr_of(a)->Ok_0,
        expr_of(b)->Ok_0,
    ]);
}

/// Division always converts its first operand to a float: `(/ a b)` is one
/// division node over the float conversion of `a`, then `b`.
pub proof fn lemma_division_converts_first(a: SExpView, b: SExpView)
    requires
        expr_of(a) is Ok,
        expr_of(b) is Ok,
    ensures
        expr_of(SExpView::List(seq![SExpView::Sym("/"@), a, b])) == Ok::<ExprView, Error>(
            ExprView::Op(
                Operator::Div,
                seq![ExprView::ToFloat(Box::new(expr_of(a)->Ok_0)), expr_of(b)->Ok_0],
            ),
        ),
{
    lemma_operator_symbols();
    let l = seq![SExpView::Sym("/"@), a, b];
    assert(l.subrange(1, 3) =~= seq![a, b]);
    lemma_exprs_of_pair(a, b);
    let xs = seq![expr_of(a)->Ok_0, expr_of(b)->Ok_0];
    assert(xs.update(0, ExprView::ToFloat(Box::new(xs[0]))) =~= seq![
        ExprView::ToFloat(Box::new(expr_of(a)->Ok_0)),
        expr_of(b)->Ok_0,
    ]);
}

/// An operator applies once over all its operands: a list headed by an
/// operator symbol is one operator node with as many operands as follow it.
pub proof fn lemma_operator_is_n_ary(name: Seq<char>, args: Seq<SExpView>)
    requires
        operator_spec(name) is Some,
        exprs_of(args) is Ok,
    ensures
        list_expr_of(seq![SExpView::Sym(name)] + args) matches Ok(ExprView::Op(op, xs)) && op
            == operator_spec(name)->0 && xs.len() == args.len(),
{
    let l = seq![SExpView::Sym(name)] + args;
    assert(l.subrange(1, l.len() as int) =~= args);
    lemma_exprs_of_len(args);
}

/// Translating a list of operands gives one expression per operand.
proof fn lemma_exprs_of_len(l: Seq<SExpView>)
    requires
        exprs_of(l) is Ok,
    ensures
        exprs_of(l)->Ok_0.len() == l.len(),
    decreases l.len(),
{
    if l.len() > 0 {
        lemma_exprs_of_len(l.subrange(1, l.len() as int));
    }
}

/// `not` is strictly unary: with two operands that translate, it fails with
/// an arity error. (An operand that fails gives its own error first.)
pub proof fn lemma_not_is_unary(a: SExpView, b: SExpView)
    requires
        expr_of(a) is Ok,
        expr_of(b) is Ok,
    ensures
        expr_of(SExpView::List(seq![SExpView::Sym("not"@), a, b])) == Err::<ExprView, Error>(
            Error::ArityMismatch,
        ),
{
    lemma_operator_symbols();
    let l = seq![SExpView::Sym("not"@), a, b];
    assert(l.subrange(1, 3) =~= seq![a, b]);
    lemma_exprs_of_pair(a, b);
}

/// Literals keep their value and kind; a character becomes the string of
/// that one character.
pub proof fn lemma_literals_round_trip(n: i64, bits: u64, t: Seq<char>, c: char)
    ensures
        expr_of(SExpView::Int(n)) == Ok::<ExprView, Error>(ExprView::Lit(LiteralView::Int(n))),
        expr_of(SExpView::Float(bits)) == Ok::<ExprView, Error>(
            ExprView::Lit(LiteralView::Float(bits)),
        ),
        expr_of(SExpView::Str(t)) == Ok::<ExprView, Error>(ExprView::Lit(LiteralView::Str(t))),
        expr_of(SExpView::Char(c)) == Ok::<ExprView, Error>(
            ExprView::Lit(LiteralView::Str(seq![c])),
        ),
{
}

/// A module with two definitions of one name keeps only the later one.
pub proof fn lemma_redefinition_keeps_later(m: ModuleView, d1: Seq<SExpView>, d2: Seq<SExpView>)
    requires
        d1.len() > 0 && d1[0] == SExpView::Sym("def"@),
        d2.len() > 0 && d2[0] == SExpView::Sym("def"@),
        define_of(d1) is Ok,
        define_of(d2) is Ok,
        define_of(d1)->Ok_0.0 == define_of(d2)->Ok_0.0,
    ensures
        module_of(m, seq![SExpView::List(d1), SExpView::List(d2)]) == Ok::<ModuleView, Error>(
            ModuleView {
                functions: m.functions.insert(define_of(d2)->Ok_0.0, define_of(d2)->Ok_0.1),
                ..m
            },
        ),
{
    let forms = seq![SExpView::List(d1), SExpView::List(d2)];
    let (name, f1) = define_of(d1)->Ok_0;
    let f2 = define_of(d2)->Ok_0.1;
    let m1 = ModuleView { functions: m.functions.insert(name, f1), ..m };
    let m2 = ModuleView { functions: m1.functions.insert(name, f2), ..m1 };
    assert(module_step(m, forms[0]) == Ok::<ModuleView, Error>(m1));
    assert(forms.subrange(1, 2) =~= seq![SExpView::List(d2)]);
    assert(module_step(m1, SExpView::List(d2)) == Ok::<ModuleView, Error>(m2));
    assert(forms.subrange(1, 2).subrange(1, 1) =~= Seq::<SExpView>::empty());
    assert(module_of(m2, Seq::<SExpView>::empty()) == Ok::<ModuleView, Error>(m2));
    assert(module_of(m1, seq![SExpView::List(d2)]) == Ok::<ModuleView, Error>(m2));
    assert(m2.functions =~= m.functions.insert(name, f2));
}

/// A top-level list headed by a symbol other than `def` or `import` is
/// refused as an unknown keyword, and the whole translation with it.
pub proof fn lemma_unknown_toplevel_keyword(m: ModuleView, l: Seq<SExpView>, rest: Seq<SExpView>)
    requires
        l.len() > 0,
        l[0] is Sym,
        l[0]->Sym_0 != "def"@,
        l[0]->Sym_0 != "import"@,
    ensures
        module_step(m, SExpView::List(l)) == Err::<ModuleView, Error>(Error::UnknownTopLevelKeyword),
        module_of(m, seq![SExpView::List(l)] + rest) == Err::<ModuleView, Error>(
            Error::UnknownTopLevelKeyword,
        ),
{
    let forms = seq![SExpView::List(l)] + rest;
    assert(forms[0] == SExpView::List(l));
}

/// A `def` without a parameter list (nothing, or no list, after the name)
/// is a malformed form.
pub proof fn lemma_def_needs_parameter_list(m: ModuleView, l: Seq<SExpView>)
    requires
        l.len() > 0 && l[0] == SExpView::Sym("def"@),
        l.len() < 3 || !(l[2] is List),
    ensures
        module_step(m, SExpView::List(l)) == Err::<ModuleView, Error>(Error::MalformedForm),
{
}

/// The keywords that the laws below dispatch on are told apart.
proof fn lemma_statement_keywords()
    ensures
        "continue"@ != "break"@,
        "foreach"@ != "break"@ && "foreach"@ != "continue"@ && "foreach"@ != "do"@,
        "if"@ != "break"@ && "if"@ != "continue"@ && "if"@ != "do"@ && "if"@ != "foreach"@,
        "loop"@ != "break"@ && "loop"@ != "continue"@ && "loop"@ != "do"@ && "loop"@ != "foreach"@
            && "loop"@ != "if"@ && "loop"@ != "import"@ && "loop"@ != "import-global"@ && "loop"@
            != "let"@,
        "range"@ != "not"@ && "range"@ != "dict"@ && "range"@ != "list"@,
        operator_spec("range"@) is None,
        "list"@ != "not"@ && "list"@ != "dict"@ && operator_spec("list"@) is None,
        "dict"@ != "not"@ && operator_spec("dict"@) is None,
{
    reveal_strlit("break");
    reveal_strlit("continue");
    reveal_strlit("do");
    reveal_strlit("foreach");
    reveal_strlit("if");
    reveal_strlit("import");
    reveal_strlit("import-global");
    reveal_strlit("let");
    reveal_strlit("loop");
    reveal_strlit("range");
    reveal_strlit("not");
    reveal_strlit("dict");
    reveal_strlit("list");
    reveal_strlit("+");
    reveal_strlit("-");
    reveal_strlit("*");
    reveal_strlit("/");
    reveal_strlit("%");
    reveal_strlit("eq");
    reveal_strlit("ne");
    reveal_strlit("ge");
    reveal_strlit("gt");
    reveal_strlit("le");
    reveal_strlit("lt");
    reveal_strlit("and");
    reveal_strlit("or");
    assert("break"@.len() == 5 && "continue"@.len() == 8 && "do"@.len() == 2 && "foreach"@.len()
        == 7 && "if"@.len() == 2 && "import"@.len() == 6 && "import-global"@.len() == 13
        && "let"@.len() == 3 && "loop"@.len() == 4 && "range"@.len() == 5 && "not"@.len() == 3
        && "dict"@.len() == 4 && "list"@.len() == 4);
    assert("+"@.len() == 1 && "-"@.len() == 1 && "*"@.len() == 1 && "/"@.len() == 1 && "%"@.len()
        == 1);
    assert("eq"@.len() == 2 && "ne"@.len() == 2 && "ge"@.len() == 2 && "gt"@.len() == 2
        && "le"@.len() == 2 && "lt"@.len() == 2 && "or"@.len() == 2 && "and"@.len() == 3);
    assert("if"@ != "do"@) by {
        assert("if"@[0] != "do"@[0]);
    }
    assert("list"@ != "dict"@) by {
        assert("list"@[0] != "dict"@[0]);
    }
}

/// `break` and `continue` are bare control statements.
pub proof fn lemma_break_and_continue()
    ensures
        stmt_of(SExpView::List(seq![SExpView::Sym("break"@)])) == Ok::<StmtView, Error>(
            StmtView::Break,
        ),
        stmt_of(SExpView::List(seq![SExpView::Sym("continue"@)])) == Ok::<StmtView, Error>(
            StmtView::Continue,
        ),
{
    lemma_statement_keywords();
}

/// `(if c t e)` is one conditional over the translated condition, with the
/// translated `t` as then-branch and `e` as else-branch.
pub proof fn lemma_if_has_both_branches(c: SExpView, t: SExpView, e: SExpView)
    requires
        expr_of(c) is Ok,
        stmt_of(t) is Ok,
        stmt_of(e) is Ok,
    ensures
        stmt_of(SExpView::List(seq![SExpView::Sym("if"@), c, t, e])) == Ok::<StmtView, Error>(
            StmtView::If(
                expr_of(c)->Ok_0,
                Box::new(stmt_of(t)->Ok_0),
                Some(Box::new(stmt_of(e)->Ok_0)),
            ),
        ),
{
    lemma_statement_keywords();
    let l = seq![SExpView::Sym("if"@), c, t, e];
    assert(l.subrange(1, 4).len() == 3);
}

/// `(loop s...)` is one loop whose body is the translated statements, in order.
pub proof fn lemma_loop_keeps_body_in_order(body: Seq<SExpView>)
    requires
        stmts_of(body) is Ok,
    ensures
        stmt_of(SExpView::List(seq![SExpView::Sym("loop"@)] + body)) == Ok::<StmtView, Error>(
            StmtView::Loop(stmts_of(body)->Ok_0),
        ),
{
    lemma_statement_keywords();
    let l = seq![SExpView::Sym("loop"@)] + body;
    assert(l[0] == SExpView::Sym("loop"@));
    assert(l.subrange(1, l.len() as int) =~= body);
}

/// `(foreach ((range a b) i) s...)` iterates, bound to `i`, over the range
/// from the translated `a` to the translated `b`, with the translated body.
pub proof fn lemma_foreach_over_range(
    a: SExpView,
    b: SExpView,
    i: Seq<char>,
    body: Seq<SExpView>,
)
    requires
        expr_of(a) is Ok,
        expr_of(b) is Ok,
        stmts_of(body) is Ok,
    ensures
        stmt_of(
            SExpView::List(
                seq![
                    SExpView::Sym("foreach"@),
                    SExpView::List(
                        seq![
                            SExpView::List(seq![SExpView::Sym("range"@), a, b]),
                            SExpView::Sym(i),
                        ],
                    ),
                ] + body,
            ),
        ) == Ok::<StmtView, Error>(
            StmtView::ForEach(
                ExprView::Range(Box::new(expr_of(a)->Ok_0), Box::new(expr_of(b)->Ok_0)),
                i,
                stmts_of(body)->Ok_0,
            ),
        ),
{
    lemma_statement_keywords();
    let range = seq![SExpView::Sym("range"@), a, b];
    assert(range.subrange(1, 3) =~= seq![a, b]);
    lemma_exprs_of_pair(a, b);
    let head = seq![SExpView::List(range), SExpView::Sym(i)];
    let l = seq![SExpView::Sym("foreach"@), SExpView::List(head)] + body;
    assert(l[0] == SExpView::Sym("foreach"@));
    assert(l[1] == SExpView::List(head));
    assert(l.subrange(2, l.len() as int) =~= body);
}

/// `(list x...)` is one list literal with one item per element, in order.
pub proof fn lemma_list_keeps_items_in_order(items: Seq<SExpView>)
    requires
        exprs_of(items) is Ok,
    ensures
        expr_of(SExpView::List(seq![SExpView::Sym("list"@)] + items)) == Ok::<ExprView, Error>(
            ExprView::List(exprs_of(items)->Ok_0),
        ),
        exprs_of(items)->Ok_0.len() == items.len(),
{
    lemma_statement_keywords();
    let l = seq![SExpView::Sym("list"@)] + items;
    assert(l[0] == SExpView::Sym("list"@));
    assert(l.subrange(1, l.len() as int) =~= items);
    lemma_exprs_of_len(items);
}

/// `(dict (k v)...)` is one dictionary literal of the translated pairs, in
/// source order; a repeated key is kept.
pub proof fn lemma_dict_keeps_pairs_in_order(entries: Seq<SExpView>)
    requires
        entries_of(entries) is Ok,
    ensures
        expr_of(SExpView::List(seq![SExpView::Sym("dict"@)] + entries)) == Ok::<ExprView, Error>(
            ExprView::Dict(entries_of(entries)->Ok_0),
        ),
{
    lemma_statement_keywords();
    let l = seq![SExpView::Sym("dict"@)] + entries;
    assert(l[0] == SExpView::Sym("dict"@));
    assert(l.subrange(1, l.len() as int) =~= entries);
}

} // verus!
