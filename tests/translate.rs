use lol::{
    import_hook, module_format, Error, Expr, Function, Literal, Module, ModuleFormat, ModuleMeta,
    Operator, SExp, Scope, Stmt, Transpiler,
};

fn convert(node: &ess::Sexp) -> SExp {
    match node {
        ess::Sexp::Sym(n, _) => SExp::Sym(n.to_string()),
        ess::Sexp::Str(t, _) => SExp::Str(t.to_string()),
        ess::Sexp::Char(c, _) => SExp::Char(*c),
        ess::Sexp::Int(n, _) => SExp::Int(*n),
        ess::Sexp::Float(x, _) => SExp::Float(x.to_bits()),
        ess::Sexp::List(l, _) => SExp::List(l.iter().map(convert).collect()),
    }
}

fn parse(src: &str) -> Vec<SExp> {
    let (forms, err) = ess::parser::parse(src);
    assert!(err.is_none(), "{:?}", err);
    forms.iter().map(convert).collect()
}

fn meta(name: &str) -> ModuleMeta {
    ModuleMeta { name: name.to_string(), loc: None }
}

fn translate(src: &str) -> Result<Module, Error> {
    Transpiler::new().translate(meta("main"), &parse(src))
}

fn function<'a>(m: &'a Module, name: &str) -> &'a Function {
    m.functions.iter().find(|f| f.name == name).expect("function not found")
}

/// The body of `(def main () (ret <expr>))`.
fn ret_expr(expr_src: &str) -> Result<Expr, Error> {
    let m = translate(&format!("(def main () (ret {}))", expr_src))?;
    let mut f = m.functions.into_iter().next().unwrap();
    match f.body.pop() {
        Some(Stmt::Return(Some(e))) => Ok(e),
        other => panic!("unexpected body {:?}", other),
    }
}

fn stmt(stmt_src: &str) -> Result<Stmt, Error> {
    let m = translate(&format!("(def main () {})", stmt_src))?;
    let mut f = m.functions.into_iter().next().unwrap();
    Ok(f.body.pop().unwrap())
}

fn var(n: &str) -> Expr {
    Expr::Var(n.to_string())
}

fn num(n: i64) -> Expr {
    Expr::Lit(Literal::Int(n))
}

fn op(o: Operator, args: Vec<Expr>) -> Expr {
    Expr::Op(o, args)
}

#[test]
fn arithmetic_functions_translate() {
    let m = translate(
        "
        (def add (a b)
            (ret (+ a b)))
        (def sub (a b)
            (ret (- a b)))
        (def mul (a b)
            (ret (* a b)))
        (def div (a b)
            (ret (/ a b)))
        (def rem (a b)
            (ret (% a b)))
        ",
    )
    .unwrap();
    assert_eq!(m.functions.len(), 5);
    let cases = [
        ("add", Operator::Add),
        ("sub", Operator::Sub),
        ("mul", Operator::Mul),
        ("rem", Operator::Rem),
    ];
    for (name, o) in cases {
        let f = function(&m, name);
        assert_eq!(f.params, vec!["a".to_string(), "b".to_string()]);
        assert_eq!(f.body, vec![Stmt::Return(Some(op(o, vec![var("a"), var("b")])))]);
    }
    let div = function(&m, "div");
    assert_eq!(
        div.body,
        vec![Stmt::Return(Some(op(
            Operator::Div,
            vec![Expr::ToFloat(Box::new(var("a"))), var("b")]
        )))]
    );
}

#[test]
fn faculty_translates() {
    let m = translate(
        "
        (def fac (x)
            (if (not (eq x 0))
                (ret (* x (fac (- x 1))))
                (ret 1)))
        ",
    )
    .unwrap();
    let fac = function(&m, "fac");
    assert_eq!(fac.params, vec!["x".to_string()]);
    let cond = Expr::Not(Box::new(op(Operator::Equal, vec![var("x"), num(0)])));
    let recurse = Expr::Call(
        "fac".to_string(),
        vec![op(Operator::Sub, vec![var("x"), num(1)])],
    );
    let then = Stmt::Return(Some(op(Operator::Mul, vec![var("x"), recurse])));
    let other = Stmt::Return(Some(num(1)));
    assert_eq!(
        fac.body,
        vec![Stmt::If(cond, Box::new(then), Some(Box::new(other)))]
    );
}

#[test]
fn add_translates_to_one_return() {
    let m = translate("(def add (a b) (ret (+ a b)))").unwrap();
    assert_eq!(m.functions.len(), 1);
    assert_eq!(
        function(&m, "add").body,
        vec![Stmt::Return(Some(op(Operator::Add, vec![var("a"), var("b")])))]
    );
}

#[test]
fn loop_with_break_and_continue_translates() {
    let m = translate(
        "
        (def looping (n)
            (let r 1)
            (let i 0)
            (loop
                (if (eq i n)
                    (break))
                (if (eq (% i 2) 0)
                    (do
                        (let i (+ i 1))
                        (continue)))
                (let r (* r i))
                (let i (+ i 1)))
            (ret r))
        ",
    )
    .unwrap();
    let f = function(&m, "looping");
    let inc = Stmt::Let("i".to_string(), op(Operator::Add, vec![var("i"), num(1)]));
    let body = vec![
        Stmt::If(
            op(Operator::Equal, vec![var("i"), var("n")]),
            Box::new(Stmt::Break),
            None,
        ),
        Stmt::If(
            op(
                Operator::Equal,
                vec![op(Operator::Rem, vec![var("i"), num(2)]), num(0)],
            ),
            Box::new(Stmt::Block(vec![
                Stmt::Let("i".to_string(), op(Operator::Add, vec![var("i"), num(1)])),
                Stmt::Continue,
            ])),
            None,
        ),
        Stmt::Let("r".to_string(), op(Operator::Mul, vec![var("r"), var("i")])),
        inc,
    ];
    assert_eq!(
        f.body,
        vec![
            Stmt::Let("r".to_string(), num(1)),
            Stmt::Let("i".to_string(), num(0)),
            Stmt::Loop(body),
            Stmt::Return(Some(var("r"))),
        ]
    );
}

#[test]
fn foreach_over_range_translates() {
    let s = stmt("(foreach ((range 1 4) i) (let res (+ res i)))").unwrap();
    assert_eq!(
        s,
        Stmt::ForEach(
            Expr::Range(Box::new(num(1)), Box::new(num(4))),
            "i".to_string(),
            vec![Stmt::Let(
                "res".to_string(),
                op(Operator::Add, vec![var("res"), var("i")])
            )],
        )
    );
}

#[test]
fn range_with_one_bound_starts_at_nil() {
    assert_eq!(
        ret_expr("(range 5)").unwrap(),
        Expr::Range(Box::new(Expr::Lit(Literal::Nil)), Box::new(num(5)))
    );
}

#[test]
fn range_with_three_bounds_is_malformed() {
    assert_eq!(ret_expr("(range 1 2 3)"), Err(Error::MalformedForm));
    assert_eq!(ret_expr("(range)"), Err(Error::MalformedForm));
}

#[test]
fn list_and_dict_literals_translate() {
    assert_eq!(
        ret_expr("(list 1 2 3)").unwrap(),
        Expr::List(vec![num(1), num(2), num(3)])
    );
    assert_eq!(
        ret_expr("(dict (\"a\" 1) (\"b\" 2))").unwrap(),
        Expr::Dict(vec![
            (Expr::Lit(Literal::Str("a".to_string())), num(1)),
            (Expr::Lit(Literal::Str("b".to_string())), num(2)),
        ])
    );
}

#[test]
fn dict_keeps_duplicate_keys() {
    assert_eq!(
        ret_expr("(dict (k 1) (k 2))").unwrap(),
        Expr::Dict(vec![(var("k"), num(1)), (var("k"), num(2))])
    );
}

#[test]
fn dict_entry_must_be_a_pair() {
    assert_eq!(ret_expr("(dict (a 1 2))"), Err(Error::MalformedForm));
    assert_eq!(ret_expr("(dict a)"), Err(Error::MalformedForm));
}

#[test]
fn complex_type_constructors_translate() {
    let m = translate(
        r#"
    (def create-list (n)
        (ret (list n 2 "abc")))

    (def create-dict (key val)
        (ret (dict (key val) ("a" 1))))
        "#,
    )
    .unwrap();
    assert_eq!(
        function(&m, "create-list").body,
        vec![Stmt::Return(Some(Expr::List(vec![
            var("n"),
            num(2),
            Expr::Lit(Literal::Str("abc".to_string())),
        ])))]
    );
    assert_eq!(
        function(&m, "create-dict").body,
        vec![Stmt::Return(Some(Expr::Dict(vec![
            (var("key"), var("val")),
            (Expr::Lit(Literal::Str("a".to_string())), num(1)),
        ])))]
    );
}

#[test]
fn division_converts_first_operand() {
    assert_eq!(
        ret_expr("(/ 4 2)").unwrap(),
        op(Operator::Div, vec![Expr::ToFloat(Box::new(num(4))), num(2)])
    );
    assert_eq!(
        ret_expr("(/ 8 2 2)").unwrap(),
        op(
            Operator::Div,
            vec![Expr::ToFloat(Box::new(num(8))), num(2), num(2)]
        )
    );
}

#[test]
fn division_without_operands_is_left_as_is() {
    assert_eq!(ret_expr("(/)").unwrap(), op(Operator::Div, vec![]));
}

#[test]
fn operators_are_n_ary() {
    assert_eq!(
        ret_expr("(+ 1 2 3)").unwrap(),
        op(Operator::Add, vec![num(1), num(2), num(3)])
    );
    assert_eq!(ret_expr("(- 1)").unwrap(), op(Operator::Sub, vec![num(1)]));
}

#[test]
fn every_operator_symbol_maps() {
    let table = [
        ("+", Operator::Add),
        ("-", Operator::Sub),
        ("*", Operator::Mul),
        ("%", Operator::Rem),
        ("eq", Operator::Equal),
        ("ne", Operator::NotEqual),
        ("ge", Operator::GreaterEqual),
        ("gt", Operator::GreaterThan),
        ("le", Operator::LessEqual),
        ("lt", Operator::LessThan),
        ("and", Operator::And),
        ("or", Operator::Or),
    ];
    for (sym, o) in table {
        assert_eq!(
            ret_expr(&format!("({} x y)", sym)).unwrap(),
            op(o, vec![var("x"), var("y")])
        );
    }
}

#[test]
fn not_with_two_operands_is_an_arity_error() {
    assert_eq!(ret_expr("(not a b)"), Err(Error::ArityMismatch));
    assert_eq!(ret_expr("(not)"), Err(Error::ArityMismatch));
    assert_eq!(
        ret_expr("(not a)").unwrap(),
        Expr::Not(Box::new(var("a")))
    );
}

#[test]
fn literals_keep_value_and_kind() {
    assert_eq!(ret_expr("42").unwrap(), num(42));
    assert_eq!(
        ret_expr("1.5").unwrap(),
        Expr::Lit(Literal::Float(1.5f64.to_bits()))
    );
    assert_eq!(
        ret_expr("\"hi\"").unwrap(),
        Expr::Lit(Literal::Str("hi".to_string()))
    );
    assert_eq!(ret_expr("x").unwrap(), var("x"));
}

#[test]
fn char_literal_becomes_one_character_string() {
    assert_eq!(
        ret_expr("#\\a").unwrap(),
        Expr::Lit(Literal::Str("a".to_string()))
    );
    let mut t = Transpiler::new();
    let forms = vec![SExp::List(vec![
        SExp::Sym("def".to_string()),
        SExp::Sym("f".to_string()),
        SExp::List(vec![]),
        SExp::List(vec![SExp::Sym("ret".to_string()), SExp::Char('ß')]),
    ])];
    let m = t.translate(meta("m"), &forms).unwrap();
    assert_eq!(
        m.functions[0].body,
        vec![Stmt::Return(Some(Expr::Lit(Literal::Str("ß".to_string()))))]
    );
}

#[test]
fn call_in_value_and_statement_position() {
    assert_eq!(
        ret_expr("(f 1 x)").unwrap(),
        Expr::Call("f".to_string(), vec![num(1), var("x")])
    );
    assert_eq!(
        stmt("(print \"hi\")").unwrap(),
        Stmt::Call(
            "print".to_string(),
            vec![Expr::Lit(Literal::Str("hi".to_string()))]
        )
    );
}

#[test]
fn empty_list_expression_is_malformed() {
    assert_eq!(ret_expr("()"), Err(Error::MalformedForm));
    assert_eq!(ret_expr("(1 2)"), Err(Error::MalformedForm));
}

#[test]
fn ret_takes_at_most_one_value() {
    assert_eq!(stmt("(ret)").unwrap(), Stmt::Return(None));
    assert_eq!(stmt("(ret 1 2)"), Err(Error::ArityMismatch));
}

#[test]
fn if_takes_two_or_three_elements() {
    assert_eq!(stmt("(if x)"), Err(Error::MalformedForm));
    assert_eq!(
        stmt("(if x (ret 1) (ret 2) (ret 3))"),
        Err(Error::MalformedForm)
    );
}

#[test]
fn if_condition_zero_selects_branches() {
    assert_eq!(
        stmt("(if (eq x 0) (ret 1) (ret 2))").unwrap(),
        Stmt::If(
            op(Operator::Equal, vec![var("x"), num(0)]),
            Box::new(Stmt::Return(Some(num(1)))),
            Some(Box::new(Stmt::Return(Some(num(2))))),
        )
    );
}

#[test]
fn let_takes_a_name_and_a_value() {
    assert_eq!(
        stmt("(let x 1)").unwrap(),
        Stmt::Let("x".to_string(), num(1))
    );
    assert_eq!(stmt("(let x)"), Err(Error::MalformedForm));
    assert_eq!(stmt("(let x 1 2)"), Err(Error::MalformedForm));
    assert_eq!(stmt("(let 1 2)"), Err(Error::MalformedForm));
}

#[test]
fn foreach_header_must_have_two_elements() {
    assert_eq!(
        stmt("(foreach ((range 3) i j) (f))"),
        Err(Error::MalformedForm)
    );
    assert_eq!(stmt("(foreach x (f))"), Err(Error::MalformedForm));
    assert_eq!(stmt("(foreach)"), Err(Error::MalformedForm));
    assert_eq!(stmt("(foreach (xs 1))"), Err(Error::MalformedForm));
}

#[test]
fn break_and_continue_take_nothing() {
    assert_eq!(stmt("(break)").unwrap(), Stmt::Break);
    assert_eq!(stmt("(continue)").unwrap(), Stmt::Continue);
    assert_eq!(stmt("(break 1)"), Err(Error::MalformedForm));
}

#[test]
fn statement_imports_carry_their_scope() {
    assert_eq!(
        stmt("(import m)").unwrap(),
        Stmt::Import("m".to_string(), Scope::Local)
    );
    assert_eq!(
        stmt("(import-global m)").unwrap(),
        Stmt::Import("m".to_string(), Scope::Global)
    );
    assert_eq!(stmt("(import)"), Err(Error::MalformedForm));
}

#[test]
fn statement_must_be_a_list() {
    assert_eq!(stmt("x"), Err(Error::MalformedForm));
    assert_eq!(stmt("()"), Err(Error::MalformedForm));
}

#[test]
fn toplevel_import_declares_dependency_once() {
    let m = translate(
        "
    (import b)
    (import c)
    (import b)
    (def main (x)
        (ret (b-inb)))
        ",
    )
    .unwrap();
    assert_eq!(m.deps, vec!["b".to_string(), "c".to_string()]);
    assert_eq!(
        function(&m, "main").body,
        vec![Stmt::Return(Some(Expr::Call("b-inb".to_string(), vec![])))]
    );
}

#[test]
fn redefinition_keeps_the_later_one() {
    let m = translate(
        "
        (def add (a b) (ret (+ a b)))
        (def add (x) (ret x))
        ",
    )
    .unwrap();
    assert_eq!(m.functions.len(), 1);
    let add = function(&m, "add");
    assert_eq!(add.params, vec!["x".to_string()]);
    assert_eq!(add.body, vec![Stmt::Return(Some(var("x")))]);
}

#[test]
fn unknown_toplevel_keyword_is_rejected() {
    assert_eq!(translate("(foo 1 2)"), Err(Error::UnknownTopLevelKeyword));
    assert_eq!(
        translate("(def f () (ret 1)) (foo 1 2)"),
        Err(Error::UnknownTopLevelKeyword)
    );
}

#[test]
fn toplevel_form_must_be_a_list_headed_by_a_symbol() {
    assert_eq!(translate("1"), Err(Error::UnexpectedTopLevelShape));
    assert_eq!(translate("()"), Err(Error::UnexpectedTopLevelShape));
    assert_eq!(translate("(1 2)"), Err(Error::UnexpectedTopLevelShape));
}

#[test]
fn def_without_parameter_list_is_malformed() {
    assert_eq!(translate("(def add)"), Err(Error::MalformedForm));
    assert_eq!(translate("(def add x (ret x))"), Err(Error::MalformedForm));
    assert_eq!(translate("(def (a) (ret 1))"), Err(Error::MalformedForm));
}

#[test]
fn def_parameters_are_unique_symbols() {
    assert_eq!(translate("(def f (a a) (ret a))"), Err(Error::MalformedForm));
    assert_eq!(translate("(def f (a 1) (ret a))"), Err(Error::MalformedForm));
}

#[test]
fn first_error_aborts_translation() {
    assert_eq!(
        translate("(def f () (ret 1 2) (not a b))"),
        Err(Error::ArityMismatch)
    );
    assert_eq!(
        translate("(def f () (let x) (ret 1 2))"),
        Err(Error::MalformedForm)
    );
}

#[test]
fn empty_input_gives_empty_module() {
    let m = Transpiler::new().translate(meta("empty"), &vec![]).unwrap();
    assert_eq!(m.meta, meta("empty"));
    assert!(m.functions.is_empty());
    assert!(m.deps.is_empty());
}

#[test]
fn translation_is_deterministic() {
    let src = "
        (import lib)
        (def fac (x)
            (if (not (eq x 0))
                (ret (* x (fac (- x 1))))
                (ret 1)))
        (def main () (foreach ((range 3) i) (print (/ i 2))))
        ";
    assert_eq!(translate(src), translate(src));
}

#[test]
fn module_keeps_its_identity() {
    let meta_in = ModuleMeta {
        name: "a".to_string(),
        loc: Some("src/a.lol".to_string()),
    };
    let m = Transpiler::new()
        .translate(meta_in, &parse("(def f () (ret))"))
        .unwrap();
    assert_eq!(m.meta.name, "a");
    assert_eq!(m.meta.loc, Some("src/a.lol".to_string()));
}

#[test]
fn import_hook_joins_module_and_name() {
    assert_eq!(import_hook(Some("b"), "inb"), "b-inb");
    assert_eq!(import_hook(None, "inb"), "inb");
    assert_eq!(import_hook(Some(""), ""), "-");
}

#[test]
fn module_format_by_extension() {
    assert_eq!(module_format("lol"), Some(ModuleFormat::Source));
    assert_eq!(module_format("lolc"), Some(ModuleFormat::Compiled));
    assert_eq!(module_format("rs"), None);
    assert_eq!(module_format(""), None);
}

#[test]
fn operand_errors_come_before_count_errors() {
    assert_eq!(ret_expr("(not (dict 5) b)"), Err(Error::MalformedForm));
    assert_eq!(ret_expr("(range (not) 1 2)"), Err(Error::ArityMismatch));
    assert_eq!(stmt("(if (not a b))"), Err(Error::ArityMismatch));
    assert_eq!(
        stmt("(if x (ret 1) (ret 1 2) (ret 3))"),
        Err(Error::ArityMismatch)
    );
}
