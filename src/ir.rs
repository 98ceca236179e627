use vstd::prelude::*;

verus! {

broadcast use vstd::std_specs::vec::group_vec_axioms;

/// A literal value. A float is held as the bit pattern of its IEEE-754 double.
#[derive(Debug, PartialEq)]
pub enum Literal {
    Nil,
    Int(i64),
    Float(u64),
    Str(String),
}

pub enum LiteralView {
    Nil,
    Int(i64),
    Float(u64),
    Str(Seq<char>),
}

impl View for Literal {
    type V = LiteralView;

    open spec fn view(&self) -> LiteralView {
        match self {
            Literal::Nil => LiteralView::Nil,
            Literal::Int(n) => LiteralView::Int(*n),
            Literal::Float(b) => LiteralView::Float(*b),
            Literal::Str(s) => LiteralView::Str(s@),
        }
    }
}

/// The binary operators; each applies to two or more operands.
#[derive(Clone, Copy, Debug, PartialEq, Eq, Structural)]
pub enum Operator {
    Add,
    Sub,
    Mul,
    Div,
    Rem,
    Equal,
    NotEqual,
    GreaterEqual,
    GreaterThan,
    LessEqual,
    LessThan,
    And,
    Or,
}

/// An expression of the intermediate representation.
#[derive(Debug, PartialEq)]
pub enum Expr {
    Lit(Literal),
    Var(String),
    Not(Box<Expr>),
    /// One operator applied over all operands, left to right.
    Op(Operator, Vec<Expr>),
    /// Conversion of the operand to a float.
    ToFloat(Box<Expr>),
    Call(String, Vec<Expr>),
    List(Vec<Expr>),
    /// Key/value pairs in source order; duplicate keys are kept.
    Dict(Vec<(Expr, Expr)>),
    /// An iterator from the first bound to the second.
    Range(Box<Expr>, Box<Expr>),
}

pub enum ExprView {
    Lit(LiteralView),
    Var(Seq<char>),
    Not(Box<ExprView>),
    Op(Operator, Seq<ExprView>),
    ToFloat(Box<ExprView>),
    Call(Seq<char>, Seq<ExprView>),
    List(Seq<ExprView>),
    Dict(Seq<(ExprView, ExprView)>),
    Range(Box<ExprView>, Box<ExprView>),
}

pub open spec fn expr_view(e: Expr) -> ExprView
    decreases e,
{
    match e {
        Expr::Lit(l) => ExprView::Lit(l@),
        Expr::Var(n) => ExprView::Var(n@),
        Expr::Not(x) => ExprView::Not(Box::new(expr_view(*x))),
        Expr::Op(op, xs) => ExprView::Op(op, exprs_view(xs)),
        Expr::ToFloat(x) => ExprView::ToFloat(Box::new(expr_view(*x))),
        Expr::Call(n, xs) => ExprView::Call(n@, exprs_view(xs)),
        Expr::List(xs) => ExprView::List(exprs_view(xs)),
        Expr::Dict(kvs) => ExprView::Dict(pairs_view(kvs)),
        Expr::Range(a, b) => ExprView::Range(Box::new(expr_view(*a)), Box::new(expr_view(*b))),
    }
}

pub open spec fn exprs_view(xs: Vec<Expr>) -> Seq<ExprView>
    decreases xs,
{
    Seq::new(
        xs.len() as nat,
        |i: int|
            if 0 <= i < xs.len() {
                expr_view(xs[i])
            } else {
                ExprView::Lit(LiteralView::Nil)
            },
    )
}

pub open spec fn pairs_view(kvs: Vec<(Expr, Expr)>) -> Seq<(ExprView, ExprView)>
    decreases kvs,
{
    Seq::new(
        kvs.len() as nat,
        |i: int|
            if 0 <= i < kvs.len() {
                (expr_view(kvs[i].0), expr_view(kvs[i].1))
            } else {
                (ExprView::Lit(LiteralView::Nil), ExprView::Lit(LiteralView::Nil))
            },
    )
}

impl View for Expr {
    type V = ExprView;

    open spec fn view(&self) -> ExprView {
        expr_view(*self)
    }
}

/// Where an `import` statement binds the module it names.
#[derive(Clone, Copy, Debug, PartialEq, Eq, Structural)]
pub enum Scope {
    Local,
    Global,
}

/// A statement of the intermediate representation.
#[derive(Debug, PartialEq)]
pub enum Stmt {
    Break,
    Continue,
    /// Several statements where the grammar expects one.
    Block(Vec<Stmt>),
    /// Condition, then-branch and optional else-branch.
    If(Expr, Box<Stmt>, Option<Box<Stmt>>),
    Loop(Vec<Stmt>),
    /// Iterable, binding name and body.
    ForEach(Expr, String, Vec<Stmt>),
    Return(Option<Expr>),
    Let(String, Expr),
    Import(String, Scope),
    /// A call whose value is discarded.
    Call(String, Vec<Expr>),
}

pub enum StmtView {
    Break,
    Continue,
    Block(Seq<StmtView>),
    If(ExprView, Box<StmtView>, Option<Box<StmtView>>),
    Loop(Seq<StmtView>),
    ForEach(ExprView, Seq<char>, Seq<StmtView>),
    Return(Option<ExprView>),
    Let(Seq<char>, ExprView),
    Import(Seq<char>, Scope),
    Call(Seq<char>, Seq<ExprView>),
}

pub open spec fn stmt_view(s: Stmt) -> StmtView
    decreases s,
{
    match s {
        Stmt::Break => StmtView::Break,
        Stmt::Continue => StmtView::Continue,
        Stmt::Block(b) => StmtView::Block(stmts_view(b)),
        Stmt::If(c, t, e) => StmtView::If(
            c@,
            Box::new(stmt_view(*t)),
            match e {
                Some(x) => Some(Box::new(stmt_view(*x))),
                None => None,
            },
        ),
        Stmt::Loop(b) => StmtView::Loop(stmts_view(b)),
        Stmt::ForEach(it, n, b) => StmtView::ForEach(it@, n@, stmts_view(b)),
        Stmt::Return(v) => StmtView::Return(
            match v {
                Some(x) => Some(x@),
                None => None,
            },
        ),
        Stmt::Let(n, v) => StmtView::Let(n@, v@),
        Stmt::Import(n, sc) => StmtView::Import(n@, sc),
        Stmt::Call(n, xs) => StmtView::Call(n@, exprs_view(xs)),
    }
}

pub open spec fn stmts_view(b: Vec<Stmt>) -> Seq<StmtView>
    decreases b,
{
    Seq::new(
        b.len() as nat,
        |i: int|
            if 0 <= i < b.len() {
                stmt_view(b[i])
            } else {
                StmtView::Break
            },
    )
}

impl View for Stmt {
    type V = StmtView;

    open spec fn view(&self) -> StmtView {
        stmt_view(*self)
    }
}

/// The values of a list of names, in order.
pub open spec fn strings_view(v: Vec<String>) -> Seq<Seq<char>> {
    Seq::new(v.len() as nat, |i: int| v[i]@)
}

/// A function definition: its name, its parameters in calling order, and its body.
#[derive(Debug, PartialEq)]
pub struct Function {
    pub name: String,
    pub params: Vec<String>,
    pub body: Vec<Stmt>,
}

pub struct FunctionView {
    pub params: Seq<Seq<char>>,
    pub body: Seq<StmtView>,
}

impl View for Function {
    type V = FunctionView;

    open spec fn view(&self) -> FunctionView {
        FunctionView { params: strings_view(self.params), body: stmts_view(self.body) }
    }
}

/// A module's identity: its name and, where it came from a file, that location.
#[derive(Debug, PartialEq)]
pub struct ModuleMeta {
    pub name: String,
    pub loc: Option<String>,
}

/// A translated module: its identity, its functions by name, and the modules
/// it declares as dependencies, each once, in order of first declaration.
pub struct ModuleView {
    pub name: Seq<char>,
    pub loc: Option<Seq<char>>,
    pub functions: Map<Seq<char>, FunctionView>,
    pub deps: Seq<Seq<char>>,
}

/// The function table that a list of definitions gives when each is entered
/// in turn, a later one under a name replacing the earlier.
pub open spec fn table_of(fs: Seq<Function>) -> Map<Seq<char>, FunctionView>
    decreases fs.len(),
{
    if fs.len() == 0 {
        Map::empty()
    } else {
        table_of(fs.drop_last()).insert(fs.last().name@, fs.last()@)
    }
}

pub open spec fn names_unique(fs: Seq<Function>) -> bool {
    forall|i: int, j: int| 0 <= i < j < fs.len() ==> fs[i].name@ != fs[j].name@
}

/// A module of the intermediate representation. Each function name occurs once.
#[derive(Debug, PartialEq)]
pub struct Module {
    pub meta: ModuleMeta,
    pub functions: Vec<Function>,
    pub deps: Vec<String>,
}

impl View for Module {
    type V = ModuleView;

    open spec fn view(&self) -> ModuleView {
        ModuleView {
            name: self.meta.name@,
            loc: match self.meta.loc {
                Some(l) => Some(l@),
                None => None,
            },
            functions: table_of(self.functions@),
            deps: strings_view(self.deps),
        }
    }
}

/// Replacing the definition that bears a name replaces that entry of the table.
proof fn lemma_table_update(fs: Seq<Function>, idx: int, f: Function)
    requires
        0 <= idx < fs.len(),
        names_unique(fs),
        fs[idx].name@ == f.name@,
    ensures
        table_of(fs.update(idx, f)) == table_of(fs).insert(f.name@, f@),
    decreases fs.len(),
{
    let g = fs.update(idx, f);
    let n = fs.len() as int;
    if idx == n - 1 {
        assert(g.drop_last() =~= fs.drop_last());
        assert(table_of(g) =~= table_of(fs).insert(f.name@, f@));
    } else {
        assert(g.drop_last() =~= fs.drop_last().update(idx, f));
        lemma_table_update(fs.drop_last(), idx, f);
        assert(fs[n - 1].name@ != f.name@);
        assert(table_of(g) =~= table_of(fs).insert(f.name@, f@));
    }
}

impl Module {
    pub open spec fn wf(&self) -> bool {
        names_unique(self.functions@)
    }

    /// A module with no functions and no dependencies.
    pub fn empty(meta: ModuleMeta) -> (r: Module)
        ensures
            r.wf(),
            r.meta == meta,
            r@.functions == Map::<Seq<char>, FunctionView>::empty(),
            r@.deps == Seq::<Seq<char>>::empty(),
    {
        let r = Module { meta, functions: Vec::new(), deps: Vec::new() };
        assert(r@.deps =~= Seq::<Seq<char>>::empty());
        r
    }

    /// Enters a definition under its name; an earlier one of that name is replaced.
    pub fn define(&mut self, f: Function)
        requires
            old(self).wf(),
        ensures
            final(self).wf(),
            final(self).meta == old(self).meta,
            final(self).deps == old(self).deps,
            final(self)@.functions == old(self)@.functions.insert(f.name@, f@),
    {
        let mut i: usize = 0;
        while i < self.functions.len()
            invariant
                self.wf(),
                self.functions == old(self).functions,
                self.meta == old(self).meta,
                self.deps == old(self).deps,
                i <= self.functions.len(),
                forall|j: int| 0 <= j < i ==> self.functions[j].name@ != f.name@,
            decreases self.functions.len() - i,
        {
            if self.functions[i].name == f.name {
                let ghost fs = self.functions@;
                proof {
                    lemma_table_update(fs, i as int, f);
                }
                self.functions.set(i, f);
                assert(self.functions@ == fs.update(i as int, f));
                return;
            }
            i = i + 1;
        }
        let ghost fs = self.functions@;
        self.functions.push(f);
        assert(self.functions@.drop_last() =~= fs);
    }

    /// Declares a dependency; one already declared is not repeated.
    pub fn add_dependency(&mut self, name: String)
        ensures
            final(self).meta == old(self).meta,
            final(self).functions == old(self).functions,
            final(self)@.deps == (if old(self)@.deps.contains(name@) {
                old(self)@.deps
            } else {
                old(self)@.deps.push(name@)
            }),
    {
        let ghost ds = self@.deps;
        let mut i: usize = 0;
        while i < self.deps.len()
            invariant
                self.deps == old(self).deps,
                self.meta == old(self).meta,
                self.functions == old(self).functions,
                ds == strings_view(self.deps),
                i <= self.deps.len(),
                forall|j: int| 0 <= j < i ==> ds[j] != name@,
            decreases self.deps.len() - i,
        {
            if self.deps[i] == name {
                assert(ds[i as int] == name@);
                return;
            }
            i = i + 1;
        }
        self.deps.push(name);
        assert(strings_view(self.deps) =~= ds.push(name@));
    }
}

} // verus!
