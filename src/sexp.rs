use vstd::prelude::*;

verus! {

broadcast use vstd::std_specs::vec::group_vec_axioms;

/// A parsed S-expression node. A float literal is held as the bit pattern of
/// its IEEE-754 double: the translator carries it through unchanged.
#[derive(Debug, PartialEq)]
pub enum SExp {
    Sym(String),
    Str(String),
    Char(char),
    Int(i64),
    Float(u64),
    List(Vec<SExp>),
}

/// The mathematical value of an S-expression node.
pub enum SExpView {
    Sym(Seq<char>),
    Str(Seq<char>),
    Char(char),
    Int(i64),
    Float(u64),
    List(Seq<SExpView>),
}

pub open spec fn sexp_view(s: SExp) -> SExpView
    decreases s,
{
    match s {
        SExp::Sym(n) => SExpView::Sym(n@),
        SExp::Str(t) => SExpView::Str(t@),
        SExp::Char(c) => SExpView::Char(c),
        SExp::Int(n) => SExpView::Int(n),
        SExp::Float(b) => SExpView::Float(b),
        SExp::List(l) => SExpView::List(items_view(l)),
    }
}

/// The values of a list's elements, in order.
pub open spec fn items_view(l: Vec<SExp>) -> Seq<SExpView>
    decreases l,
{
    Seq::new(
        l.len() as nat,
        |i: int|
            if 0 <= i < l.len() {
                sexp_view(l[i])
            } else {
                SExpView::Int(0)
            },
    )
}

impl View for SExp {
    type V = SExpView;

    open spec fn view(&self) -> SExpView {
        sexp_view(*self)
    }
}

} // verus!
