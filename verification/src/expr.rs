//! Terms and values, their mathematical models, and what follows from the
//! shape of a term alone: copying, equality, the kind of a term, the textual
//! form of a value.
use crate::text::{integer_string, integer_text};
use vstd::prelude::*;
use vstd::std_specs::cmp::PartialEqSpecImpl;
use vstd::string::StringExecFns;

verus! {

/// Unary operators: logical negation and arithmetic negation.
#[derive(Clone, Copy, Debug, PartialEq, Eq, Structural)]
pub enum UnOp {
    Not,
    Neg,
}

/// Binary operators: arithmetic, comparison, the logical connectives,
/// sequencing and assignment.
#[derive(Clone, Copy, Debug, PartialEq, Eq, Structural)]
pub enum BinOp {
    Plus,
    Minus,
    Times,
    Div,
    Eq,
    Ne,
    Leq,
    Geq,
    Lt,
    Gt,
    And,
    Or,
    Mod,
    Sequence,
    Assign,
}

/// Declaration kinds: a mutable (`var`) or an immutable (`let`) binding.
#[derive(Clone, Copy, Debug, PartialEq, Eq, Structural)]
pub enum Dec {
    DVar,
    DConst,
}

/// Values: the terms that evaluation ends in.
#[derive(Debug)]
pub enum Val {
    /// An integer.
    Int(isize),
    /// A boolean.
    Bool(bool),
    /// What a term is worth that is worth nothing else: a declaration with
    /// nothing after it, a print.
    Undefined,
    /// A function: its own name where it has one, its body and its
    /// parameters. It holds no environment: the names in its body are looked
    /// up where it is called.
    Func(Option<Box<Expr>>, Box<Expr>, Vec<Expr>),
}

/// Terms of the language. A term is a value or can be reduced further.
#[derive(Debug)]
pub enum Expr {
    /// A value: the one normal form.
    Val(Val),
    /// A name, to be looked up in the environment.
    Var(String),
    /// A binary operator between two terms.
    Bop(BinOp, Box<Expr>, Box<Expr>),
    /// A unary operator before a term.
    Uop(UnOp, Box<Expr>),
    /// A condition and the two terms to choose from.
    Ternary(Box<Expr>, Box<Expr>, Box<Expr>),
    /// A loop: the condition as reduced so far, the condition as written, the
    /// body as reduced so far, the body as written, and the term that
    /// follows the loop. Each new round starts from the two as written.
    While(Box<Expr>, Box<Expr>, Box<Expr>, Box<Expr>, Box<Expr>),
    /// A declaration: its kind, the variable, the term for its value, and the
    /// term in which the binding holds.
    Decl(Dec, Box<Expr>, Box<Expr>, Box<Expr>),
    /// A call: the term for the function, and the terms for its arguments.
    FnCall(Box<Expr>, Vec<Expr>),
    /// The body of a call that is under way: when it has become a value, the
    /// frame of the call is popped. No source text denotes such a term.
    Scope(Box<Expr>),
    /// The term whose value is to be printed.
    Print(Box<Expr>),
}

/// The mathematical model of a [`Val`].
pub enum Value {
    Int(int),
    Bool(bool),
    Undefined,
    Func(Option<Box<Term>>, Box<Term>, Seq<Term>),
}

/// The mathematical model of an [`Expr`].
pub enum Term {
    Val(Value),
    Var(Seq<char>),
    Bop(BinOp, Box<Term>, Box<Term>),
    Uop(UnOp, Box<Term>),
    Ternary(Box<Term>, Box<Term>, Box<Term>),
    While(Box<Term>, Box<Term>, Box<Term>, Box<Term>, Box<Term>),
    Decl(Dec, Box<Term>, Box<Term>, Box<Term>),
    FnCall(Box<Term>, Seq<Term>),
    Scope(Box<Term>),
    Print(Box<Term>),
}

/// The model of a term: strings and lists are taken by their views, integers
/// as mathematical integers.
pub open spec fn term_of(e: Expr) -> Term
    decreases e, 0nat,
{
    match e {
        Expr::Val(v) => Term::Val(
            match v {
                Val::Int(n) => Value::Int(n as int),
                Val::Bool(b) => Value::Bool(b),
                Val::Undefined => Value::Undefined,
                Val::Func(name, body, params) => Value::Func(
                    match name {
                        Some(n) => Some(Box::new(term_of(*n))),
                        None => None,
                    },
                    Box::new(term_of(*body)),
                    terms_of(params@),
                ),
            },
        ),
        Expr::Var(x) => Term::Var(x@),
        Expr::Bop(op, a, b) => Term::Bop(op, Box::new(term_of(*a)), Box::new(term_of(*b))),
        Expr::Uop(op, a) => Term::Uop(op, Box::new(term_of(*a))),
        Expr::Ternary(a, b, c) => Term::Ternary(
            Box::new(term_of(*a)),
            Box::new(term_of(*b)),
            Box::new(term_of(*c)),
        ),
        Expr::While(a, b, c, d, e) => Term::While(
            Box::new(term_of(*a)),
            Box::new(term_of(*b)),
            Box::new(term_of(*c)),
            Box::new(term_of(*d)),
            Box::new(term_of(*e)),
        ),
        Expr::Decl(k, a, b, c) => Term::Decl(
            k,
            Box::new(term_of(*a)),
            Box::new(term_of(*b)),
            Box::new(term_of(*c)),
        ),
        Expr::FnCall(f, args) => Term::FnCall(
            Box::new(term_of(*f)),
            terms_of(args@),
        ),
        Expr::Scope(a) => Term::Scope(Box::new(term_of(*a))),
        Expr::Print(a) => Term::Print(Box::new(term_of(*a))),
    }
}

/// The models of a list of terms, in order.
pub open spec fn terms_of(items: Seq<Expr>) -> Seq<Term>
    decreases items, 1nat,
{
    if items.len() == 0 {
        Seq::empty()
    } else {
        terms_of(items.drop_last()).push(term_of(items.last()))
    }
}

/// `terms_of` maps `term_of` over the list, index by index.
pub proof fn lemma_terms_of(items: Seq<Expr>)
    ensures
        terms_of(items).len() == items.len(),
        forall|i: int| 0 <= i < items.len() ==> #[trigger] terms_of(items)[i] == term_of(items[i]),
    decreases items.len(),
{
    if items.len() > 0 {
        lemma_terms_of(items.drop_last());
    }
}

impl View for Expr {
    type V = Term;

    open spec fn view(&self) -> Term {
        term_of(*self)
    }
}

impl View for Val {
    type V = Value;

    open spec fn view(&self) -> Value {
        match self {
            Val::Int(n) => Value::Int(*n as int),
            Val::Bool(b) => Value::Bool(*b),
            Val::Undefined => Value::Undefined,
            Val::Func(name, body, params) => Value::Func(
                match name {
                    Some(n) => Some(Box::new(term_of(**n))),
                    None => None,
                },
                Box::new(term_of(**body)),
                terms_of(params@),
            ),
        }
    }
}

/// The models of a list with one more term at its end.
pub proof fn lemma_terms_of_push(items: Seq<Expr>, e: Expr)
    ensures
        terms_of(items.push(e)) == terms_of(items).push(term_of(e)),
{
    assert(items.push(e).drop_last() =~= items);
}

/// Copies a list of terms, element by element.
fn clone_all(items: &Vec<Expr>) -> (res: Vec<Expr>)
    ensures
        terms_of(res@) == terms_of(items@),
    decreases items, 0nat,
{
    let mut out: Vec<Expr> = Vec::new();
    let mut i: usize = 0;
    while i < items.len()
        invariant
            i <= items.len(),
            out.len() == i,
            forall|j: int| 0 <= j < i ==> out[j]@ == items[j]@,
        decreases items.len() - i,
    {
        let item = items[i].clone();
        out.push(item);
        i = i + 1;
    }
    proof {
        lemma_terms_of(out@);
        lemma_terms_of(items@);
        assert(terms_of(out@) =~= terms_of(items@));
    }
    out
}

impl Clone for Val {
    /// A deep copy: the copy has the same model as the value copied.
    fn clone(&self) -> (res: Val)
        ensures
            res@ == self@,
        decreases self, 1nat,
    {
        match self {
            Val::Int(n) => Val::Int(*n),
            Val::Bool(b) => Val::Bool(*b),
            Val::Undefined => Val::Undefined,
            Val::Func(name, body, params) => {
                let name_copy = match name {
                    Some(n) => Some(Box::new((&**n).clone())),
                    None => None,
                };
                let body_copy = (&**body).clone();
                let params_copy = clone_all(params);
                Val::Func(name_copy, Box::new(body_copy), params_copy)
            },
        }
    }
}

impl Clone for Expr {
    /// A deep copy: the copy has the same model as the term copied.
    fn clone(&self) -> (res: Expr)
        ensures
            res@ == self@,
        decreases self, 1nat,
    {
        match self {
            Expr::Val(v) => Expr::Val(v.clone()),
            Expr::Var(x) => Expr::Var(x.clone()),
            Expr::Bop(op, a, b) => Expr::Bop(
                *op,
                Box::new((&**a).clone()),
                Box::new((&**b).clone()),
            ),
            Expr::Uop(op, a) => Expr::Uop(*op, Box::new((&**a).clone())),
            Expr::Ternary(a, b, c) => Expr::Ternary(
                Box::new((&**a).clone()),
                Box::new((&**b).clone()),
                Box::new((&**c).clone()),
            ),
            Expr::While(a, b, c, d, e) => Expr::While(
                Box::new((&**a).clone()),
                Box::new((&**b).clone()),
                Box::new((&**c).clone()),
                Box::new((&**d).clone()),
                Box::new((&**e).clone()),
            ),
            Expr::Decl(k, a, b, c) => Expr::Decl(
                *k,
                Box::new((&**a).clone()),
                Box::new((&**b).clone()),
                Box::new((&**c).clone()),
            ),
            Expr::FnCall(f, args) => {
                let f_copy = (&**f).clone();
                let args_copy = clone_all(args);
                Expr::FnCall(Box::new(f_copy), args_copy)
            },
            Expr::Scope(a) => Expr::Scope(Box::new((&**a).clone())),
            Expr::Print(a) => Expr::Print(Box::new((&**a).clone())),
        }
    }
}

/// Compares two lists of terms, element by element.
fn all_eq(xs: &Vec<Expr>, ys: &Vec<Expr>) -> (res: bool)
    ensures
        res == (terms_of(xs@) == terms_of(ys@)),
    decreases xs, 0nat,
{
    proof {
        lemma_terms_of(xs@);
        lemma_terms_of(ys@);
    }
    if xs.len() != ys.len() {
        return false;
    }
    let mut i: usize = 0;
    while i < xs.len()
        invariant
            i <= xs.len(),
            xs.len() == ys.len(),
            terms_of(xs@).len() == xs.len(),
            terms_of(ys@).len() == ys.len(),
            forall|i: int| 0 <= i < xs.len() ==> #[trigger] terms_of(xs@)[i] == xs[i]@,
            forall|i: int| 0 <= i < ys.len() ==> #[trigger] terms_of(ys@)[i] == ys[i]@,
            forall|j: int| 0 <= j < i ==> xs[j]@ == ys[j]@,
        decreases xs.len() - i,
    {
        if !xs[i].eq(&ys[i]) {
            assert(terms_of(xs@)[i as int] != terms_of(ys@)[i as int]);
            return false;
        }
        i = i + 1;
    }
    assert(terms_of(xs@) =~= terms_of(ys@));
    true
}

impl PartialEq for Val {
    /// Structural equality of values.
    fn eq(&self, other: &Val) -> (res: bool)
        decreases self, 1nat,
    {
        match (self, other) {
            (Val::Int(a), Val::Int(b)) => *a == *b,
            (Val::Bool(a), Val::Bool(b)) => *a == *b,
            (Val::Undefined, Val::Undefined) => true,
            (Val::Func(n1, b1, ps1), Val::Func(n2, b2, ps2)) => {
                let names = match (n1, n2) {
                    (Some(x), Some(y)) => (&**x).eq(&**y),
                    (None, None) => true,
                    _ => false,
                };
                names && (&**b1).eq(&**b2) && all_eq(ps1, ps2)
            },
            _ => false,
        }
    }
}

impl PartialEqSpecImpl for Val {
    open spec fn obeys_eq_spec() -> bool {
        true
    }

    open spec fn eq_spec(&self, other: &Val) -> bool {
        self@ == other@
    }
}

impl PartialEq for Expr {
    /// Structural equality of terms.
    fn eq(&self, other: &Expr) -> (res: bool)
        decreases self, 1nat,
    {
        match (self, other) {
            (Expr::Val(a), Expr::Val(b)) => a.eq(b),
            (Expr::Var(a), Expr::Var(b)) => a.eq(b),
            (Expr::Bop(o1, a1, b1), Expr::Bop(o2, a2, b2)) => *o1 == *o2 && (&**a1).eq(&**a2) && (
            &**b1).eq(&**b2),
            (Expr::Uop(o1, a1), Expr::Uop(o2, a2)) => *o1 == *o2 && (&**a1).eq(&**a2),
            (Expr::Ternary(a1, b1, c1), Expr::Ternary(a2, b2, c2)) => (&**a1).eq(&**a2) && (
            &**b1).eq(&**b2) && (&**c1).eq(&**c2),
            (Expr::While(a1, b1, c1, d1, e1), Expr::While(a2, b2, c2, d2, e2)) => (&**a1).eq(
                &**a2,
            ) && (&**b1).eq(&**b2) && (&**c1).eq(&**c2) && (&**d1).eq(&**d2) && (&**e1).eq(&**e2),
            (Expr::Decl(k1, a1, b1, c1), Expr::Decl(k2, a2, b2, c2)) => *k1 == *k2 && (&**a1).eq(
                &**a2,
            ) && (&**b1).eq(&**b2) && (&**c1).eq(&**c2),
            (Expr::FnCall(f1, xs1), Expr::FnCall(f2, xs2)) => (&**f1).eq(&**f2) && all_eq(xs1, xs2),
            (Expr::Scope(a1), Expr::Scope(a2)) => (&**a1).eq(&**a2),
            (Expr::Print(a1), Expr::Print(a2)) => (&**a1).eq(&**a2),
            _ => false,
        }
    }
}

impl PartialEqSpecImpl for Expr {
    open spec fn obeys_eq_spec() -> bool {
        true
    }

    open spec fn eq_spec(&self, other: &Expr) -> bool {
        self@ == other@
    }
}

impl Expr {
    /// Whether the term is a value, that is, a normal form. A variable is not.
    pub fn is_value(&self) -> (res: bool)
        ensures
            res == (self@ is Val),
    {
        match self {
            Expr::Val(_) => true,
            _ => false,
        }
    }

    /// Whether the term is an integer value.
    pub fn is_int(&self) -> (res: bool)
        ensures
            res == (self@ matches Term::Val(Value::Int(_))),
    {
        match self {
            Expr::Val(Val::Int(_)) => true,
            _ => false,
        }
    }

    /// Whether the term is a boolean value.
    pub fn is_bool(&self) -> (res: bool)
        ensures
            res == (self@ matches Term::Val(Value::Bool(_))),
    {
        match self {
            Expr::Val(Val::Bool(_)) => true,
            _ => false,
        }
    }

    /// Whether the term is a function value.
    pub fn is_func(&self) -> (res: bool)
        ensures
            res == (self@ matches Term::Val(Value::Func(_, _, _))),
    {
        match self {
            Expr::Val(Val::Func(_, _, _)) => true,
            _ => false,
        }
    }

    /// Whether the term names a cell of the environment, that is, is a variable.
    pub fn is_addr(&self) -> (res: bool)
        ensures
            res == (self@ is Var),
    {
        match self {
            Expr::Var(_) => true,
            _ => false,
        }
    }

    /// The integer that an integer value holds.
    pub fn to_int(&self) -> (res: isize)
        requires
            self@ matches Term::Val(Value::Int(_)),
        ensures
            self@ == Term::Val(Value::Int(res as int)),
    {
        match self {
            Expr::Val(Val::Int(n)) => *n,
            _ => 0,
        }
    }

    /// The boolean that a boolean value holds.
    pub fn to_bool(&self) -> (res: bool)
        requires
            self@ matches Term::Val(Value::Bool(_)),
        ensures
            self@ == Term::Val(Value::Bool(res)),
    {
        match self {
            Expr::Val(Val::Bool(b)) => *b,
            _ => false,
        }
    }

    /// The name of the cell that a variable names.
    pub fn to_addr(&self) -> (res: String)
        requires
            self@ is Var,
        ensures
            self@ == Term::Var(res@),
    {
        match self {
            Expr::Var(x) => x.clone(),
            _ => String::new(),
        }
    }
}

/// The textual form of a value, as printing emits it.
pub open spec fn value_text(v: Value) -> Seq<char> {
    match v {
        Value::Int(n) => integer_text(n),
        Value::Bool(b) => if b {
            "true"@
        } else {
            "false"@
        },
        _ => "cannot print this thing"@,
    }
}

impl Val {
    /// The textual form of the value: the decimal numeral of an integer,
    /// `true` or `false` for a boolean, and a fixed notice for the rest.
    pub fn to_string(&self) -> (res: String)
        ensures
            res@ == value_text(self@),
    {
        match self {
            Val::Int(n) => integer_string(*n),
            Val::Bool(b) => if *b {
                String::from_str("true")
            } else {
                String::from_str("false")
            },
            _ => String::from_str("cannot print this thing"),
        }
    }
}

} // verus!
