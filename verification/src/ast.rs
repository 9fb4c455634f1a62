//! The typed expression tree.
use vstd::prelude::*;

verus! {

/// The unary operators.
#[derive(Clone, Copy, Debug, PartialEq, Eq, Structural)]
pub enum UnOp {
    Add1,
    Sub1,
    Negate,
}

/// The binary operators.
#[derive(Clone, Copy, Debug, PartialEq, Eq, Structural)]
pub enum BinOp {
    Plus,
    Minus,
    Times,
}

/// An expression. Every node owns its children.
#[derive(Debug, PartialEq, Eq)]
pub enum Expr {
    /// A 32-bit signed literal.
    Num(i32),
    /// A reference to a bound name.
    Var(String),
    /// Bindings, made in order, and the body that sees all of them.
    Let(Vec<(String, Expr)>, Box<Expr>),
    UnOp(UnOp, Box<Expr>),
    BinOp(BinOp, Box<Expr>, Box<Expr>),
}

/// The mathematical value of an [`Expr`].
pub ghost enum ExprModel {
    Num(i32),
    Var(Seq<char>),
    Let(Seq<(Seq<char>, ExprModel)>, Box<ExprModel>),
    UnOp(UnOp, Box<ExprModel>),
    BinOp(BinOp, Box<ExprModel>, Box<ExprModel>),
}

impl Expr {
    /// The value that this tree stands for.
    pub open spec fn model(&self) -> ExprModel
        decreases self,
    {
        match self {
            Expr::Num(n) => ExprModel::Num(*n),
            Expr::Var(name) => ExprModel::Var(name@),
            Expr::Let(bindings, body) => ExprModel::Let(
                Seq::new(
                    bindings.len() as nat,
                    |i: int|
                        if 0 <= i < bindings.len() {
                            (bindings[i].0@, bindings[i].1.model())
                        } else {
                            (Seq::empty(), ExprModel::Num(0))
                        },
                ),
                Box::new(body.model()),
            ),
            Expr::UnOp(op, operand) => ExprModel::UnOp(*op, Box::new(operand.model())),
            Expr::BinOp(op, left, right) => ExprModel::BinOp(
                *op,
                Box::new(left.model()),
                Box::new(right.model()),
            ),
        }
    }
}

/// The values of a sequence of bindings, pair by pair.
pub open spec fn bindings_model(bindings: Seq<(String, Expr)>) -> Seq<(Seq<char>, ExprModel)> {
    Seq::new(bindings.len(), |i: int| (bindings[i].0@, bindings[i].1@))
}

/// A `let` node stands for its bindings' values and its body's value.
pub proof fn lemma_let_model(bindings: Vec<(String, Expr)>, body: Box<Expr>)
    ensures
        Expr::Let(bindings, body)@ == ExprModel::Let(bindings_model(bindings@), Box::new(body@)),
{
    assert(Expr::Let(bindings, body)@->Let_0 =~= bindings_model(bindings@));
}

impl View for Expr {
    type V = ExprModel;

    open spec fn view(&self) -> ExprModel {
        self.model()
    }
}

impl Clone for Expr {
    fn clone(&self) -> (copy: Expr)
        ensures
            copy@ == self@,
        decreases self,
    {
        match self {
            Expr::Num(n) => Expr::Num(*n),
            Expr::Var(name) => Expr::Var(name.clone()),
            Expr::Let(bindings, body) => {
                let mut copies: Vec<(String, Expr)> = Vec::new();
                let mut i: usize = 0;
                while i < bindings.len()
                    invariant
                        i <= bindings.len(),
                        copies.len() == i,
                        forall|j: int|
                            0 <= j < i ==> (#[trigger] copies[j]).0@ == bindings[j].0@
                                && copies[j].1@ == bindings[j].1@,
                        decreases_to!(self => bindings),
                    decreases bindings.len() - i,
                {
                    let value = bindings[i].1.clone();
                    copies.push((bindings[i].0.clone(), value));
                    i += 1;
                }
                assert(bindings_model(copies@) =~= bindings_model(bindings@));
                let body_copy = Box::new((**body).clone());
                proof {
                    lemma_let_model(copies, body_copy);
                    lemma_let_model(*bindings, *body);
                }
                Expr::Let(copies, body_copy)
            },
            Expr::UnOp(op, operand) => Expr::UnOp(*op, Box::new((**operand).clone())),
            Expr::BinOp(op, left, right) => Expr::BinOp(
                *op,
                Box::new((**left).clone()),
                Box::new((**right).clone()),
            ),
        }
    }
}

} // verus!
