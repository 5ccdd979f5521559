//! Expression trees.

use vstd::prelude::*;
use crate::classes::is_operator;

verus! {

/// An expression: a leaf, or an operator over two sub-expressions that the
/// node owns.
#[derive(Debug, PartialEq, Eq)]
pub enum Expr {
    Number(i64),
    Ident(String),
    Binary { op: char, left: Box<Expr>, right: Box<Expr> },
}

/// The model of an expression.
pub ghost enum ExprModel {
    Number(i64),
    Ident(Seq<char>),
    Binary { op: char, left: Box<ExprModel>, right: Box<ExprModel> },
}

impl ExprModel {
    /// Every inner node carries one of the operator characters.
    pub open spec fn well_formed(self) -> bool
        decreases self,
    {
        match self {
            ExprModel::Binary { op, left, right } => {
                &&& is_operator(op)
                &&& left.well_formed()
                &&& right.well_formed()
            },
            _ => true,
        }
    }
}

impl Expr {
    /// The model of this expression, node by node.
    pub open spec fn model(&self) -> ExprModel
        decreases self,
    {
        match self {
            Expr::Number(value) => ExprModel::Number(*value),
            Expr::Ident(name) => ExprModel::Ident(name@),
            Expr::Binary { op, left, right } => ExprModel::Binary {
                op: *op,
                left: Box::new(left.model()),
                right: Box::new(right.model()),
            },
        }
    }
}

impl View for Expr {
    type V = ExprModel;

    open spec fn view(&self) -> ExprModel {
        self.model()
    }
}

} // verus!
