//! The node of a binary operation.

use super::expr::Expr;
use super::token::operator::Operator;
use vstd::prelude::*;

verus! {

/// A binary operation on two expressions.
#[derive(Debug, PartialEq)]
pub struct TreeNode {
    pub l_expr: Expr,
    pub op: Operator,
    pub r_expr: Expr,
}

} // verus!
