//! The data of an expression: tokens and the tree built from them.

pub mod consts;
pub mod expr;
pub mod function;
pub mod token;
pub mod tree;
