//! The arithmetic operator tags of the target expression grammar. The
//! richer statement and expression shapes live with the surrounding
//! program glue until a parser produces them.

use vstd::prelude::*;

verus! {

/// Binary arithmetic operator of an expression node.
#[derive(Debug, Clone, PartialEq, Eq, Structural)]
pub enum Operator {
    Add,
    Sub,
    Mul,
    Div,
}

} // verus!
