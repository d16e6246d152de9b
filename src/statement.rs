//! Statements.
use vstd::prelude::*;
use crate::expr::{Expr, ExprV};
use crate::scanner::{Token, TokenV};

verus! {

/// A statement of a program.
#[derive(Debug)]
pub enum Statement {
    Expression { expr: Expr },
    Print { expr: Expr },
    Var { t: Token, init: Expr },
}

/// The mathematical form of a statement.
pub enum StmtV {
    Expression { expr: ExprV },
    Print { expr: ExprV },
    Var { t: TokenV, init: ExprV },
}

impl View for Statement {
    type V = StmtV;

    open spec fn view(&self) -> StmtV {
        match self {
            Statement::Expression { expr } => StmtV::Expression { expr: expr@ },
            Statement::Print { expr } => StmtV::Print { expr: expr@ },
            Statement::Var { t, init } => StmtV::Var { t: t@, init: init@ },
        }
    }
}

} // verus!
