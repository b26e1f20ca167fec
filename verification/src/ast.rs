//! Tree representation of programs: the compiler's input.
//!
//! A `Program` is a sequence of statements; statements and expressions are
//! closed sets of variants. The trees are immutable once produced.

use vstd::prelude::*;

verus! {

/// An expression node of the program tree.
#[derive(Debug, PartialEq, Eq)]
pub enum Expression {
    Identifier { name: String },
    Number { value: i64 },
    Str { value: String },
    Call { function: Box<Expression>, args: Vec<Expression> },
}

/// A statement node of the program tree.
#[derive(Debug, PartialEq, Eq)]
pub enum Statement {
    Expression { expression: Expression },
    If { test: Expression, body: Vec<Statement>, orelse: Option<Vec<Statement>> },
}

/// A whole program: the sequence of its top-level statements.
#[derive(Debug, PartialEq, Eq)]
pub struct Program {
    pub statements: Vec<Statement>,
}

/// Mathematical model of an expression: strings become sequences of
/// characters, machine integers become unbounded integers.
pub enum ExprV {
    IdentifierV { name: Seq<char> },
    NumberV { value: int },
    StrV { value: Seq<char> },
    CallV { function: Box<ExprV>, args: Seq<ExprV> },
}

/// Mathematical model of a statement.
pub enum StmtV {
    ExpressionV { expression: ExprV },
    IfV { test: ExprV, body: Seq<StmtV>, orelse: Option<Seq<StmtV>> },
}

pub open spec fn expr_view(e: Expression) -> ExprV
    decreases e,
{
    match e {
        Expression::Identifier { name } => ExprV::IdentifierV { name: name@ },
        Expression::Number { value } => ExprV::NumberV { value: value as int },
        Expression::Str { value } => ExprV::StrV { value: value@ },
        Expression::Call { function, args } => ExprV::CallV {
            function: Box::new(expr_view(*function)),
            args: exprs_view(args@),
        },
    }
}

pub open spec fn exprs_view(s: Seq<Expression>) -> Seq<ExprV>
    decreases s,
{
    if s.len() == 0 {
        Seq::empty()
    } else {
        exprs_view(s.subrange(0, s.len() - 1)).push(expr_view(s[s.len() - 1]))
    }
}

pub open spec fn stmt_view(s: Statement) -> StmtV
    decreases s,
{
    match s {
        Statement::Expression { expression } => StmtV::ExpressionV {
            expression: expr_view(expression),
        },
        Statement::If { test, body, orelse } => StmtV::IfV {
            test: expr_view(test),
            body: stmts_view(body@),
            orelse: match orelse {
                Option::Some(stmts) => Option::Some(stmts_view(stmts@)),
                Option::None => Option::None,
            },
        },
    }
}

pub open spec fn stmts_view(s: Seq<Statement>) -> Seq<StmtV>
    decreases s,
{
    if s.len() == 0 {
        Seq::empty()
    } else {
        stmts_view(s.subrange(0, s.len() - 1)).push(stmt_view(s[s.len() - 1]))
    }
}

impl View for Expression {
    type V = ExprV;

    open spec fn view(&self) -> ExprV {
        expr_view(*self)
    }
}

impl View for Statement {
    type V = StmtV;

    open spec fn view(&self) -> StmtV {
        stmt_view(*self)
    }
}

impl View for Program {
    type V = Seq<StmtV>;

    open spec fn view(&self) -> Seq<StmtV> {
        stmts_view(self.statements@)
    }
}

} // verus!
