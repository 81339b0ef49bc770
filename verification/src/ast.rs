//! The abstract syntax tree: plain, immutable-once-built data describing
//! programs, statements, expressions and operators, together with the
//! spec-level views the contracts are stated over.

use vstd::prelude::*;

use crate::parse_errors::{ParseError, ParseErrorV};

verus! {

/// A name, equal by value.
#[derive(Debug, Clone, PartialEq)]
pub struct Identifier(pub String);

/// The closed set of operators. All binary operators are left-associative;
/// `Bang` only appears in prefix position.
#[derive(Debug, Clone, Copy, PartialEq, Eq, Structural)]
pub enum Operator {
    Plus,
    Minus,
    Multiply,
    DividedBy,
    LessThan,
    GreaterThan,
    Equals,
    NotEquals,
    Bang,
}

/// An expression node. Built bottom-up during parsing, never mutated after.
#[derive(Debug, PartialEq)]
pub enum Expression {
    IntegerLiteral(i32),
    BooleanLiteral(bool),
    IdentifierLiteral(Identifier),
    PrefixExpression { right: Box<Expression>, operator: Operator },
    InfixExpression { left: Box<Expression>, right: Box<Expression>, operator: Operator },
    IfExpression {
        condition: Box<Expression>,
        consequence: BlockStatement,
        alternative: Option<BlockStatement>,
    },
    FunctionLiteral { parameters: Vec<Identifier>, body: BlockStatement },
}

/// A statement node.
#[derive(Debug, PartialEq)]
pub enum Statement {
    ExpressionStatement(Expression),
    AssignStatement(Identifier, Expression),
    ReturnStatement(Expression),
}

/// An ordered sequence of statements: the body of a function literal or of an
/// `if`/`else` branch.
#[derive(Debug, PartialEq)]
pub struct BlockStatement {
    pub statements: Vec<Statement>,
}

/// A parsed program: its statements and the parse errors accumulated while
/// recovering at statement boundaries. A program is valid iff the error list
/// is empty; statements parsed before or after an error are kept.
#[derive(Debug)]
pub struct Program {
    pub statements: Vec<Statement>,
    pub parse_errors: Vec<ParseError>,
}

/// Mathematical view of an expression: identifiers as character sequences.
pub enum ExpressionV {
    IntegerLiteral(i32),
    BooleanLiteral(bool),
    IdentifierLiteral(Seq<char>),
    Prefix { right: Box<ExpressionV>, operator: Operator },
    Infix { left: Box<ExpressionV>, right: Box<ExpressionV>, operator: Operator },
    Cond { condition: Box<ExpressionV>, consequence: BlockV, alternative: Option<BlockV> },
    Function { parameters: Seq<Seq<char>>, body: BlockV },
}

/// Mathematical view of a statement.
pub enum StatementV {
    Expr(ExpressionV),
    Assign(Seq<char>, ExpressionV),
    Return(ExpressionV),
}

/// Mathematical view of a block: the sequence of its statements' views.
pub struct BlockV {
    pub statements: Seq<StatementV>,
}

/// Mathematical view of a program.
pub struct ProgramV {
    pub statements: Seq<StatementV>,
    pub parse_errors: Seq<ParseErrorV>,
}

/// Mathematical view of an expression tree.
pub open spec fn view_expr(e: Expression) -> ExpressionV
    decreases e,
{
    match e {
        Expression::IntegerLiteral(n) => ExpressionV::IntegerLiteral(n),
        Expression::BooleanLiteral(b) => ExpressionV::BooleanLiteral(b),
        Expression::IdentifierLiteral(id) => ExpressionV::IdentifierLiteral(id.0@),
        Expression::PrefixExpression { right, operator } => ExpressionV::Prefix {
            right: Box::new(view_expr(*right)),
            operator,
        },
        Expression::InfixExpression { left, right, operator } => ExpressionV::Infix {
            left: Box::new(view_expr(*left)),
            right: Box::new(view_expr(*right)),
            operator,
        },
        Expression::IfExpression { condition, consequence, alternative } => ExpressionV::Cond {
            condition: Box::new(view_expr(*condition)),
            consequence: view_block(consequence),
            alternative: match alternative {
                Some(b) => Some(view_block(b)),
                None => None,
            },
        },
        Expression::FunctionLiteral { parameters, body } => ExpressionV::Function {
            parameters: parameters@.map_values(|p: Identifier| p.0@),
            body: view_block(body),
        },
    }
}

/// Mathematical view of a statement.
pub open spec fn view_stmt(s: Statement) -> StatementV
    decreases s,
{
    match s {
        Statement::ExpressionStatement(e) => StatementV::Expr(view_expr(e)),
        Statement::AssignStatement(id, e) => StatementV::Assign(id.0@, view_expr(e)),
        Statement::ReturnStatement(e) => StatementV::Return(view_expr(e)),
    }
}

/// Mathematical view of a sequence of statements.
pub open spec fn view_stmts(ss: Seq<Statement>) -> Seq<StatementV>
    decreases ss,
{
    if ss.len() == 0 {
        Seq::empty()
    } else {
        seq![view_stmt(ss[0])] + view_stmts(ss.drop_first())
    }
}

/// Mathematical view of a block.
pub open spec fn view_block(b: BlockStatement) -> BlockV
    decreases b,
{
    BlockV { statements: view_stmts(b.statements@) }
}

/// Mathematical view of a program.
pub open spec fn view_program(p: Program) -> ProgramV {
    ProgramV {
        statements: view_stmts(p.statements@),
        parse_errors: p.parse_errors.deep_view(),
    }
}

/// The view keeps the number and order of statements.
pub proof fn lemma_view_stmts_len(ss: Seq<Statement>)
    ensures
        view_stmts(ss).len() == ss.len(),
        forall|i: int| 0 <= i < ss.len() ==> view_stmts(ss)[i] == view_stmt(ss[i]),
    decreases ss.len(),
{
    if ss.len() > 0 {
        lemma_view_stmts_len(ss.drop_first());
        assert forall|i: int| 0 <= i < ss.len() implies view_stmts(ss)[i] == view_stmt(
            ss[i],
        ) by {
            if i > 0 {
                assert(ss.drop_first()[i - 1] == ss[i]);
            }
        }
    }
}

/// Appending a statement appends its view.
pub proof fn lemma_view_stmts_push(ss: Seq<Statement>, s: Statement)
    ensures
        view_stmts(ss.push(s)) == view_stmts(ss).push(view_stmt(s)),
{
    lemma_view_stmts_len(ss.push(s));
    lemma_view_stmts_len(ss);
    assert(view_stmts(ss.push(s)) =~= view_stmts(ss).push(view_stmt(s)));
}

} // verus!
