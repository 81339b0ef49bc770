//! Canonical rendering: a fully parenthesized, deterministic text for each
//! expression, used to assert parse correctness independent of source
//! formatting. Infix nodes render as `(left op right)`, prefix nodes as
//! `(op operand)`, literals as their literal form.

use vstd::prelude::*;

use crate::ast::{
    view_block, view_expr, view_program, view_stmt, BlockStatement, BlockV, Expression,
    ExpressionV, Operator, Program, Statement, StatementV,
};
use crate::numbers::{render_i32, spec_render_int};

verus! {

/// The text of an operator.
pub open spec fn spec_operator_text(op: Operator) -> Seq<char> {
    match op {
        Operator::Plus => "+"@,
        Operator::Minus => "-"@,
        Operator::Multiply => "*"@,
        Operator::DividedBy => "/"@,
        Operator::LessThan => "<"@,
        Operator::GreaterThan => ">"@,
        Operator::Equals => "=="@,
        Operator::NotEquals => "!="@,
        Operator::Bang => "!"@,
    }
}

/// The canonical text of an expression.
pub open spec fn spec_render_expr(e: ExpressionV) -> Seq<char>
    decreases e,
{
    match e {
        ExpressionV::IntegerLiteral(n) => spec_render_int(n as int),
        ExpressionV::BooleanLiteral(b) => if b {
            "true"@
        } else {
            "false"@
        },
        ExpressionV::IdentifierLiteral(name) => name,
        ExpressionV::Prefix { right, operator } => "("@ + spec_operator_text(operator)
            + spec_render_expr(*right) + ")"@,
        ExpressionV::Infix { left, right, operator } => "("@ + spec_render_expr(*left) + " "@
            + spec_operator_text(operator) + " "@ + spec_render_expr(*right) + ")"@,
        ExpressionV::Cond { condition, consequence, alternative } => {
            let head = "if "@ + spec_render_expr(*condition) + ": "@ + spec_render_block(
                consequence,
            );
            match alternative {
                Some(alt) => head + " else: "@ + spec_render_block(alt) + "~"@,
                None => head + "~"@,
            }
        },
        ExpressionV::Function { parameters, body } => "fn("@ + spec_render_params(parameters)
            + "): "@ + spec_render_block(body) + "~"@,
    }
}

/// The text of a parameter list: names joined by a comma and a space.
pub open spec fn spec_render_params(ps: Seq<Seq<char>>) -> Seq<char>
    decreases ps,
{
    if ps.len() == 0 {
        Seq::empty()
    } else if ps.len() == 1 {
        ps.last()
    } else {
        spec_render_params(ps.drop_last()) + ", "@ + ps.last()
    }
}

/// The canonical text of a statement: assignment and return carry their
/// terminator, an expression statement is bare.
pub open spec fn spec_render_stmt(s: StatementV) -> Seq<char>
    decreases s,
{
    match s {
        StatementV::Expr(e) => spec_render_expr(e),
        StatementV::Assign(name, e) => name + ": "@ + spec_render_expr(e) + "."@,
        StatementV::Return(e) => "return "@ + spec_render_expr(e) + "."@,
    }
}

/// The text of a block: its statements joined by a space.
pub open spec fn spec_render_stmts(ss: Seq<StatementV>) -> Seq<char>
    decreases ss,
{
    if ss.len() == 0 {
        Seq::empty()
    } else if ss.len() == 1 {
        spec_render_stmt(ss.last())
    } else {
        spec_render_stmts(ss.drop_last()) + " "@ + spec_render_stmt(ss.last())
    }
}

/// The text of a block body.
pub open spec fn spec_render_block(b: BlockV) -> Seq<char>
    decreases b,
{
    spec_render_stmts(b.statements)
}

/// The canonical text of a program: each statement on a line of its own.
pub open spec fn spec_render_program(ss: Seq<StatementV>) -> Seq<char>
    decreases ss,
{
    if ss.len() == 0 {
        Seq::empty()
    } else {
        spec_render_program(ss.drop_last()) + spec_render_stmt(ss.last()) + "\n"@
    }
}

/// The text of an operator.
pub fn operator_text(op: Operator) -> (r: &'static str)
    ensures
        r@ == spec_operator_text(op),
{
    match op {
        Operator::Plus => "+",
        Operator::Minus => "-",
        Operator::Multiply => "*",
        Operator::DividedBy => "/",
        Operator::LessThan => "<",
        Operator::GreaterThan => ">",
        Operator::Equals => "==",
        Operator::NotEquals => "!=",
        Operator::Bang => "!",
    }
}

impl Expression {
    /// Renders this expression to its canonical, fully parenthesized text.
    pub fn render(&self) -> (r: String)
        ensures
            r@ == spec_render_expr(view_expr(*self)),
        decreases *self,
    {
        match self {
            Expression::IntegerLiteral(n) => render_i32(*n),
            Expression::BooleanLiteral(b) => {
                if *b {
                    String::from_str("true")
                } else {
                    String::from_str("false")
                }
            },
            Expression::IdentifierLiteral(id) => id.0.clone(),
            Expression::PrefixExpression { right, operator } => {
                let mut s = String::from_str("(");
                s.append(operator_text(*operator));
                s.append(right.render().as_str());
                s.append(")");
                proof {
                    assert(s@ =~= "("@ + spec_operator_text(*operator) + spec_render_expr(
                        view_expr(**right),
                    ) + ")"@);
                }
                s
            },
            Expression::InfixExpression { left, right, operator } => {
                let mut s = String::from_str("(");
                s.append(left.render().as_str());
                s.append(" ");
                s.append(operator_text(*operator));
                s.append(" ");
                s.append(right.render().as_str());
                s.append(")");
                proof {
                    assert(s@ =~= "("@ + spec_render_expr(view_expr(**left)) + " "@
                        + spec_operator_text(*operator) + " "@ + spec_render_expr(
                        view_expr(**right),
                    ) + ")"@);
                }
                s
            },
            Expression::IfExpression { condition, consequence, alternative } => {
                let mut s = String::from_str("if ");
                s.append(condition.render().as_str());
                s.append(": ");
                s.append(consequence.render().as_str());
                match alternative {
                    Some(alt) => {
                        s.append(" else: ");
                        s.append(alt.render().as_str());
                        s.append("~");
                    },
                    None => {
                        s.append("~");
                    },
                }
                proof {
                    assert(s@ =~= spec_render_expr(view_expr(*self)));
                }
                s
            },
            Expression::FunctionLiteral { parameters, body } => {
                let mut s = String::from_str("fn(");
                let n = parameters.len();
                let mut i: usize = 0;
                proof {
                    assert(crate::parser::view_idents(parameters@.take(0)) =~= Seq::<
                        Seq<char>,
                    >::empty());
                }
                while i < n
                    invariant
                        n == parameters@.len(),
                        0 <= i <= n,
                        s@ == "fn("@ + spec_render_params(
                            crate::parser::view_idents(parameters@.take(i as int)),
                        ),
                    decreases n - i,
                {
                    if i > 0 {
                        s.append(", ");
                    }
                    s.append(parameters[i].0.as_str());
                    proof {
                        let pv = crate::parser::view_idents(parameters@.take(i as int));
                        let pv1 = crate::parser::view_idents(parameters@.take(i + 1));
                        assert(pv1 =~= pv.push(parameters@[i as int].0@));
                        assert(pv1.drop_last() =~= pv);
                        assert(s@ =~= "fn("@ + spec_render_params(pv1));
                    }
                    i = i + 1;
                }
                proof {
                    assert(parameters@.take(n as int) =~= parameters@);
                }
                s.append("): ");
                s.append(body.render().as_str());
                s.append("~");
                proof {
                    assert(s@ =~= spec_render_expr(view_expr(*self)));
                }
                s
            },
        }
    }
}

impl Statement {
    /// Renders this statement to its canonical text.
    pub fn render(&self) -> (r: String)
        ensures
            r@ == spec_render_stmt(view_stmt(*self)),
        decreases *self,
    {
        match self {
            Statement::ExpressionStatement(e) => e.render(),
            Statement::AssignStatement(id, e) => {
                let mut s = id.0.clone();
                s.append(": ");
                s.append(e.render().as_str());
                s.append(".");
                proof {
                    assert(s@ =~= spec_render_stmt(view_stmt(*self)));
                }
                s
            },
            Statement::ReturnStatement(e) => {
                let mut s = String::from_str("return ");
                s.append(e.render().as_str());
                s.append(".");
                proof {
                    assert(s@ =~= spec_render_stmt(view_stmt(*self)));
                }
                s
            },
        }
    }
}

impl BlockStatement {
    /// Renders this block: its statements joined by a space.
    pub fn render(&self) -> (r: String)
        ensures
            r@ == spec_render_block(view_block(*self)),
        decreases *self,
    {
        let mut s = String::new();
        let n = self.statements.len();
        let mut i: usize = 0;
        proof {
            assert(crate::ast::view_stmts(self.statements@.take(0)) =~= Seq::<
                StatementV,
            >::empty());
        }
        while i < n
            invariant
                n == self.statements@.len(),
                0 <= i <= n,
                s@ == spec_render_stmts(crate::ast::view_stmts(self.statements@.take(i as int))),
            decreases n - i,
        {
            if i > 0 {
                s.append(" ");
            }
            s.append(self.statements[i].render().as_str());
            proof {
                let sv = crate::ast::view_stmts(self.statements@.take(i as int));
                crate::ast::lemma_view_stmts_push(
                    self.statements@.take(i as int),
                    self.statements@[i as int],
                );
                assert(self.statements@.take(i + 1) =~= self.statements@.take(i as int).push(
                    self.statements@[i as int],
                ));
                let sv1 = crate::ast::view_stmts(self.statements@.take(i + 1));
                assert(sv1 == sv.push(view_stmt(self.statements@[i as int])));
                assert(sv1.drop_last() =~= sv);
                assert(s@ =~= spec_render_stmts(sv1));
            }
            i = i + 1;
        }
        proof {
            assert(self.statements@.take(n as int) =~= self.statements@);
        }
        s
    }
}

impl Program {
    /// Renders the whole program, each statement on a line of its own. The
    /// rendering is a pure function of the tree shape, stable across runs.
    pub fn render(&self) -> (r: String)
        ensures
            r@ == spec_render_program(view_program(*self).statements),
    {
        let mut s = String::new();
        let n = self.statements.len();
        let mut i: usize = 0;
        proof {
            assert(crate::ast::view_stmts(self.statements@.take(0)) =~= Seq::<
                StatementV,
            >::empty());
        }
        while i < n
            invariant
                n == self.statements@.len(),
                0 <= i <= n,
                s@ == spec_render_program(crate::ast::view_stmts(self.statements@.take(i as int))),
            decreases n - i,
        {
            s.append(self.statements[i].render().as_str());
            s.append("\n");
            proof {
                let sv = crate::ast::view_stmts(self.statements@.take(i as int));
                crate::ast::lemma_view_stmts_push(
                    self.statements@.take(i as int),
                    self.statements@[i as int],
                );
                assert(self.statements@.take(i + 1) =~= self.statements@.take(i as int).push(
                    self.statements@[i as int],
                ));
                let sv1 = crate::ast::view_stmts(self.statements@.take(i + 1));
                assert(sv1.drop_last() =~= sv);
                assert(s@ =~= spec_render_program(sv1));
            }
            i = i + 1;
        }
        proof {
            assert(self.statements@.take(n as int) =~= self.statements@);
        }
        s
    }
}

} // verus!
