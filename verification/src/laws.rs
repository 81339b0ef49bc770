//! Laws of the library, stated and proved over the same spec functions its
//! public contracts use: type-mismatch safety of evaluation, and the round
//! trip from a syntax tree through its canonical rendering back to the same
//! tree.

use vstd::prelude::*;

use crate::ast::{ExpressionV, Operator, ProgramV, StatementV};
use crate::eval_error::EvalError;
use crate::evaluator::{spec_eval_expr, spec_eval_infix};
use crate::lexer::{is_letter_char, is_word_char, is_ws_char, spec_keyword_or_ident, spec_tokenize_from};
use crate::numbers::{is_digit_char, spec_nat_digits};
use crate::render::{spec_operator_text, spec_render_expr};
use crate::object::Object;
use crate::parse_errors::ParseErrorV;
use crate::parser::{
    spec_parse_expression, spec_parse_prefix_expression, spec_parse_program,
};
use crate::token::{Precedence, TokenV};

verus! {

/// Type-mismatch safety at the dispatch level: an integer paired with a
/// boolean under any infix operator always fails with the mismatched-operand
/// fault carrying both operand values, whichever side each is on; it never
/// coerces and never produces a value.
pub proof fn lemma_type_mismatch_safety(operator: Operator, n: i32, b: bool)
    ensures
        spec_eval_infix(operator, Object::Integer(n), Object::Boolean(b)) == Err::<
            Object,
            EvalError,
        >(EvalError::InfixRightLeft(Object::Integer(n), Object::Boolean(b))),
        spec_eval_infix(operator, Object::Boolean(b), Object::Integer(n)) == Err::<
            Object,
            EvalError,
        >(EvalError::InfixRightLeft(Object::Boolean(b), Object::Integer(n))),
{
}

/// Type-mismatch safety at the expression level: an infix node whose left
/// operand evaluates to an integer and whose right operand evaluates to a
/// boolean fails with exactly the mismatched-operand fault carrying those
/// two values.
pub proof fn lemma_type_mismatch_expression(
    left: ExpressionV,
    right: ExpressionV,
    operator: Operator,
    n: i32,
    b: bool,
)
    requires
        spec_eval_expr(left) == Ok::<Object, EvalError>(Object::Integer(n)),
        spec_eval_expr(right) == Ok::<Object, EvalError>(Object::Boolean(b)),
    ensures
        spec_eval_expr(
            ExpressionV::Infix { left: Box::new(left), right: Box::new(right), operator },
        ) == Err::<Object, EvalError>(
            EvalError::InfixRightLeft(Object::Integer(n), Object::Boolean(b)),
        ),
{
}

/// The token of an operator in infix position.
pub open spec fn infix_token(op: Operator) -> TokenV {
    match op {
        Operator::Plus => TokenV::Plus,
        Operator::Minus => TokenV::Minus,
        Operator::Multiply => TokenV::Asterisk,
        Operator::DividedBy => TokenV::Slash,
        Operator::LessThan => TokenV::LessThan,
        Operator::GreaterThan => TokenV::GreaterThan,
        Operator::Equals => TokenV::Equal,
        Operator::NotEquals => TokenV::NotEqual,
        Operator::Bang => TokenV::Bang,
    }
}

/// The literal/prefix/infix/grouping subset of the grammar: what the parser
/// itself can produce there. Integer literals are nonnegative (a negative
/// number is parsed as a prefix minus), prefix operators are `!` and `-`,
/// and `!` never stands infix.
pub open spec fn renderable_subset(e: ExpressionV) -> bool
    decreases e,
{
    match e {
        ExpressionV::IntegerLiteral(n) => n >= 0,
        ExpressionV::BooleanLiteral(_) => true,
        ExpressionV::IdentifierLiteral(_) => true,
        ExpressionV::Prefix { right, operator } => (operator == Operator::Bang || operator
            == Operator::Minus) && renderable_subset(*right),
        ExpressionV::Infix { left, right, operator } => operator != Operator::Bang
            && renderable_subset(*left) && renderable_subset(*right),
        _ => false,
    }
}

/// The token sequence of the canonical, fully parenthesized rendering:
/// literals as their literal token, prefix nodes as `( op operand )`, infix
/// nodes as `( left op right )`.
pub open spec fn spec_render_tokens(e: ExpressionV) -> Seq<TokenV>
    decreases e,
{
    match e {
        ExpressionV::IntegerLiteral(n) => seq![TokenV::Int(spec_nat_digits(n as int))],
        ExpressionV::BooleanLiteral(b) => if b {
            seq![TokenV::True]
        } else {
            seq![TokenV::False]
        },
        ExpressionV::IdentifierLiteral(name) => seq![TokenV::Ident(name)],
        ExpressionV::Prefix { right, operator } => seq![TokenV::LParen, infix_token(operator)]
            + spec_render_tokens(*right) + seq![TokenV::RParen],
        ExpressionV::Infix { left, right, operator } => seq![TokenV::LParen] + spec_render_tokens(
            *left,
        ) + seq![infix_token(operator)] + spec_render_tokens(*right) + seq![TokenV::RParen],
        _ => Seq::empty(),
    }
}

/// One element of an embedded slice, read off the containing sequence.
proof fn lemma_rendered_token_at<T>(outer: Seq<T>, pos: int, inner: Seq<T>, k: int)
    requires
        0 <= pos,
        0 <= k < inner.len(),
        pos + inner.len() <= outer.len(),
        outer.subrange(pos, pos + inner.len() as int) == inner,
    ensures
        outer[pos + k] == inner[k],
{
    assert(outer.subrange(pos, pos + inner.len() as int)[k] == outer[pos + k]);
}

/// A sub-slice of an embedded slice, read off the containing sequence.
proof fn lemma_rendered_subrange<T>(outer: Seq<T>, pos: int, inner: Seq<T>, lo: int, hi: int)
    requires
        0 <= pos,
        0 <= lo <= hi <= inner.len(),
        pos + inner.len() <= outer.len(),
        outer.subrange(pos, pos + inner.len() as int) == inner,
    ensures
        outer.subrange(pos + lo, pos + hi) == inner.subrange(lo, hi),
{
    assert forall|k: int| 0 <= k < hi - lo implies outer.subrange(pos + lo, pos + hi)[k]
        == inner.subrange(lo, hi)[k] by {
        lemma_rendered_token_at(outer, pos, inner, lo + k);
    }
    assert(outer.subrange(pos + lo, pos + hi) =~= inner.subrange(lo, hi));
}

/// The prefix case of the round trip: with the operand already known to
/// reparse to itself, the surrounding `( op ... )` reparses to the prefix
/// node.
proof fn lemma_prefix_case(toks: Seq<TokenV>, pos: int, right: ExpressionV, operator: Operator)
    requires
        operator == Operator::Bang || operator == Operator::Minus,
        0 <= pos,
        pos + spec_render_tokens(ExpressionV::Prefix { right: Box::new(right), operator }).len()
            <= toks.len(),
        toks[pos] == TokenV::LParen,
        toks[pos + 1] == infix_token(operator),
        toks[pos + 2 + spec_render_tokens(right).len()] == TokenV::RParen,
        spec_parse_prefix_expression(toks, pos + 3, toks[pos + 2]) == (
            Ok::<ExpressionV, ParseErrorV>(right),
            pos + 2 + spec_render_tokens(right).len(),
        ),
        spec_render_tokens(ExpressionV::Prefix { right: Box::new(right), operator }).len()
            == spec_render_tokens(right).len() + 3,
    ensures
        spec_parse_prefix_expression(toks, pos + 1, toks[pos]) == (
            Ok::<ExpressionV, ParseErrorV>(ExpressionV::Prefix {
                right: Box::new(right),
                operator,
            }),
            pos + spec_render_tokens(right).len() + 3,
        ),
{
    let lr = spec_render_tokens(right).len() as int;
    let p_end = pos + 2 + lr;
    let node = ExpressionV::Prefix { right: Box::new(right), operator };
    assert(crate::parser::spec_parse_infix_loop(toks, p_end, Precedence::Prefix, right) == (
        Ok::<ExpressionV, ParseErrorV>(right),
        p_end,
    ));
    assert(crate::parser::bounded_advance(toks.len() as int, pos + 3, p_end) == p_end);
    assert(spec_parse_expression(toks, pos + 3, toks[pos + 2], Precedence::Prefix) == (
        Ok::<ExpressionV, ParseErrorV>(right),
        p_end,
    ));
    assert(crate::parser::spec_create_prefix_expression(toks, pos + 2, operator) == (
        Ok::<ExpressionV, ParseErrorV>(node),
        p_end,
    ));
    assert(spec_parse_prefix_expression(toks, pos + 2, toks[pos + 1]) == (
        Ok::<ExpressionV, ParseErrorV>(node),
        p_end,
    ));
    assert(crate::parser::spec_parse_infix_loop(toks, p_end, Precedence::Lowest, node) == (
        Ok::<ExpressionV, ParseErrorV>(node),
        p_end,
    ));
    assert(crate::parser::bounded_advance(toks.len() as int, pos + 2, p_end) == p_end);
    assert(spec_parse_expression(toks, pos + 2, toks[pos + 1], Precedence::Lowest) == (
        Ok::<ExpressionV, ParseErrorV>(node),
        p_end,
    ));
    assert(crate::lexedtokens::spec_expect_peek(toks, p_end, TokenV::RParen) == (
        Ok::<(), ParseErrorV>(()),
        p_end + 1,
    ));
    assert(crate::parser::spec_create_grouped_expression(toks, pos + 1) == (
        Ok::<ExpressionV, ParseErrorV>(node),
        p_end + 1,
    ));
}

/// The infix case of the round trip: with both operands already known to
/// reparse to themselves, the surrounding `( left op right )` reparses to
/// the infix node.
proof fn lemma_infix_case(
    toks: Seq<TokenV>,
    pos: int,
    left: ExpressionV,
    right: ExpressionV,
    operator: Operator,
)
    requires
        operator != Operator::Bang,
        0 <= pos,
        pos + spec_render_tokens(left).len() + spec_render_tokens(right).len() + 3 <= toks.len(),
        spec_render_tokens(left).len() >= 1,
        spec_render_tokens(right).len() >= 1,
        toks[pos] == TokenV::LParen,
        toks[pos + 1 + spec_render_tokens(left).len()] == infix_token(operator),
        toks[pos + 2 + spec_render_tokens(left).len() + spec_render_tokens(right).len()]
            == TokenV::RParen,
        spec_parse_prefix_expression(toks, pos + 2, toks[pos + 1]) == (
            Ok::<ExpressionV, ParseErrorV>(left),
            pos + 1 + spec_render_tokens(left).len(),
        ),
        spec_parse_prefix_expression(
            toks,
            pos + 3 + spec_render_tokens(left).len(),
            toks[pos + 2 + spec_render_tokens(left).len()],
        ) == (
            Ok::<ExpressionV, ParseErrorV>(right),
            pos + 2 + spec_render_tokens(left).len() + spec_render_tokens(right).len(),
        ),
    ensures
        spec_parse_prefix_expression(toks, pos + 1, toks[pos]) == (
            Ok::<ExpressionV, ParseErrorV>(ExpressionV::Infix {
                left: Box::new(left),
                right: Box::new(right),
                operator,
            }),
            pos + spec_render_tokens(left).len() + spec_render_tokens(right).len() + 3,
        ),
{
    let ll = spec_render_tokens(left).len() as int;
    let lr = spec_render_tokens(right).len() as int;
    let q = pos + 1 + ll;
    let r_end = pos + 2 + ll + lr;
    let node = ExpressionV::Infix { left: Box::new(left), right: Box::new(right), operator };
    let opt = infix_token(operator);
    assert(crate::token::spec_infix_operator(opt) == Some(operator));
    assert(crate::token::precedence_lt(
        Precedence::Lowest,
        crate::token::spec_token_precedence(opt),
    ));
    // the right operand at the operator's own binding power, stopping at
    // the closing parenthesis
    assert(crate::parser::spec_parse_infix_loop(
        toks,
        r_end,
        crate::token::spec_token_precedence(opt),
        right,
    ) == (Ok::<ExpressionV, ParseErrorV>(right), r_end));
    assert(crate::parser::bounded_advance(toks.len() as int, q + 2, r_end) == r_end);
    assert(spec_parse_expression(
        toks,
        q + 2,
        toks[q + 1],
        crate::token::spec_token_precedence(opt),
    ) == (Ok::<ExpressionV, ParseErrorV>(right), r_end));
    assert(crate::lexedtokens::spec_expect(toks, q + 1) == (
        Ok::<TokenV, ParseErrorV>(toks[q + 1]),
        q + 2,
    ));
    assert(crate::parser::spec_parse_infix_expression(toks, q + 1, left, toks[q]) == (
        Ok::<ExpressionV, ParseErrorV>(node),
        r_end,
    ));
    // the infix loop at lowest binding power takes exactly one
    // continuation, then stops at the closing parenthesis
    assert(crate::parser::spec_parse_infix_loop(toks, r_end, Precedence::Lowest, node) == (
        Ok::<ExpressionV, ParseErrorV>(node),
        r_end,
    ));
    assert(crate::parser::bounded_advance(toks.len() as int, q + 1, r_end) == r_end);
    assert(crate::lexedtokens::spec_next_has_infix(toks, q));
    assert(crate::parser::spec_parse_infix_loop(toks, q, Precedence::Lowest, left) == (
        Ok::<ExpressionV, ParseErrorV>(node),
        r_end,
    ));
    // the left operand at lowest binding power inside the parentheses
    assert(crate::parser::bounded_advance(toks.len() as int, pos + 2, q) == q);
    assert(spec_parse_expression(toks, pos + 2, toks[pos + 1], Precedence::Lowest) == (
        Ok::<ExpressionV, ParseErrorV>(node),
        r_end,
    ));
    assert(crate::lexedtokens::spec_expect_peek(toks, r_end, TokenV::RParen) == (
        Ok::<(), ParseErrorV>(()),
        r_end + 1,
    ));
    assert(crate::parser::spec_create_grouped_expression(toks, pos + 1) == (
        Ok::<ExpressionV, ParseErrorV>(node),
        r_end + 1,
    ));
}

/// Parsing the prefix production at the start of a rendered subtree consumes
/// exactly that subtree's tokens and rebuilds the same tree, whatever
/// follows them: the canonical rendering parenthesizes every compound node,
/// so the prefix production never looks past it.
#[verifier::rlimit(100)]
pub proof fn lemma_prefix_parses_rendered(toks: Seq<TokenV>, pos: int, e: ExpressionV)
    requires
        renderable_subset(e),
        0 <= pos,
        pos + spec_render_tokens(e).len() <= toks.len(),
        toks.subrange(pos, pos + spec_render_tokens(e).len() as int) == spec_render_tokens(e),
    ensures
        spec_parse_prefix_expression(toks, pos + 1, toks[pos]) == (
            Ok::<ExpressionV, ParseErrorV>(e),
            pos + spec_render_tokens(e).len(),
        ),
    decreases e,
{
    let te = spec_render_tokens(e);
    match e {
        ExpressionV::IntegerLiteral(n) => {
            crate::numbers::lemma_parse_render_i32(n as int);
            lemma_rendered_token_at(toks, pos, te, 0);
        },
        ExpressionV::BooleanLiteral(b) => {
            lemma_rendered_token_at(toks, pos, te, 0);
        },
        ExpressionV::IdentifierLiteral(name) => {
            lemma_rendered_token_at(toks, pos, te, 0);
        },
        ExpressionV::Prefix { right, operator } => {
            let tr = spec_render_tokens(*right);
            let lr = tr.len() as int;
            assert(te.len() == lr + 3);
            lemma_rendered_token_at(toks, pos, te, 0);
            lemma_rendered_token_at(toks, pos, te, 1);
            lemma_rendered_token_at(toks, pos, te, 2 + lr);
            assert(te[0] == TokenV::LParen && te[1] == infix_token(operator) && te[2 + lr]
                == TokenV::RParen);
            lemma_rendered_subrange(toks, pos, te, 2, 2 + lr);
            assert(te.subrange(2, 2 + lr) =~= tr);
            lemma_prefix_parses_rendered(toks, pos + 2, *right);
            lemma_prefix_case(toks, pos, *right, operator);
        },
        ExpressionV::Infix { left, right, operator } => {
            let tl = spec_render_tokens(*left);
            let tr = spec_render_tokens(*right);
            let ll = tl.len() as int;
            let lr = tr.len() as int;
            assert(te.len() == ll + lr + 3);
            lemma_render_tokens_nonempty(*left);
            lemma_render_tokens_nonempty(*right);
            lemma_rendered_token_at(toks, pos, te, 0);
            lemma_rendered_token_at(toks, pos, te, 1 + ll);
            lemma_rendered_token_at(toks, pos, te, 2 + ll + lr);
            assert(te[0] == TokenV::LParen && te[1 + ll] == infix_token(operator) && te[2 + ll
                + lr] == TokenV::RParen);
            lemma_rendered_subrange(toks, pos, te, 1, 1 + ll);
            assert(te.subrange(1, 1 + ll) =~= tl);
            lemma_rendered_subrange(toks, pos, te, 2 + ll, 2 + ll + lr);
            assert(te.subrange(2 + ll, 2 + ll + lr) =~= tr);
            lemma_prefix_parses_rendered(toks, pos + 1, *left);
            lemma_prefix_parses_rendered(toks, pos + 2 + ll, *right);
            lemma_infix_case(toks, pos, *left, *right, operator);
        },
        _ => {
        },
    }
}

/// A rendered subtree holds at least one token.
proof fn lemma_render_tokens_nonempty(e: ExpressionV)
    requires
        renderable_subset(e),
    ensures
        spec_render_tokens(e).len() >= 1,
{
}

/// Round trip of an expression: parsing the token stream of its canonical
/// rendering rebuilds a structurally equal tree and consumes every token,
/// for the literal/prefix/infix/grouping subset of the grammar.
pub proof fn lemma_render_reparse_expression(e: ExpressionV)
    requires
        renderable_subset(e),
    ensures
        ({
            let toks = spec_render_tokens(e);
            spec_parse_expression(toks, 1, toks[0], Precedence::Lowest) == (
                Ok::<ExpressionV, ParseErrorV>(e),
                toks.len() as int,
            )
        }),
{
    let toks = spec_render_tokens(e);
    assert(toks.subrange(0, toks.len() as int) =~= toks);
    lemma_prefix_parses_rendered(toks, 0, e);
}

/// Round trip of a whole expression statement: parsing the canonical
/// rendering's tokens followed by the statement terminator yields exactly
/// one expression statement holding a structurally equal tree, and no parse
/// errors.
pub proof fn lemma_render_reparse_program(e: ExpressionV)
    requires
        renderable_subset(e),
    ensures
        spec_parse_program(spec_render_tokens(e) + seq![TokenV::Period], 0) == (ProgramV {
            statements: seq![StatementV::Expr(e)],
            parse_errors: Seq::empty(),
        }),
{
    let te = spec_render_tokens(e);
    let toks = te + seq![TokenV::Period];
    assert(toks.subrange(0, te.len() as int) =~= te);
    lemma_prefix_parses_rendered(toks, 0, e);
    let le = te.len() as int;
    assert(toks[le] == TokenV::Period);
    assert(spec_parse_expression(toks, 1, toks[0], Precedence::Lowest) == (
        Ok::<ExpressionV, ParseErrorV>(e),
        le,
    ));
    assert(crate::parser::spec_parse_expression_statement(toks, 1, toks[0]) == (
        Ok::<StatementV, ParseErrorV>(StatementV::Expr(e)),
        le + 1,
    ));
    assert(crate::parser::spec_parse_statement(toks, 0) == (
        Ok::<StatementV, ParseErrorV>(StatementV::Expr(e)),
        le + 1,
    ));
    assert(Seq::<StatementV>::empty().push(StatementV::Expr(e)) =~= seq![StatementV::Expr(e)]);
    assert(crate::parser::spec_parse_program_rec(
        toks,
        le + 1,
        seq![StatementV::Expr(e)],
        Seq::empty(),
    ) == (ProgramV { statements: seq![StatementV::Expr(e)], parse_errors: Seq::empty() }));
}


/// A name the lexer reads back as the same identifier: it starts with a
/// letter, continues with word characters, and is not a keyword.
pub open spec fn lexable_ident(name: Seq<char>) -> bool {
    &&& name.len() >= 1
    &&& is_letter_char(name[0])
    &&& (forall|k: int| 0 <= k < name.len() ==> is_word_char(name[k]))
    &&& spec_keyword_or_ident(name) == TokenV::Ident(name)
}

/// The literal/prefix/infix/grouping subset, with every identifier one the
/// lexer reads back unchanged.
pub open spec fn lexable_subset(e: ExpressionV) -> bool
    decreases e,
{
    match e {
        ExpressionV::IntegerLiteral(n) => n >= 0,
        ExpressionV::BooleanLiteral(_) => true,
        ExpressionV::IdentifierLiteral(name) => lexable_ident(name),
        ExpressionV::Prefix { right, operator } => (operator == Operator::Bang || operator
            == Operator::Minus) && lexable_subset(*right),
        ExpressionV::Infix { left, right, operator } => operator != Operator::Bang
            && lexable_subset(*left) && lexable_subset(*right),
        _ => false,
    }
}

/// The stricter text-level subset lies inside the token-level one.
proof fn lemma_lexable_subset_renderable(e: ExpressionV)
    requires
        lexable_subset(e),
    ensures
        renderable_subset(e),
    decreases e,
{
    match e {
        ExpressionV::Prefix { right, operator } => {
            lemma_lexable_subset_renderable(*right);
        },
        ExpressionV::Infix { left, right, operator } => {
            lemma_lexable_subset_renderable(*left);
            lemma_lexable_subset_renderable(*right);
        },
        _ => {
        },
    }
}

/// A digit scan over a known digit run ends exactly at its end.
proof fn lemma_scan_digits_range(cs: Seq<char>, a: int, b: int)
    requires
        0 <= a <= b <= cs.len(),
        forall|k: int| a <= k < b ==> is_digit_char(cs[k]),
        b == cs.len() || !is_digit_char(cs[b]),
    ensures
        crate::lexer::spec_scan_digits(cs, a) == b,
    decreases b - a,
{
    if a < b {
        lemma_scan_digits_range(cs, a + 1, b);
    }
}

/// A word scan over a known word run ends exactly at its end.
proof fn lemma_scan_word_range(cs: Seq<char>, a: int, b: int)
    requires
        0 <= a <= b <= cs.len(),
        forall|k: int| a <= k < b ==> is_word_char(cs[k]),
        b == cs.len() || !is_word_char(cs[b]),
    ensures
        crate::lexer::spec_scan_word(cs, a) == b,
    decreases b - a,
{
    if a < b {
        lemma_scan_word_range(cs, a + 1, b);
    }
}

/// The first character of a rendered subtree: an opening parenthesis for a
/// compound node, a digit or a letter for a literal. Never whitespace, never
/// a character that could extend a preceding token.
proof fn lemma_render_first_char(e: ExpressionV)
    requires
        lexable_subset(e),
    ensures
        spec_render_expr(e).len() >= 1,
        spec_render_expr(e)[0] == '(' || is_digit_char(spec_render_expr(e)[0]) || is_letter_char(
            spec_render_expr(e)[0],
        ),
{
    reveal_strlit("(");
    reveal_strlit("true");
    reveal_strlit("false");
    match e {
        ExpressionV::IntegerLiteral(n) => {
            crate::numbers::lemma_nat_digits_are_digits(n as int);
        },
        _ => {
        },
    }
}

/// Tokenizing one rendered operator in text, with a space after it, yields
/// its one token.
proof fn lemma_tokenize_operator(cs: Seq<char>, p: int, operator: Operator)
    requires
        operator != Operator::Bang,
        0 <= p,
        p + spec_operator_text(operator).len() < cs.len(),
        cs.subrange(p, p + spec_operator_text(operator).len() as int) == spec_operator_text(
            operator,
        ),
        cs[p + spec_operator_text(operator).len()] == ' ',
    ensures
        crate::lexer::spec_token_at(cs, p) == (infix_token(operator), p + spec_operator_text(
            operator,
        ).len()),
{
    reveal_strlit("+");
    reveal_strlit("-");
    reveal_strlit("*");
    reveal_strlit("/");
    reveal_strlit("<");
    reveal_strlit(">");
    reveal_strlit("==");
    reveal_strlit("!=");
    let ot = spec_operator_text(operator);
    lemma_rendered_token_at(cs, p, ot, 0);
    if ot.len() == 2 {
        lemma_rendered_token_at(cs, p, ot, 1);
    }
}

/// Lexing a word (letters, then word characters) with a non-word character
/// behind it yields the keyword-or-identifier token of the word.
proof fn lemma_tokenize_word(cs: Seq<char>, i: int, w: Seq<char>)
    requires
        0 <= i,
        w.len() >= 1,
        i + w.len() <= cs.len(),
        cs.subrange(i, i + w.len() as int) == w,
        is_letter_char(w[0]),
        forall|k: int| 0 <= k < w.len() ==> is_word_char(w[k]),
        i + w.len() == cs.len() || !is_word_char(cs[i + w.len()]),
    ensures
        spec_tokenize_from(cs, i) == seq![spec_keyword_or_ident(w)] + spec_tokenize_from(
            cs,
            i + w.len(),
        ),
{
    let l = w.len() as int;
    assert forall|k: int| i <= k < i + l implies #[trigger] cs[k] == w[k - i] by {
        lemma_rendered_token_at(cs, i, w, k - i);
    }
    assert forall|k: int| i + 1 <= k < i + l implies is_word_char(#[trigger] cs[k]) by {}
    lemma_scan_word_range(cs, i + 1, i + l);
    assert(cs.subrange(i, i + l) =~= w);
    assert(crate::lexer::spec_token_at(cs, i) == (spec_keyword_or_ident(w), i + l));
    assert(spec_tokenize_from(cs, i) =~= seq![spec_keyword_or_ident(w)] + spec_tokenize_from(
        cs,
        i + l,
    ));
}

/// Lexing a digit run with a non-word character behind it yields its
/// integer-literal token.
proof fn lemma_tokenize_digits(cs: Seq<char>, i: int, w: Seq<char>)
    requires
        0 <= i,
        w.len() >= 1,
        i + w.len() <= cs.len(),
        cs.subrange(i, i + w.len() as int) == w,
        forall|k: int| 0 <= k < w.len() ==> is_digit_char(w[k]),
        i + w.len() == cs.len() || !is_word_char(cs[i + w.len()]),
    ensures
        spec_tokenize_from(cs, i) == seq![TokenV::Int(w)] + spec_tokenize_from(cs, i + w.len()),
{
    let l = w.len() as int;
    assert forall|k: int| i <= k < i + l implies #[trigger] cs[k] == w[k - i] by {
        lemma_rendered_token_at(cs, i, w, k - i);
    }
    assert forall|k: int| i + 1 <= k < i + l implies is_digit_char(#[trigger] cs[k]) by {}
    lemma_scan_digits_range(cs, i + 1, i + l);
    assert(cs.subrange(i, i + l) =~= w);
    assert(crate::lexer::spec_token_at(cs, i) == (TokenV::Int(w), i + l));
    assert(spec_tokenize_from(cs, i) =~= seq![TokenV::Int(w)] + spec_tokenize_from(cs, i + l));
}

/// Lexing `( op operand )` once the operand's own lexing is known.
proof fn lemma_tokenize_prefix_frame(
    cs: Seq<char>,
    i: int,
    lr: int,
    operator: Operator,
    rtoks: Seq<TokenV>,
)
    requires
        operator == Operator::Bang || operator == Operator::Minus,
        0 <= i,
        lr >= 1,
        i + lr + 3 <= cs.len(),
        cs[i] == '(',
        cs[i + 1] == (if operator == Operator::Bang {
            '!'
        } else {
            '-'
        }),
        cs[i + 2] != '=',
        !is_ws_char(cs[i + 2]),
        cs[i + 2 + lr] == ')',
        spec_tokenize_from(cs, i + 2) == rtoks + spec_tokenize_from(cs, i + 2 + lr),
    ensures
        spec_tokenize_from(cs, i) == (seq![TokenV::LParen, infix_token(operator)] + rtoks
            + seq![TokenV::RParen]) + spec_tokenize_from(cs, i + lr + 3),
{
    assert(crate::lexer::spec_token_at(cs, i) == (TokenV::LParen, i + 1));
    assert(crate::lexer::spec_token_at(cs, i + 1) == (infix_token(operator), i + 2));
    assert(crate::lexer::spec_token_at(cs, i + 2 + lr) == (TokenV::RParen, i + 3 + lr));
    assert(spec_tokenize_from(cs, i + 2 + lr) == seq![TokenV::RParen] + spec_tokenize_from(
        cs,
        i + lr + 3,
    ));
    assert(spec_tokenize_from(cs, i + 1) == seq![infix_token(operator)] + (rtoks + (
    seq![TokenV::RParen] + spec_tokenize_from(cs, i + lr + 3))));
    assert(spec_tokenize_from(cs, i) =~= (seq![TokenV::LParen, infix_token(operator)] + rtoks
        + seq![TokenV::RParen]) + spec_tokenize_from(cs, i + lr + 3));
}

/// Lexing `( left op right )`, spaces around the operator, once the two
/// operands' own lexings are known.
#[verifier::rlimit(100)]
proof fn lemma_tokenize_infix_frame(
    cs: Seq<char>,
    i: int,
    ll: int,
    lo: int,
    lr: int,
    operator: Operator,
    ltoks: Seq<TokenV>,
    rtoks: Seq<TokenV>,
)
    requires
        operator != Operator::Bang,
        0 <= i,
        ll >= 1,
        lr >= 1,
        lo == spec_operator_text(operator).len(),
        i + ll + lo + lr + 4 <= cs.len(),
        cs[i] == '(',
        cs[i + 1 + ll] == ' ',
        cs.subrange(i + 2 + ll, i + 2 + ll + lo) == spec_operator_text(operator),
        cs[i + 2 + ll + lo] == ' ',
        cs[i + 3 + ll + lo + lr] == ')',
        spec_tokenize_from(cs, i + 1) == ltoks + spec_tokenize_from(cs, i + 1 + ll),
        spec_tokenize_from(cs, i + 3 + ll + lo) == rtoks + spec_tokenize_from(
            cs,
            i + 3 + ll + lo + lr,
        ),
    ensures
        spec_tokenize_from(cs, i) == (seq![TokenV::LParen] + ltoks + seq![infix_token(operator)]
            + rtoks + seq![TokenV::RParen]) + spec_tokenize_from(cs, i + ll + lo + lr + 4),
{
    lemma_tokenize_operator(cs, i + 2 + ll, operator);
    assert(crate::lexer::spec_token_at(cs, i) == (TokenV::LParen, i + 1));
    assert(crate::lexer::spec_token_at(cs, i + 3 + ll + lo + lr) == (
        TokenV::RParen,
        i + ll + lo + lr + 4,
    ));
    assert(spec_tokenize_from(cs, i + 3 + ll + lo + lr) == seq![TokenV::RParen]
        + spec_tokenize_from(cs, i + ll + lo + lr + 4));
    assert(spec_tokenize_from(cs, i + 2 + ll + lo) == spec_tokenize_from(cs, i + 3 + ll + lo));
    assert(spec_tokenize_from(cs, i + 2 + ll) == seq![infix_token(operator)]
        + spec_tokenize_from(cs, i + 2 + ll + lo));
    assert(spec_tokenize_from(cs, i + 1 + ll) == spec_tokenize_from(cs, i + 2 + ll));
    assert(spec_tokenize_from(cs, i) == seq![TokenV::LParen] + spec_tokenize_from(cs, i + 1));
    assert(spec_tokenize_from(cs, i) =~= (seq![TokenV::LParen] + ltoks + seq![infix_token(
        operator,
    )] + rtoks + seq![TokenV::RParen]) + spec_tokenize_from(cs, i + ll + lo + lr + 4));
}

/// Tokenizing the canonical text of a subtree yields exactly its token
/// sequence and goes on behind it, provided the next character cannot extend
/// the subtree's last token.
#[verifier::rlimit(100)]
proof fn lemma_tokenize_rendered(cs: Seq<char>, i: int, e: ExpressionV)
    requires
        lexable_subset(e),
        0 <= i,
        i + spec_render_expr(e).len() <= cs.len(),
        cs.subrange(i, i + spec_render_expr(e).len() as int) == spec_render_expr(e),
        i + spec_render_expr(e).len() == cs.len() || !is_word_char(
            cs[i + spec_render_expr(e).len()],
        ),
    ensures
        spec_tokenize_from(cs, i) == spec_render_tokens(e) + spec_tokenize_from(
            cs,
            i + spec_render_expr(e).len(),
        ),
    decreases e,
{
    let t = spec_render_expr(e);
    let l = t.len() as int;
    reveal_strlit("(");
    reveal_strlit(")");
    reveal_strlit(" ");
    reveal_strlit("!");
    reveal_strlit("-");
    reveal_strlit("true");
    reveal_strlit("false");
    reveal_strlit("return");
    reveal_strlit("if");
    reveal_strlit("else");
    reveal_strlit("fn");
    match e {
        ExpressionV::IntegerLiteral(n) => {
            crate::numbers::lemma_nat_digits_are_digits(n as int);
            lemma_tokenize_digits(cs, i, t);
        },
        ExpressionV::BooleanLiteral(b) => {
            lemma_tokenize_word(cs, i, t);
            assert(spec_keyword_or_ident(t) == (if b {
                TokenV::True
            } else {
                TokenV::False
            }));
        },
        ExpressionV::IdentifierLiteral(name) => {
            lemma_tokenize_word(cs, i, t);
        },
        ExpressionV::Prefix { right, operator } => {
            let tr = spec_render_expr(*right);
            let lr = tr.len() as int;
            assert(l == lr + 3);
            lemma_render_first_char(*right);
            assert(t[0] == '(' && t[1 + lr + 1] == ')');
            assert(t[1] == (if operator == Operator::Bang {
                '!'
            } else {
                '-'
            }));
            lemma_rendered_token_at(cs, i, t, 0);
            lemma_rendered_token_at(cs, i, t, 1);
            lemma_rendered_token_at(cs, i, t, 2);
            lemma_rendered_token_at(cs, i, t, 2 + lr);
            lemma_rendered_subrange(cs, i, t, 2, 2 + lr);
            assert(t.subrange(2, 2 + lr) =~= tr);
            lemma_tokenize_rendered(cs, i + 2, *right);
            assert(cs[i + 2] == tr[0]);
            lemma_tokenize_prefix_frame(cs, i, lr, operator, spec_render_tokens(*right));
            assert(spec_render_tokens(e) =~= seq![TokenV::LParen, infix_token(operator)]
                + spec_render_tokens(*right) + seq![TokenV::RParen]);
        },
        ExpressionV::Infix { left, right, operator } => {
            let tl = spec_render_expr(*left);
            let tr = spec_render_expr(*right);
            let ot = spec_operator_text(operator);
            let ll = tl.len() as int;
            let lo = ot.len() as int;
            let lr = tr.len() as int;
            assert(l == ll + lo + lr + 4);
            lemma_render_first_char(*left);
            lemma_render_first_char(*right);
            assert(t[0] == '(' && t[1 + ll] == ' ' && t[2 + ll + lo] == ' ' && t[3 + ll + lo
                + lr] == ')');
            lemma_rendered_token_at(cs, i, t, 0);
            lemma_rendered_token_at(cs, i, t, 1 + ll);
            lemma_rendered_token_at(cs, i, t, 2 + ll + lo);
            lemma_rendered_token_at(cs, i, t, 3 + ll + lo + lr);
            lemma_rendered_subrange(cs, i, t, 1, 1 + ll);
            assert(t.subrange(1, 1 + ll) =~= tl);
            lemma_rendered_subrange(cs, i, t, 2 + ll, 2 + ll + lo);
            assert(t.subrange(2 + ll, 2 + ll + lo) =~= ot);
            lemma_rendered_subrange(cs, i, t, 3 + ll + lo, 3 + ll + lo + lr);
            assert(t.subrange(3 + ll + lo, 3 + ll + lo + lr) =~= tr);
            lemma_tokenize_rendered(cs, i + 1, *left);
            lemma_tokenize_rendered(cs, i + 3 + ll + lo, *right);
            lemma_tokenize_infix_frame(
                cs,
                i,
                ll,
                lo,
                lr,
                operator,
                spec_render_tokens(*left),
                spec_render_tokens(*right),
            );
            assert(spec_render_tokens(e) =~= seq![TokenV::LParen] + spec_render_tokens(*left)
                + seq![infix_token(operator)] + spec_render_tokens(*right)
                + seq![TokenV::RParen]);
        },
        _ => {
        },
    }
}

/// Round trip through the text itself: lexing the canonical rendering of a
/// subtree, followed by the statement terminator, and parsing the result
/// yields exactly one expression statement holding a structurally equal
/// tree, with no parse errors — the full law for the
/// literal/prefix/infix/grouping subset of the grammar.
pub proof fn lemma_rendered_text_reparses(e: ExpressionV)
    requires
        lexable_subset(e),
    ensures
        spec_parse_program(spec_tokenize_from(spec_render_expr(e) + "."@, 0), 0) == (ProgramV {
            statements: seq![StatementV::Expr(e)],
            parse_errors: Seq::empty(),
        }),
{
    reveal_strlit(".");
    let t = spec_render_expr(e);
    let cs = t + "."@;
    let l = t.len() as int;
    assert(cs.subrange(0, l) =~= t);
    assert(cs[l] == '.');
    lemma_tokenize_rendered(cs, 0, e);
    assert(crate::lexer::spec_token_at(cs, l) == (TokenV::Period, l + 1));
    assert(spec_tokenize_from(cs, l + 1) =~= Seq::<TokenV>::empty());
    assert(spec_tokenize_from(cs, l) =~= seq![TokenV::Period]);
    assert(spec_tokenize_from(cs, 0) =~= spec_render_tokens(e) + seq![TokenV::Period]);
    lemma_lexable_subset_renderable(e);
    lemma_render_reparse_program(e);
}

} // verus!
