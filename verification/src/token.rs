//! Tokens of the surface syntax, their spec-level views, and the
//! binding-power (precedence) table that drives expression parsing.

use vstd::prelude::*;

use crate::ast::Operator;

verus! {

/// A lexed token: a discriminated kind, carrying the raw literal text for
/// identifiers and integer literals.
#[derive(Debug, PartialEq)]
pub enum Token {
    /// An identifier, carrying its name.
    Ident(String),
    /// An integer literal, carrying its raw digit text.
    Int(String),
    /// `:` — starts an assignment's right-hand side and a block body.
    Assign,
    /// `.` — the statement terminator.
    Period,
    /// `,`
    Comma,
    /// `(`
    LParen,
    /// `)`
    RParen,
    /// `~` — the block terminator.
    Lasagna,
    /// The `else` keyword.
    Else,
    /// The `if` keyword.
    If,
    /// The `fn` keyword.
    Func,
    /// The `return` keyword.
    Return,
    /// The `true` keyword.
    True,
    /// The `false` keyword.
    False,
    /// `!`
    Bang,
    /// `-`
    Minus,
    /// `+`
    Plus,
    /// `*`
    Asterisk,
    /// `/`
    Slash,
    /// `<`
    LessThan,
    /// `>`
    GreaterThan,
    /// `==`
    Equal,
    /// `!=`
    NotEqual,
    /// A character the lexer has no token for.
    Illegal(char),
}

/// Mathematical view of a token: literal text is a sequence of characters.
pub enum TokenV {
    Ident(Seq<char>),
    Int(Seq<char>),
    Assign,
    Period,
    Comma,
    LParen,
    RParen,
    Lasagna,
    Else,
    If,
    Func,
    Return,
    True,
    False,
    Bang,
    Minus,
    Plus,
    Asterisk,
    Slash,
    LessThan,
    GreaterThan,
    Equal,
    NotEqual,
    Illegal(char),
}

impl View for Token {
    type V = TokenV;

    open spec fn view(&self) -> TokenV {
        match self {
            Token::Ident(s) => TokenV::Ident(s@),
            Token::Int(s) => TokenV::Int(s@),
            Token::Assign => TokenV::Assign,
            Token::Period => TokenV::Period,
            Token::Comma => TokenV::Comma,
            Token::LParen => TokenV::LParen,
            Token::RParen => TokenV::RParen,
            Token::Lasagna => TokenV::Lasagna,
            Token::Else => TokenV::Else,
            Token::If => TokenV::If,
            Token::Func => TokenV::Func,
            Token::Return => TokenV::Return,
            Token::True => TokenV::True,
            Token::False => TokenV::False,
            Token::Bang => TokenV::Bang,
            Token::Minus => TokenV::Minus,
            Token::Plus => TokenV::Plus,
            Token::Asterisk => TokenV::Asterisk,
            Token::Slash => TokenV::Slash,
            Token::LessThan => TokenV::LessThan,
            Token::GreaterThan => TokenV::GreaterThan,
            Token::Equal => TokenV::Equal,
            Token::NotEqual => TokenV::NotEqual,
            Token::Illegal(c) => TokenV::Illegal(*c),
        }
    }
}

impl Clone for Token {
    /// A cloned token is the same token, literal text included.
    fn clone(&self) -> (r: Token)
        ensures
            r == *self,
    {
        match self {
            Token::Ident(s) => Token::Ident(s.clone()),
            Token::Int(s) => Token::Int(s.clone()),
            Token::Assign => Token::Assign,
            Token::Period => Token::Period,
            Token::Comma => Token::Comma,
            Token::LParen => Token::LParen,
            Token::RParen => Token::RParen,
            Token::Lasagna => Token::Lasagna,
            Token::Else => Token::Else,
            Token::If => Token::If,
            Token::Func => Token::Func,
            Token::Return => Token::Return,
            Token::True => Token::True,
            Token::False => Token::False,
            Token::Bang => Token::Bang,
            Token::Minus => Token::Minus,
            Token::Plus => Token::Plus,
            Token::Asterisk => Token::Asterisk,
            Token::Slash => Token::Slash,
            Token::LessThan => Token::LessThan,
            Token::GreaterThan => Token::GreaterThan,
            Token::Equal => Token::Equal,
            Token::NotEqual => Token::NotEqual,
            Token::Illegal(c) => Token::Illegal(*c),
        }
    }
}

impl DeepView for Token {
    type V = TokenV;

    open spec fn deep_view(&self) -> TokenV {
        self.view()
    }
}

/// Binding powers of the expression grammar, low to high. Grouping
/// parentheses reset to `Lowest` internally.
#[derive(Debug, Clone, Copy, PartialEq, Eq, Structural)]
pub enum Precedence {
    Lowest,
    Equals,
    LessGreater,
    Sum,
    Product,
    Prefix,
    Call,
}

/// Numeric rank of a precedence level; larger binds tighter.
pub open spec fn precedence_rank(p: Precedence) -> int {
    match p {
        Precedence::Lowest => 0,
        Precedence::Equals => 1,
        Precedence::LessGreater => 2,
        Precedence::Sum => 3,
        Precedence::Product => 4,
        Precedence::Prefix => 5,
        Precedence::Call => 6,
    }
}

/// Strict order on precedence levels by rank.
pub open spec fn precedence_lt(a: Precedence, b: Precedence) -> bool {
    precedence_rank(a) < precedence_rank(b)
}

/// Decides `a < b` on precedence levels.
pub fn precedence_is_lt(a: Precedence, b: Precedence) -> (r: bool)
    ensures
        r == precedence_lt(a, b),
{
    let ra: u8 = precedence_rank_exec(a);
    let rb: u8 = precedence_rank_exec(b);
    ra < rb
}

fn precedence_rank_exec(p: Precedence) -> (r: u8)
    ensures
        r as int == precedence_rank(p),
{
    match p {
        Precedence::Lowest => 0,
        Precedence::Equals => 1,
        Precedence::LessGreater => 2,
        Precedence::Sum => 3,
        Precedence::Product => 4,
        Precedence::Prefix => 5,
        Precedence::Call => 6,
    }
}

/// The infix meaning of a token, if it has one: the operator it stands for.
pub open spec fn spec_infix_operator(t: TokenV) -> Option<Operator> {
    match t {
        TokenV::Plus => Some(Operator::Plus),
        TokenV::Minus => Some(Operator::Minus),
        TokenV::Asterisk => Some(Operator::Multiply),
        TokenV::Slash => Some(Operator::DividedBy),
        TokenV::LessThan => Some(Operator::LessThan),
        TokenV::GreaterThan => Some(Operator::GreaterThan),
        TokenV::Equal => Some(Operator::Equals),
        TokenV::NotEqual => Some(Operator::NotEquals),
        _ => None,
    }
}

/// The binding power a token carries when it appears in infix position;
/// tokens without infix meaning bind lowest.
pub open spec fn spec_token_precedence(t: TokenV) -> Precedence {
    match t {
        TokenV::Equal => Precedence::Equals,
        TokenV::NotEqual => Precedence::Equals,
        TokenV::LessThan => Precedence::LessGreater,
        TokenV::GreaterThan => Precedence::LessGreater,
        TokenV::Plus => Precedence::Sum,
        TokenV::Minus => Precedence::Sum,
        TokenV::Asterisk => Precedence::Product,
        TokenV::Slash => Precedence::Product,
        _ => Precedence::Lowest,
    }
}

impl Token {
    /// The operator this token stands for in infix position, if any.
    pub fn infix_operator(&self) -> (r: Option<Operator>)
        ensures
            r == spec_infix_operator(self@),
    {
        match self {
            Token::Plus => Some(Operator::Plus),
            Token::Minus => Some(Operator::Minus),
            Token::Asterisk => Some(Operator::Multiply),
            Token::Slash => Some(Operator::DividedBy),
            Token::LessThan => Some(Operator::LessThan),
            Token::GreaterThan => Some(Operator::GreaterThan),
            Token::Equal => Some(Operator::Equals),
            Token::NotEqual => Some(Operator::NotEquals),
            _ => None,
        }
    }

    /// The binding power this token carries in infix position.
    pub fn get_precedence(&self) -> (r: Precedence)
        ensures
            r == spec_token_precedence(self@),
    {
        match self {
            Token::Equal => Precedence::Equals,
            Token::NotEqual => Precedence::Equals,
            Token::LessThan => Precedence::LessGreater,
            Token::GreaterThan => Precedence::LessGreater,
            Token::Plus => Precedence::Sum,
            Token::Minus => Precedence::Sum,
            Token::Asterisk => Precedence::Product,
            Token::Slash => Precedence::Product,
            _ => Precedence::Lowest,
        }
    }
}

} // verus!
