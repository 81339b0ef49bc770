//! The lexer: turns source text into the ordered token sequence the parser
//! consumes. Statements end with `.`, assignment and block bodies start with
//! `:`, and `~` terminates a block.

use vstd::prelude::*;

use crate::numbers::is_digit_char;
use crate::token::{Token, TokenV};

verus! {

/// Whether `c` separates tokens without carrying meaning.
pub open spec fn is_ws_char(c: char) -> bool {
    c == ' ' || c == '\t' || c == '\n' || c == '\r'
}

/// Whether `c` can start a word (an identifier or keyword).
pub open spec fn is_letter_char(c: char) -> bool {
    (97 <= c as int <= 122) || (65 <= c as int <= 90) || c == '_'
}

/// Whether `c` can continue a word.
pub open spec fn is_word_char(c: char) -> bool {
    is_letter_char(c) || is_digit_char(c)
}

/// The token a finished word stands for: one of the keywords, or an
/// identifier carrying the word itself.
pub open spec fn spec_keyword_or_ident(w: Seq<char>) -> TokenV {
    if w == "return"@ {
        TokenV::Return
    } else if w == "if"@ {
        TokenV::If
    } else if w == "else"@ {
        TokenV::Else
    } else if w == "fn"@ {
        TokenV::Func
    } else if w == "true"@ {
        TokenV::True
    } else if w == "false"@ {
        TokenV::False
    } else {
        TokenV::Ident(w)
    }
}

/// First position at or after `i` that does not continue a digit run.
pub open spec fn spec_scan_digits(cs: Seq<char>, i: int) -> int
    decreases cs.len() - i,
{
    if 0 <= i < cs.len() && is_digit_char(cs[i]) {
        spec_scan_digits(cs, i + 1)
    } else {
        i
    }
}

/// First position at or after `i` that does not continue a word.
pub open spec fn spec_scan_word(cs: Seq<char>, i: int) -> int
    decreases cs.len() - i,
{
    if 0 <= i < cs.len() && is_word_char(cs[i]) {
        spec_scan_word(cs, i + 1)
    } else {
        i
    }
}

/// The token starting at position `i` (not whitespace), and the position
/// just after it.
pub open spec fn spec_token_at(cs: Seq<char>, i: int) -> (TokenV, int) {
    let c = cs[i];
    if c == ':' {
        (TokenV::Assign, i + 1)
    } else if c == '.' {
        (TokenV::Period, i + 1)
    } else if c == ',' {
        (TokenV::Comma, i + 1)
    } else if c == '(' {
        (TokenV::LParen, i + 1)
    } else if c == ')' {
        (TokenV::RParen, i + 1)
    } else if c == '~' {
        (TokenV::Lasagna, i + 1)
    } else if c == '+' {
        (TokenV::Plus, i + 1)
    } else if c == '-' {
        (TokenV::Minus, i + 1)
    } else if c == '*' {
        (TokenV::Asterisk, i + 1)
    } else if c == '/' {
        (TokenV::Slash, i + 1)
    } else if c == '<' {
        (TokenV::LessThan, i + 1)
    } else if c == '>' {
        (TokenV::GreaterThan, i + 1)
    } else if c == '!' {
        if i + 1 < cs.len() && cs[i + 1] == '=' {
            (TokenV::NotEqual, i + 2)
        } else {
            (TokenV::Bang, i + 1)
        }
    } else if c == '=' {
        if i + 1 < cs.len() && cs[i + 1] == '=' {
            (TokenV::Equal, i + 2)
        } else {
            (TokenV::Illegal('='), i + 1)
        }
    } else if is_digit_char(c) {
        let j = spec_scan_digits(cs, i + 1);
        (TokenV::Int(cs.subrange(i, j)), j)
    } else if is_letter_char(c) {
        let j = spec_scan_word(cs, i + 1);
        (spec_keyword_or_ident(cs.subrange(i, j)), j)
    } else {
        (TokenV::Illegal(c), i + 1)
    }
}

/// The token sequence of the text from position `i` on: whitespace is
/// skipped, every other character starts a token.
pub open spec fn spec_tokenize_from(cs: Seq<char>, i: int) -> Seq<TokenV>
    decreases cs.len() - i,
{
    if i < 0 || i >= cs.len() {
        Seq::empty()
    } else if is_ws_char(cs[i]) {
        spec_tokenize_from(cs, i + 1)
    } else {
        let (t, j) = spec_token_at(cs, i);
        let j2 = if j <= i {
            i + 1
        } else if j > cs.len() {
            cs.len() as int
        } else {
            j
        };
        seq![t] + spec_tokenize_from(cs, j2)
    }
}

/// A digit scan stays within the text and never moves backward.
proof fn lemma_scan_digits_bounds(cs: Seq<char>, i: int)
    requires
        0 <= i <= cs.len(),
    ensures
        i <= spec_scan_digits(cs, i) <= cs.len(),
    decreases cs.len() - i,
{
    if i < cs.len() && is_digit_char(cs[i]) {
        lemma_scan_digits_bounds(cs, i + 1);
    }
}

/// A word scan stays within the text and never moves backward.
proof fn lemma_scan_word_bounds(cs: Seq<char>, i: int)
    requires
        0 <= i <= cs.len(),
    ensures
        i <= spec_scan_word(cs, i) <= cs.len(),
    decreases cs.len() - i,
{
    if i < cs.len() && is_word_char(cs[i]) {
        lemma_scan_word_bounds(cs, i + 1);
    }
}

/// Every token occupies at least one character and ends within the text.
pub proof fn lemma_token_at_advances(cs: Seq<char>, i: int)
    requires
        0 <= i < cs.len(),
    ensures
        i < spec_token_at(cs, i).1 <= cs.len(),
{
    lemma_scan_digits_bounds(cs, i + 1);
    lemma_scan_word_bounds(cs, i + 1);
}

fn is_ws(c: char) -> (r: bool)
    ensures
        r == is_ws_char(c),
{
    c == ' ' || c == '\t' || c == '\n' || c == '\r'
}

fn is_digit(c: char) -> (r: bool)
    ensures
        r == is_digit_char(c),
{
    let u = c as u32;
    48 <= u && u <= 57
}

fn is_letter(c: char) -> (r: bool)
    ensures
        r == is_letter_char(c),
{
    let u = c as u32;
    (97 <= u && u <= 122) || (65 <= u && u <= 90) || c == '_'
}

fn is_word(c: char) -> (r: bool)
    ensures
        r == is_word_char(c),
{
    is_letter(c) || is_digit(c)
}

fn keyword_or_ident(word: String) -> (t: Token)
    ensures
        t@ == spec_keyword_or_ident(word@),
{
    if word.eq(&String::from_str("return")) {
        Token::Return
    } else if word.eq(&String::from_str("if")) {
        Token::If
    } else if word.eq(&String::from_str("else")) {
        Token::Else
    } else if word.eq(&String::from_str("fn")) {
        Token::Func
    } else if word.eq(&String::from_str("true")) {
        Token::True
    } else if word.eq(&String::from_str("false")) {
        Token::False
    } else {
        Token::Ident(word)
    }
}

fn scan_digits(s: &str, start: usize, n: usize) -> (j: usize)
    requires
        start <= n,
        n == s@.len(),
    ensures
        j as int == spec_scan_digits(s@, start as int),
        start <= j <= n,
{
    let mut j = start;
    loop
        invariant
            start <= j <= n,
            n == s@.len(),
            spec_scan_digits(s@, start as int) == spec_scan_digits(s@, j as int),
        decreases n - j,
    {
        if j < n {
            let c = s.get_char(j);
            if is_digit(c) {
                j = j + 1;
                continue ;
            }
        }
        return j;
    }
}

fn scan_word(s: &str, start: usize, n: usize) -> (j: usize)
    requires
        start <= n,
        n == s@.len(),
    ensures
        j as int == spec_scan_word(s@, start as int),
        start <= j <= n,
{
    let mut j = start;
    loop
        invariant
            start <= j <= n,
            n == s@.len(),
            spec_scan_word(s@, start as int) == spec_scan_word(s@, j as int),
        decreases n - j,
    {
        if j < n {
            let c = s.get_char(j);
            if is_word(c) {
                j = j + 1;
                continue ;
            }
        }
        return j;
    }
}

fn token_at(s: &str, i: usize, n: usize) -> (r: (Token, usize))
    requires
        i < n,
        n == s@.len(),
        !is_ws_char(s@[i as int]),
    ensures
        r.0@ == spec_token_at(s@, i as int).0,
        r.1 as int == spec_token_at(s@, i as int).1,
        i < r.1 <= n,
{
    proof {
        lemma_token_at_advances(s@, i as int);
    }
    let c = s.get_char(i);
    if c == ':' {
        (Token::Assign, i + 1)
    } else if c == '.' {
        (Token::Period, i + 1)
    } else if c == ',' {
        (Token::Comma, i + 1)
    } else if c == '(' {
        (Token::LParen, i + 1)
    } else if c == ')' {
        (Token::RParen, i + 1)
    } else if c == '~' {
        (Token::Lasagna, i + 1)
    } else if c == '+' {
        (Token::Plus, i + 1)
    } else if c == '-' {
        (Token::Minus, i + 1)
    } else if c == '*' {
        (Token::Asterisk, i + 1)
    } else if c == '/' {
        (Token::Slash, i + 1)
    } else if c == '<' {
        (Token::LessThan, i + 1)
    } else if c == '>' {
        (Token::GreaterThan, i + 1)
    } else if c == '!' {
        if i + 1 < n && s.get_char(i + 1) == '=' {
            (Token::NotEqual, i + 2)
        } else {
            (Token::Bang, i + 1)
        }
    } else if c == '=' {
        if i + 1 < n && s.get_char(i + 1) == '=' {
            (Token::Equal, i + 2)
        } else {
            (Token::Illegal('='), i + 1)
        }
    } else if is_digit(c) {
        let j = scan_digits(s, i + 1, n);
        let text = s.substring_char(i, j);
        (Token::Int(String::from_str(text)), j)
    } else if is_letter(c) {
        let j = scan_word(s, i + 1, n);
        let text = s.substring_char(i, j);
        (keyword_or_ident(String::from_str(text)), j)
    } else {
        (Token::Illegal(c), i + 1)
    }
}

/// Lexes the whole source text into its token sequence.
pub fn tokenize(s: &str) -> (tokens: Vec<Token>)
    ensures
        tokens.deep_view() == spec_tokenize_from(s@, 0),
{
    let n = s.unicode_len();
    let mut tokens: Vec<Token> = Vec::new();
    let mut i: usize = 0;
    proof {
        assert(tokens.deep_view() =~= Seq::<TokenV>::empty());
    }
    while i < n
        invariant
            n == s@.len(),
            0 <= i <= n,
            tokens.deep_view() + spec_tokenize_from(s@, i as int) == spec_tokenize_from(s@, 0),
        decreases n - i,
    {
        let c = s.get_char(i);
        if is_ws(c) {
            i = i + 1;
        } else {
            let (t, j) = token_at(s, i, n);
            proof {
                lemma_token_at_advances(s@, i as int);
                assert(spec_tokenize_from(s@, i as int) == seq![t@] + spec_tokenize_from(
                    s@,
                    j as int,
                ));
            }
            let ghost old_view = tokens.deep_view();
            tokens.push(t);
            proof {
                assert(tokens.deep_view() =~= old_view.push(t@));
                assert(old_view.push(t@) + spec_tokenize_from(s@, j as int) =~= old_view + (
                seq![t@] + spec_tokenize_from(s@, j as int)));
            }
            i = j;
        }
    }
    proof {
        assert(tokens.deep_view() + spec_tokenize_from(s@, n as int) =~= tokens.deep_view());
    }
    tokens
}

} // verus!
