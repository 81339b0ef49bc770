//! Decimal text of 32-bit integers: reading an integer literal's digit text,
//! and rendering a value back to its literal form.

use vstd::prelude::*;

use crate::parse_errors::IntegerParseFault;

verus! {

/// The largest 32-bit signed value, as the bound of literal parsing.
pub open spec fn i32_max_int() -> int {
    0x7fff_ffff
}

/// Whether `c` is a decimal digit.
pub open spec fn is_digit_char(c: char) -> bool {
    48 <= c as int <= 57
}

/// The digit character for `d` in `0..=9`.
pub open spec fn digit_char(d: int) -> char {
    ((48 + d) as char)
}

/// Numeric value of digit text, most significant digit first.
pub open spec fn digits_value(s: Seq<char>) -> int
    decreases s.len(),
{
    if s.len() == 0 {
        0
    } else {
        digits_value(s.drop_last()) * 10 + (s.last() as int - 48)
    }
}

/// Whether every character of `s` is a decimal digit.
pub open spec fn all_digits(s: Seq<char>) -> bool {
    forall|k: int| 0 <= k < s.len() ==> is_digit_char(s[k])
}

/// What reading digit text as a 32-bit signed integer yields: the digit
/// value when the text is pure digits and fits, and otherwise which of the
/// two faults occurred.
pub open spec fn spec_parse_i32(s: Seq<char>) -> Result<i32, IntegerParseFault> {
    if s.len() == 0 || !all_digits(s) {
        Err(IntegerParseFault::InvalidDigit)
    } else if digits_value(s) > i32_max_int() {
        Err(IntegerParseFault::Overflow)
    } else {
        Ok(digits_value(s) as i32)
    }
}

/// Digit values are never negative.
pub proof fn lemma_digits_value_nonneg(s: Seq<char>)
    requires
        all_digits(s),
    ensures
        digits_value(s) >= 0,
    decreases s.len(),
{
    if s.len() > 0 {
        assert(all_digits(s.drop_last()));
        lemma_digits_value_nonneg(s.drop_last());
    }
}

/// Extending digit text on the right can only grow its value.
proof fn lemma_digits_value_monotone(s: Seq<char>, i: int)
    requires
        all_digits(s),
        0 <= i <= s.len(),
    ensures
        digits_value(s.take(i)) <= digits_value(s),
    decreases s.len() - i,
{
    if i < s.len() {
        lemma_digits_value_monotone(s, i + 1);
        assert(s.take(i + 1).drop_last() =~= s.take(i));
        assert(all_digits(s.take(i)));
        lemma_digits_value_nonneg(s.take(i));
        assert(digits_value(s.take(i + 1)) == digits_value(s.take(i)) * 10 + (s[i] as int - 48));
        assert(digits_value(s.take(i)) * 10 >= digits_value(s.take(i))) by (nonlinear_arith)
            requires
                digits_value(s.take(i)) >= 0,
        ;
    } else {
        assert(s.take(i) =~= s);
    }
}

/// Reads digit text as a 32-bit signed integer.
pub fn parse_i32_digits(s: &str) -> (r: Result<i32, IntegerParseFault>)
    ensures
        r == spec_parse_i32(s@),
{
    let n = s.unicode_len();
    if n == 0 {
        return Err(IntegerParseFault::InvalidDigit);
    }
    let mut i: usize = 0;
    let mut acc: u64 = 0;
    proof {
        assert(s@.take(0) =~= Seq::<char>::empty());
    }
    while i < n
        invariant
            n == s@.len(),
            0 <= i <= n,
            all_digits(s@.take(i as int)),
            acc == digits_value(s@.take(i as int)),
            acc <= 0x7fff_ffff,
        decreases n - i,
    {
        let c = s.get_char(i);
        let u = c as u32;
        if !(48 <= u && u <= 57) {
            assert(!is_digit_char(s@[i as int]));
            return Err(IntegerParseFault::InvalidDigit);
        }
        let d: u64 = (u - 48) as u64;
        acc = acc * 10 + d;
        proof {
            assert(s@.take(i + 1).drop_last() =~= s@.take(i as int));
            assert(digits_value(s@.take(i + 1)) == acc);
        }
        i = i + 1;
        if acc > 0x7fff_ffff {
            if i < n {
                let mut j = i;
                while j < n
                    invariant
                        n == s@.len(),
                        i <= j <= n,
                        all_digits(s@.take(j as int)),
                    decreases n - j,
                {
                    let c2 = s.get_char(j);
                    let u2 = c2 as u32;
                    if !(48 <= u2 && u2 <= 57) {
                        return Err(IntegerParseFault::InvalidDigit);
                    }
                    proof {
                        assert(s@.take(j + 1) =~= s@.take(j as int).push(s@[j as int]));
                    }
                    j = j + 1;
                }
                proof {
                    assert(s@.take(n as int) =~= s@);
                    lemma_digits_value_monotone(s@, i as int);
                }
            } else {
                proof {
                    assert(s@.take(i as int) =~= s@);
                }
            }
            return Err(IntegerParseFault::Overflow);
        }
    }
    proof {
        assert(s@.take(n as int) =~= s@);
    }
    Ok(acc as i32)
}

/// Decimal digit text of a nonnegative value, most significant digit first,
/// without leading zeros (a lone zero for zero).
pub open spec fn spec_nat_digits(n: int) -> Seq<char>
    decreases n,
{
    if n < 10 {
        seq![digit_char(if n < 0 { 0 } else { n })]
    } else {
        spec_nat_digits(n / 10).push(digit_char(n % 10))
    }
}

/// Decimal text of a 32-bit signed value: a minus sign before the digit text
/// of the magnitude when negative.
pub open spec fn spec_render_int(n: int) -> Seq<char> {
    if n < 0 {
        seq!['-'] + spec_nat_digits(-n)
    } else {
        spec_nat_digits(n)
    }
}

fn digit_str(d: u32) -> (r: &'static str)
    requires
        d < 10,
    ensures
        r@ == seq![digit_char(d as int)],
{
    let r: &'static str = match d {
        0 => "0",
        1 => "1",
        2 => "2",
        3 => "3",
        4 => "4",
        5 => "5",
        6 => "6",
        7 => "7",
        8 => "8",
        _ => "9",
    };
    proof {
        reveal_strlit("0");
        reveal_strlit("1");
        reveal_strlit("2");
        reveal_strlit("3");
        reveal_strlit("4");
        reveal_strlit("5");
        reveal_strlit("6");
        reveal_strlit("7");
        reveal_strlit("8");
        reveal_strlit("9");
        assert(r@ =~= seq![digit_char(d as int)]);
    }
    r
}

fn u32_digits(n: u32) -> (r: String)
    ensures
        r@ == spec_nat_digits(n as int),
    decreases n,
{
    if n < 10 {
        String::from_str(digit_str(n))
    } else {
        let mut s = u32_digits(n / 10);
        s.append(digit_str(n % 10));
        proof {
            assert(s@ =~= spec_nat_digits(n as int / 10).push(digit_char(n as int % 10)));
        }
        s
    }
}

/// Renders a 32-bit signed value as decimal text.
pub fn render_i32(n: i32) -> (r: String)
    ensures
        r@ == spec_render_int(n as int),
{
    if n >= 0 {
        u32_digits(n as u32)
    } else {
        let mag: u32 = (-(n as i64)) as u32;
        let mut s = String::from_str("-");
        s.append(u32_digits(mag).as_str());
        proof {
            reveal_strlit("-");
            assert(s@ =~= seq!['-'] + spec_nat_digits(mag as int));
        }
        s
    }
}

/// The digit text of a nonnegative value is pure digits.
pub proof fn lemma_nat_digits_are_digits(n: int)
    requires
        n >= 0,
    ensures
        all_digits(spec_nat_digits(n)),
        spec_nat_digits(n).len() >= 1,
    decreases n,
{
    if n < 10 {
        assert(is_digit_char(digit_char(n)));
        assert(forall|k: int|
            0 <= k < spec_nat_digits(n).len() ==> is_digit_char(spec_nat_digits(n)[k]));
    } else {
        lemma_nat_digits_are_digits(n / 10);
        assert(0 <= n % 10 < 10);
        assert(is_digit_char(digit_char(n % 10)));
        assert(forall|k: int|
            0 <= k < spec_nat_digits(n).len() ==> is_digit_char(spec_nat_digits(n)[k]));
    }
}

/// Reading back the digit text of a nonnegative value gives the value.
pub proof fn lemma_digits_value_of_nat_digits(n: int)
    requires
        n >= 0,
    ensures
        digits_value(spec_nat_digits(n)) == n,
    decreases n,
{
    if n < 10 {
        let ds = seq![digit_char(n)];
        assert(spec_nat_digits(n) == ds);
        assert(ds.len() == 1 && ds.last() == digit_char(n));
        assert(ds.drop_last() =~= Seq::<char>::empty());
        assert(digits_value(Seq::<char>::empty()) == 0);
        assert(digits_value(ds) == digits_value(ds.drop_last()) * 10 + (ds.last() as int - 48));
        assert(digit_char(n) as int == 48 + n);
    } else {
        lemma_digits_value_of_nat_digits(n / 10);
        let ds = spec_nat_digits(n);
        assert(ds.drop_last() =~= spec_nat_digits(n / 10));
        assert(ds.last() == digit_char(n % 10));
        assert(digit_char(n % 10) as int == 48 + n % 10);
        assert(digits_value(ds) == (n / 10) * 10 + n % 10);
        vstd::arithmetic::div_mod::lemma_fundamental_div_mod(n, 10);
    }
}

/// Round trip of integer literal text: parsing the rendered digit text of a
/// value in `0..=i32::MAX` yields that value back.
pub proof fn lemma_parse_render_i32(n: int)
    requires
        0 <= n <= i32_max_int(),
    ensures
        spec_parse_i32(spec_nat_digits(n)) == Ok::<i32, IntegerParseFault>(n as i32),
{
    lemma_nat_digits_are_digits(n);
    lemma_digits_value_of_nat_digits(n);
}

} // verus!
