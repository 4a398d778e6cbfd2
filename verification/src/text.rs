//! Decimal numerals and the assembly of messages from pieces of text.

use vstd::prelude::*;

verus! {

/// The character of a decimal digit.
pub open spec fn digit_char(d: nat) -> char {
    if d == 0 { '0' } else if d == 1 { '1' } else if d == 2 { '2' } else if d == 3 { '3' }
    else if d == 4 { '4' } else if d == 5 { '5' } else if d == 6 { '6' } else if d == 7 { '7' }
    else if d == 8 { '8' } else { '9' }
}

/// The decimal numeral of `n`, without leading zeros.
pub open spec fn decimal(n: nat) -> Seq<char>
    decreases n,
{
    if n < 10 {
        seq![digit_char(n)]
    } else {
        decimal(n / 10).push(digit_char(n % 10))
    }
}

/// The decimal numeral of a signed number, with a minus sign when it is negative.
pub open spec fn signed_decimal(n: int) -> Seq<char> {
    if n < 0 { seq!['-'] + decimal((-n) as nat) } else { decimal(n as nat) }
}

fn digit(d: u64) -> (res: char)
    requires
        d < 10,
    ensures
        res == digit_char(d as nat),
{
    if d == 0 { '0' } else if d == 1 { '1' } else if d == 2 { '2' } else if d == 3 { '3' }
    else if d == 4 { '4' } else if d == 5 { '5' } else if d == 6 { '6' } else if d == 7 { '7' }
    else if d == 8 { '8' } else { '9' }
}

fn decimal_chars(n: u64) -> (res: Vec<char>)
    ensures
        res@ == decimal(n as nat),
    decreases n,
{
    if n < 10 {
        let mut v: Vec<char> = Vec::new();
        v.push(digit(n));
        assert(v@ =~= decimal(n as nat));
        v
    } else {
        let mut v = decimal_chars(n / 10);
        v.push(digit(n % 10));
        v
    }
}

/// Calls `String::from_iter` on the characters: the string of those characters.
#[verifier::external_body]
fn string_of_chars(chars: Vec<char>) -> (res: String)
    ensures
        res@ == chars@,
{
    chars.into_iter().collect()
}

/// Calls `<String as Add<&str>>::add`: `a` followed by `b`.
#[verifier::external_body]
pub(crate) fn append(a: String, b: String) -> (res: String)
    ensures
        res@ == a@ + b@,
{
    a + &b
}

/// The decimal numeral of `n`.
pub fn decimal_string(n: u64) -> (res: String)
    ensures
        res@ == decimal(n as nat),
{
    string_of_chars(decimal_chars(n))
}

/// The decimal numeral of a signed `n`.
pub fn signed_decimal_string(n: i64) -> (res: String)
    ensures
        res@ == signed_decimal(n as int),
{
    if n < 0 {
        let magnitude: u64 = (-(n as i128)) as u64;
        let mut chars: Vec<char> = Vec::new();
        chars.push('-');
        let digits = decimal_chars(magnitude);
        let mut i: usize = 0;
        while i < digits.len()
            invariant
                i <= digits@.len(),
                chars@ == seq!['-'] + digits@.subrange(0, i as int),
            decreases digits@.len() - i,
        {
            chars.push(digits[i]);
            i = i + 1;
            assert(chars@ =~= seq!['-'] + digits@.subrange(0, i as int));
        }
        assert(digits@.subrange(0, digits@.len() as int) =~= digits@);
        string_of_chars(chars)
    } else {
        string_of_chars(decimal_chars(n as u64))
    }
}

} // verus!
