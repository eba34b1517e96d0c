//! Decimal numerals, and the debug formatting of terms and strings.
use crate::expr::{Expr, Term};
use vstd::prelude::*;
use vstd::string::StringExecFns;

verus! {

/// The character of a decimal digit.
pub open spec fn digit_char(d: int) -> char {
    if d == 0 {
        '0'
    } else if d == 1 {
        '1'
    } else if d == 2 {
        '2'
    } else if d == 3 {
        '3'
    } else if d == 4 {
        '4'
    } else if d == 5 {
        '5'
    } else if d == 6 {
        '6'
    } else if d == 7 {
        '7'
    } else if d == 8 {
        '8'
    } else {
        '9'
    }
}

/// The decimal numeral of a natural number, without leading zeros.
pub open spec fn decimal(n: nat) -> Seq<char>
    decreases n,
{
    if n < 10 {
        seq![digit_char(n as int)]
    } else {
        decimal(n / 10).push(digit_char((n % 10) as int))
    }
}

/// The decimal numeral of an integer: a minus sign before a negative one.
pub open spec fn integer_text(n: int) -> Seq<char> {
    if n < 0 {
        seq!['-'] + decimal((-n) as nat)
    } else {
        decimal(n as nat)
    }
}

/// The one-character text of a decimal digit.
fn digit_str(d: u8) -> (res: &'static str)
    requires
        d < 10,
    ensures
        res@ == seq![digit_char(d as int)],
{
    proof {
        reveal_strlit("0");
        reveal_strlit("1");
        reveal_strlit("2");
        reveal_strlit("3");
        reveal_strlit("4");
        reveal_strlit("5");
        reveal_strlit("6");
        reveal_strlit("7");
        reveal_strlit("8");
        reveal_strlit("9");
    }
    let res = if d == 0 {
        "0"
    } else if d == 1 {
        "1"
    } else if d == 2 {
        "2"
    } else if d == 3 {
        "3"
    } else if d == 4 {
        "4"
    } else if d == 5 {
        "5"
    } else if d == 6 {
        "6"
    } else if d == 7 {
        "7"
    } else if d == 8 {
        "8"
    } else {
        "9"
    };
    assert(res@ =~= seq![digit_char(d as int)]);
    res
}

/// Appends the decimal numeral of `n` to `out`.
pub fn push_decimal(out: &mut String, n: usize)
    ensures
        final(out)@ == old(out)@ + decimal(n as nat),
    decreases n,
{
    if n >= 10 {
        push_decimal(out, n / 10);
    }
    out.append(digit_str((n % 10) as u8));
}

/// The decimal numeral of an integer.
pub fn integer_string(n: isize) -> (res: String)
    ensures
        res@ == integer_text(n as int),
{
    let mut out = String::new();
    if n < 0 {
        out.append("-");
        proof {
            reveal_strlit("-");
        }
        let size: usize = if n == isize::MIN {
            (isize::MAX as usize) + 1
        } else {
            (-n) as usize
        };
        push_decimal(&mut out, size);
        assert(out@ =~= seq!['-'] + decimal((-n) as nat));
    } else {
        push_decimal(&mut out, n as usize);
        assert(out@ =~= decimal(n as nat));
    }
    out
}

/// The text that the standard debug formatting gives for a term: the names
/// of its variants with what they hold in parentheses, lists in brackets,
/// strings quoted.
pub uninterp spec fn debug_text(t: Term) -> Seq<char>;

/// The text that the standard debug formatting gives for a string: the
/// string in double quotes, with what cannot stand there escaped.
pub uninterp spec fn quoted_text(s: Seq<char>) -> Seq<char>;

/// Formats a term with `format!` and `{:?}`, that is, by the `Debug` impl
/// that is derived for terms. The contract is taken on trust: it says that
/// the text is a function of the term's model, as it is, for the derived
/// impl prints nothing but the variants and what they hold.
#[verifier::external_body]
pub(crate) fn debug_of(e: &Expr) -> (res: String)
    ensures
        res@ == debug_text(e@),
{
    format!("{:?}", e)
}

/// Formats a string with `format!` and `{:?}`, that is, by the `Debug` impl
/// of `str`. The contract is taken on trust: it says that the text is a
/// function of the string's characters.
#[verifier::external_body]
pub(crate) fn quoted_of(s: &str) -> (res: String)
    ensures
        res@ == quoted_text(s@),
{
    format!("{:?}", s)
}

} // verus!
