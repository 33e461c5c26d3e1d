//! Whole numbers written in decimal.

use vstd::prelude::*;
use vstd::string::*;

verus! {

/// The character for the digit `d`.
pub open spec fn digit(d: int) -> char
    recommends
        0 <= d < 10,
{
    if d == 0 {
        '0'
    } else if d == 1 {
        '1'
    } else if d == 2 {
        '2'
    } else if d == 3 {
        '3'
    } else if d == 4 {
        '4'
    } else if d == 5 {
        '5'
    } else if d == 6 {
        '6'
    } else if d == 7 {
        '7'
    } else if d == 8 {
        '8'
    } else {
        '9'
    }
}

/// The digits of `n`, the most significant first, with no leading zero but
/// for `0` itself.
pub open spec fn decimal(n: nat) -> Seq<char>
    decreases n,
{
    if n < 10 {
        seq![digit(n as int)]
    } else {
        decimal(n / 10).push(digit((n % 10) as int))
    }
}

/// `n` in decimal, with a `-` in front where `n` is negative.
pub open spec fn signed_decimal(n: int) -> Seq<char> {
    if n < 0 {
        seq!['-'] + decimal((-n) as nat)
    } else {
        decimal(n as nat)
    }
}

/// A number in decimal has a digit at least, and no sign among its digits.
pub proof fn lemma_decimal_shape(n: nat)
    ensures
        decimal(n).len() >= 1,
        forall|i: int| 0 <= i < decimal(n).len() ==> decimal(n)[i] != '-',
    decreases n,
{
    if n >= 10 {
        lemma_decimal_shape(n / 10);
    }
}

/// Two numbers with the same digits are the same number.
pub proof fn lemma_decimal_injective(a: nat, b: nat)
    requires
        decimal(a) == decimal(b),
    ensures
        a == b,
    decreases a,
{
    if a < 10 && b < 10 {
        assert(decimal(a)[0] == digit(a as int));
        assert(decimal(b)[0] == digit(b as int));
    } else if a >= 10 && b >= 10 {
        let x = decimal(a / 10);
        let y = decimal(b / 10);
        let p = digit((a % 10) as int);
        let q = digit((b % 10) as int);
        assert(x.push(p).last() == p && y.push(q).last() == q);
        assert(x.push(p).drop_last() =~= x);
        assert(y.push(q).drop_last() =~= y);
        lemma_decimal_injective(a / 10, b / 10);
    } else {
        lemma_decimal_shape(a / 10);
        lemma_decimal_shape(b / 10);
        assert(decimal(a).len() == if a < 10 { 1 } else { decimal(a / 10).len() + 1 });
        assert(decimal(b).len() == if b < 10 { 1 } else { decimal(b / 10).len() + 1 });
    }
}

/// Two whole numbers that read the same in decimal are the same number.
pub proof fn lemma_signed_decimal_injective(a: int, b: int)
    requires
        signed_decimal(a) == signed_decimal(b),
    ensures
        a == b,
{
    let x = if a < 0 { (-a) as nat } else { a as nat };
    let y = if b < 0 { (-b) as nat } else { b as nat };
    lemma_decimal_shape(x);
    lemma_decimal_shape(y);
    if a < 0 && b < 0 {
        assert((seq!['-'] + decimal(x)).skip(1) =~= decimal(x));
        assert((seq!['-'] + decimal(y)).skip(1) =~= decimal(y));
        lemma_decimal_injective(x, y);
    } else if a >= 0 && b >= 0 {
        lemma_decimal_injective(x, y);
    } else if a < 0 {
        assert(signed_decimal(a)[0] == '-');
        assert(signed_decimal(b)[0] == decimal(y)[0]);
    } else {
        assert(signed_decimal(b)[0] == '-');
        assert(signed_decimal(a)[0] == decimal(x)[0]);
    }
}

/// The one-character string for the digit `d`.
fn digit_str(d: u64) -> (s: &'static str)
    requires
        d < 10,
    ensures
        s@ == seq![digit(d as int)],
{
    proof {
        reveal_strlit("0");
        reveal_strlit("1");
        reveal_strlit("2");
        reveal_strlit("3");
        reveal_strlit("4");
        reveal_strlit("5");
        reveal_strlit("6");
        reveal_strlit("7");
        reveal_strlit("8");
        reveal_strlit("9");
    }
    let s: &'static str = if d == 0 {
        "0"
    } else if d == 1 {
        "1"
    } else if d == 2 {
        "2"
    } else if d == 3 {
        "3"
    } else if d == 4 {
        "4"
    } else if d == 5 {
        "5"
    } else if d == 6 {
        "6"
    } else if d == 7 {
        "7"
    } else if d == 8 {
        "8"
    } else {
        "9"
    };
    s
}

/// Appends `n` in decimal to `out`.
pub(crate) fn push_decimal(out: &mut String, n: u64)
    ensures
        final(out)@ == old(out)@ + decimal(n as nat),
    decreases n,
{
    if n >= 10 {
        push_decimal(out, n / 10);
    }
    out.append(digit_str(n % 10));
}

/// Appends `n` in decimal to `out`, with a `-` in front where `n` is
/// negative.
pub(crate) fn push_signed_decimal(out: &mut String, n: i64)
    ensures
        final(out)@ == old(out)@ + signed_decimal(n as int),
{
    if n < 0 {
        proof {
            reveal_strlit("-");
        }
        out.append("-");
        let magnitude: u64 = if n == i64::MIN {
            0x8000_0000_0000_0000u64
        } else {
            (-n) as u64
        };
        push_decimal(out, magnitude);
    } else {
        push_decimal(out, n as u64);
    }
}

} // verus!
