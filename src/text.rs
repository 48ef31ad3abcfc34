//! Decimal rendering of rates for the comparison report.
use vstd::prelude::*;

verus! {

pub open spec fn digit_char(d: nat) -> char {
    if d == 0 {
        '0'
    } else if d == 1 {
        '1'
    } else if d == 2 {
        '2'
    } else if d == 3 {
        '3'
    } else if d == 4 {
        '4'
    } else if d == 5 {
        '5'
    } else if d == 6 {
        '6'
    } else if d == 7 {
        '7'
    } else if d == 8 {
        '8'
    } else {
        '9'
    }
}

/// The decimal digits of `n`, without leading zeros.
pub open spec fn int_text(n: nat) -> Seq<char>
    decreases n,
{
    if n < 10 {
        seq![digit_char(n)]
    } else {
        int_text(n / 10).push(digit_char(n % 10))
    }
}

/// A count of thousandths written with exactly three decimals (`750` is `0.750`).
pub open spec fn milli_text(m: nat) -> Seq<char> {
    int_text(m / 1000) + seq!['.', digit_char(m / 100 % 10), digit_char(m / 10 % 10), digit_char(m % 10)]
}

/// A signed count of thousandths, always with its sign (`0` is `+0.000`).
pub open spec fn signed_milli_text(d: int) -> Seq<char> {
    if d >= 0 {
        seq!['+'] + milli_text(d as nat)
    } else {
        seq!['-'] + milli_text((-d) as nat)
    }
}

fn digit_str(d: u64) -> (r: &'static str)
    requires
        d < 10,
    ensures
        r@ == seq![digit_char(d as nat)],
{
    if d == 0 {
        proof { reveal_strlit("0"); }
        "0"
    } else if d == 1 {
        proof { reveal_strlit("1"); }
        "1"
    } else if d == 2 {
        proof { reveal_strlit("2"); }
        "2"
    } else if d == 3 {
        proof { reveal_strlit("3"); }
        "3"
    } else if d == 4 {
        proof { reveal_strlit("4"); }
        "4"
    } else if d == 5 {
        proof { reveal_strlit("5"); }
        "5"
    } else if d == 6 {
        proof { reveal_strlit("6"); }
        "6"
    } else if d == 7 {
        proof { reveal_strlit("7"); }
        "7"
    } else if d == 8 {
        proof { reveal_strlit("8"); }
        "8"
    } else {
        proof { reveal_strlit("9"); }
        "9"
    }
}

/// Appends the decimal digits of `n` to `out`.
pub fn push_int(out: &mut String, n: u64)
    ensures
        final(out)@ == old(out)@ + int_text(n as nat),
    decreases n,
{
    if n < 10 {
        out.append(digit_str(n));
    } else {
        push_int(out, n / 10);
        out.append(digit_str(n % 10));
        assert(int_text(n as nat) == int_text((n / 10) as nat).push(digit_char((n % 10) as nat)));
        assert(final(out)@ =~= old(out)@ + int_text(n as nat));
    }
}

/// Appends `m` thousandths with exactly three decimals.
pub fn push_milli(out: &mut String, m: u64)
    ensures
        final(out)@ == old(out)@ + milli_text(m as nat),
{
    push_int(out, m / 1000);
    out.append(".");
    out.append(digit_str(m / 100 % 10));
    out.append(digit_str(m / 10 % 10));
    out.append(digit_str(m % 10));
    proof {
        reveal_strlit(".");
    }
    assert(final(out)@ =~= old(out)@ + milli_text(m as nat));
}

/// Appends the difference `to - from` of two counts of thousandths, with its sign.
pub fn push_signed_delta(out: &mut String, from: u64, to: u64)
    ensures
        final(out)@ == old(out)@ + signed_milli_text(to as int - from as int),
{
    proof {
        reveal_strlit("+");
        reveal_strlit("-");
    }
    if to >= from {
        out.append("+");
        push_milli(out, to - from);
    } else {
        out.append("-");
        push_milli(out, from - to);
    }
    assert(final(out)@ =~= old(out)@ + signed_milli_text(to as int - from as int));
}

} // verus!
