//! Decimal coverage rates held as exact fixed-point integers.
//!
//! A rate such as `0.8123` is held in billionths (`812_300_000`). Digits past the
//! ninth decimal place are dropped, which is a truncation and therefore commutes
//! with the three-decimal truncation that comparisons apply.
use vstd::prelude::*;

verus! {

/// Number of units in `1.0`.
pub const SCALE: u64 = 1_000_000_000;

/// Number of units in `0.001`.
pub const MILLI: u64 = 1_000_000;

/// Longest accepted run of digits before the decimal point.
pub const MAX_INT_DIGITS: usize = 9;

pub open spec fn is_digit(c: char) -> bool {
    '0' <= c && c <= '9'
}

pub open spec fn all_digits(s: Seq<char>) -> bool {
    forall|i: int| 0 <= i < s.len() ==> is_digit(#[trigger] s[i])
}

pub open spec fn digit_value(c: char) -> nat {
    (c as int - '0' as int) as nat
}

/// The number that a run of decimal digits denotes.
pub open spec fn digits_value(s: Seq<char>) -> nat
    decreases s.len(),
{
    if s.len() == 0 {
        0
    } else {
        digits_value(s.drop_last()) * 10 + digit_value(s.last())
    }
}

pub open spec fn pow10(n: nat) -> nat
    decreases n,
{
    if n == 0 {
        1
    } else {
        10 * pow10((n - 1) as nat)
    }
}

/// The digits after a point at index `k` (none when `k` is the length).
pub open spec fn fraction_part(s: Seq<char>, k: int) -> Seq<char> {
    if k < s.len() {
        s.subrange(k + 1, s.len() as int)
    } else {
        Seq::empty()
    }
}

/// `s` is a decimal number whose point, if any, stands at index `k`; when `k`
/// is the length there is no point. At least one digit is present.
pub open spec fn well_formed_at(s: Seq<char>, k: int) -> bool {
    &&& 0 <= k <= s.len()
    &&& k <= MAX_INT_DIGITS
    &&& all_digits(s.take(k))
    &&& (k < s.len() ==> s[k] == '.')
    &&& all_digits(fraction_part(s, k))
    &&& (k > 0 || fraction_part(s, k).len() > 0)
}

pub open spec fn is_rate_text(s: Seq<char>) -> bool {
    exists|k: int| well_formed_at(s, k)
}

pub open spec fn nine_zeros() -> Seq<char> {
    seq!['0', '0', '0', '0', '0', '0', '0', '0', '0']
}

/// The digits that make up the value in units: the whole part followed by
/// exactly nine decimals (padded with zeros, or cut off).
pub open spec fn unit_digits(s: Seq<char>, k: int) -> Seq<char> {
    s.take(k) + (fraction_part(s, k) + nine_zeros()).take(9)
}

/// The value, in units of `1 / SCALE`, of `s` read with its point at `k`.
pub open spec fn rate_value_at(s: Seq<char>, k: int) -> nat {
    digits_value(unit_digits(s, k))
}

/// The value of a rate text in units of `1 / SCALE`, if it is one.
pub open spec fn rate_of(s: Seq<char>) -> Option<u64> {
    if is_rate_text(s) {
        Some(rate_value_at(s, choose|k: int| well_formed_at(s, k)) as u64)
    } else {
        None
    }
}

pub proof fn lemma_pow10_mono(a: nat, b: nat)
    requires
        a <= b,
    ensures
        pow10(a) <= pow10(b),
    decreases b,
{
    if a < b {
        lemma_pow10_mono(a, (b - 1) as nat);
    }
}

proof fn lemma_unit_digit(s: Seq<char>, k: int, p: int)
    requires
        well_formed_at(s, k),
        0 <= p < k + 9,
    ensures
        unit_digits(s, k).len() == k + 9,
        unit_digits(s, k)[p] == (if p < k {
            s[p]
        } else if k + 1 + (p - k) < s.len() {
            s[k + 1 + (p - k)]
        } else {
            '0'
        }),
        is_digit(unit_digits(s, k)[p]),
{
    let u = unit_digits(s, k);
    let f = fraction_part(s, k);
    if p < k {
        assert(u[p] == s.take(k)[p]);
        assert(is_digit(s.take(k)[p]));
    } else if k + 1 + (p - k) < s.len() {
        assert(u[p] == f[p - k]);
        assert(is_digit(f[p - k]));
    } else {
        assert(u[p] == (f + nine_zeros())[p - k]);
        assert(nine_zeros()[p - k - f.len()] == '0');
    }
}

fn digit_of(c: char) -> (d: u64)
    requires
        is_digit(c),
    ensures
        d == digit_value(c),
        d < 10,
{
    (c as u32 - '0' as u32) as u64
}

/// Reads a decimal rate such as `0.85`, `1` or `.5` into units of `1 / SCALE`,
/// dropping decimals past the ninth. Anything else (a sign, an exponent, more
/// than nine digits before the point, no digit at all) is refused.
#[verifier::rlimit(30)]
pub fn parse_rate(s: &str) -> (r: Option<u64>)
    ensures
        r is Some <==> is_rate_text(s@),
        forall|k: int| well_formed_at(s@, k) ==> r == Some(rate_value_at(s@, k) as u64),
        r matches Some(v) ==> v < SCALE * SCALE,
        r == rate_of(s@),
{
    let n = s.unicode_len();
    // Locate the point, checking that everything before it is a digit.
    let mut k: usize = 0;
    while k < n && s.get_char(k) != '.'
        invariant
            n == s@.len(),
            k <= n,
            forall|j: int| 0 <= j < k ==> s@[j] != '.',
        decreases n - k,
    {
        k = k + 1;
    }
    proof {
        assert forall|k2: int| well_formed_at(s@, k2) implies k2 == k by {
            if k2 < k {
                assert(s@[k2] == '.');
            } else if k < k2 {
                assert(s@.take(k2)[k as int] == s@[k as int]);
            }
        }
    }
    if k > MAX_INT_DIGITS {
        return None;
    }
    let mut i: usize = 0;
    while i < n
        invariant
            n == s@.len(),
            k <= n,
            i <= n,
            forall|j: int| 0 <= j < i && j != k ==> is_digit(#[trigger] s@[j]),
            forall|k2: int| well_formed_at(s@, k2) ==> k2 == k,
        decreases n - i,
    {
        if i != k && !('0' <= s.get_char(i) && s.get_char(i) <= '9') {
            proof {
                assert(!well_formed_at(s@, k as int)) by {
                    if i < k {
                        assert(s@.take(k as int)[i as int] == s@[i as int]);
                    } else {
                        assert(fraction_part(s@, k as int)[i - k - 1] == s@[i as int]);
                    }
                }
            }
            return None;
        }
        i = i + 1;
    }
    if k == 0 && n <= 1 {
        return None;
    }
    let ghost u = unit_digits(s@, k as int);
    proof {
        assert(well_formed_at(s@, k as int)) by {
            assert forall|j: int| 0 <= j < k implies is_digit(#[trigger] s@.take(k as int)[j]) by {
                assert(s@.take(k as int)[j] == s@[j]);
            }
            assert forall|j: int| 0 <= j < fraction_part(s@, k as int).len() implies is_digit(
                #[trigger] fraction_part(s@, k as int)[j],
            ) by {
                assert(fraction_part(s@, k as int)[j] == s@[k + 1 + j]);
            }
        }
        assert(u.len() == k + 9);
    }
    // Accumulate the whole part, then exactly nine decimals.
    let mut acc: u64 = 0;
    let mut p: usize = 0;
    while p < k + 9
        invariant
            n == s@.len(),
            k <= n,
            k <= MAX_INT_DIGITS,
            p <= k + 9,
            u == unit_digits(s@, k as int),
            u.len() == k + 9,
            well_formed_at(s@, k as int),
            acc == digits_value(u.take(p as int)),
            acc < pow10(p as nat),
        decreases k + 9 - p,
    {
        let c: char = if p < k {
            s.get_char(p)
        } else if k + 1 + (p - k) < n {
            s.get_char(k + 1 + (p - k))
        } else {
            '0'
        };
        proof {
            lemma_unit_digit(s@, k as int, p as int);
            lemma_pow10_mono((p + 1) as nat, 18);
            reveal_with_fuel(pow10, 19);
            assert(u.take(p + 1).drop_last() =~= u.take(p as int));
        }
        let d = digit_of(c);
        proof {
            assert(acc * 10 + d < pow10((p + 1) as nat)) by (nonlinear_arith)
                requires
                    acc < pow10(p as nat),
                    d < 10,
                    pow10((p + 1) as nat) == 10 * pow10(p as nat),
            ;
        }
        acc = acc * 10 + d;
        p = p + 1;
    }
    proof {
        assert(u.take((k + 9) as int) =~= u);
        lemma_pow10_mono((k + 9) as nat, 18);
        reveal_with_fuel(pow10, 19);
            assert(pow10(18) == 1_000_000_000_000_000_000);
    }
    Some(acc)
}

} // verus!
