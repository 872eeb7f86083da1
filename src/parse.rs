use vstd::prelude::*;

use crate::ratio::{Frac, Ratio, INPUT_BOUND};

verus! {

/// Most digits a quantity may be written with.
pub const MAX_DIGITS: u32 = 18;

pub open spec fn pow10(k: nat) -> int
    decreases k,
{
    if k == 0 {
        1
    } else {
        10 * pow10((k - 1) as nat)
    }
}

pub open spec fn is_digit(c: char) -> bool {
    '0' <= c && c <= '9'
}

/// The digits of `s` read as one integer, the decimal point skipped.
pub open spec fn mantissa(s: Seq<char>) -> int
    decreases s.len(),
{
    if s.len() == 0 {
        0
    } else if is_digit(s.last()) {
        10 * mantissa(s.drop_last()) + (s.last() as int - '0' as int)
    } else {
        mantissa(s.drop_last())
    }
}

/// How many digits `s` holds.
pub open spec fn digit_count(s: Seq<char>) -> nat
    decreases s.len(),
{
    if s.len() == 0 {
        0
    } else if is_digit(s.last()) {
        digit_count(s.drop_last()) + 1
    } else {
        digit_count(s.drop_last())
    }
}

/// Whether `s` holds a decimal point.
pub open spec fn has_point(s: Seq<char>) -> bool {
    exists|i: int| 0 <= i < s.len() && s[i] == '.'
}

/// How many digits stand after the decimal point of `s`.
pub open spec fn fraction_digits(s: Seq<char>) -> nat
    decreases s.len(),
{
    if s.len() == 0 {
        0
    } else if is_digit(s.last()) && has_point(s.drop_last()) {
        fraction_digits(s.drop_last()) + 1
    } else {
        fraction_digits(s.drop_last())
    }
}

/// Digits with at most one decimal point, and at least one digit.
pub open spec fn is_unsigned_decimal(s: Seq<char>) -> bool {
    &&& forall|i: int| 0 <= i < s.len() ==> is_digit(#[trigger] s[i]) || s[i] == '.'
    &&& forall|i: int, j: int|
        0 <= i < j < s.len() && #[trigger] s[i] == '.' ==> #[trigger] s[j] != '.'
    &&& digit_count(s) >= 1
}

pub open spec fn sign_len(s: Seq<char>) -> int {
    if s.len() > 0 && (s[0] == '-' || s[0] == '+') {
        1
    } else {
        0
    }
}

/// An optional sign followed by an unsigned decimal.
pub open spec fn is_decimal(s: Seq<char>) -> bool {
    is_unsigned_decimal(s.skip(sign_len(s)))
}

/// The rational number a decimal string denotes.
pub open spec fn decimal_value(s: Seq<char>) -> Frac {
    let body = s.skip(sign_len(s));
    let m = mantissa(body);
    Frac {
        num: if s.len() > 0 && s[0] == '-' { -m } else { m },
        den: pow10(fraction_digits(body)),
    }
}

proof fn lemma_pow10_monotone(j: nat, k: nat)
    requires
        j <= k,
    ensures
        1 <= pow10(j) <= pow10(k),
    decreases k,
{
    if j < k {
        lemma_pow10_monotone(j, (k - 1) as nat);
    } else if k > 0 {
        lemma_pow10_monotone(0, (k - 1) as nat);
    }
}

proof fn lemma_pow10_max()
    ensures
        pow10(MAX_DIGITS as nat) == 1_000_000_000_000_000_000,
{
    reveal_with_fuel(pow10, 19);
}

proof fn lemma_digit_count_prefix(s: Seq<char>, j: int)
    requires
        0 <= j <= s.len(),
    ensures
        digit_count(s.take(j)) <= digit_count(s),
    decreases s.len(),
{
    if j < s.len() {
        assert(s.drop_last().take(j) =~= s.take(j));
        lemma_digit_count_prefix(s.drop_last(), j);
    } else {
        assert(s.take(j) =~= s);
    }
}

/// Ten to the power `k`.
fn power_of_ten(k: u32) -> (r: i64)
    requires
        k <= MAX_DIGITS,
    ensures
        r == pow10(k as nat),
{
    let mut r: i64 = 1;
    let mut i: u32 = 0;
    while i < k
        invariant
            i <= k <= MAX_DIGITS,
            r == pow10(i as nat),
        decreases k - i,
    {
        proof {
            lemma_pow10_monotone((i + 1) as nat, MAX_DIGITS as nat);
            lemma_pow10_max();
        }
        r = r * 10;
        i = i + 1;
    }
    r
}

/// Reads a decimal quantity such as `-273.15`, `5` or `.5`: an optional sign,
/// digits and at most one decimal point, with at least one and at most
/// `MAX_DIGITS` digits. Anything else gives `None`.
pub fn parse_quantity(s: &str) -> (r: Option<Ratio>)
    ensures
        r is Some <==> is_decimal(s@) && digit_count(s@.skip(sign_len(s@))) <= MAX_DIGITS,
        r matches Some(q) ==> q@ == decimal_value(s@) && q@.fits(INPUT_BOUND as int),
{
    let n = s.unicode_len();
    let mut negative = false;
    let mut start: usize = 0;
    if n > 0 {
        let c = s.get_char(0);
        if c == '-' {
            negative = true;
            start = 1;
        } else if c == '+' {
            start = 1;
        }
    }
    let ghost body = s@.skip(sign_len(s@));
    assert(start == sign_len(s@));
    let mut m: i64 = 0;
    let mut count: u32 = 0;
    let mut fraction: u32 = 0;
    let mut seen_point = false;
    let ghost mut point_at: int = 0;
    let mut i: usize = start;
    while i < n
        invariant
            n == s@.len(),
            start == sign_len(s@),
            body == s@.skip(start as int),
            negative == (s@.len() > 0 && s@[0] == '-'),
            start <= i <= n,
            forall|k: int| 0 <= k < i - start ==> is_digit(#[trigger] body[k]) || body[k] == '.',
            seen_point == has_point(body.take(i - start)),
            seen_point ==> 0 <= point_at < i - start && body[point_at] == '.',
            forall|a: int, b: int|
                0 <= a < b < i - start && #[trigger] body[a] == '.' ==> #[trigger] body[b] != '.',
            m == mantissa(body.take(i - start)),
            count == digit_count(body.take(i - start)),
            fraction == fraction_digits(body.take(i - start)),
            count <= MAX_DIGITS,
            fraction <= count,
            0 <= m < pow10(count as nat),
        decreases n - i,
    {
        let c = s.get_char(i);
        let ghost p = body.take(i - start);
        let ghost q = body.take(i - start + 1);
        assert(body[i - start] == c);
        assert(q.drop_last() =~= p);
        assert(q.last() == c);
        if c == '.' {
            if seen_point {
                assert(body[point_at] == '.' && body[i - start] == '.');
                return None;
            }
            proof {
                point_at = i - start;
                assert(q[point_at] == '.');
            }
            seen_point = true;
        } else if '0' <= c && c <= '9' {
            if count == MAX_DIGITS {
                proof {
                    lemma_digit_count_prefix(body, i - start + 1);
                }
                return None;
            }
            proof {
                lemma_pow10_monotone((count + 1) as nat, MAX_DIGITS as nat);
                lemma_pow10_max();
            }
            m = m * 10 + (c as u32 - '0' as u32) as i64;
            if seen_point {
                assert(q[point_at] == '.');
                fraction = fraction + 1;
            } else {
                assert(!has_point(q.drop_last()));
            }
            count = count + 1;
        } else {
            assert(!(is_digit(body[i - start]) || body[i - start] == '.'));
            return None;
        }
        proof {
            assert forall|k: int| 0 <= k < q.len() implies q[k] == body[k] by {}
            if seen_point {
                assert(q[point_at] == '.');
            }
            if has_point(q) {
                let k = choose|k: int| 0 <= k < q.len() && q[k] == '.';
                if k < p.len() {
                    assert(p[k] == '.');
                }
            }
        }
        i = i + 1;
    }
    assert(body.take(n - start) =~= body);
    if count == 0 {
        return None;
    }
    let den = power_of_ten(fraction);
    proof {
        lemma_pow10_monotone(count as nat, MAX_DIGITS as nat);
        lemma_pow10_max();
        lemma_pow10_monotone(fraction as nat, MAX_DIGITS as nat);
    }
    let num = if negative {
        -m
    } else {
        m
    };
    Some(Ratio::new(num, den))
}

} // verus!
