//! Exact numbers for the data model.
//!
//! Color channels are kept as exact reduced rationals ([`Ratio`]); length
//! values are kept as canonical decimal digit strings ([`Decimal`], in
//! `structs`). Both arise from plain decimal tokens of the source text.

use vstd::prelude::*;

use crate::text::{scan_end, lemma_scan_end, lemma_scan_end_unique};

verus! {

/// ASCII decimal digit.
pub open spec fn is_digit(c: char) -> bool {
    '0' <= c && c <= '9'
}

/// Executable check for [`is_digit`].
pub fn digit(c: char) -> (b: bool)
    ensures
        b == is_digit(c),
{
    '0' <= c && c <= '9'
}

/// Numeric value of one digit character.
pub open spec fn digit_val(c: char) -> nat {
    (c as nat - '0' as nat) as nat
}

/// Value of a digit string read in base ten.
pub open spec fn digits_val(ds: Seq<char>) -> nat
    decreases ds.len(),
{
    if ds.len() == 0 {
        0
    } else {
        digits_val(ds.drop_last()) * 10 + digit_val(ds.last())
    }
}

/// Ten to the `n`-th power.
pub open spec fn pow10(n: nat) -> nat
    decreases n,
{
    if n == 0 {
        1
    } else {
        10 * pow10((n - 1) as nat)
    }
}

/// Powers of ten are positive.
pub proof fn lemma_pow10_pos(n: nat)
    ensures
        pow10(n) >= 1,
    decreases n,
{
    if n > 0 {
        lemma_pow10_pos((n - 1) as nat);
    }
}

/// Powers of ten do not decrease with the exponent.
pub proof fn lemma_pow10_mono(a: nat, b: nat)
    requires
        a <= b,
    ensures
        pow10(a) <= pow10(b),
    decreases b,
{
    if a < b {
        lemma_pow10_mono(a, (b - 1) as nat);
        lemma_pow10_pos((b - 1) as nat);
    }
}

/// Computes ten to the `sc`-th power, or `None` if it does not fit.
pub fn pow10_checked(sc: usize) -> (r: Option<u128>)
    ensures
        pow10(sc as nat) <= u128::MAX ==> r == Some(pow10(sc as nat) as u128),
        pow10(sc as nat) > u128::MAX ==> r is None,
{
    let mut acc: u128 = 1;
    let mut i: usize = 0;
    while i < sc
        invariant
            i <= sc,
            acc == pow10(i as nat),
        decreases sc - i,
    {
        match acc.checked_mul(10) {
            Some(p) => {
                proof {
                    assert(pow10((i + 1) as nat) == 10 * pow10(i as nat));
                }
                acc = p;
            },
            None => {
                proof {
                    assert(pow10((i + 1) as nat) == 10 * pow10(i as nat));
                    lemma_pow10_mono((i + 1) as nat, sc as nat);
                }
                return None;
            },
        }
        i = i + 1;
    }
    Some(acc)
}

/// Every character of `s` is a decimal digit.
pub open spec fn all_digits(s: Seq<char>) -> bool {
    forall|i: int| 0 <= i < s.len() ==> is_digit(s[i])
}

/// The non-dot predicate, for locating the first `.` of a token.
pub open spec fn non_dot_pred() -> spec_fn(char) -> bool {
    |c: char| c != '.'
}

/// Digits of a numeric token before the first dot.
pub open spec fn whole_digits(t: Seq<char>) -> Seq<char> {
    t.subrange(0, scan_end(t, 0, non_dot_pred()))
}

/// Digits of a numeric token after the first dot (empty if there is none).
pub open spec fn frac_digits(t: Seq<char>) -> Seq<char> {
    let d = scan_end(t, 0, non_dot_pred());
    if d < t.len() {
        t.subrange(d + 1, t.len() as int)
    } else {
        Seq::empty()
    }
}

/// A plain unsigned decimal token: digits with at most one dot and at
/// least one digit (`"7"`, `"1."`, `".5"`, `"1.5"`; not `""`, `"."`,
/// `"1.2.3"` or anything with other characters).
pub open spec fn valid_num_body(t: Seq<char>) -> bool {
    &&& all_digits(whole_digits(t))
    &&& all_digits(frac_digits(t))
    &&& whole_digits(t).len() + frac_digits(t).len() >= 1
}

/// Mantissa of a numeric token: all its digits read as one integer.
pub open spec fn num_mantissa(t: Seq<char>) -> nat {
    digits_val(whole_digits(t) + frac_digits(t))
}

/// Scale of a numeric token: the number of digits after the dot.
/// The token's value is `mantissa / 10^scale`.
pub open spec fn num_scale(t: Seq<char>) -> nat {
    frac_digits(t).len()
}

/// A signed numeric token: an optional `+` or `-` sign followed by a valid
/// numeric body. Yields the sign, the mantissa and the scale.
pub open spec fn num_token_parse(t: Seq<char>) -> Option<(bool, nat, nat)> {
    let (neg, body) = if t.len() > 0 && (t[0] == '+' || t[0] == '-') {
        (t[0] == '-', t.skip(1))
    } else {
        (false, t)
    };
    if valid_num_body(body) {
        Some((neg, num_mantissa(body), num_scale(body)))
    } else {
        None
    }
}

/// Digits among `t[i0..j)` in order, skipping a single dot at index `dot`
/// (no dot seen yet if `dot >= j`).
pub open spec fn pref_digits(t: Seq<char>, i0: int, dot: int, j: int) -> Seq<char> {
    if dot < j {
        t.subrange(i0, dot) + t.subrange(dot + 1, j)
    } else {
        t.subrange(i0, j)
    }
}

/// Reads a signed numeric token exactly as [`num_token_parse`] describes it,
/// with `None` also for a mantissa too large for `u128`.
pub fn parse_num_token(t: &Vec<char>) -> (r: Option<(bool, u128, usize)>)
    ensures
        match num_token_parse(t@) {
            Option::None => r is None,
            Option::Some(p) => if p.1 <= u128::MAX {
                r == Some((p.0, p.1 as u128, p.2 as usize))
            } else {
                r is None
            },
        },
        r matches Some(q) ==> num_token_parse(t@) == Some((q.0, q.1 as nat, q.2 as nat)),
{
    let n = t.len();
    let mut i0: usize = 0;
    let mut neg = false;
    if n > 0 && (t[0] == '+' || t[0] == '-') {
        neg = t[0] == '-';
        i0 = 1;
    }
    let ghost body = t@.skip(i0 as int);
    let mut m: u128 = 0;
    let mut overflow = false;
    let mut ndigits: usize = 0;
    let mut dot: usize = n;
    let mut j: usize = i0;
    while j < n
        invariant
            i0 <= j <= n,
            i0 <= 1,
            n == t@.len(),
            body == t@.skip(i0 as int),
            n > 0 && (t@[0] == '+' || t@[0] == '-') ==> i0 == 1,
            i0 == 1 ==> n > 0 && (t@[0] == '+' || t@[0] == '-') && neg == (t@[0] == '-'),
            i0 == 0 ==> !neg,
            dot < n ==> i0 <= dot < j && t@[dot as int] == '.',
            dot >= n ==> dot == n && (forall|k: int| i0 <= k < j ==> t@[k] != '.'),
            forall|k: int| i0 <= k < j && k != dot ==> is_digit(t@[k]),
            ndigits == pref_digits(t@, i0 as int, dot as int, j as int).len(),
            !overflow ==> m == digits_val(pref_digits(t@, i0 as int, dot as int, j as int)),
            overflow ==> digits_val(pref_digits(t@, i0 as int, dot as int, j as int))
                > u128::MAX,
        decreases n - j,
    {
        let c = t[j];
        let ghost pref = pref_digits(t@, i0 as int, dot as int, j as int);
        if digit(c) {
            let ghost pref2 = pref_digits(t@, i0 as int, dot as int, j + 1 as int);
            proof {
                assert(pref2.drop_last() =~= pref);
                assert(pref2.last() == c);
                assert(digits_val(pref2) == digits_val(pref) * 10 + digit_val(c));
            }
            let d: u32 = (c as u32) - ('0' as u32);
            if !overflow {
                match m.checked_mul(10) {
                    Some(p) => match p.checked_add(d as u128) {
                        Some(q) => {
                            m = q;
                        },
                        None => {
                            overflow = true;
                        },
                    },
                    None => {
                        overflow = true;
                    },
                }
            } else {
                proof {
                    assert(digits_val(pref2) >= digits_val(pref));
                }
            }
            ndigits = ndigits + 1;
        } else if c == '.' && dot == n {
            dot = j;
            proof {
                assert(pref_digits(t@, i0 as int, dot as int, j + 1 as int) =~= pref);
            }
        } else {
            // grammar broken: the token is not a plain decimal number
            proof {
                if i0 == 0 {
                    assert(body =~= t@);
                }
                let fd = scan_end(body, 0, non_dot_pred());
                lemma_scan_end(body, 0, non_dot_pred());
                if dot < n {
                    assert(forall|k: int| 0 <= k < dot - i0 ==> body[k] == t@[k + i0]
                        && body[k] != '.');
                    lemma_scan_end_unique(body, 0, non_dot_pred(), dot - i0);
                    assert(frac_digits(body)[j - dot - 1] == t@[j as int]);
                    assert(!all_digits(frac_digits(body)));
                } else {
                    // no dot yet, and this character is not a dot either,
                    // so the first dot of the body lies beyond it
                    assert(forall|k: int| 0 <= k <= j - i0 ==> body[k] == t@[k + i0]
                        && body[k] != '.');
                    if fd <= j - i0 {
                        assert(body[fd] != '.');
                        assert(false);
                    }
                    assert(whole_digits(body)[j - i0] == t@[j as int]);
                    assert(!all_digits(whole_digits(body)));
                }
            }
            return None;
        }
        j = j + 1;
    }
    proof {
        let fd = scan_end(body, 0, non_dot_pred());
        lemma_scan_end(body, 0, non_dot_pred());
        if dot < n {
            assert(forall|k: int| 0 <= k < dot - i0 ==> body[k] == t@[k + i0] && body[k] != '.');
            lemma_scan_end_unique(body, 0, non_dot_pred(), dot - i0);
            assert(whole_digits(body) =~= t@.subrange(i0 as int, dot as int));
            assert(frac_digits(body) =~= t@.subrange(dot + 1, n as int));
        } else {
            assert(forall|k: int| 0 <= k < n - i0 ==> body[k] == t@[k + i0] && body[k] != '.');
            lemma_scan_end_unique(body, 0, non_dot_pred(), n - i0);
            assert(whole_digits(body) =~= t@.subrange(i0 as int, n as int));
            assert(frac_digits(body) =~= Seq::<char>::empty());
        }
        assert(whole_digits(body) + frac_digits(body)
            =~= pref_digits(t@, i0 as int, dot as int, n as int));
        if i0 == 0 {
            assert(body =~= t@);
        }
    }
    if ndigits == 0 {
        return None;
    }
    if overflow {
        return None;
    }
    let sc: usize = if dot < n {
        n - dot - 1
    } else {
        0
    };
    Some((neg, m, sc))
}

/// Greatest common divisor by Euclid's algorithm.
pub open spec fn gcd(a: nat, b: nat) -> nat
    decreases b,
{
    if b == 0 {
        a
    } else {
        gcd(b, a % b)
    }
}

/// The gcd of anything with a positive number is positive.
pub proof fn lemma_gcd_pos(a: nat, b: nat)
    requires
        a > 0 || b > 0,
    ensures
        gcd(a, b) > 0,
    decreases b,
{
    if b > 0 {
        lemma_gcd_pos(b, a % b);
    }
}

/// Executable Euclid's algorithm.
pub fn gcd_u128(a: u128, b: u128) -> (g: u128)
    ensures
        g == gcd(a as nat, b as nat),
{
    let mut x = a;
    let mut y = b;
    while y != 0
        invariant
            gcd(x as nat, y as nat) == gcd(a as nat, b as nat),
        decreases y,
    {
        let r = x % y;
        proof {
            assert(gcd(x as nat, y as nat) == gcd(y as nat, (x % y) as nat));
        }
        x = y;
        y = r;
    }
    x
}

/// An exact rational number in lowest terms: `(-1 if neg else 1) * num / den`.
///
/// Color channel values are exact rationals: they come from finite decimal
/// tokens scaled by the constants 255 and 100, so no rounding is involved.
#[derive(Clone, Copy, PartialEq, Eq, Structural, Debug)]
pub struct Ratio {
    /// True for a strictly negative value; always false when `num` is zero.
    pub neg: bool,
    /// Numerator, coprime with `den`.
    pub num: u128,
    /// Denominator, at least one.
    pub den: u128,
}

/// The reduced rational `(-1 if neg else 1) * n / d`.
pub open spec fn ratio_of(neg: bool, n: nat, d: nat) -> Ratio
    recommends
        1 <= d <= u128::MAX,
        n <= u128::MAX,
{
    let g = gcd(n, d);
    Ratio { neg: neg && n != 0, num: (n / g) as u128, den: (d / g) as u128 }
}

impl Ratio {
    /// Builds the reduced rational `(-1 if neg else 1) * num / den`.
    pub fn new(neg: bool, num: u128, den: u128) -> (r: Ratio)
        requires
            den >= 1,
        ensures
            r == ratio_of(neg, num as nat, den as nat),
    {
        let g = gcd_u128(num, den);
        proof {
            lemma_gcd_pos(num as nat, den as nat);
        }
        Ratio { neg: neg && num != 0, num: num / g, den: den / g }
    }

    /// The rational for a plain integer.
    pub fn from_int(n: u128) -> (r: Ratio)
        ensures
            r == ratio_of(false, n as nat, 1),
    {
        proof {
            assert(n as nat % 1 == 0);
            assert(gcd(n as nat, 1) == gcd(1, 0));
            assert(gcd(1, 0) == 1);
            assert(n as nat / 1 == n as nat);
        }
        Ratio { neg: false, num: n, den: 1 }
    }
}

} // verus!
