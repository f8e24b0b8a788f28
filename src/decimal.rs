//! Decimal number text (as JSON writes numbers) read into fixed-point
//! thousandths, the unit in which the library holds every telemetry value.
use vstd::prelude::*;
use vstd::arithmetic::div_mod::lemma_div_denominator;

verus! {

/// Largest digit string value kept exactly; longer mantissas are refused.
pub const MAX_MANTISSA: u128 = 1_000_000_000_000_000_000_000_000_000_000_000_000;

/// Largest magnitude, in thousandths, that a value may have.
pub const MAX_MILLI: u128 = 10_000_000_000_000_000_000_000_000_000_000_000_000;

/// Exponents above this are read as this (the value is then out of range
/// or zero in any case).
pub const EXP_CAP: u128 = 1000;

pub open spec fn is_digit(c: char) -> bool {
    '0' <= c && c <= '9'
}

pub open spec fn digit_of(c: char) -> int {
    (c as u32) as int - 48
}

/// The number that a string of decimal digits spells.
pub open spec fn digits_value(s: Seq<char>) -> int
    decreases s.len(),
{
    if s.len() == 0 {
        0
    } else {
        digits_value(s.drop_last()) * 10 + digit_of(s.last())
    }
}

/// The end of the run of digits that starts at `i`.
pub open spec fn digit_run(s: Seq<char>, i: int) -> int
    decreases s.len() - i,
{
    if 0 <= i < s.len() && is_digit(s[i]) {
        digit_run(s, i + 1)
    } else {
        i
    }
}

pub open spec fn min_int(a: int, b: int) -> int {
    if a <= b {
        a
    } else {
        b
    }
}

pub open spec fn pow10(n: nat) -> int
    decreases n,
{
    if n == 0 {
        1
    } else {
        10 * pow10((n - 1) as nat)
    }
}

/// Splits number text `-?D+(.D+)?([eE][+-]?D+)?` into its sign, the value of
/// all its mantissa digits, and the power of ten they are to be scaled by
/// (the exponent, read up to `EXP_CAP`, less the count of fraction digits).
pub open spec fn number_parts(s: Seq<char>) -> Option<(bool, int, int)> {
    let neg = s.len() > 0 && s[0] == '-';
    let sign_end: int = if neg {
        1
    } else {
        0
    };
    let int_end = digit_run(s, sign_end);
    let has_frac = int_end < s.len() && s[int_end] == '.';
    let frac_end = if has_frac {
        digit_run(s, int_end + 1)
    } else {
        int_end
    };
    let digits = if has_frac {
        s.subrange(sign_end, int_end) + s.subrange(int_end + 1, frac_end)
    } else {
        s.subrange(sign_end, int_end)
    };
    let frac: int = if has_frac {
        frac_end - int_end - 1
    } else {
        0
    };
    let has_exp = frac_end < s.len() && (s[frac_end] == 'e' || s[frac_end] == 'E');
    let exp_neg = has_exp && frac_end + 1 < s.len() && s[frac_end + 1] == '-';
    let exp_start: int = if has_exp && frac_end + 1 < s.len() && (s[frac_end + 1] == '-' || s[frac_end + 1] == '+') {
        frac_end + 2
    } else {
        frac_end + 1
    };
    let exp_end = digit_run(s, exp_start);
    let e = min_int(digits_value(s.subrange(exp_start, exp_end)), EXP_CAP as int);
    if int_end == sign_end || (has_frac && frac_end == int_end + 1) {
        None
    } else if !has_exp {
        if frac_end == s.len() {
            Some((neg, digits_value(digits), -frac))
        } else {
            None
        }
    } else if exp_end == exp_start || exp_end != s.len() {
        None
    } else {
        Some(
            (
                neg,
                digits_value(digits),
                if exp_neg {
                    -e - frac
                } else {
                    e - frac
                },
            ),
        )
    }
}

/// The magnitude `m * 10^k` in thousandths, rounded to the nearest whole
/// thousandth (halves away from zero): all digits but the first dropped one
/// are cut off, and that one rounds.
pub open spec fn scaled(m: int, k: int) -> int {
    if k >= 0 {
        m * pow10(k as nat)
    } else {
        (m / pow10((-k - 1) as nat) + 5) / 10
    }
}

/// The value of number text in thousandths, rounded as `scaled` does; `None`
/// when the text is no number or the value lies beyond `MAX_MILLI`.
pub open spec fn number_milli(s: Seq<char>) -> Option<int> {
    match number_parts(s) {
        None => None,
        Some((neg, m, e)) => {
            let mag = scaled(m, e + 3);
            if m > MAX_MANTISSA || mag > MAX_MILLI {
                None
            } else if neg {
                Some(-mag)
            } else {
                Some(mag)
            }
        },
    }
}

proof fn lemma_pow10_positive(n: nat)
    ensures
        pow10(n) >= 1,
    decreases n,
{
    if n > 0 {
        lemma_pow10_positive((n - 1) as nat);
    }
}

proof fn lemma_pow10_step(n: nat)
    ensures
        pow10(n + 1) == pow10(n) * 10,
{
    assert(pow10(n + 1) == 10 * pow10(n));
}

proof fn lemma_digits_push(s: Seq<char>, c: char)
    ensures
        digits_value(s.push(c)) == digits_value(s) * 10 + digit_of(c),
{
    assert(s.push(c).drop_last() =~= s);
}

/// Scans the run of digits at `start`, folding them into a value that is
/// kept exact up to `cap` and saturates there.
fn scan_digits(s: &Vec<char>, start: usize, acc: u128, cap: u128, Ghost(pre): Ghost<Seq<char>>) -> (r: (
    usize,
    u128,
))
    requires
        start <= s@.len(),
        1 <= cap <= MAX_MILLI,
        acc as int == min_int(digits_value(pre), cap as int),
        digits_value(pre) >= 0,
    ensures
        r.0 as int == digit_run(s@, start as int),
        start <= r.0 <= s@.len(),
        r.1 as int == min_int(digits_value(pre + s@.subrange(start as int, r.0 as int)), cap as int),
        digits_value(pre + s@.subrange(start as int, r.0 as int)) >= 0,
        forall|j: int| start <= j < r.0 ==> is_digit(#[trigger] s@[j]),
{
    let mut i: usize = start;
    let mut a: u128 = acc;
    assert(pre + s@.subrange(start as int, start as int) =~= pre);
    while i < s.len() && '0' <= s[i] && s[i] <= '9'
        invariant
            start <= i <= s@.len(),
            1 <= cap <= MAX_MILLI,
            digit_run(s@, start as int) == digit_run(s@, i as int),
            a as int == min_int(digits_value(pre + s@.subrange(start as int, i as int)), cap as int),
            digits_value(pre + s@.subrange(start as int, i as int)) >= 0,
            forall|j: int| start <= j < i ==> is_digit(#[trigger] s@[j]),
        decreases s@.len() - i,
    {
        let c = s[i];
        let d: u128 = (c as u32 - 48) as u128;
        let ghost old_seq = pre + s@.subrange(start as int, i as int);
        let ghost new_seq = pre + s@.subrange(start as int, i + 1);
        proof {
            assert(new_seq =~= old_seq.push(c));
            lemma_digits_push(old_seq, c);
            let v = digits_value(old_seq);
            let dd = digit_of(c);
            assert(0 <= dd <= 9);
            assert(v >= cap ==> v * 10 + dd >= cap) by (nonlinear_arith)
                requires
                    v >= 0,
                    dd >= 0,
            ;
            assert(a <= cap);
            assert(a * 10 + dd <= cap * 10 + 9) by (nonlinear_arith)
                requires
                    a <= cap,
                    dd <= 9,
            ;
            assert(digits_value(new_seq) >= 0) by (nonlinear_arith)
                requires
                    digits_value(new_seq) == v * 10 + dd,
                    v >= 0,
                    dd >= 0,
            ;
        }
        let next = a * 10 + d;
        a = if next > cap {
            cap
        } else {
            next
        };
        i = i + 1;
    }
    (i, a)
}

/// Splits number text as `number_parts` does, with the mantissa saturated
/// just above `MAX_MANTISSA`.
#[verifier::rlimit(60)]
fn read_parts(s: &Vec<char>) -> (r: Option<(bool, u128, i128)>)
    ensures
        match r {
            Some((neg, m, e)) => match number_parts(s@) {
                Some((neg2, m2, e2)) => neg == neg2 && e == e2 && m as int == min_int(
                    m2,
                    MAX_MANTISSA + 1,
                ) && -100_000_000_000_000_000_000 <= e <= 1000,
                None => false,
            },
            None => number_parts(s@) is None,
        },
{
    let ghost g = s@;
    let neg = s.len() > 0 && s[0] == '-';
    let sign_end: usize = if neg {
        1
    } else {
        0
    };
    let cap: u128 = MAX_MANTISSA + 1;
    let (int_end, m1) = scan_digits(s, sign_end, 0, cap, Ghost(Seq::<char>::empty()));
    assert(Seq::<char>::empty() + g.subrange(sign_end as int, int_end as int) =~= g.subrange(sign_end as int, int_end as int));
    if int_end == sign_end {
        return None;
    }
    let has_frac = int_end < s.len() && s[int_end] == '.';
    let mut frac_end: usize = int_end;
    let mut m: u128 = m1;
    let mut frac: usize = 0;
    if has_frac {
        let (q, m2) = scan_digits(s, int_end + 1, m1, cap, Ghost(g.subrange(sign_end as int, int_end as int)));
        if q == int_end + 1 {
            return None;
        }
        frac_end = q;
        m = m2;
        frac = q - int_end - 1;
    }
    let has_exp = frac_end < s.len() && (s[frac_end] == 'e' || s[frac_end] == 'E');
    let mut k: i128 = 0 - frac as i128;
    if !has_exp {
        if frac_end != s.len() {
            return None;
        }
    } else {
        let exp_neg = frac_end + 1 < s.len() && s[frac_end + 1] == '-';
        let exp_start: usize = if frac_end + 1 < s.len() && (s[frac_end + 1] == '-' || s[frac_end + 1] == '+') {
            frac_end + 2
        } else {
            frac_end + 1
        };
        let (exp_end, e) = scan_digits(s, exp_start, 0, EXP_CAP, Ghost(Seq::<char>::empty()));
        assert(Seq::<char>::empty() + g.subrange(exp_start as int, exp_end as int) =~= g.subrange(exp_start as int, exp_end as int));
        if exp_end == exp_start || exp_end != s.len() {
            return None;
        }
        if exp_neg {
            k = k - e as i128;
        } else {
            k = k + e as i128;
        }
    }
    Some((neg, m, k))
}

/// Reads number text into thousandths (see `number_milli`).
pub fn parse_milli(text: &str) -> (r: Option<i128>)
    ensures
        match r {
            Some(v) => number_milli(text@) == Some(v as int),
            None => number_milli(text@) is None,
        },
{
    let s = crate::text::chars_of(text);
    match read_parts(&s) {
        None => None,
        Some((neg, m, e)) => {
            if m > MAX_MANTISSA {
                return None;
            }
            match scale(m, e + 3) {
                None => None,
                Some(v) => if neg {
                    Some(-(v as i128))
                } else {
                    Some(v as i128)
                },
            }
        },
    }
}

/// `m * 10^k`, rounded when `k` is negative (see `scaled`); `None` when the
/// result exceeds `MAX_MILLI`.
fn scale(m: u128, k: i128) -> (r: Option<u128>)
    requires
        m <= MAX_MANTISSA,
        -100_000_000_000_000_000_000 <= k <= 100_000,
    ensures
        match r {
            Some(v) => v as int == scaled(m as int, k as int) && v <= MAX_MILLI,
            None => scaled(m as int, k as int) > MAX_MILLI,
        },
{
    if k >= 0 {
        let mut a: u128 = m;
        let mut j: i128 = 0;
        proof {
            assert(pow10(0) == 1);
        }
        while j < k
            invariant
                0 <= j <= k,
                a as int == (m as int) * pow10(j as nat),
                a <= MAX_MILLI,
            decreases k - j,
        {
            proof {
                lemma_pow10_step(j as nat);
                assert((m as int) * pow10((j + 1) as nat) == a * 10) by (nonlinear_arith)
                    requires
                        a == (m as int) * pow10(j as nat),
                        pow10((j + 1) as nat) == pow10(j as nat) * 10,
                ;
            }
            if a > MAX_MILLI / 10 {
                proof {
                    lemma_scaled_grows(m as int, (j + 1) as nat, k as nat);
                }
                return None;
            }
            a = a * 10;
            j = j + 1;
        }
        Some(a)
    } else {
        let n: i128 = -k;
        let mut a: u128 = m;
        let mut j: i128 = 0;
        proof {
            assert(pow10(0) == 1);
        }
        while j < n - 1 && a > 0
            invariant
                0 <= j <= n - 1,
                n == -k,
                a as int == (m as int) / pow10(j as nat),
                m <= MAX_MANTISSA,
                a <= m,
            decreases n - j,
        {
            proof {
                lemma_pow10_step(j as nat);
                lemma_pow10_positive(j as nat);
                lemma_div_denominator(m as int, pow10(j as nat), 10);
            }
            a = a / 10;
            j = j + 1;
        }
        proof {
            if a == 0 && j < n - 1 {
                lemma_div_zero_stays(m as int, j as nat, (n - 1) as nat);
            }
        }
        Some((a + 5) / 10)
    }
}

proof fn lemma_scaled_grows(m: int, j: nat, k: nat)
    requires
        1 <= j <= k,
        m >= 0,
        m * pow10(j) > MAX_MILLI,
    ensures
        m * pow10(k) > MAX_MILLI,
    decreases k - j,
{
    if j < k {
        lemma_pow10_step(j);
        lemma_pow10_positive(j);
        assert(m * pow10(j + 1) >= m * pow10(j)) by (nonlinear_arith)
            requires
                pow10(j + 1) == pow10(j) * 10,
                pow10(j) >= 1,
                m >= 0,
        ;
        lemma_scaled_grows(m, j + 1, k);
    }
}

proof fn lemma_div_zero_stays(m: int, j: nat, n: nat)
    requires
        m >= 0,
        j <= n,
        m / pow10(j) == 0,
    ensures
        m / pow10(n) == 0,
    decreases n - j,
{
    if j < n {
        lemma_pow10_step(j);
        lemma_pow10_positive(j);
        lemma_div_denominator(m, pow10(j), 10);
        lemma_div_zero_stays(m, j + 1, n);
    }
}

} // verus!
