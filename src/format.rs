//! Fixed-width text for telemetry values held in thousandths: sensor
//! readings with three decimals, throughput with one decimal and a scale
//! suffix, and regulator status words in hexadecimal.
use vstd::prelude::*;
use crate::text::push_char;

verus! {

/// The text a value out of range for `format_rate` shows.
pub const RATE_PLACEHOLDER: &'static str = "*******";

pub open spec fn digit_char(d: int) -> char {
    seq!['0', '1', '2', '3', '4', '5', '6', '7', '8', '9'][d]
}

pub open spec fn hex_char(d: int) -> char {
    seq!['0', '1', '2', '3', '4', '5', '6', '7', '8', '9', 'a', 'b', 'c', 'd', 'e', 'f'][d]
}

/// The decimal digits of `n`, without leading zeros.
pub open spec fn nat_text(n: nat) -> Seq<char>
    decreases n,
{
    if n < 10 {
        seq![digit_char(n as int)]
    } else {
        nat_text(n / 10).push(digit_char((n % 10) as int))
    }
}

/// The lowercase hexadecimal digits of `n`, at least `w` of them.
pub open spec fn hex_text(n: nat, w: nat) -> Seq<char>
    decreases w, n,
{
    if n < 16 && w <= 1 {
        seq![hex_char(n as int)]
    } else {
        hex_text(n / 16, if w > 0 {
            (w - 1) as nat
        } else {
            0
        }).push(hex_char((n % 16) as int))
    }
}

/// `s` right-justified in a field of `w` characters.
pub open spec fn pad_left(s: Seq<char>, w: nat) -> Seq<char> {
    if s.len() >= w {
        s
    } else {
        Seq::new((w - s.len()) as nat, |i: int| ' ') + s
    }
}

/// A non-negative value in thousandths divided by `unit` thousandths and
/// rounded to the nearest tenth (halves up), in tenths.
pub open spec fn tenths(v: nat, unit: nat) -> nat {
    (v + unit / 20) / (unit / 10)
}

/// A non-negative value in thousandths with one decimal, after dividing it
/// by `unit` thousandths (rounded to the nearest tenth).
pub open spec fn one_decimal(v: nat, unit: nat) -> Seq<char> {
    nat_text(tenths(v, unit) / 10) + seq!['.', digit_char((tenths(v, unit) % 10) as int)]
}

/// A non-negative value in thousandths with three decimals.
pub open spec fn three_decimals(v: nat) -> Seq<char> {
    nat_text(v / 1000) + seq![
        '.',
        digit_char((v / 100 % 10) as int),
        digit_char((v / 10 % 10) as int),
        digit_char((v % 10) as int),
    ]
}

/// The fraction of a value in thousandths with its trailing zeros dropped
/// (nothing at all for a whole value).
pub open spec fn trimmed_fraction(r: nat) -> Seq<char> {
    if r == 0 {
        Seq::empty()
    } else if r % 100 == 0 {
        seq!['.', digit_char((r / 100) as int)]
    } else if r % 10 == 0 {
        seq!['.', digit_char((r / 100) as int), digit_char((r / 10 % 10) as int)]
    } else {
        seq![
            '.',
            digit_char((r / 100) as int),
            digit_char((r / 10 % 10) as int),
            digit_char((r % 10) as int),
        ]
    }
}

pub open spec fn abs(v: int) -> nat {
    if v < 0 {
        (-v) as nat
    } else {
        v as nat
    }
}

/// The shortest plain decimal text of a value in thousandths.
pub open spec fn plain_text(v: int) -> Seq<char> {
    (if v < 0 {
        seq!['-']
    } else {
        Seq::empty()
    }) + nat_text(abs(v) / 1000) + trimmed_fraction(abs(v) % 1000)
}

/// Sensor text: values in [0, 1000) with three decimals right-justified in
/// eight columns; any other value in plain decimal text of no fixed width.
pub open spec fn spec_format_sensor(v: int) -> Seq<char> {
    if 0 <= v < 1_000_000 {
        pad_left(three_decimals(v as nat), 8)
    } else {
        plain_text(v)
    }
}

/// The scale a rate is shown in: 0 plain, 1 thousands, 2 millions,
/// 3 billions, 4 out of range.
pub open spec fn rate_scale(v: int) -> int {
    if v < 0 {
        4
    } else if v < 1_000_000 {
        0
    } else if v < 1_000_000_000 {
        1
    } else if v < 1_000_000_000_000 {
        2
    } else if v < 1_000_000_000_000_000 {
        3
    } else {
        4
    }
}

/// Rate text, seven columns for values up to 10^12: one decimal, with the
/// suffix K, M or G from 10^3, 10^6 and 10^9 on; seven asterisks outside
/// [0, 10^12).
pub open spec fn spec_format_rate(v: int) -> Seq<char> {
    let s = rate_scale(v);
    if s == 0 {
        pad_left(one_decimal(v as nat, 1000), 7)
    } else if s == 1 {
        pad_left(one_decimal(v as nat, 1_000_000), 6).push('K')
    } else if s == 2 {
        pad_left(one_decimal(v as nat, 1_000_000_000), 6).push('M')
    } else if s == 3 {
        pad_left(one_decimal(v as nat, 1_000_000_000_000), 6).push('G')
    } else {
        RATE_PLACEHOLDER@
    }
}

/// Status text: `0x` and at least six lowercase hexadecimal digits.
pub open spec fn spec_format_status(n: u32) -> Seq<char> {
    seq!['0', 'x'] + hex_text(n as nat, 6)
}

fn digit(d: u128) -> (c: char)
    requires
        d < 16,
    ensures
        d < 10 ==> c == digit_char(d as int),
        c == hex_char(d as int),
{
    let digits: [char; 16] = [
        '0',
        '1',
        '2',
        '3',
        '4',
        '5',
        '6',
        '7',
        '8',
        '9',
        'a',
        'b',
        'c',
        'd',
        'e',
        'f',
    ];
    digits[d as usize]
}

fn push_nat(s: &mut String, n: u128)
    ensures
        final(s)@ == old(s)@ + nat_text(n as nat),
    decreases n,
{
    if n >= 10 {
        push_nat(s, n / 10);
    }
    push_char(s, digit(n % 10));
    proof {
        if n >= 10 {
            assert(old(s)@ + nat_text(n as nat) =~= old(s)@ + nat_text((n / 10) as nat) + seq![
                digit_char((n % 10) as int),
            ]);
        } else {
            assert(old(s)@ + nat_text(n as nat) =~= old(s)@ + seq![digit_char((n % 10) as int)]);
        }
    }
}

fn push_hex(s: &mut String, n: u128, w: u128)
    ensures
        final(s)@ == old(s)@ + hex_text(n as nat, w as nat),
    decreases w, n,
{
    if !(n < 16 && w <= 1) {
        push_hex(
            s,
            n / 16,
            if w > 0 {
                w - 1
            } else {
                0
            },
        );
    }
    push_char(s, digit(n % 16));
    proof {
        assert(old(s)@ + hex_text(n as nat, w as nat) =~= old(s)@ + hex_text(
            (n / 16) as nat,
            if w > 0 {
                (w - 1) as nat
            } else {
                0
            },
        ) + seq![hex_char((n % 16) as int)] || (n < 16 && w <= 1));
    }
}

/// `content` right-justified in `w` columns.
fn padded(content: String, w: usize) -> (r: String)
    ensures
        r@ == pad_left(content@, w as nat),
{
    let len = content.as_str().unicode_len();
    if len >= w {
        return content;
    }
    let mut r = String::new();
    let mut i: usize = 0;
    while i < w - len
        invariant
            len == content@.len(),
            len < w,
            i <= w - len,
            r@ == Seq::new(i as nat, |k: int| ' '),
        decreases w - len - i,
    {
        push_char(&mut r, ' ');
        i = i + 1;
        assert(r@ =~= Seq::new(i as nat, |k: int| ' '));
    }
    r.append(content.as_str());
    r
}

fn one_decimal_text(v: u128, unit: u128) -> (r: String)
    requires
        unit >= 20,
        v <= 1_000_000_000_000_000,
        unit <= 1_000_000_000_000,
    ensures
        r@ == one_decimal(v as nat, unit as nat),
{
    let t = (v + unit / 20) / (unit / 10);
    let mut s = String::new();
    push_nat(&mut s, t / 10);
    push_char(&mut s, '.');
    push_char(&mut s, digit(t % 10));
    assert(s@ =~= one_decimal(v as nat, unit as nat));
    s
}

/// Formats a sensor reading given in thousandths (see `spec_format_sensor`).
pub fn format_sensor(v: i128) -> (r: String)
    ensures
        r@ == spec_format_sensor(v as int),
{
    if 0 <= v && v < 1_000_000 {
        let u = v as u128;
        let mut s = String::new();
        push_nat(&mut s, u / 1000);
        push_char(&mut s, '.');
        push_char(&mut s, digit(u / 100 % 10));
        push_char(&mut s, digit(u / 10 % 10));
        push_char(&mut s, digit(u % 10));
        assert(s@ =~= three_decimals(u as nat));
        padded(s, 8)
    } else {
        let mut s = String::new();
        let a: u128 = if v < 0 {
            push_char(&mut s, '-');
            (-(v + 1)) as u128 + 1
        } else {
            v as u128
        };
        assert(a as nat == abs(v as int));
        push_nat(&mut s, a / 1000);
        let ghost head = s@;
        let rem = a % 1000;
        if rem != 0 {
            push_char(&mut s, '.');
            push_char(&mut s, digit(rem / 100));
            if rem % 100 != 0 {
                push_char(&mut s, digit(rem / 10 % 10));
                if rem % 10 != 0 {
                    push_char(&mut s, digit(rem % 10));
                }
            }
        }
        assert(s@ =~= head + trimmed_fraction(rem as nat));
        assert(s@ =~= plain_text(v as int));
        s
    }
}

/// Formats a rate given in thousandths (see `spec_format_rate`).
pub fn format_rate(v: i128) -> (r: String)
    ensures
        r@ == spec_format_rate(v as int),
{
    if v < 0 || v >= 1_000_000_000_000_000 {
        proof {
            reveal_strlit("*******");
        }
        return String::from_str(RATE_PLACEHOLDER);
    }
    let u = v as u128;
    if u < 1_000_000 {
        padded(one_decimal_text(u, 1000), 7)
    } else {
        let (unit, suffix) = if u < 1_000_000_000 {
            (1_000_000u128, 'K')
        } else if u < 1_000_000_000_000 {
            (1_000_000_000u128, 'M')
        } else {
            (1_000_000_000_000u128, 'G')
        };
        let mut s = padded(one_decimal_text(u, unit), 6);
        push_char(&mut s, suffix);
        s
    }
}

/// Formats a regulator status word (see `spec_format_status`).
pub fn format_status(n: u32) -> (r: String)
    ensures
        r@ == spec_format_status(n),
{
    let mut s = String::new();
    push_char(&mut s, '0');
    push_char(&mut s, 'x');
    push_hex(&mut s, n as u128, 6);
    assert(s@ =~= seq!['0', 'x'] + hex_text(n as nat, 6));
    s
}

/// The scale a rate is shown in never shrinks as the rate grows over
/// non-negative values.
pub proof fn lemma_rate_scale_monotonic(a: int, b: int)
    requires
        0 <= a <= b,
    ensures
        rate_scale(a) <= rate_scale(b),
{
}

/// Below 10^3 a rate is shown plain; from 10^3 up to 10^6 it carries `K`,
/// up to 10^9 `M`, up to 10^12 `G`.
pub proof fn lemma_rate_suffix(v: int)
    requires
        0 <= v < 1_000_000_000_000_000,
    ensures
        rate_scale(v) == 0 ==> spec_format_rate(v).last() != 'K' && spec_format_rate(v).last() != 'M'
            && spec_format_rate(v).last() != 'G',
        rate_scale(v) == 1 ==> spec_format_rate(v).last() == 'K',
        rate_scale(v) == 2 ==> spec_format_rate(v).last() == 'M',
        rate_scale(v) == 3 ==> spec_format_rate(v).last() == 'G',
{
    if rate_scale(v) == 0 {
        let t = one_decimal(v as nat, 1000);
        assert(t.last() == digit_char((tenths(v as nat, 1000) % 10) as int));
        assert(pad_left(t, 7).last() == t.last());
    }
}

} // verus!
