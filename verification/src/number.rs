//! Numbers as text: decimal notation, signed integers read from text, and file
//! sizes for people to read.
use vstd::arithmetic::power2::{lemma2_to64, lemma_pow2_unfold, pow2};
use vstd::prelude::*;
use crate::text::{chars_of, joined};

verus! {

// ---------------------------------------------------------------------------
// Decimal notation
// ---------------------------------------------------------------------------
/// The character of a decimal digit.
pub open spec fn digit_char(d: int) -> char {
    ((48 + d) as u32) as char
}

/// The decimal notation of a natural number, without leading zeros.
pub open spec fn decimal(n: nat) -> Seq<char>
    decreases n,
{
    if n < 10 {
        seq![digit_char(n as int)]
    } else {
        decimal(n / 10).push(digit_char((n % 10) as int))
    }
}

fn digit(d: u64) -> (c: char)
    requires
        d < 10,
    ensures
        c == digit_char(d as int),
{
    (48u8 + d as u8) as char
}

/// The decimal notation of `n`.
pub fn decimal_text(n: u64) -> (s: String)
    ensures
        s@ == decimal(n as nat),
    decreases n,
{
    if n < 10 {
        let mut s = String::new();
        s.push(digit(n));
        assert(s@ =~= seq![digit_char(n as int)]);
        s
    } else {
        let mut s = decimal_text(n / 10);
        s.push(digit(n % 10));
        s
    }
}

// ---------------------------------------------------------------------------
// Signed integers
// ---------------------------------------------------------------------------
/// Whether `c` is an ASCII digit.
pub open spec fn is_digit(c: char) -> bool {
    '0' <= c && c <= '9'
}

/// Whether a text consists of ASCII digits only.
pub open spec fn all_digits(s: Seq<char>) -> bool {
    forall|i: int| 0 <= i < s.len() ==> is_digit(#[trigger] s[i])
}

/// The number that a row of digits denotes.
pub open spec fn digits_value(s: Seq<char>) -> int
    decreases s.len(),
{
    if s.len() == 0 {
        0
    } else {
        10 * digits_value(s.drop_last()) + (s.last() as u32 - 48)
    }
}

/// The integer that a text denotes: an optional sign, then one or more digits
/// and nothing else.
pub open spec fn integer_of(s: Seq<char>) -> Option<int> {
    let signed = s.len() > 0 && (s[0] == '-' || s[0] == '+');
    let body = if signed {
        s.drop_first()
    } else {
        s
    };
    if body.len() == 0 || !all_digits(body) {
        None
    } else if signed && s[0] == '-' {
        Some(-digits_value(body))
    } else {
        Some(digits_value(body))
    }
}

/// The 64-bit signed integer that a text denotes, if it denotes one.
pub open spec fn i64_of(s: Seq<char>) -> Option<i64> {
    match integer_of(s) {
        Some(n) => if i64::MIN <= n <= i64::MAX {
            Some(n as i64)
        } else {
            None
        },
        None => None,
    }
}

proof fn lemma_digits_value_grows(s: Seq<char>, n: int)
    requires
        all_digits(s),
        0 <= n <= s.len(),
    ensures
        0 <= digits_value(s.take(n)) <= digits_value(s),
    decreases s.len(),
{
    if n == s.len() {
        assert(s.take(n) =~= s);
        if n > 0 {
            assert(s.drop_last() =~= s.take(n - 1));
            assert(is_digit(s[n - 1]));
            assert forall|i: int| 0 <= i < s.drop_last().len() implies is_digit(
                #[trigger] s.drop_last()[i],
            ) by {
                assert(is_digit(s[i]));
            }
            lemma_digits_value_grows(s.drop_last(), n - 1);
            assert(s.drop_last().take(n - 1) =~= s.drop_last());
        }
    } else {
        assert(is_digit(s[s.len() - 1]));
        assert forall|i: int| 0 <= i < s.drop_last().len() implies is_digit(
            #[trigger] s.drop_last()[i],
        ) by {
            assert(is_digit(s[i]));
        }
        lemma_digits_value_grows(s.drop_last(), n);
        assert(s.drop_last().take(n) =~= s.take(n));
    }
}

/// The 64-bit signed integer that `s` denotes.
pub fn parse_i64(s: &str) -> (r: Option<i64>)
    ensures
        r == i64_of(s@),
{
    let v = chars_of(s);
    if v.len() == 0 {
        return None;
    }
    let signed = v[0] == '-' || v[0] == '+';
    let negative = v[0] == '-';
    let first: usize = if signed {
        1
    } else {
        0
    };
    let ghost body = v@.skip(first as int);
    assert(body =~= (if signed {
        s@.drop_first()
    } else {
        s@
    }));
    if v.len() == first {
        return None;
    }
    let mut value: u128 = 0;
    let mut i: usize = first;
    while i < v.len()
        invariant
            v@ == s@,
            signed == (s@.len() > 0 && (s@[0] == '-' || s@[0] == '+')),
            first == (if signed {
                1int
            } else {
                0int
            }),
            body == v@.skip(first as int),
            body == (if signed {
                s@.drop_first()
            } else {
                s@
            }),
            first <= i <= v.len(),
            value <= 0x8000_0000_0000_0000,
            all_digits(body.take(i - first)),
            value == digits_value(body.take(i - first)),
        decreases v.len() - i,
    {
        let c = v[i];
        assert(c == body[i - first]);
        if !('0' <= c && c <= '9') {
            assert(!all_digits(body));
            return None;
        }
        assert(body.take(i - first + 1).drop_last() =~= body.take(i - first));
        assert forall|j: int| 0 <= j < i - first + 1 implies is_digit(
            #[trigger] body.take(i - first + 1)[j],
        ) by {
            if j < i - first {
                assert(is_digit(body.take(i - first)[j]));
            }
        }
        value = 10 * value + (c as u32 - 48) as u128;
        i = i + 1;
        if value > 0x8000_0000_0000_0000 {
            proof {
                if all_digits(body) {
                    lemma_digits_value_grows(body, i - first);
                }
            }
            return None;
        }
    }
    assert(body.take(i - first) =~= body);
    if negative {
        if value == 0x8000_0000_0000_0000 {
            Some(i64::MIN)
        } else {
            Some(-(value as i64))
        }
    } else if value <= 0x7fff_ffff_ffff_ffff {
        Some(value as i64)
    } else {
        None
    }
}

// ---------------------------------------------------------------------------
// Sizes
// ---------------------------------------------------------------------------
/// Bytes in a kilobyte.
pub const KB: u64 = 1024;

/// Bytes in a megabyte.
pub const MB: u64 = 1048576;

/// Bytes in a gigabyte.
pub const GB: u64 = 1073741824;

/// The integer nearest to `a / b`; of two equally near, the even one.
pub open spec fn nearest_quotient(a: nat, b: nat) -> nat {
    let q = a / b;
    let r = a % b;
    if 2 * r < b || (2 * r == b && q % 2 == 0) {
        q
    } else {
        q + 1
    }
}

/// The distance between neighbouring double-precision numbers at the magnitude
/// of the integer `n`, where that distance is at least one.
pub open spec fn double_spacing(n: nat) -> nat
    decreases n,
{
    if n < 0x20_0000_0000_0000 {
        1
    } else {
        2 * double_spacing(n / 2)
    }
}

/// The double-precision number nearest to the integer `n`.
pub open spec fn nearest_double(n: nat) -> nat {
    nearest_quotient(n, double_spacing(n)) * double_spacing(n)
}

/// A number of hundredths with two places behind the point.
pub open spec fn two_places(hundredths: nat) -> Seq<char> {
    decimal(hundredths / 100) + seq![
        '.',
        digit_char((hundredths % 100 / 10) as int),
        digit_char((hundredths % 10) as int),
    ]
}

/// A file size in the largest unit that it reaches: in bytes as it is, in the
/// larger units as the double-precision number nearest to the byte count,
/// divided by the unit and rounded to two places.
pub open spec fn size_text(size: nat) -> Seq<char> {
    if size >= GB {
        two_places(nearest_quotient(nearest_double(size) * 100, GB as nat)) + " GB"@
    } else if size >= MB {
        two_places(nearest_quotient(nearest_double(size) * 100, MB as nat)) + " MB"@
    } else if size >= KB {
        two_places(nearest_quotient(nearest_double(size) * 100, KB as nat)) + " KB"@
    } else {
        decimal(size) + " B"@
    }
}

fn nearest_division(a: u128, b: u128) -> (q: u128)
    requires
        0 < b < 0x1_0000_0000_0000_0000,
        a < 0x1_0000_0000_0000_0000_0000_0000,
    ensures
        q == nearest_quotient(a as nat, b as nat),
{
    let q: u128 = a / b;
    let r: u128 = a % b;
    assert(q <= a) by (nonlinear_arith)
        requires
            q == a / b,
            b > 0,
    ;
    if 2 * r < b || (2 * r == b && q % 2 == 0) {
        q
    } else {
        q + 1
    }
}

proof fn lemma_double_spacing(n: nat)
    requires
        n <= u64::MAX,
    ensures
        1 <= double_spacing(n) <= 4096,
        n >= 0x20_0000_0000_0000 ==> double_spacing(n) * 0x10_0000_0000_0000 <= n,
        n < double_spacing(n) * 0x20_0000_0000_0000,
    decreases n,
{
    if n >= 0x20_0000_0000_0000 {
        lemma_double_spacing(n / 2);
    }
}

fn spacing_of_doubles(n: u64) -> (s: u64)
    ensures
        s == double_spacing(n as nat),
        1 <= s <= 4096,
    decreases n,
{
    proof {
        lemma_double_spacing(n as nat);
    }
    if n < 0x20_0000_0000_0000 {
        1
    } else {
        proof {
            lemma_double_spacing((n / 2) as nat);
        }
        2 * spacing_of_doubles(n / 2)
    }
}

fn hundredths_of(size: u64, unit: u64) -> (h: u64)
    requires
        1024 <= unit <= 0x4000_0000,
    ensures
        h == nearest_quotient(nearest_double(size as nat) * 100, unit as nat),
{
    let spacing: u64 = spacing_of_doubles(size);
    let steps: u128 = nearest_division(size as u128, spacing as u128);
    proof {
        lemma_double_spacing(size as nat);
        assert(steps <= size / spacing + 1);
        assert((size / spacing) * spacing <= size) by (nonlinear_arith)
            requires
                spacing > 0,
        ;
        assert(steps * spacing <= size + spacing) by (nonlinear_arith)
            requires
                steps <= size / spacing + 1,
                (size / spacing) * spacing <= size,
                spacing > 0,
        ;
    }
    let double: u128 = steps * spacing as u128;
    let h: u128 = nearest_division(double * 100, unit as u128);
    assert(h <= (double * 100) / (unit as int) + 1);
    assert((double * 100) / (unit as int) <= double * 100 / 1024) by (nonlinear_arith)
        requires
            unit >= 1024,
            double >= 0,
    ;
    h as u64
}

fn two_place_text(hundredths: u64) -> (s: String)
    ensures
        s@ == two_places(hundredths as nat),
{
    let mut s = decimal_text(hundredths / 100);
    s.push('.');
    s.push(digit(hundredths % 100 / 10));
    s.push(digit(hundredths % 10));
    assert(s@ =~= two_places(hundredths as nat));
    s
}

/// A file size for people to read.
pub fn human_readable_size(size: u64) -> (s: String)
    ensures
        s@ == size_text(size as nat),
{
    if size >= GB {
        joined(two_place_text(hundredths_of(size, GB)).as_str(), " GB")
    } else if size >= MB {
        joined(two_place_text(hundredths_of(size, MB)).as_str(), " MB")
    } else if size >= KB {
        joined(two_place_text(hundredths_of(size, KB)).as_str(), " KB")
    } else {
        joined(decimal_text(size).as_str(), " B")
    }
}

// ---------------------------------------------------------------------------
// Laws
// ---------------------------------------------------------------------------
/// The decimal notation of a number consists of digits and denotes that number.
pub proof fn law_decimal_reads_back(n: nat)
    ensures
        decimal(n).len() > 0,
        all_digits(decimal(n)),
        digits_value(decimal(n)) == n,
        integer_of(decimal(n)) == Some(n as int),
    decreases n,
{
    let s = decimal(n);
    if n < 10 {
        assert(s.drop_last() =~= seq![]);
        assert(digits_value(s.drop_last()) == 0);
        assert(s.last() as u32 == 48 + n);
    } else {
        law_decimal_reads_back(n / 10);
        assert(s.drop_last() =~= decimal(n / 10));
        assert(s.last() as u32 == 48 + n % 10);
        assert forall|i: int| 0 <= i < s.len() implies is_digit(#[trigger] s[i]) by {
            if i < s.len() - 1 {
                assert(s[i] == decimal(n / 10)[i]);
            } else {
                assert(s[i] == digit_char((n % 10) as int));
            }
        }
    }
    assert(is_digit(s[0]));
}

/// Below eight pebibytes no precision is lost: the text shows the size itself,
/// rounded once.
pub proof fn law_usual_sizes_are_exact(size: nat)
    requires
        size < 0x20_0000_0000_0000,
    ensures
        nearest_double(size) == size,
{
    assert(double_spacing(size) == 1);
    assert(size / 1 == size && size % 1 == 0);
}

/// Decimal notation is positional: ten digits, and a digit more at the end makes
/// ten times the number and the digit.
pub proof fn law_decimal_is_positional(n: nat, d: int)
    requires
        0 <= d < 10,
    ensures
        decimal(d as nat) == seq!["0123456789"@[d]],
        n > 0 ==> decimal((10 * n + d) as nat) == decimal(n).push("0123456789"@[d]),
{
    reveal_strlit("0123456789");
    assert(digit_char(d) == "0123456789"@[d]);
    if n > 0 {
        let m = (10 * n + d) as nat;
        assert(m / 10 == n && m % 10 == d);
    }
}

proof fn lemma_sign_in_front(c: char, s: Seq<char>)
    ensures
        (seq![c] + s).drop_first() == s,
        (seq![c] + s)[0] == c,
{
    assert((seq![c] + s).drop_first() =~= s);
}

/// What decimal notation denotes is read back, with a sign or without one, unless
/// it is beyond 64 bits.
pub proof fn law_decimal_integers_are_read(n: nat)
    ensures
        i64_of(decimal(n)) == (if n <= 0x7fff_ffff_ffff_ffff {
            Some(n as i64)
        } else {
            None
        }),
        i64_of(seq!['+'] + decimal(n)) == i64_of(decimal(n)),
        i64_of(seq!['-'] + decimal(n)) == (if n <= 0x8000_0000_0000_0000 {
            Some((-n) as i64)
        } else {
            None
        }),
{
    law_decimal_reads_back(n);
    lemma_sign_in_front('+', decimal(n));
    lemma_sign_in_front('-', decimal(n));
}

proof fn lemma_zero_in_front(s: Seq<char>)
    requires
        all_digits(s),
    ensures
        all_digits(seq!['0'] + s),
        digits_value(seq!['0'] + s) == digits_value(s),
    decreases s.len(),
{
    let t = seq!['0'] + s;
    assert forall|i: int| 0 <= i < t.len() implies is_digit(#[trigger] t[i]) by {
        if i > 0 {
            assert(is_digit(s[i - 1]));
        }
    }
    if s.len() == 0 {
        assert(t.drop_last() =~= seq![]);
        assert(digits_value(t.drop_last()) == 0);
        assert(t.last() == '0');
    } else {
        let rest = s.drop_last();
        assert forall|i: int| 0 <= i < rest.len() implies is_digit(#[trigger] rest[i]) by {
            assert(is_digit(s[i]));
        }
        assert(t.drop_last() =~= seq!['0'] + rest);
        assert(t.last() == s.last());
        lemma_zero_in_front(rest);
    }
}

/// Zeros in front of the digits of a number change nothing.
pub proof fn law_leading_zeros_do_not_matter(digits: Seq<char>)
    requires
        digits.len() > 0,
        forall|i: int| 0 <= i < digits.len() ==> '0' <= #[trigger] digits[i] <= '9',
    ensures
        i64_of(seq!['0'] + digits) == i64_of(digits),
        i64_of(seq!['+', '0'] + digits) == i64_of(seq!['+'] + digits),
        i64_of(seq!['-', '0'] + digits) == i64_of(seq!['-'] + digits),
{
    assert(all_digits(digits));
    lemma_zero_in_front(digits);
    let longer = seq!['0'] + digits;
    assert(is_digit(longer[0]) && is_digit(digits[0]));
    assert(seq!['+', '0'] + digits =~= seq!['+'] + longer);
    assert(seq!['-', '0'] + digits =~= seq!['-'] + longer);
    lemma_sign_in_front('+', longer);
    lemma_sign_in_front('-', longer);
    lemma_sign_in_front('+', digits);
    lemma_sign_in_front('-', digits);
}

/// Nothing is read as an integer but one or more digits behind at most one sign.
pub proof fn law_only_integers_are_read(s: Seq<char>)
    requires
        i64_of(s) is Some,
    ensures
        s.len() > 0,
        '0' <= s.last() <= '9',
        s[0] == '+' || s[0] == '-' || '0' <= s[0] <= '9',
        forall|i: int| 1 <= i < s.len() ==> '0' <= #[trigger] s[i] <= '9',
{
    let signed = s[0] == '-' || s[0] == '+';
    let body = if signed {
        s.drop_first()
    } else {
        s
    };
    assert(body.last() == s.last());
    assert(is_digit(body[body.len() - 1]));
    assert forall|i: int| 1 <= i < s.len() implies '0' <= #[trigger] s[i] <= '9' by {
        assert(is_digit(body[if signed {
            i - 1
        } else {
            i
        }]));
    }
    if !signed {
        assert(is_digit(body[0]));
    }
}

/// A quotient that is rounded is off by at most half of one, and even where it is
/// off by just half.
pub proof fn law_quotient_is_nearest(a: nat, b: nat)
    requires
        b > 0,
    ensures
        ({
            let q = nearest_quotient(a, b);
            &&& -b <= 2 * (q * b - a) <= b
            &&& 2 * (q * b - a) == b || 2 * (q * b - a) == -b ==> q % 2 == 0
        }),
{
    let q = a / b;
    let r = a % b;
    assert(a == b * q + r && 0 <= r < b) by (nonlinear_arith)
        requires
            q == a / b,
            r == a % b,
            b > 0,
    ;
    assert(b * q == q * b) by (nonlinear_arith);
    assert((q + 1) * b == q * b + b) by (nonlinear_arith);
}

/// The double-precision number nearest to an integer has a mantissa of 53 bits,
/// is off by at most half the distance to its neighbours, and has an even mantissa
/// where it is off by just half. The result is the exponent.
pub proof fn law_double_is_nearest(n: nat) -> (exponent: nat)
    ensures
        ({
            let unit = pow2(exponent);
            let d = nearest_double(n);
            &&& exponent == 0 || unit * 0x10_0000_0000_0000 <= n
            &&& n < unit * 0x20_0000_0000_0000
            &&& exists|mantissa: nat|
                d == #[trigger] (mantissa * unit) && (2 * (d - n) == unit || 2 * (d - n) == -unit
                    ==> mantissa % 2 == 0)
            &&& -unit <= 2 * (d - n) <= unit
        }),
{
    let exponent = lemma_spacing_is_a_power(n);
    let unit = pow2(exponent);
    law_quotient_is_nearest(n, unit);
    let mantissa = nearest_quotient(n, unit);
    assert(nearest_double(n) == mantissa * unit);
    exponent
}

proof fn lemma_spacing_is_a_power(n: nat) -> (exponent: nat)
    ensures
        double_spacing(n) == pow2(exponent),
        pow2(exponent) > 0,
        exponent == 0 || pow2(exponent) * 0x10_0000_0000_0000 <= n,
        n < pow2(exponent) * 0x20_0000_0000_0000,
    decreases n,
{
    if n < 0x20_0000_0000_0000 {
        lemma2_to64();
        0
    } else {
        let half = lemma_spacing_is_a_power(n / 2);
        lemma_pow2_unfold(half + 1);
        if half == 0 {
            lemma2_to64();
        }
        half + 1
    }
}

/// A size is shown in the largest unit that it reaches, rounded to the nearest
/// hundredth of it. The result is the number of hundredths.
pub proof fn law_size_is_shown_in_hundredths(size: nat) -> (hundredths: nat)
    ensures
        size < 1024 ==> size_text(size) == decimal(size) + " B"@,
        size >= 1024 ==> {
            let (unit, name) = if size >= 1024 * 1024 * 1024 {
                (1024 * 1024 * 1024, " GB"@)
            } else if size >= 1024 * 1024 {
                (1024 * 1024, " MB"@)
            } else {
                (1024nat, " KB"@)
            };
            let off = hundredths * unit - 100 * nearest_double(size);
            &&& size_text(size) == decimal(hundredths / 100) + seq![
                '.',
                "0123456789"@[(hundredths / 10 % 10) as int],
                "0123456789"@[(hundredths % 10) as int],
            ] + name
            &&& -unit <= 2 * off <= unit
            &&& 2 * off == unit || 2 * off == -unit ==> hundredths % 2 == 0
        },
{
    if size < 1024 {
        0
    } else {
        let unit: nat = if size >= GB {
            GB as nat
        } else if size >= MB {
            MB as nat
        } else {
            KB as nat
        };
        let a = nearest_double(size) * 100;
        let h = nearest_quotient(a, unit);
        law_quotient_is_nearest(a, unit);
        reveal_strlit("0123456789");
        assert(h % 100 / 10 == h / 10 % 10);
        assert(digit_char((h % 100 / 10) as int) == "0123456789"@[(h / 10 % 10) as int]);
        assert(digit_char((h % 10) as int) == "0123456789"@[(h % 10) as int]);
        h
    }
}

} // verus!
