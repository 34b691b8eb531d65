//! Verified parsing of integer and decimal literals, matching the grammar of
//! Rust's integer `from_str` (an optional sign followed by one or more ASCII
//! digits) and, for decimals, an optional sign followed by digits with at most
//! one decimal point.

use vstd::prelude::*;

use crate::text::digit_value;
use crate::text::is_digit_char;

verus! {

/// Every character in `s` is an ASCII decimal digit.
pub open spec fn all_digit_chars(s: Seq<char>) -> bool {
    forall|i: int| 0 <= i < s.len() ==> #[trigger] is_digit_char(s[i])
}

/// The value of a string of decimal digits, most significant first.
pub open spec fn digits_value(s: Seq<char>) -> nat
    decreases s.len(),
{
    if s.len() == 0 {
        0
    } else {
        10 * digits_value(s.drop_last()) + digit_value(s.last())
    }
}

/// The digits of an integer literal: everything after an optional leading
/// sign.
pub open spec fn int_body(s: Seq<char>) -> Seq<char> {
    if s.len() > 0 && (s[0] == '+' || s[0] == '-') {
        s.subrange(1, s.len() as int)
    } else {
        s
    }
}

/// Whether the literal carries a minus sign.
pub open spec fn int_is_negative(s: Seq<char>) -> bool {
    s.len() > 0 && s[0] == '-'
}

/// The grammar of integer literals accepted by Rust's `from_str` for integer
/// types: an optional `+` or `-`, then one or more ASCII digits.
pub open spec fn is_int_literal(s: Seq<char>) -> bool {
    int_body(s).len() > 0 && all_digit_chars(int_body(s))
}

/// The mathematical value of an integer literal.
pub open spec fn int_value(s: Seq<char>) -> int {
    if int_is_negative(s) {
        -(digits_value(int_body(s)) as int)
    } else {
        digits_value(int_body(s)) as int
    }
}

/// The value of a digit string never shrinks when digits are appended: a
/// prefix's value bounds the whole string's value from below.
pub proof fn lemma_digits_value_prefix_le(s: Seq<char>, j: int)
    requires
        0 <= j <= s.len(),
    ensures
        digits_value(s.subrange(0, j)) <= digits_value(s),
    decreases s.len(),
{
    if j == s.len() {
        assert(s.subrange(0, j) =~= s);
    } else {
        assert(s.drop_last() =~= s.subrange(0, s.len() - 1));
        assert(s.subrange(0, j) =~= s.drop_last().subrange(0, j));
        lemma_digits_value_prefix_le(s.drop_last(), j);
    }
}

/// Reads the digit span `[from, to)` of `s` as a decimal number. Returns the
/// value when the span is a nonempty run of digits whose value is at most
/// `limit`, and `None` otherwise.
pub fn parse_digits(s: &[char], from: usize, to: usize, limit: u64) -> (r: Option<u64>)
    requires
        from <= to <= s@.len(),
    ensures
        ({
            let span = s@.subrange(from as int, to as int);
            match r {
                Some(v) => span.len() > 0 && all_digit_chars(span) && v == digits_value(span) && v
                    <= limit,
                None => !(span.len() > 0 && all_digit_chars(span) && digits_value(span) <= limit),
            }
        }),
{
    let ghost span = s@.subrange(from as int, to as int);
    if from == to {
        return None;
    }
    let mut acc: u64 = 0;
    let mut i = from;
    while i < to
        invariant
            from <= i <= to <= s@.len(),
            span == s@.subrange(from as int, to as int),
            all_digit_chars(span.subrange(0, i - from)),
            acc == digits_value(span.subrange(0, i - from)),
            acc <= limit,
        decreases to - i,
    {
        let c = s[i];
        let ghost prefix = span.subrange(0, i - from);
        let ghost prefix2 = span.subrange(0, i + 1 - from);
        proof {
            assert(prefix2.drop_last() =~= prefix);
            assert(prefix2.last() == s@[i as int]);
        }
        if !crate::text::char_is_digit(c) {
            proof {
                assert(span[i - from] == c);
            }
            return None;
        }
        let d = crate::text::char_digit_value(c);
        // `acc * 10 + d` stays within `limit` exactly when
        // `acc <= (limit - d) / 10`.
        if (d as u64) > limit || acc > (limit - d as u64) / 10 {
            proof {
                assert(digits_value(prefix2) == 10 * acc + d);
                assert(10 * acc + d > limit) by (nonlinear_arith)
                    requires
                        d < 10,
                        (d as u64) > limit || acc > (limit - d as u64) / 10,
                        acc <= limit,
                        limit <= u64::MAX,
                {}
                lemma_digits_value_prefix_le(span, i + 1 - from);
            }
            return None;
        }
        proof {
            assert(10 * acc + d <= limit) by (nonlinear_arith)
                requires
                    d < 10,
                    (d as u64) <= limit,
                    acc <= (limit - d as u64) / 10,
            {}
        }
        acc = acc * 10 + d as u64;
        i = i + 1;
    }
    proof {
        assert(span.subrange(0, to - from) =~= span);
    }
    Some(acc)
}

/// Parses `s` as Rust's `i64::from_str` does: `Some` exactly when `s` is an
/// integer literal whose value fits in an `i64`.
pub fn parse_i64(s: &[char]) -> (r: Option<i64>)
    ensures
        match r {
            Some(v) => is_int_literal(s@) && v == int_value(s@),
            None => !(is_int_literal(s@) && i64::MIN <= int_value(s@) <= i64::MAX),
        },
{
    let n = s.len();
    let (neg, start): (bool, usize) = if n > 0 && (s[0] == '+' || s[0] == '-') {
        (s[0] == '-', 1)
    } else {
        (false, 0)
    };
    proof {
        assert(int_body(s@) =~= s@.subrange(start as int, n as int));
    }
    let limit: u64 = if neg {
        9223372036854775808u64
    } else {
        9223372036854775807u64
    };
    match parse_digits(s, start, n, limit) {
        Some(v) => {
            if neg {
                if v == 9223372036854775808u64 {
                    Some(i64::MIN)
                } else {
                    Some(-(v as i64))
                }
            } else {
                Some(v as i64)
            }
        },
        None => None,
    }
}

/// Parses `s` as Rust's `i32::from_str` does.
pub fn parse_i32(s: &[char]) -> (r: Option<i32>)
    ensures
        match r {
            Some(v) => is_int_literal(s@) && v == int_value(s@),
            None => !(is_int_literal(s@) && i32::MIN <= int_value(s@) <= i32::MAX),
        },
{
    let n = s.len();
    let (neg, start): (bool, usize) = if n > 0 && (s[0] == '+' || s[0] == '-') {
        (s[0] == '-', 1)
    } else {
        (false, 0)
    };
    proof {
        assert(int_body(s@) =~= s@.subrange(start as int, n as int));
    }
    let limit: u64 = if neg {
        2147483648u64
    } else {
        2147483647u64
    };
    match parse_digits(s, start, n, limit) {
        Some(v) => {
            if neg {
                if v == 2147483648u64 {
                    Some(i32::MIN)
                } else {
                    Some(-(v as i32))
                }
            } else {
                Some(v as i32)
            }
        },
        None => None,
    }
}

/// Ten to the `n`.
pub open spec fn pow10(n: nat) -> nat
    decreases n,
{
    if n == 0 {
        1
    } else {
        10 * pow10((n - 1) as nat)
    }
}

pub proof fn lemma_pow10_pos(n: nat)
    ensures
        pow10(n) >= 1,
    decreases n,
{
    if n > 0 {
        lemma_pow10_pos((n - 1) as nat);
    }
}

pub proof fn lemma_pow10_mono(a: nat, b: nat)
    requires
        a <= b,
    ensures
        1 <= pow10(a) <= pow10(b),
    decreases b,
{
    lemma_pow10_pos(a);
    if a < b {
        lemma_pow10_mono(a, (b - 1) as nat);
    }
}

/// The scaled alpha channel denoted by a decimal: the value clamped to the
/// unit interval and multiplied by 255, truncated toward zero.
pub open spec fn alpha_of(d: Decimal) -> nat {
    if d.neg {
        0
    } else if d.mantissa >= pow10(d.scale as nat) {
        255
    } else {
        (255 * d.mantissa) as nat / pow10(d.scale as nat)
    }
}

/// Computes `alpha_of` exactly.
pub fn decimal_alpha(d: Decimal) -> (r: u8)
    ensures
        r == alpha_of(d),
{
    if d.neg {
        return 0;
    }
    if d.scale > 38 {
        // the value is far below one and the scaled result truncates to zero
        proof {
            lemma_pow10_mono(39, d.scale as nat);
            reveal_with_fuel(pow10, 41);
            assert(pow10(39) > 255 * (u64::MAX as nat));
            assert(255 * d.mantissa <= 255 * (u64::MAX as nat));
            assert(255 * d.mantissa < pow10(d.scale as nat));
            assert(d.mantissa < pow10(d.scale as nat));
            assert((255 * d.mantissa) as nat / pow10(d.scale as nat) == 0) by (nonlinear_arith)
                requires
                    255 * d.mantissa < pow10(d.scale as nat),
                    pow10(d.scale as nat) >= 1,
            {}
        }
        return 0;
    }
    let mut p: u128 = 1;
    let mut i: u32 = 0;
    proof {
        lemma_pow10_mono(d.scale as nat, 38);
        reveal_with_fuel(pow10, 39);
        assert(pow10(38) < u128::MAX);
    }
    while i < d.scale
        invariant
            i <= d.scale <= 38,
            p == pow10(i as nat),
            pow10(d.scale as nat) <= pow10(38) < u128::MAX,
        decreases d.scale - i,
    {
        proof {
            lemma_pow10_mono((i + 1) as nat, d.scale as nat);
        }
        p = p * 10;
        i = i + 1;
    }
    if (d.mantissa as u128) >= p {
        return 255;
    }
    let scaled: u128 = 255u128 * (d.mantissa as u128);
    let q = scaled / p;
    proof {
        assert(q < 256) by (nonlinear_arith)
            requires
                q == scaled / p,
                scaled == 255 * (d.mantissa as u128),
                (d.mantissa as u128) < p,
                p >= 1,
        {}
    }
    q as u8
}

/// Whether `s` is an unsigned integer literal (optional `+`, then digits), as
/// `u8::from_str` accepts.
pub open spec fn is_unsigned_literal(s: Seq<char>) -> bool {
    is_int_literal(s) && !int_is_negative(s)
}

/// An exact decimal number: the digits of the literal as an integer
/// (`mantissa`), the count of fraction digits (`scale`), and the sign. The
/// value denoted is `mantissa / 10^scale`, negated when `neg` holds. The
/// representation is not normalized: `2.50` keeps mantissa 250 and scale 2.
#[derive(Debug, Clone, Copy, PartialEq, Eq, Hash, Structural)]
pub struct Decimal {
    pub neg: bool,
    pub mantissa: u64,
    pub scale: u32,
}

/// The digits before the decimal point of a (sign-stripped) decimal body.
pub open spec fn dec_int_digits(b: Seq<char>) -> Seq<char> {
    b.subrange(0, crate::text::scan_to_char(b, 0, '.'))
}

/// The digits after the decimal point of a (sign-stripped) decimal body.
pub open spec fn dec_frac_digits(b: Seq<char>) -> Seq<char> {
    let dot = crate::text::scan_to_char(b, 0, '.');
    if dot < b.len() {
        b.subrange(dot + 1, b.len() as int)
    } else {
        Seq::empty()
    }
}

/// The decimal grammar: an optional sign, then digits holding at most one
/// decimal point and at least one digit (`5`, `5.`, `.5`, `-2.75`).
pub open spec fn is_decimal_literal(s: Seq<char>) -> bool {
    let b = int_body(s);
    &&& all_digit_chars(dec_int_digits(b))
    &&& all_digit_chars(dec_frac_digits(b))
    &&& dec_int_digits(b).len() + dec_frac_digits(b).len() >= 1
}

/// All digits of the literal, the decimal point removed.
pub open spec fn dec_all_digits(s: Seq<char>) -> Seq<char> {
    dec_int_digits(int_body(s)) + dec_frac_digits(int_body(s))
}

/// Whether the literal fits the `Decimal` representation.
pub open spec fn decimal_fits(s: Seq<char>) -> bool {
    digits_value(dec_all_digits(s)) <= u64::MAX && dec_frac_digits(int_body(s)).len() <= u32::MAX
}

/// The `Decimal` denoted by a literal.
pub open spec fn spec_decimal(s: Seq<char>) -> Decimal {
    Decimal {
        neg: int_is_negative(s),
        mantissa: digits_value(dec_all_digits(s)) as u64,
        scale: dec_frac_digits(int_body(s)).len() as u32,
    }
}

/// Parses the span `[from, to)` of `s` as a decimal literal: `Some` exactly
/// when the span matches the decimal grammar and its digits fit in the
/// representation.
pub fn parse_decimal_span(s: &[char], from: usize, to: usize) -> (r: Option<Decimal>)
    requires
        from <= to <= s@.len(),
    ensures
        ({
            let lit = s@.subrange(from as int, to as int);
            match r {
                Some(d) => is_decimal_literal(lit) && decimal_fits(lit) && d == spec_decimal(lit),
                None => !(is_decimal_literal(lit) && decimal_fits(lit)),
            }
        }),
{
    let ghost lit = s@.subrange(from as int, to as int);
    let start: usize = if from < to && (s[from] == '+' || s[from] == '-') {
        from + 1
    } else {
        from
    };
    let neg = from < to && s[from] == '-';
    let ghost b = s@.subrange(start as int, to as int);
    proof {
        assert(int_body(lit) =~= b);
        assert(int_is_negative(lit) == neg);
    }
    let dot = crate::text::find_char(s, start, '.');
    let dot = if dot > to {
        to
    } else {
        dot
    };
    proof {
        crate::text::lemma_scan_to_char(s@, start as int, '.');
        crate::text::lemma_scan_to_char(b, 0, '.');
        lemma_scan_shift(s@, start as int, to as int, '.');
        assert(dec_int_digits(b) =~= s@.subrange(start as int, dot as int));
        if crate::text::scan_to_char(b, 0, '.') < b.len() {
            assert(dec_frac_digits(b) =~= s@.subrange(dot + 1, to as int));
        }
    }
    let int_part = match parse_digits_allow_empty(s, start, dot) {
        Some(v) => v,
        None => {
            proof {
                lemma_digits_value_concat_over(dec_int_digits(b), dec_frac_digits(b));
            }
            return None;
        },
    };
    if dot == to {
        // no decimal point: the integer digits are everything
        if dot == start {
            // no digits at all
            return None;
        }
        proof {
            assert(dec_frac_digits(b) =~= Seq::<char>::empty());
            assert(dec_all_digits(lit) =~= dec_int_digits(b));
        }
        return Some(Decimal { neg, mantissa: int_part, scale: 0 });
    }
    // fraction digits follow the decimal point
    let frac_from = dot + 1;
    let ghost ip = dec_int_digits(b);
    let ghost fp = dec_frac_digits(b);
    if to - frac_from == 0 && dot == start {
        // a bare point with no digits on either side
        proof {
            assert(fp =~= Seq::<char>::empty());
        }
        return None;
    }
    if to - frac_from > u32::MAX as usize {
        proof {
            assert(fp.len() > u32::MAX);
        }
        return None;
    }
    // accumulate the fraction digits onto the integer digits
    let mut acc: u64 = int_part;
    let mut i = frac_from;
    while i < to
        invariant
            from <= start <= dot,
            frac_from <= i <= to <= s@.len(),
            frac_from == dot + 1,
            start <= dot < to,
            lit == s@.subrange(from as int, to as int),
            b == int_body(lit),
            neg == int_is_negative(lit),
            ip == dec_int_digits(b),
            fp == dec_frac_digits(b),
            ip =~= s@.subrange(start as int, dot as int),
            fp =~= s@.subrange(frac_from as int, to as int),
            all_digit_chars(ip),
            int_part == digits_value(ip),
            all_digit_chars(fp.subrange(0, i - frac_from)),
            acc == digits_value(ip + fp.subrange(0, i - frac_from)),
        decreases to - i,
    {
        let c = s[i];
        let ghost sofar = ip + fp.subrange(0, i - frac_from);
        let ghost sofar2 = ip + fp.subrange(0, i + 1 - frac_from);
        proof {
            assert(sofar2.drop_last() =~= sofar);
            assert(sofar2.last() == s@[i as int]);
        }
        if !crate::text::char_is_digit(c) {
            proof {
                assert(fp[i - frac_from] == c);
            }
            return None;
        }
        let d = crate::text::char_digit_value(c);
        if acc > (u64::MAX - d as u64) / 10 {
            proof {
                assert(digits_value(sofar2) == 10 * acc + d);
                assert(10 * acc + d > u64::MAX) by (nonlinear_arith)
                    requires
                        d < 10,
                        acc > (u64::MAX - d as u64) / 10,
                {}
                lemma_digits_value_prefix_le(ip + fp, sofar2.len() as int);
                assert((ip + fp).subrange(0, sofar2.len() as int) =~= sofar2);
                assert(dec_all_digits(lit) =~= ip + fp);
            }
            return None;
        }
        proof {
            assert(10 * acc + d <= u64::MAX) by (nonlinear_arith)
                requires
                    d < 10,
                    acc <= (u64::MAX - d as u64) / 10,
            {}
        }
        acc = acc * 10 + d as u64;
        i = i + 1;
    }
    proof {
        assert(fp.subrange(0, to - frac_from) =~= fp);
        assert(dec_all_digits(lit) =~= ip + fp);
    }
    Some(Decimal { neg, mantissa: acc, scale: (to - frac_from) as u32 })
}

/// Like `parse_digits` with no overflow bound and an empty span allowed:
/// `Some(0)` for the empty span, the digits' value otherwise.
fn parse_digits_allow_empty(s: &[char], from: usize, to: usize) -> (r: Option<u64>)
    requires
        from <= to <= s@.len(),
    ensures
        ({
            let span = s@.subrange(from as int, to as int);
            match r {
                Some(v) => all_digit_chars(span) && v == digits_value(span),
                None => !(all_digit_chars(span) && digits_value(span) <= u64::MAX),
            }
        }),
{
    if from == to {
        let ghost span = s@.subrange(from as int, to as int);
        proof {
            assert(span =~= Seq::<char>::empty());
        }
        return Some(0);
    }
    parse_digits(s, from, to, u64::MAX)
}

/// Scanning for a character inside a slice of a sequence finds the same
/// position as scanning the slice.
pub proof fn lemma_scan_shift(s: Seq<char>, from: int, to: int, c: char)
    requires
        0 <= from <= to <= s.len(),
    ensures
        ({
            let b = s.subrange(from, to);
            let inner = crate::text::scan_to_char(b, 0, c);
            let outer = crate::text::scan_to_char(s, from, c);
            (outer <= to ==> inner == outer - from) && (outer > to ==> inner == b.len())
        }),
{
    let b = s.subrange(from, to);
    crate::text::lemma_scan_to_char(s, from, c);
    crate::text::lemma_scan_to_char(b, 0, c);
    let inner = crate::text::scan_to_char(b, 0, c);
    let outer = crate::text::scan_to_char(s, from, c);
    if outer <= to {
        if outer < to {
            assert(b[outer - from] == c);
        }
        assert(forall|k: int| 0 <= k < outer - from ==> b[k] == s[k + from] && b[k] != c);
        lemma_scan_unique(b, 0, outer - from, c);
    } else {
        assert(forall|k: int| 0 <= k < b.len() ==> b[k] == s[k + from] && b[k] != c);
        lemma_scan_unique(b, 0, b.len() as int, c);
    }
}

/// If every position in `[from, e)` misses `c` and either `e` is the end or
/// holds `c`, then the scan from `from` stops exactly at `e`.
pub proof fn lemma_scan_unique(s: Seq<char>, from: int, e: int, c: char)
    requires
        0 <= from <= e <= s.len(),
        forall|k: int| from <= k < e ==> s[k] != c,
        e < s.len() ==> s[e] == c,
    ensures
        crate::text::scan_to_char(s, from, c) == e,
    decreases e - from,
{
    if from < e {
        lemma_scan_unique(s, from + 1, e, c);
    }
}

/// A digit-string concatenation that exceeds a prefix's bound: appending
/// digits never lowers the value.
proof fn lemma_digits_value_concat_over(a: Seq<char>, b: Seq<char>)
    ensures
        digits_value(a + b) >= digits_value(a),
        all_digit_chars(a + b) ==> all_digit_chars(a) && all_digit_chars(b),
{
    assert((a + b).subrange(0, a.len() as int) =~= a);
    lemma_digits_value_prefix_le(a + b, a.len() as int);
    if all_digit_chars(a + b) {
        assert(forall|i: int| 0 <= i < a.len() ==> a[i] == (a + b)[i]);
        assert(forall|i: int| 0 <= i < b.len() ==> b[i] == (a + b)[i + a.len()]);
    }
}

/// Parses `s` as Rust's `u8::from_str` does.
pub fn parse_u8(s: &[char]) -> (r: Option<u8>)
    ensures
        match r {
            Some(v) => is_unsigned_literal(s@) && v == int_value(s@),
            None => !(is_unsigned_literal(s@) && int_value(s@) <= u8::MAX),
        },
{
    let n = s.len();
    if n > 0 && s[0] == '-' {
        return None;
    }
    let start: usize = if n > 0 && s[0] == '+' {
        1
    } else {
        0
    };
    proof {
        assert(int_body(s@) =~= s@.subrange(start as int, n as int));
    }
    match parse_digits(s, start, n, 255u64) {
        Some(v) => Some(v as u8),
        None => None,
    }
}

} // verus!
