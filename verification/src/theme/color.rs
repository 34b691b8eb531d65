//! Colors and the color-value parser: `#`-prefixed hex literals, a table of
//! named colors, and the `rgb(...)`/`rgba(...)` functional forms. The
//! `hsl(...)` and `hwb(...)` forms are recognized and rejected as
//! unsupported.

use vstd::prelude::*;

use crate::num::alpha_of;
use crate::num::decimal_fits;
use crate::num::int_value;
use crate::num::is_decimal_literal;
use crate::num::is_unsigned_literal;
use crate::num::spec_decimal;
use crate::text::is_space_char;
use crate::text::scan_to_char;
use crate::text::spec_starts_with;
use crate::text::spec_trim;
use crate::text::split_from;
use crate::theme::parser::SpecStyleError;
use crate::theme::parser::StyleError;

verus! {

/// A color with 8-bit channels.
#[derive(Debug, Clone, Copy, PartialEq, Eq, Structural)]
pub struct Color {
    pub r: u8,
    pub g: u8,
    pub b: u8,
    pub a: u8,
}

/// An ASCII hexadecimal digit.
pub open spec fn is_hex_char(c: char) -> bool {
    ('0' <= c && c <= '9') || ('a' <= c && c <= 'f') || ('A' <= c && c <= 'F')
}

/// The value of an ASCII hexadecimal digit.
pub open spec fn hex_value(c: char) -> nat {
    if '0' <= c && c <= '9' {
        (c as nat - '0' as nat) as nat
    } else if 'a' <= c && c <= 'f' {
        (c as nat - 'a' as nat + 10) as nat
    } else {
        (c as nat - 'A' as nat + 10) as nat
    }
}

pub open spec fn all_hex_chars(s: Seq<char>) -> bool {
    forall|i: int| 0 <= i < s.len() ==> #[trigger] is_hex_char(s[i])
}

/// The byte a pair of hex digits denotes.
pub open spec fn hex_byte(h: char, l: char) -> u8 {
    (16 * hex_value(h) + hex_value(l)) as u8
}

/// The byte a single hex digit denotes in the short forms: the digit
/// duplicated, `0xd` becoming `0xdd`.
pub open spec fn hex_nibble(c: char) -> u8 {
    (17 * hex_value(c)) as u8
}

/// The color of a `#`-prefixed hex literal: `#rgb`, `#rgba`, `#rrggbb` or
/// `#rrggbbaa`, case-insensitive, alpha defaulting to opaque.
pub open spec fn spec_hex_color(s: Seq<char>) -> Option<Color> {
    if s.len() == 0 || s[0] != '#' {
        None
    } else {
        let d = s.subrange(1, s.len() as int);
        if !all_hex_chars(d) {
            None
        } else if d.len() == 3 {
            Some(
                Color { r: hex_nibble(d[0]), g: hex_nibble(d[1]), b: hex_nibble(d[2]), a: 255 },
            )
        } else if d.len() == 4 {
            Some(
                Color {
                    r: hex_nibble(d[0]),
                    g: hex_nibble(d[1]),
                    b: hex_nibble(d[2]),
                    a: hex_nibble(d[3]),
                },
            )
        } else if d.len() == 6 {
            Some(
                Color {
                    r: hex_byte(d[0], d[1]),
                    g: hex_byte(d[2], d[3]),
                    b: hex_byte(d[4], d[5]),
                    a: 255,
                },
            )
        } else if d.len() == 8 {
            Some(
                Color {
                    r: hex_byte(d[0], d[1]),
                    g: hex_byte(d[2], d[3]),
                    b: hex_byte(d[4], d[5]),
                    a: hex_byte(d[6], d[7]),
                },
            )
        } else {
            None
        }
    }
}

/// An ASCII upper-case letter mapped to lower case; all else unchanged.
pub open spec fn lower_char(c: char) -> char {
    if 'A' <= c && c <= 'Z' {
        (((c as u8) + 32) as u8) as char
    } else {
        c
    }
}

pub open spec fn spec_ascii_lower(s: Seq<char>) -> Seq<char> {
    Seq::new(s.len(), |i: int| lower_char(s[i]))
}

/// The named-color table, over lower-cased names: the sixteen basic CSS
/// colors, the `grey`/`cyan`/`magenta` aliases, `orange` and `transparent`.
pub open spec fn spec_named_color(s: Seq<char>) -> Option<Color> {
    if s == "black"@ {
        Some(Color { r: 0x00, g: 0x00, b: 0x00, a: 255 })
    } else if s == "silver"@ {
        Some(Color { r: 0xc0, g: 0xc0, b: 0xc0, a: 255 })
    } else if s == "gray"@ || s == "grey"@ {
        Some(Color { r: 0x80, g: 0x80, b: 0x80, a: 255 })
    } else if s == "white"@ {
        Some(Color { r: 0xff, g: 0xff, b: 0xff, a: 255 })
    } else if s == "maroon"@ {
        Some(Color { r: 0x80, g: 0x00, b: 0x00, a: 255 })
    } else if s == "red"@ {
        Some(Color { r: 0xff, g: 0x00, b: 0x00, a: 255 })
    } else if s == "purple"@ {
        Some(Color { r: 0x80, g: 0x00, b: 0x80, a: 255 })
    } else if s == "fuchsia"@ || s == "magenta"@ {
        Some(Color { r: 0xff, g: 0x00, b: 0xff, a: 255 })
    } else if s == "green"@ {
        Some(Color { r: 0x00, g: 0x80, b: 0x00, a: 255 })
    } else if s == "lime"@ {
        Some(Color { r: 0x00, g: 0xff, b: 0x00, a: 255 })
    } else if s == "olive"@ {
        Some(Color { r: 0x80, g: 0x80, b: 0x00, a: 255 })
    } else if s == "yellow"@ {
        Some(Color { r: 0xff, g: 0xff, b: 0x00, a: 255 })
    } else if s == "navy"@ {
        Some(Color { r: 0x00, g: 0x00, b: 0x80, a: 255 })
    } else if s == "blue"@ {
        Some(Color { r: 0x00, g: 0x00, b: 0xff, a: 255 })
    } else if s == "teal"@ {
        Some(Color { r: 0x00, g: 0x80, b: 0x80, a: 255 })
    } else if s == "aqua"@ || s == "cyan"@ {
        Some(Color { r: 0x00, g: 0xff, b: 0xff, a: 255 })
    } else if s == "orange"@ {
        Some(Color { r: 0xff, g: 0xa5, b: 0x00, a: 255 })
    } else if s == "transparent"@ {
        Some(Color { r: 0x00, g: 0x00, b: 0x00, a: 0 })
    } else {
        None
    }
}

/// The base color parser: a hex literal when the text begins with `#`, a
/// named color otherwise (names are matched without regard to ASCII case).
pub open spec fn spec_base_color(s: Seq<char>) -> Option<Color> {
    if s.len() > 0 && s[0] == '#' {
        spec_hex_color(s)
    } else {
        spec_named_color(spec_ascii_lower(s))
    }
}

/// One `rgb(...)` channel: a bare byte, or a percentage read as a byte and
/// clamped to 100.
pub open spec fn spec_rgb_channel(p: Seq<char>) -> Option<u8> {
    if p.len() >= 1 && p.last() == '%' {
        let body = p.subrange(0, p.len() - 1);
        if is_unsigned_literal(body) && int_value(body) <= u8::MAX {
            if int_value(body) <= 100 {
                Some(int_value(body) as u8)
            } else {
                Some(100u8)
            }
        } else {
            None
        }
    } else {
        if is_unsigned_literal(p) && int_value(p) <= u8::MAX {
            Some(int_value(p) as u8)
        } else {
            None
        }
    }
}

/// The alpha channel: a decimal in the unit interval, scaled to a byte.
pub open spec fn spec_rgb_alpha(p: Seq<char>) -> Option<u8> {
    if is_decimal_literal(p) && decimal_fits(p) {
        Some(alpha_of(spec_decimal(p)) as u8)
    } else {
        None
    }
}

/// The comma-separated, trimmed parts of a functional color's argument text.
pub open spec fn spec_color_parts(g: Seq<char>) -> Seq<Seq<char>> {
    split_from(g, 0, ',').map_values(|p: Seq<char>| spec_trim(p, |c: char| is_space_char(c)))
}

/// The outcome of `parse_rgb`: exactly three channel values.
pub open spec fn spec_parse_rgb(g: Seq<char>) -> Result<Color, SpecStyleError> {
    let parts = spec_color_parts(g);
    if parts.len() == 3 && spec_rgb_channel(parts[0]) is Some && spec_rgb_channel(parts[1]) is Some
        && spec_rgb_channel(parts[2]) is Some {
        Ok(
            Color {
                r: spec_rgb_channel(parts[0])->0,
                g: spec_rgb_channel(parts[1])->0,
                b: spec_rgb_channel(parts[2])->0,
                a: 255,
            },
        )
    } else {
        Err(SpecStyleError { error: "Invalid rgb value"@, value: g })
    }
}

/// The outcome of `parse_rgba`: three channels and an alpha.
pub open spec fn spec_parse_rgba(g: Seq<char>) -> Result<Color, SpecStyleError> {
    let parts = spec_color_parts(g);
    if parts.len() == 4 && spec_rgb_channel(parts[0]) is Some && spec_rgb_channel(parts[1]) is Some
        && spec_rgb_channel(parts[2]) is Some && spec_rgb_alpha(parts[3]) is Some {
        Ok(
            Color {
                r: spec_rgb_channel(parts[0])->0,
                g: spec_rgb_channel(parts[1])->0,
                b: spec_rgb_channel(parts[2])->0,
                a: spec_rgb_alpha(parts[3])->0,
            },
        )
    } else {
        Err(SpecStyleError { error: "Invalid rgba value"@, value: g })
    }
}

/// The first parenthesized group with nonempty content: the span between a
/// `(` and the next `)`, provided at least one character lies between them;
/// an empty pair is skipped and the search continues.
pub open spec fn spec_find_group(s: Seq<char>, from: int) -> Option<(int, int)>
    decreases s.len() - from,
    when 0 <= from
    via spec_find_group_dec
{
    let i = scan_to_char(s, from, '(');
    if i >= s.len() {
        None
    } else {
        let j = scan_to_char(s, i + 1, ')');
        if j >= s.len() {
            None
        } else if j == i + 1 {
            spec_find_group(s, i + 1)
        } else {
            Some((i + 1, j))
        }
    }
}

#[via_fn]
proof fn spec_find_group_dec(s: Seq<char>, from: int) {
    if from <= s.len() {
        crate::text::lemma_scan_to_char(s, from, '(');
        let i = scan_to_char(s, from, '(');
        if i < s.len() {
            crate::text::lemma_scan_to_char(s, i + 1, ')');
        }
    }
}

/// The outcome of `parse_color`: a parenthesized group selects the
/// functional forms by prefix (`rgba`, `rgb`, with `hsl` and `hwb` rejected);
/// otherwise, and for unrecognized prefixes, the base hex/named parser
/// decides.
pub open spec fn spec_parse_color(s: Seq<char>) -> Result<Color, SpecStyleError> {
    match spec_find_group(s, 0) {
        Some((a, b)) => {
            let g = s.subrange(a, b);
            if spec_starts_with(s, "rgba"@) {
                spec_parse_rgba(g)
            } else if spec_starts_with(s, "rgb"@) {
                spec_parse_rgb(g)
            } else if spec_starts_with(s, "hsl"@) {
                Err(SpecStyleError { error: "hsl not supported"@, value: s })
            } else if spec_starts_with(s, "hwb"@) {
                Err(SpecStyleError { error: "hwb not supported"@, value: s })
            } else {
                match spec_base_color(s) {
                    Some(c) => Ok(c),
                    None => Err(SpecStyleError { error: "Invalid color value"@, value: s }),
                }
            }
        },
        None => match spec_base_color(s) {
            Some(c) => Ok(c),
            None => Err(SpecStyleError { error: "Invalid color value"@, value: s }),
        },
    }
}

fn char_is_hex(c: char) -> (r: bool)
    ensures
        r == is_hex_char(c),
{
    ('0' <= c && c <= '9') || ('a' <= c && c <= 'f') || ('A' <= c && c <= 'F')
}

fn char_hex_value(c: char) -> (v: u8)
    requires
        is_hex_char(c),
    ensures
        v == hex_value(c),
        v < 16,
{
    if '0' <= c && c <= '9' {
        (c as u8) - ('0' as u8)
    } else if 'a' <= c && c <= 'f' {
        (c as u8) - ('a' as u8) + 10
    } else {
        (c as u8) - ('A' as u8) + 10
    }
}

/// Reads a `#`-prefixed hex color literal.
fn parse_hex_color(s: &[char]) -> (r: Option<Color>)
    ensures
        r == spec_hex_color(s@),
{
    let n = s.len();
    if n == 0 || s[0] != '#' {
        return None;
    }
    let ghost d = s@.subrange(1, s@.len() as int);
    // every digit must be hexadecimal
    let mut i: usize = 1;
    while i < n
        invariant
            1 <= i <= n,
            n == s@.len(),
            d == s@.subrange(1, s@.len() as int),
            forall|k: int| 0 <= k < i - 1 ==> #[trigger] is_hex_char(d[k]),
        decreases n - i,
    {
        if !char_is_hex(s[i]) {
            proof {
                assert(d[i - 1] == s@[i as int]);
            }
            return None;
        }
        i = i + 1;
    }
    assert(all_hex_chars(d));
    if n == 4 {
        Some(
            Color {
                r: 17 * char_hex_value(s[1]),
                g: 17 * char_hex_value(s[2]),
                b: 17 * char_hex_value(s[3]),
                a: 255,
            },
        )
    } else if n == 5 {
        Some(
            Color {
                r: 17 * char_hex_value(s[1]),
                g: 17 * char_hex_value(s[2]),
                b: 17 * char_hex_value(s[3]),
                a: 17 * char_hex_value(s[4]),
            },
        )
    } else if n == 7 {
        Some(
            Color {
                r: 16 * char_hex_value(s[1]) + char_hex_value(s[2]),
                g: 16 * char_hex_value(s[3]) + char_hex_value(s[4]),
                b: 16 * char_hex_value(s[5]) + char_hex_value(s[6]),
                a: 255,
            },
        )
    } else if n == 9 {
        Some(
            Color {
                r: 16 * char_hex_value(s[1]) + char_hex_value(s[2]),
                g: 16 * char_hex_value(s[3]) + char_hex_value(s[4]),
                b: 16 * char_hex_value(s[5]) + char_hex_value(s[6]),
                a: 16 * char_hex_value(s[7]) + char_hex_value(s[8]),
            },
        )
    } else {
        None
    }
}

/// A lower-cased copy of `s` (ASCII letters only).
fn ascii_lower_vec(s: &[char]) -> (r: Vec<char>)
    ensures
        r@ == spec_ascii_lower(s@),
{
    let mut r: Vec<char> = Vec::new();
    let n = s.len();
    for i in 0..n
        invariant
            n == s@.len(),
            r@.len() == i,
            forall|k: int| 0 <= k < i ==> r@[k] == lower_char(s@[k]),
    {
        let c = s[i];
        if 'A' <= c && c <= 'Z' {
            r.push(((c as u8) + 32) as char);
        } else {
            r.push(c);
        }
    }
    proof {
        assert(r@ =~= spec_ascii_lower(s@));
    }
    r
}

/// Looks `s` up in the named-color table.
fn parse_named_color(s: &[char]) -> (r: Option<Color>)
    ensures
        r == spec_named_color(s@),
{
    if crate::text::chars_eq_str(s, "black") {
        Some(Color { r: 0x00, g: 0x00, b: 0x00, a: 255 })
    } else if crate::text::chars_eq_str(s, "silver") {
        Some(Color { r: 0xc0, g: 0xc0, b: 0xc0, a: 255 })
    } else if crate::text::chars_eq_str(s, "gray") || crate::text::chars_eq_str(s, "grey") {
        Some(Color { r: 0x80, g: 0x80, b: 0x80, a: 255 })
    } else if crate::text::chars_eq_str(s, "white") {
        Some(Color { r: 0xff, g: 0xff, b: 0xff, a: 255 })
    } else if crate::text::chars_eq_str(s, "maroon") {
        Some(Color { r: 0x80, g: 0x00, b: 0x00, a: 255 })
    } else if crate::text::chars_eq_str(s, "red") {
        Some(Color { r: 0xff, g: 0x00, b: 0x00, a: 255 })
    } else if crate::text::chars_eq_str(s, "purple") {
        Some(Color { r: 0x80, g: 0x00, b: 0x80, a: 255 })
    } else if crate::text::chars_eq_str(s, "fuchsia") || crate::text::chars_eq_str(s, "magenta") {
        Some(Color { r: 0xff, g: 0x00, b: 0xff, a: 255 })
    } else if crate::text::chars_eq_str(s, "green") {
        Some(Color { r: 0x00, g: 0x80, b: 0x00, a: 255 })
    } else if crate::text::chars_eq_str(s, "lime") {
        Some(Color { r: 0x00, g: 0xff, b: 0x00, a: 255 })
    } else if crate::text::chars_eq_str(s, "olive") {
        Some(Color { r: 0x80, g: 0x80, b: 0x00, a: 255 })
    } else if crate::text::chars_eq_str(s, "yellow") {
        Some(Color { r: 0xff, g: 0xff, b: 0x00, a: 255 })
    } else if crate::text::chars_eq_str(s, "navy") {
        Some(Color { r: 0x00, g: 0x00, b: 0x80, a: 255 })
    } else if crate::text::chars_eq_str(s, "blue") {
        Some(Color { r: 0x00, g: 0x00, b: 0xff, a: 255 })
    } else if crate::text::chars_eq_str(s, "teal") {
        Some(Color { r: 0x00, g: 0x80, b: 0x80, a: 255 })
    } else if crate::text::chars_eq_str(s, "aqua") || crate::text::chars_eq_str(s, "cyan") {
        Some(Color { r: 0x00, g: 0xff, b: 0xff, a: 255 })
    } else if crate::text::chars_eq_str(s, "orange") {
        Some(Color { r: 0xff, g: 0xa5, b: 0x00, a: 255 })
    } else if crate::text::chars_eq_str(s, "transparent") {
        Some(Color { r: 0x00, g: 0x00, b: 0x00, a: 0 })
    } else {
        None
    }
}

/// Reads a hex or named color.
fn parse_base_color(s: &[char]) -> (r: Option<Color>)
    ensures
        r == spec_base_color(s@),
{
    if s.len() > 0 && s[0] == '#' {
        parse_hex_color(s)
    } else {
        let lowered = ascii_lower_vec(s);
        parse_named_color(lowered.as_slice())
    }
}

/// Reads one `rgb` channel.
fn parse_rgb_value(p: &[char]) -> (r: Option<u8>)
    ensures
        r == spec_rgb_channel(p@),
{
    let n = p.len();
    if n >= 1 && p[n - 1] == '%' {
        let body = crate::text::span_to_vec(p, 0, n - 1);
        match crate::num::parse_u8(body.as_slice()) {
            Some(v) => {
                if v <= 100 {
                    Some(v)
                } else {
                    Some(100)
                }
            },
            None => None,
        }
    } else {
        crate::num::parse_u8(p)
    }
}

/// Reads the alpha channel.
fn parse_rgb_alpha(p: &[char]) -> (r: Option<u8>)
    ensures
        r == spec_rgb_alpha(p@),
{
    match crate::num::parse_decimal_span(p, 0, p.len()) {
        Some(d) => {
            proof {
                assert(p@.subrange(0, p@.len() as int) =~= p@);
            }
            Some(crate::num::decimal_alpha(d))
        },
        None => {
            proof {
                assert(p@.subrange(0, p@.len() as int) =~= p@);
            }
            None
        },
    }
}

/// The comma-separated, trimmed parts of a group.
fn color_parts(g: &[char]) -> (r: Vec<Vec<char>>)
    ensures
        r@.map_values(|p: Vec<char>| p@) == spec_color_parts(g@),
{
    let raw = crate::text::split_char(g, ',');
    let mut out: Vec<Vec<char>> = Vec::new();
    let n = raw.len();
    for i in 0..n
        invariant
            n == raw@.len(),
            raw@.map_values(|p: Vec<char>| p@) == crate::text::split_from(g@, 0, ','),
            out@.len() == i,
            forall|k: int|
                0 <= k < i ==> out@.map_values(|p: Vec<char>| p@)[k] == spec_color_parts(g@)[k],
    {
        let t = crate::text::trim_spaces_vec(raw[i].as_slice());
        out.push(t);
        proof {
            assert(raw@.map_values(|p: Vec<char>| p@)[i as int] == raw@[i as int]@);
        }
    }
    proof {
        assert(out@.map_values(|p: Vec<char>| p@) =~= spec_color_parts(g@));
    }
    out
}

/// Reads the three channels of an `rgb(...)` group.
pub fn parse_rgb(g: &[char]) -> (r: Result<Color, StyleError>)
    ensures
        match r {
            Ok(c) => spec_parse_rgb(g@) == Ok::<Color, SpecStyleError>(c),
            Err(e) => spec_parse_rgb(g@) == Err::<Color, SpecStyleError>(e@),
        },
{
    let parts = color_parts(g);
    if parts.len() == 3 {
        proof {
            assert(parts@.map_values(|p: Vec<char>| p@)[0] == parts@[0]@);
            assert(parts@.map_values(|p: Vec<char>| p@)[1] == parts@[1]@);
            assert(parts@.map_values(|p: Vec<char>| p@)[2] == parts@[2]@);
        }
        let c0 = parse_rgb_value(parts[0].as_slice());
        let c1 = parse_rgb_value(parts[1].as_slice());
        let c2 = parse_rgb_value(parts[2].as_slice());
        if let (Some(cr), Some(cg), Some(cb)) = (c0, c1, c2) {
            return Ok(Color { r: cr, g: cg, b: cb, a: 255 });
        }
    }
    Err(StyleError::new("Invalid rgb value", g))
}

/// Reads the four channels of an `rgba(...)` group.
pub fn parse_rgba(g: &[char]) -> (r: Result<Color, StyleError>)
    ensures
        match r {
            Ok(c) => spec_parse_rgba(g@) == Ok::<Color, SpecStyleError>(c),
            Err(e) => spec_parse_rgba(g@) == Err::<Color, SpecStyleError>(e@),
        },
{
    let parts = color_parts(g);
    if parts.len() == 4 {
        proof {
            assert(parts@.map_values(|p: Vec<char>| p@)[0] == parts@[0]@);
            assert(parts@.map_values(|p: Vec<char>| p@)[1] == parts@[1]@);
            assert(parts@.map_values(|p: Vec<char>| p@)[2] == parts@[2]@);
            assert(parts@.map_values(|p: Vec<char>| p@)[3] == parts@[3]@);
        }
        let c0 = parse_rgb_value(parts[0].as_slice());
        let c1 = parse_rgb_value(parts[1].as_slice());
        let c2 = parse_rgb_value(parts[2].as_slice());
        let c3 = parse_rgb_alpha(parts[3].as_slice());
        if let (Some(cr), Some(cg), Some(cb), Some(ca)) = (c0, c1, c2, c3) {
            return Ok(Color { r: cr, g: cg, b: cb, a: ca });
        }
    }
    Err(StyleError::new("Invalid rgba value", g))
}

/// Finds the first nonempty parenthesized group.
fn find_group(s: &[char]) -> (r: Option<(usize, usize)>)
    ensures
        match r {
            Some(p) => spec_find_group(s@, 0) == Some((p.0 as int, p.1 as int)) && p.0 <= p.1 <= s@.len(),
            None => spec_find_group(s@, 0) is None,
        },
{
    let mut from: usize = 0;
    loop
        invariant
            from <= s@.len(),
            spec_find_group(s@, 0) == spec_find_group(s@, from as int),
        decreases s@.len() - from,
    {
        let i = crate::text::find_char(s, from, '(');
        proof {
            crate::text::lemma_scan_to_char(s@, from as int, '(');
        }
        if i == s.len() {
            return None;
        }
        let j = crate::text::find_char(s, i + 1, ')');
        proof {
            crate::text::lemma_scan_to_char(s@, i as int + 1, ')');
        }
        if j == s.len() {
            return None;
        }
        if j == i + 1 {
            from = i + 1;
        } else {
            return Some((i + 1, j));
        }
    }
}

/// Reads a color value: a functional `rgb(...)`/`rgba(...)` form when a
/// parenthesized group is present and the text begins with that prefix, a
/// rejection of `hsl`/`hwb`, and the hex/named table otherwise.
pub fn parse_color(s: &[char]) -> (r: Result<Color, StyleError>)
    ensures
        match r {
            Ok(c) => spec_parse_color(s@) == Ok::<Color, SpecStyleError>(c),
            Err(e) => spec_parse_color(s@) == Err::<Color, SpecStyleError>(e@),
        },
{
    if let Some((a, b)) = find_group(s) {
        let g = crate::text::span_to_vec(s, a, b);
        if crate::text::starts_with_str(s, "rgba") {
            return parse_rgba(g.as_slice());
        }
        if crate::text::starts_with_str(s, "rgb") {
            return parse_rgb(g.as_slice());
        }
        if crate::text::starts_with_str(s, "hsl") {
            return Err(StyleError::new("hsl not supported", s));
        }
        if crate::text::starts_with_str(s, "hwb") {
            return Err(StyleError::new("hwb not supported", s));
        }
    }
    match parse_base_color(s) {
        Some(c) => Ok(c),
        None => Err(StyleError::new("Invalid color value", s)),
    }
}

} // verus!
