//! Typed style values and the parsers that read them from property text:
//! pixel and percent lengths, plain numbers, and the closed keyword sets for
//! layout, cursor, font and overflow properties. Every parser is total: it
//! returns a `StyleError` naming the property family and the offending
//! literal, and never fails in any other way.

use vstd::prelude::*;

use crate::num::Decimal;
use crate::num::is_decimal_literal;
use crate::num::decimal_fits;
use crate::num::spec_decimal;
use crate::num::is_int_literal;
use crate::num::int_value;
use crate::text::strip_blanks;
use crate::text::split_spaces_from;
use crate::theme::parser::SpecStyleError;
use crate::theme::parser::StyleError;
use crate::theme::parser::StyleProperty;

verus! {

/// A pixel length.
#[derive(Debug, Clone, Copy, PartialEq, Eq, Structural)]
pub struct Px(pub Decimal);

/// A percentage.
#[derive(Debug, Clone, Copy, PartialEq, Eq, Structural)]
pub struct Pct(pub Decimal);

/// A length in pixels or percent.
#[derive(Debug, Clone, Copy, PartialEq, Eq, Structural)]
pub enum PxPct {
    Px(Decimal),
    Pct(Decimal),
}

/// A length in pixels or percent, or the keyword `auto`.
#[derive(Debug, Clone, Copy, PartialEq, Eq, Structural)]
pub enum PxPctAuto {
    Px(Decimal),
    Pct(Decimal),
    Auto,
}

/// A square gap: the parsed pixel value applied to both axes.
#[derive(Debug, Clone, Copy, PartialEq, Eq, Structural)]
pub struct Size {
    pub width: Decimal,
    pub height: Decimal,
}

/// A linear transition over a duration in seconds.
#[derive(Debug, Clone, Copy, PartialEq, Eq, Structural)]
pub struct Transition {
    pub seconds: Decimal,
}

#[derive(Debug, Clone, Copy, PartialEq, Eq, Structural)]
pub enum Display {
    Block,
    Flex,
    Grid,
    Hidden,
}

#[derive(Debug, Clone, Copy, PartialEq, Eq, Structural)]
pub enum Position {
    Relative,
    Absolute,
}

#[derive(Debug, Clone, Copy, PartialEq, Eq, Structural)]
pub enum FlexDirection {
    Column,
    ColumnReverse,
    Row,
    RowReverse,
}

#[derive(Debug, Clone, Copy, PartialEq, Eq, Structural)]
pub enum FlexWrap {
    Wrap,
    NoWrap,
    WrapReverse,
}

#[derive(Debug, Clone, Copy, PartialEq, Eq, Structural)]
pub enum JustifyContent {
    Start,
    End,
    FlexStart,
    FlexEnd,
    Center,
    Stretch,
    SpaceBetween,
    SpaceEvenly,
    SpaceAround,
}

#[derive(Debug, Clone, Copy, PartialEq, Eq, Structural)]
pub enum AlignItems {
    Start,
    End,
    FlexStart,
    FlexEnd,
    Center,
    Baseline,
    Stretch,
}

#[derive(Debug, Clone, Copy, PartialEq, Eq, Structural)]
pub enum AlignContent {
    Start,
    End,
    FlexStart,
    FlexEnd,
    Center,
    Stretch,
    SpaceBetween,
    SpaceEvenly,
    SpaceAround,
}

#[derive(Debug, Clone, Copy, PartialEq, Eq, Structural)]
pub enum CursorStyle {
    Default,
    Pointer,
    Text,
    ColResize,
    RowResize,
    WResize,
    EResize,
    SResize,
    NResize,
    NwResize,
    NeResize,
    SwResize,
    SeResize,
    NeswResize,
    NwseResize,
}

/// A font weight on the 100–900 scale.
#[derive(Debug, Clone, Copy, PartialEq, Eq, Structural)]
pub struct FontWeight(pub u16);

#[derive(Debug, Clone, Copy, PartialEq, Eq, Structural)]
pub enum FontStyle {
    Normal,
    Italic,
    Oblique,
}

#[derive(Debug, Clone, Copy, PartialEq, Eq, Structural)]
pub enum TextOverflow {
    Clip,
    Ellipsis,
    Wrap,
}

/// The value of a literal carrying the given one-character suffix: the text
/// before the suffix, blanks removed, read as a decimal number.
pub open spec fn spec_suffixed_value(s: Seq<char>, suffix: char) -> Option<Decimal> {
    if s.len() >= 1 && s.last() == suffix {
        let body = strip_blanks(s.subrange(0, s.len() - 1));
        if is_decimal_literal(body) && decimal_fits(body) {
            Some(spec_decimal(body))
        } else {
            None
        }
    } else {
        None
    }
}

/// The value of a pixel literal: a decimal number (blanks ignored) ending in
/// `px`.
pub open spec fn spec_px_value(s: Seq<char>) -> Option<Decimal> {
    if s.len() >= 2 && s[s.len() - 2] == 'p' && s[s.len() - 1] == 'x' {
        let body = strip_blanks(s.subrange(0, s.len() - 2));
        if is_decimal_literal(body) && decimal_fits(body) {
            Some(spec_decimal(body))
        } else {
            None
        }
    } else {
        None
    }
}

/// The outcome of `parse_px`: the pixel value, or which of the two failures
/// occurred.
pub open spec fn spec_parse_px(s: Seq<char>) -> Result<Decimal, SpecStyleError> {
    if !(s.len() >= 2 && s[s.len() - 2] == 'p' && s[s.len() - 1] == 'x') {
        Err(SpecStyleError { error: "Cannot convert to Px"@, value: s })
    } else {
        match spec_px_value(s) {
            Some(d) => Ok(d),
            None => Err(SpecStyleError { error: "invalid numeric literal"@, value: s }),
        }
    }
}

/// Reads a pixel literal: a decimal number ending in `px` (blanks between the
/// digits are ignored, as the source value may have been assembled from
/// several tokens).
pub fn parse_px(s: &[char]) -> (r: Result<Px, StyleError>)
    ensures
        match r {
            Ok(px) => spec_parse_px(s@) == Ok::<Decimal, SpecStyleError>(px.0),
            Err(e) => spec_parse_px(s@) == Err::<Decimal, SpecStyleError>(e@),
        },
{
    let n = s.len();
    if !(n >= 2 && s[n - 2] == 'p' && s[n - 1] == 'x') {
        return Err(StyleError::new("Cannot convert to Px", s));
    }
    let stripped = crate::text::span_to_vec(s, 0, n - 2);
    let body = crate::text::strip_blanks_vec(stripped.as_slice());
    match crate::num::parse_decimal_span(body.as_slice(), 0, body.len()) {
        Some(d) => {
            proof {
                assert(body@.subrange(0, body@.len() as int) =~= body@);
            }
            Ok(Px(d))
        },
        None => {
            proof {
                assert(body@.subrange(0, body@.len() as int) =~= body@);
            }
            Err(StyleError::new("invalid numeric literal", s))
        },
    }
}

/// The outcome of `parse_pct`: the percent value, or which failure occurred.
pub open spec fn spec_parse_pct(s: Seq<char>) -> Result<Decimal, SpecStyleError> {
    if !(s.len() >= 1 && s.last() == '%') {
        Err(SpecStyleError { error: "Cannot convert to Pct"@, value: s })
    } else {
        match spec_suffixed_value(s, '%') {
            Some(d) => Ok(d),
            None => Err(SpecStyleError { error: "invalid numeric literal"@, value: s }),
        }
    }
}

/// Reads a percent literal: a decimal number ending in `%`.
pub fn parse_pct(s: &[char]) -> (r: Result<Pct, StyleError>)
    ensures
        match r {
            Ok(p) => spec_parse_pct(s@) == Ok::<Decimal, SpecStyleError>(p.0),
            Err(e) => spec_parse_pct(s@) == Err::<Decimal, SpecStyleError>(e@),
        },
{
    let n = s.len();
    if !(n >= 1 && s[n - 1] == '%') {
        return Err(StyleError::new("Cannot convert to Pct", s));
    }
    let stripped = crate::text::span_to_vec(s, 0, n - 1);
    let body = crate::text::strip_blanks_vec(stripped.as_slice());
    match crate::num::parse_decimal_span(body.as_slice(), 0, body.len()) {
        Some(d) => {
            proof {
                assert(body@.subrange(0, body@.len() as int) =~= body@);
            }
            Ok(Pct(d))
        },
        None => {
            proof {
                assert(body@.subrange(0, body@.len() as int) =~= body@);
            }
            Err(StyleError::new("invalid numeric literal", s))
        },
    }
}

/// The outcome of `parse_px_pct`: pixels are tried before percent.
pub open spec fn spec_parse_px_pct(s: Seq<char>) -> Result<PxPct, SpecStyleError> {
    if spec_parse_px(s) is Ok {
        Ok(PxPct::Px(spec_parse_px(s)->Ok_0))
    } else if spec_parse_pct(s) is Ok {
        Ok(PxPct::Pct(spec_parse_pct(s)->Ok_0))
    } else {
        Err(SpecStyleError { error: "Cannot convert to PxPctAuto"@, value: s })
    }
}

/// Reads a length that may be a pixel or a percent literal.
pub fn parse_px_pct(s: &[char]) -> (r: Result<PxPct, StyleError>)
    ensures
        match r {
            Ok(v) => spec_parse_px_pct(s@) == Ok::<PxPct, SpecStyleError>(v),
            Err(e) => spec_parse_px_pct(s@) == Err::<PxPct, SpecStyleError>(e@),
        },
{
    if let Ok(px) = parse_px(s) {
        return Ok(PxPct::Px(px.0));
    }
    if let Ok(pct) = parse_pct(s) {
        return Ok(PxPct::Pct(pct.0));
    }
    Err(StyleError::new("Cannot convert to PxPctAuto", s))
}

/// The outcome of `parse_pxpctauto`: the keyword `auto`, or a length.
pub open spec fn spec_parse_pxpctauto(s: Seq<char>) -> Result<PxPctAuto, SpecStyleError> {
    if s == "auto"@ {
        Ok(PxPctAuto::Auto)
    } else {
        match spec_parse_px_pct(s) {
            Ok(PxPct::Px(d)) => Ok(PxPctAuto::Px(d)),
            Ok(PxPct::Pct(d)) => Ok(PxPctAuto::Pct(d)),
            Err(e) => Err(e),
        }
    }
}

/// Reads a length that may also be the keyword `auto`.
pub fn parse_pxpctauto(s: &[char]) -> (r: Result<PxPctAuto, StyleError>)
    ensures
        match r {
            Ok(v) => spec_parse_pxpctauto(s@) == Ok::<PxPctAuto, SpecStyleError>(v),
            Err(e) => spec_parse_pxpctauto(s@) == Err::<PxPctAuto, SpecStyleError>(e@),
        },
{
    if crate::text::chars_eq_str(s, "auto") {
        return Ok(PxPctAuto::Auto);
    }
    match parse_px_pct(s) {
        Ok(PxPct::Px(d)) => Ok(PxPctAuto::Px(d)),
        Ok(PxPct::Pct(d)) => Ok(PxPctAuto::Pct(d)),
        Err(e) => Err(e),
    }
}

/// The outcome of `parse_number`: a bare scalar is written as a pixel
/// literal, so the value of `s` is its pixel value.
pub open spec fn spec_parse_number(s: Seq<char>) -> Result<Decimal, SpecStyleError> {
    spec_parse_px(s)
}

/// Reads a scalar property (font size, flex grow, line height and the like),
/// written as a pixel literal.
pub fn parse_number(s: &[char]) -> (r: Result<Decimal, StyleError>)
    ensures
        match r {
            Ok(d) => spec_parse_number(s@) == Ok::<Decimal, SpecStyleError>(d),
            Err(e) => spec_parse_number(s@) == Err::<Decimal, SpecStyleError>(e@),
        },
{
    match parse_px(s) {
        Ok(px) => Ok(px.0),
        Err(e) => Err(e),
    }
}

/// The outcome of `parse_i32`.
pub open spec fn spec_parse_i32(s: Seq<char>) -> Result<i32, SpecStyleError> {
    if is_int_literal(s) && i32::MIN <= int_value(s) <= i32::MAX {
        Ok(int_value(s) as i32)
    } else {
        Err(SpecStyleError { error: "invalid integer literal"@, value: s })
    }
}

/// Reads a signed integer property (z-index).
pub fn parse_i32(s: &[char]) -> (r: Result<i32, StyleError>)
    ensures
        match r {
            Ok(v) => spec_parse_i32(s@) == Ok::<i32, SpecStyleError>(v),
            Err(e) => spec_parse_i32(s@) == Err::<i32, SpecStyleError>(e@),
        },
{
    match crate::num::parse_i32(s) {
        Some(v) => Ok(v),
        None => Err(StyleError::new("invalid integer literal", s)),
    }
}

/// An owned copy of the value (font families are kept as written).
pub fn to_owned(s: &[char]) -> (r: Result<Vec<char>, StyleError>)
    ensures
        match r {
            Ok(v) => v@ == s@,
            Err(_) => false,
        },
{
    Ok(crate::text::span_to_vec(s, 0, s.len()))
}

/// The outcome of `parse_gap`: the pixel value applied to both axes.
pub open spec fn spec_parse_gap(s: Seq<char>) -> Result<Size, SpecStyleError> {
    match spec_parse_px(s) {
        Ok(d) => Ok(Size { width: d, height: d }),
        Err(e) => Err(e),
    }
}

/// Reads a gap: one pixel literal used for both axes.
pub fn parse_gap(s: &[char]) -> (r: Result<Size, StyleError>)
    ensures
        match r {
            Ok(v) => spec_parse_gap(s@) == Ok::<Size, SpecStyleError>(v),
            Err(e) => spec_parse_gap(s@) == Err::<Size, SpecStyleError>(e@),
        },
{
    match parse_px(s) {
        Ok(px) => Ok(Size { width: px.0, height: px.0 }),
        Err(e) => Err(e),
    }
}

/// The outcome of `parse_seconds`: a decimal number suffixed with `s`.
pub open spec fn spec_parse_seconds(s: Seq<char>) -> Result<Decimal, SpecStyleError> {
    if !(s.len() >= 1 && s.last() == 's') {
        Err(
            SpecStyleError {
                error: "Duration must be given as seconds i.e. 1s or 0.1s"@,
                value: s,
            },
        )
    } else {
        match spec_suffixed_value(s, 's') {
            Some(d) => Ok(d),
            None => Err(SpecStyleError { error: "invalid numeric literal"@, value: s }),
        }
    }
}

/// Reads a duration in seconds (fractional allowed), suffixed with `s`.
pub fn parse_seconds(s: &[char]) -> (r: Result<Decimal, StyleError>)
    ensures
        match r {
            Ok(d) => spec_parse_seconds(s@) == Ok::<Decimal, SpecStyleError>(d),
            Err(e) => spec_parse_seconds(s@) == Err::<Decimal, SpecStyleError>(e@),
        },
{
    let n = s.len();
    if !(n >= 1 && s[n - 1] == 's') {
        return Err(StyleError::new("Duration must be given as seconds i.e. 1s or 0.1s", s));
    }
    let stripped = crate::text::span_to_vec(s, 0, n - 1);
    let body = crate::text::strip_blanks_vec(stripped.as_slice());
    match crate::num::parse_decimal_span(body.as_slice(), 0, body.len()) {
        Some(d) => {
            proof {
                assert(body@.subrange(0, body@.len() as int) =~= body@);
            }
            Ok(d)
        },
        None => {
            proof {
                assert(body@.subrange(0, body@.len() as int) =~= body@);
            }
            Err(StyleError::new("invalid numeric literal", s))
        },
    }
}

/// The outcome of `parse_transition`: the first word is the transitioned
/// property key, the second its duration; further words are ignored.
pub open spec fn spec_parse_transition(s: Seq<char>) -> Result<
    (Seq<char>, Decimal),
    SpecStyleError,
> {
    let parts = split_spaces_from(s, 0);
    if parts.len() == 0 {
        Err(SpecStyleError { error: "Missing transition key"@, value: s })
    } else if parts.len() == 1 {
        Err(SpecStyleError { error: "Missing transition duration"@, value: s })
    } else {
        match spec_parse_seconds(parts[1]) {
            Ok(d) => Ok((parts[0], d)),
            Err(e) => Err(e),
        }
    }
}

/// Reads a transition: `key duration`, the duration in seconds. The result
/// pairs the property key with a linear transition over that duration.
pub fn parse_transition(s: &[char]) -> (r: Result<(Vec<char>, Transition), StyleError>)
    ensures
        match r {
            Ok(v) => spec_parse_transition(s@) == Ok::<(Seq<char>, Decimal), SpecStyleError>(
                (v.0@, v.1.seconds),
            ),
            Err(e) => spec_parse_transition(s@) == Err::<(Seq<char>, Decimal), SpecStyleError>(e@),
        },
{
    let parts = crate::text::split_whitespace(s);
    if parts.len() == 0 {
        return Err(StyleError::new("Missing transition key", s));
    }
    if parts.len() == 1 {
        return Err(StyleError::new("Missing transition duration", s));
    }
    proof {
        assert(parts@.map_values(|p: Vec<char>| p@)[0] == parts@[0]@);
        assert(parts@.map_values(|p: Vec<char>| p@)[1] == parts@[1]@);
    }
    match parse_seconds(parts[1].as_slice()) {
        Ok(d) => {
            let key = crate::text::span_to_vec(parts[0].as_slice(), 0, parts[0].len());
            proof {
                assert(key@ =~= parts@[0]@);
            }
            Ok((key, Transition { seconds: d }))
        },
        Err(e) => Err(e),
    }
}

/// The `display` keyword table.
pub open spec fn spec_display_keyword(s: Seq<char>) -> Option<Display> {
    if s == "block"@ {
        Some(Display::Block)
    } else if s == "flex"@ {
        Some(Display::Flex)
    } else if s == "grid"@ {
        Some(Display::Grid)
    } else if s == "none"@ {
        Some(Display::Hidden)
    } else {
        None
    }
}

/// Reads a `display` keyword.
pub fn parse_display(s: &[char]) -> (r: Result<Display, StyleError>)
    ensures
        match r {
            Ok(v) => spec_display_keyword(s@) == Some(v),
            Err(e) => spec_display_keyword(s@) is None && e@.error == "Invalid display"@ && e@.value
                == s@,
        },
{
    if crate::text::chars_eq_str(s, "block") {
        Ok(Display::Block)
    } else if crate::text::chars_eq_str(s, "flex") {
        Ok(Display::Flex)
    } else if crate::text::chars_eq_str(s, "grid") {
        Ok(Display::Grid)
    } else if crate::text::chars_eq_str(s, "none") {
        Ok(Display::Hidden)
    } else {
        Err(StyleError::new("Invalid display", s))
    }
}

/// The `justify-content` keyword table.
pub open spec fn spec_justify_content_keyword(s: Seq<char>) -> Option<JustifyContent> {
    if s == "start"@ {
        Some(JustifyContent::Start)
    } else if s == "end"@ {
        Some(JustifyContent::End)
    } else if s == "flex-start"@ {
        Some(JustifyContent::FlexStart)
    } else if s == "flex-end"@ {
        Some(JustifyContent::FlexEnd)
    } else if s == "center"@ {
        Some(JustifyContent::Center)
    } else if s == "stretch"@ {
        Some(JustifyContent::Stretch)
    } else if s == "space-between"@ {
        Some(JustifyContent::SpaceBetween)
    } else if s == "space-evenly"@ {
        Some(JustifyContent::SpaceEvenly)
    } else if s == "space-around"@ {
        Some(JustifyContent::SpaceAround)
    } else {
        None
    }
}

/// Reads a `justify-content` keyword.
pub fn parse_justify_content(s: &[char]) -> (r: Result<JustifyContent, StyleError>)
    ensures
        match r {
            Ok(v) => spec_justify_content_keyword(s@) == Some(v),
            Err(e) => spec_justify_content_keyword(s@) is None && e@.error == "Invalid justify-content value"@ && e@.value
                == s@,
        },
{
    if crate::text::chars_eq_str(s, "start") {
        Ok(JustifyContent::Start)
    } else if crate::text::chars_eq_str(s, "end") {
        Ok(JustifyContent::End)
    } else if crate::text::chars_eq_str(s, "flex-start") {
        Ok(JustifyContent::FlexStart)
    } else if crate::text::chars_eq_str(s, "flex-end") {
        Ok(JustifyContent::FlexEnd)
    } else if crate::text::chars_eq_str(s, "center") {
        Ok(JustifyContent::Center)
    } else if crate::text::chars_eq_str(s, "stretch") {
        Ok(JustifyContent::Stretch)
    } else if crate::text::chars_eq_str(s, "space-between") {
        Ok(JustifyContent::SpaceBetween)
    } else if crate::text::chars_eq_str(s, "space-evenly") {
        Ok(JustifyContent::SpaceEvenly)
    } else if crate::text::chars_eq_str(s, "space-around") {
        Ok(JustifyContent::SpaceAround)
    } else {
        Err(StyleError::new("Invalid justify-content value", s))
    }
}

/// The `align-items` keyword table.
pub open spec fn spec_align_items_keyword(s: Seq<char>) -> Option<AlignItems> {
    if s == "start"@ {
        Some(AlignItems::Start)
    } else if s == "end"@ {
        Some(AlignItems::End)
    } else if s == "flex-start"@ {
        Some(AlignItems::FlexStart)
    } else if s == "flex-end"@ {
        Some(AlignItems::FlexEnd)
    } else if s == "center"@ {
        Some(AlignItems::Center)
    } else if s == "baseline"@ {
        Some(AlignItems::Baseline)
    } else if s == "stretch"@ {
        Some(AlignItems::Stretch)
    } else {
        None
    }
}

/// Reads a `align-items` keyword.
pub fn parse_align_items(s: &[char]) -> (r: Result<AlignItems, StyleError>)
    ensures
        match r {
            Ok(v) => spec_align_items_keyword(s@) == Some(v),
            Err(e) => spec_align_items_keyword(s@) is None && e@.error == "Invalid align-items value"@ && e@.value
                == s@,
        },
{
    if crate::text::chars_eq_str(s, "start") {
        Ok(AlignItems::Start)
    } else if crate::text::chars_eq_str(s, "end") {
        Ok(AlignItems::End)
    } else if crate::text::chars_eq_str(s, "flex-start") {
        Ok(AlignItems::FlexStart)
    } else if crate::text::chars_eq_str(s, "flex-end") {
        Ok(AlignItems::FlexEnd)
    } else if crate::text::chars_eq_str(s, "center") {
        Ok(AlignItems::Center)
    } else if crate::text::chars_eq_str(s, "baseline") {
        Ok(AlignItems::Baseline)
    } else if crate::text::chars_eq_str(s, "stretch") {
        Ok(AlignItems::Stretch)
    } else {
        Err(StyleError::new("Invalid align-items value", s))
    }
}

/// The `align-content` keyword table.
pub open spec fn spec_align_content_keyword(s: Seq<char>) -> Option<AlignContent> {
    if s == "start"@ {
        Some(AlignContent::Start)
    } else if s == "end"@ {
        Some(AlignContent::End)
    } else if s == "flex-start"@ {
        Some(AlignContent::FlexStart)
    } else if s == "flex-end"@ {
        Some(AlignContent::FlexEnd)
    } else if s == "center"@ {
        Some(AlignContent::Center)
    } else if s == "stretch"@ {
        Some(AlignContent::Stretch)
    } else if s == "space-between"@ {
        Some(AlignContent::SpaceBetween)
    } else if s == "space-evenly"@ {
        Some(AlignContent::SpaceEvenly)
    } else if s == "space-around"@ {
        Some(AlignContent::SpaceAround)
    } else {
        None
    }
}

/// Reads a `align-content` keyword.
pub fn parse_align_content(s: &[char]) -> (r: Result<AlignContent, StyleError>)
    ensures
        match r {
            Ok(v) => spec_align_content_keyword(s@) == Some(v),
            Err(e) => spec_align_content_keyword(s@) is None && e@.error == "Invalid align-content value"@ && e@.value
                == s@,
        },
{
    if crate::text::chars_eq_str(s, "start") {
        Ok(AlignContent::Start)
    } else if crate::text::chars_eq_str(s, "end") {
        Ok(AlignContent::End)
    } else if crate::text::chars_eq_str(s, "flex-start") {
        Ok(AlignContent::FlexStart)
    } else if crate::text::chars_eq_str(s, "flex-end") {
        Ok(AlignContent::FlexEnd)
    } else if crate::text::chars_eq_str(s, "center") {
        Ok(AlignContent::Center)
    } else if crate::text::chars_eq_str(s, "stretch") {
        Ok(AlignContent::Stretch)
    } else if crate::text::chars_eq_str(s, "space-between") {
        Ok(AlignContent::SpaceBetween)
    } else if crate::text::chars_eq_str(s, "space-evenly") {
        Ok(AlignContent::SpaceEvenly)
    } else if crate::text::chars_eq_str(s, "space-around") {
        Ok(AlignContent::SpaceAround)
    } else {
        Err(StyleError::new("Invalid align-content value", s))
    }
}

/// The `position` keyword table.
pub open spec fn spec_position_keyword(s: Seq<char>) -> Option<Position> {
    if s == "relative"@ {
        Some(Position::Relative)
    } else if s == "absolute"@ {
        Some(Position::Absolute)
    } else {
        None
    }
}

/// Reads a `position` keyword.
pub fn parse_position(s: &[char]) -> (r: Result<Position, StyleError>)
    ensures
        match r {
            Ok(v) => spec_position_keyword(s@) == Some(v),
            Err(e) => spec_position_keyword(s@) is None && e@.error == "Invalid position"@ && e@.value
                == s@,
        },
{
    if crate::text::chars_eq_str(s, "relative") {
        Ok(Position::Relative)
    } else if crate::text::chars_eq_str(s, "absolute") {
        Ok(Position::Absolute)
    } else {
        Err(StyleError::new("Invalid position", s))
    }
}

/// The `flex-direction` keyword table.
pub open spec fn spec_flex_direction_keyword(s: Seq<char>) -> Option<FlexDirection> {
    if s == "column"@ {
        Some(FlexDirection::Column)
    } else if s == "column-reverse"@ {
        Some(FlexDirection::ColumnReverse)
    } else if s == "row"@ {
        Some(FlexDirection::Row)
    } else if s == "row-reverse"@ {
        Some(FlexDirection::RowReverse)
    } else {
        None
    }
}

/// Reads a `flex-direction` keyword.
pub fn parse_flex_direction(s: &[char]) -> (r: Result<FlexDirection, StyleError>)
    ensures
        match r {
            Ok(v) => spec_flex_direction_keyword(s@) == Some(v),
            Err(e) => spec_flex_direction_keyword(s@) is None && e@.error == "Invalid flex direction"@ && e@.value
                == s@,
        },
{
    if crate::text::chars_eq_str(s, "column") {
        Ok(FlexDirection::Column)
    } else if crate::text::chars_eq_str(s, "column-reverse") {
        Ok(FlexDirection::ColumnReverse)
    } else if crate::text::chars_eq_str(s, "row") {
        Ok(FlexDirection::Row)
    } else if crate::text::chars_eq_str(s, "row-reverse") {
        Ok(FlexDirection::RowReverse)
    } else {
        Err(StyleError::new("Invalid flex direction", s))
    }
}

/// The `flex-wrap` keyword table.
pub open spec fn spec_flex_wrap_keyword(s: Seq<char>) -> Option<FlexWrap> {
    if s == "wrap"@ {
        Some(FlexWrap::Wrap)
    } else if s == "no-wrap"@ {
        Some(FlexWrap::NoWrap)
    } else if s == "wrap-reverse"@ {
        Some(FlexWrap::WrapReverse)
    } else {
        None
    }
}

/// Reads a `flex-wrap` keyword.
pub fn parse_flex_wrap(s: &[char]) -> (r: Result<FlexWrap, StyleError>)
    ensures
        match r {
            Ok(v) => spec_flex_wrap_keyword(s@) == Some(v),
            Err(e) => spec_flex_wrap_keyword(s@) is None && e@.error == "Invalid flex wrap"@ && e@.value
                == s@,
        },
{
    if crate::text::chars_eq_str(s, "wrap") {
        Ok(FlexWrap::Wrap)
    } else if crate::text::chars_eq_str(s, "no-wrap") {
        Ok(FlexWrap::NoWrap)
    } else if crate::text::chars_eq_str(s, "wrap-reverse") {
        Ok(FlexWrap::WrapReverse)
    } else {
        Err(StyleError::new("Invalid flex wrap", s))
    }
}

/// The `cursor-style` keyword table.
pub open spec fn spec_cursor_style_keyword(s: Seq<char>) -> Option<CursorStyle> {
    if s == "default"@ {
        Some(CursorStyle::Default)
    } else if s == "pointer"@ {
        Some(CursorStyle::Pointer)
    } else if s == "text"@ {
        Some(CursorStyle::Text)
    } else if s == "col-resize"@ {
        Some(CursorStyle::ColResize)
    } else if s == "row-resize"@ {
        Some(CursorStyle::RowResize)
    } else if s == "w-resize"@ {
        Some(CursorStyle::WResize)
    } else if s == "e-resize"@ {
        Some(CursorStyle::EResize)
    } else if s == "s-resize"@ {
        Some(CursorStyle::SResize)
    } else if s == "n-resize"@ {
        Some(CursorStyle::NResize)
    } else if s == "nw-resize"@ {
        Some(CursorStyle::NwResize)
    } else if s == "ne-resize"@ {
        Some(CursorStyle::NeResize)
    } else if s == "sw-resize"@ {
        Some(CursorStyle::SwResize)
    } else if s == "se-resize"@ {
        Some(CursorStyle::SeResize)
    } else if s == "nesw-resize"@ {
        Some(CursorStyle::NeswResize)
    } else if s == "nwse-resize"@ {
        Some(CursorStyle::NwseResize)
    } else {
        None
    }
}

/// Reads a `cursor-style` keyword.
pub fn parse_cursor_style(s: &[char]) -> (r: Result<CursorStyle, StyleError>)
    ensures
        match r {
            Ok(v) => spec_cursor_style_keyword(s@) == Some(v),
            Err(e) => spec_cursor_style_keyword(s@) is None && e@.error == "Invalid cursor style value"@ && e@.value
                == s@,
        },
{
    if crate::text::chars_eq_str(s, "default") {
        Ok(CursorStyle::Default)
    } else if crate::text::chars_eq_str(s, "pointer") {
        Ok(CursorStyle::Pointer)
    } else if crate::text::chars_eq_str(s, "text") {
        Ok(CursorStyle::Text)
    } else if crate::text::chars_eq_str(s, "col-resize") {
        Ok(CursorStyle::ColResize)
    } else if crate::text::chars_eq_str(s, "row-resize") {
        Ok(CursorStyle::RowResize)
    } else if crate::text::chars_eq_str(s, "w-resize") {
        Ok(CursorStyle::WResize)
    } else if crate::text::chars_eq_str(s, "e-resize") {
        Ok(CursorStyle::EResize)
    } else if crate::text::chars_eq_str(s, "s-resize") {
        Ok(CursorStyle::SResize)
    } else if crate::text::chars_eq_str(s, "n-resize") {
        Ok(CursorStyle::NResize)
    } else if crate::text::chars_eq_str(s, "nw-resize") {
        Ok(CursorStyle::NwResize)
    } else if crate::text::chars_eq_str(s, "ne-resize") {
        Ok(CursorStyle::NeResize)
    } else if crate::text::chars_eq_str(s, "sw-resize") {
        Ok(CursorStyle::SwResize)
    } else if crate::text::chars_eq_str(s, "se-resize") {
        Ok(CursorStyle::SeResize)
    } else if crate::text::chars_eq_str(s, "nesw-resize") {
        Ok(CursorStyle::NeswResize)
    } else if crate::text::chars_eq_str(s, "nwse-resize") {
        Ok(CursorStyle::NwseResize)
    } else {
        Err(StyleError::new("Invalid cursor style value", s))
    }
}

/// The `font-style` keyword table.
pub open spec fn spec_font_style_keyword(s: Seq<char>) -> Option<FontStyle> {
    if s == "normal"@ {
        Some(FontStyle::Normal)
    } else if s == "italic"@ {
        Some(FontStyle::Italic)
    } else if s == "oblique"@ {
        Some(FontStyle::Oblique)
    } else {
        None
    }
}

/// Reads a `font-style` keyword.
pub fn parse_font_style(s: &[char]) -> (r: Result<FontStyle, StyleError>)
    ensures
        match r {
            Ok(v) => spec_font_style_keyword(s@) == Some(v),
            Err(e) => spec_font_style_keyword(s@) is None && e@.error == "Invalid font style value"@ && e@.value
                == s@,
        },
{
    if crate::text::chars_eq_str(s, "normal") {
        Ok(FontStyle::Normal)
    } else if crate::text::chars_eq_str(s, "italic") {
        Ok(FontStyle::Italic)
    } else if crate::text::chars_eq_str(s, "oblique") {
        Ok(FontStyle::Oblique)
    } else {
        Err(StyleError::new("Invalid font style value", s))
    }
}

/// The `text-overflow` keyword table.
pub open spec fn spec_text_overflow_keyword(s: Seq<char>) -> Option<TextOverflow> {
    if s == "clip"@ {
        Some(TextOverflow::Clip)
    } else if s == "ellipsis"@ {
        Some(TextOverflow::Ellipsis)
    } else if s == "wrap"@ {
        Some(TextOverflow::Wrap)
    } else {
        None
    }
}

/// Reads a `text-overflow` keyword.
pub fn parse_text_overflow(s: &[char]) -> (r: Result<TextOverflow, StyleError>)
    ensures
        match r {
            Ok(v) => spec_text_overflow_keyword(s@) == Some(v),
            Err(e) => spec_text_overflow_keyword(s@) is None && e@.error == "Invalid text overflow value"@ && e@.value
                == s@,
        },
{
    if crate::text::chars_eq_str(s, "clip") {
        Ok(TextOverflow::Clip)
    } else if crate::text::chars_eq_str(s, "ellipsis") {
        Ok(TextOverflow::Ellipsis)
    } else if crate::text::chars_eq_str(s, "wrap") {
        Ok(TextOverflow::Wrap)
    } else {
        Err(StyleError::new("Invalid text overflow value", s))
    }
}

/// The font-weight table: the numeric weights and the named aliases
/// `thin`, `normal` and `bold`.
pub open spec fn spec_font_weight_keyword(s: Seq<char>) -> Option<FontWeight> {
    if s == "100"@ {
        Some(FontWeight(100))
    } else if s == "thin"@ {
        Some(FontWeight(100))
    } else if s == "200"@ {
        Some(FontWeight(200))
    } else if s == "300"@ {
        Some(FontWeight(300))
    } else if s == "400"@ {
        Some(FontWeight(400))
    } else if s == "normal"@ {
        Some(FontWeight(400))
    } else if s == "500"@ {
        Some(FontWeight(500))
    } else if s == "600"@ {
        Some(FontWeight(600))
    } else if s == "700"@ {
        Some(FontWeight(700))
    } else if s == "bold"@ {
        Some(FontWeight(700))
    } else if s == "800"@ {
        Some(FontWeight(800))
    } else if s == "900"@ {
        Some(FontWeight(900))
    } else {
        None
    }
}

/// Reads a font weight.
pub fn parse_font_weight(s: &[char]) -> (r: Result<FontWeight, StyleError>)
    ensures
        match r {
            Ok(v) => spec_font_weight_keyword(s@) == Some(v),
            Err(e) => spec_font_weight_keyword(s@) is None && e@.error
                == "Invalid cursor style value"@ && e@.value == s@,
        },
{
    if crate::text::chars_eq_str(s, "100") {
        Ok(FontWeight(100))
    } else if crate::text::chars_eq_str(s, "thin") {
        Ok(FontWeight(100))
    } else if crate::text::chars_eq_str(s, "200") {
        Ok(FontWeight(200))
    } else if crate::text::chars_eq_str(s, "300") {
        Ok(FontWeight(300))
    } else if crate::text::chars_eq_str(s, "400") {
        Ok(FontWeight(400))
    } else if crate::text::chars_eq_str(s, "normal") {
        Ok(FontWeight(400))
    } else if crate::text::chars_eq_str(s, "500") {
        Ok(FontWeight(500))
    } else if crate::text::chars_eq_str(s, "600") {
        Ok(FontWeight(600))
    } else if crate::text::chars_eq_str(s, "700") {
        Ok(FontWeight(700))
    } else if crate::text::chars_eq_str(s, "bold") {
        Ok(FontWeight(700))
    } else if crate::text::chars_eq_str(s, "800") {
        Ok(FontWeight(800))
    } else if crate::text::chars_eq_str(s, "900") {
        Ok(FontWeight(900))
    } else {
        Err(StyleError::new("Invalid cursor style value", s))
    }
}


/// A box shadow: offsets, blur, spread and color. The absent parts of a
/// shorter shadow value keep the default: zero lengths and opaque black.
#[derive(Debug, Clone, Copy, PartialEq, Eq, Structural)]
pub struct BoxShadow {
    pub h_offset: PxPct,
    pub v_offset: PxPct,
    pub blur_radius: PxPct,
    pub spread: PxPct,
    pub color: crate::theme::color::Color,
}

/// The zero decimal.
pub open spec fn spec_zero() -> Decimal {
    Decimal { neg: false, mantissa: 0, scale: 0 }
}

/// The default shadow: no offsets, no blur, no spread, opaque black.
pub open spec fn spec_shadow_default() -> BoxShadow {
    BoxShadow {
        h_offset: PxPct::Px(spec_zero()),
        v_offset: PxPct::Px(spec_zero()),
        blur_radius: PxPct::Px(spec_zero()),
        spread: PxPct::Px(spec_zero()),
        color: crate::theme::color::Color { r: 0, g: 0, b: 0, a: 255 },
    }
}

impl Default for BoxShadow {
    /// The default shadow: no offsets, no blur, no spread, opaque black.
    fn default() -> (r: BoxShadow)
        ensures
            r == spec_shadow_default(),
    {
        BoxShadow {
            h_offset: PxPct::Px(Decimal { neg: false, mantissa: 0, scale: 0 }),
            v_offset: PxPct::Px(Decimal { neg: false, mantissa: 0, scale: 0 }),
            blur_radius: PxPct::Px(Decimal { neg: false, mantissa: 0, scale: 0 }),
            spread: PxPct::Px(Decimal { neg: false, mantissa: 0, scale: 0 }),
            color: crate::theme::color::Color { r: 0, g: 0, b: 0, a: 255 },
        }
    }
}

/// Two whitespace-separated words joined with single blanks, as a shadow
/// diagnostic quotes them.
pub open spec fn spec_joined2(a: Seq<char>, b: Seq<char>) -> Seq<char> {
    a + seq![' '] + b
}

pub open spec fn spec_joined3(a: Seq<char>, b: Seq<char>, c: Seq<char>) -> Seq<char> {
    a + seq![' '] + b + seq![' '] + c
}

pub open spec fn spec_joined4(a: Seq<char>, b: Seq<char>, c: Seq<char>, d: Seq<char>) -> Seq<
    char,
> {
    a + seq![' '] + b + seq![' '] + c + seq![' '] + d
}

pub open spec fn spec_joined5(
    a: Seq<char>,
    b: Seq<char>,
    c: Seq<char>,
    d: Seq<char>,
    e: Seq<char>,
) -> Seq<char> {
    a + seq![' '] + b + seq![' '] + c + seq![' '] + d + seq![' '] + e
}

/// A two-token shadow: both tokens are offsets.
pub open spec fn spec_parse_box_shadow_2(a: Seq<char>, b: Seq<char>) -> Result<
    BoxShadow,
    SpecStyleError,
> {
    if spec_parse_px_pct(a) is Ok && spec_parse_px_pct(b) is Ok {
        Ok(
            BoxShadow {
                h_offset: spec_parse_px_pct(a)->Ok_0,
                v_offset: spec_parse_px_pct(b)->Ok_0,
                ..spec_shadow_default()
            },
        )
    } else {
        Err(SpecStyleError { error: "Invalid box shadow value"@, value: spec_joined2(a, b) })
    }
}

/// A three-token shadow, trying in order: offsets then color, color then
/// offsets, and offsets then blur. The first fitting reading wins.
pub open spec fn spec_parse_box_shadow_3(a: Seq<char>, b: Seq<char>, c: Seq<char>) -> Result<
    BoxShadow,
    SpecStyleError,
> {
    if spec_parse_px(a) is Ok && spec_parse_px(b) is Ok && crate::theme::color::spec_parse_color(
        c,
    ) is Ok {
        Ok(
            BoxShadow {
                color: crate::theme::color::spec_parse_color(c)->Ok_0,
                h_offset: PxPct::Px(spec_parse_px(a)->Ok_0),
                v_offset: PxPct::Px(spec_parse_px(b)->Ok_0),
                ..spec_shadow_default()
            },
        )
    } else if crate::theme::color::spec_parse_color(a) is Ok && spec_parse_px(b) is Ok
        && spec_parse_px(c) is Ok {
        Ok(
            BoxShadow {
                color: crate::theme::color::spec_parse_color(a)->Ok_0,
                h_offset: PxPct::Px(spec_parse_px(b)->Ok_0),
                v_offset: PxPct::Px(spec_parse_px(c)->Ok_0),
                ..spec_shadow_default()
            },
        )
    } else if spec_parse_px(a) is Ok && spec_parse_px(b) is Ok && spec_parse_px(c) is Ok {
        Ok(
            BoxShadow {
                blur_radius: PxPct::Px(spec_parse_px(c)->Ok_0),
                h_offset: PxPct::Px(spec_parse_px(a)->Ok_0),
                v_offset: PxPct::Px(spec_parse_px(b)->Ok_0),
                ..spec_shadow_default()
            },
        )
    } else {
        Err(SpecStyleError { error: "Invalid box-shadow value"@, value: spec_joined3(a, b, c) })
    }
}

/// A four-token shadow: offsets, blur and color; color first; or offsets,
/// blur and spread.
pub open spec fn spec_parse_box_shadow_4(
    a: Seq<char>,
    b: Seq<char>,
    c: Seq<char>,
    d: Seq<char>,
) -> Result<BoxShadow, SpecStyleError> {
    if spec_parse_px(a) is Ok && spec_parse_px(b) is Ok && spec_parse_px(c) is Ok
        && crate::theme::color::spec_parse_color(d) is Ok {
        Ok(
            BoxShadow {
                color: crate::theme::color::spec_parse_color(d)->Ok_0,
                blur_radius: PxPct::Px(spec_parse_px(c)->Ok_0),
                h_offset: PxPct::Px(spec_parse_px(a)->Ok_0),
                v_offset: PxPct::Px(spec_parse_px(b)->Ok_0),
                ..spec_shadow_default()
            },
        )
    } else if crate::theme::color::spec_parse_color(a) is Ok && spec_parse_px(b) is Ok
        && spec_parse_px(c) is Ok && spec_parse_px(d) is Ok {
        Ok(
            BoxShadow {
                color: crate::theme::color::spec_parse_color(a)->Ok_0,
                blur_radius: PxPct::Px(spec_parse_px(d)->Ok_0),
                h_offset: PxPct::Px(spec_parse_px(b)->Ok_0),
                v_offset: PxPct::Px(spec_parse_px(c)->Ok_0),
                ..spec_shadow_default()
            },
        )
    } else if spec_parse_px(a) is Ok && spec_parse_px(b) is Ok && spec_parse_px(c) is Ok
        && spec_parse_px(d) is Ok {
        Ok(
            BoxShadow {
                blur_radius: PxPct::Px(spec_parse_px(c)->Ok_0),
                spread: PxPct::Px(spec_parse_px(d)->Ok_0),
                h_offset: PxPct::Px(spec_parse_px(a)->Ok_0),
                v_offset: PxPct::Px(spec_parse_px(b)->Ok_0),
                ..spec_shadow_default()
            },
        )
    } else {
        Err(
            SpecStyleError {
                error: "Invalid box-shadow value"@,
                value: spec_joined4(a, b, c, d),
            },
        )
    }
}

/// A five-token shadow: all parts with the color last or first.
pub open spec fn spec_parse_box_shadow_5(
    a: Seq<char>,
    b: Seq<char>,
    c: Seq<char>,
    d: Seq<char>,
    e: Seq<char>,
) -> Result<BoxShadow, SpecStyleError> {
    if spec_parse_px(a) is Ok && spec_parse_px(b) is Ok && spec_parse_px(c) is Ok
        && spec_parse_px(d) is Ok && crate::theme::color::spec_parse_color(e) is Ok {
        Ok(
            BoxShadow {
                h_offset: PxPct::Px(spec_parse_px(a)->Ok_0),
                v_offset: PxPct::Px(spec_parse_px(b)->Ok_0),
                blur_radius: PxPct::Px(spec_parse_px(c)->Ok_0),
                spread: PxPct::Px(spec_parse_px(d)->Ok_0),
                color: crate::theme::color::spec_parse_color(e)->Ok_0,
            },
        )
    } else if crate::theme::color::spec_parse_color(a) is Ok && spec_parse_px(b) is Ok
        && spec_parse_px(c) is Ok && spec_parse_px(d) is Ok && spec_parse_px(e) is Ok {
        Ok(
            BoxShadow {
                h_offset: PxPct::Px(spec_parse_px(b)->Ok_0),
                v_offset: PxPct::Px(spec_parse_px(c)->Ok_0),
                blur_radius: PxPct::Px(spec_parse_px(d)->Ok_0),
                spread: PxPct::Px(spec_parse_px(e)->Ok_0),
                color: crate::theme::color::spec_parse_color(a)->Ok_0,
            },
        )
    } else {
        Err(
            SpecStyleError {
                error: "Invalid box-shadow value"@,
                value: spec_joined5(a, b, c, d, e),
            },
        )
    }
}

/// The outcome of `parse_box_shadow`: `none`, or two to five
/// whitespace-separated tokens read by the matching arity.
pub open spec fn spec_parse_box_shadow(s: Seq<char>) -> Result<BoxShadow, SpecStyleError> {
    let parts = split_spaces_from(s, 0);
    if parts.len() == 1 && parts[0] == "none"@ {
        Ok(spec_shadow_default())
    } else if parts.len() == 2 {
        spec_parse_box_shadow_2(parts[0], parts[1])
    } else if parts.len() == 3 {
        spec_parse_box_shadow_3(parts[0], parts[1], parts[2])
    } else if parts.len() == 4 {
        spec_parse_box_shadow_4(parts[0], parts[1], parts[2], parts[3])
    } else if parts.len() == 5 {
        spec_parse_box_shadow_5(parts[0], parts[1], parts[2], parts[3], parts[4])
    } else {
        Err(SpecStyleError { error: "invalid box-shadow value"@, value: s })
    }
}

/// Placing the color first or last around a pair of offsets reads as the
/// same shadow: for tokens `x y c` where `x` and `y` are pixel lengths and
/// `c` is a color but not a pixel length, the two orders agree.
pub proof fn lemma_box_shadow_color_order(x: Seq<char>, y: Seq<char>, c: Seq<char>)
    requires
        spec_parse_px(x) is Ok,
        spec_parse_px(y) is Ok,
        crate::theme::color::spec_parse_color(c) is Ok,
        !(spec_parse_px(c) is Ok),
    ensures
        spec_parse_box_shadow_3(x, y, c) == spec_parse_box_shadow_3(c, x, y),
{
}

/// Joins words with single blanks, as the shadow diagnostics quote them.
fn join_blanks(parts: &Vec<Vec<char>>, from: usize, to: usize) -> (r: Vec<char>)
    requires
        from < to <= parts@.len(),
        to - from <= 5,
    ensures
        to - from == 2 ==> r@ == spec_joined2(parts@[from as int]@, parts@[from as int + 1]@),
        to - from == 3 ==> r@ == spec_joined3(
            parts@[from as int]@,
            parts@[from as int + 1]@,
            parts@[from as int + 2]@,
        ),
        to - from == 4 ==> r@ == spec_joined4(
            parts@[from as int]@,
            parts@[from as int + 1]@,
            parts@[from as int + 2]@,
            parts@[from as int + 3]@,
        ),
        to - from == 5 ==> r@ == spec_joined5(
            parts@[from as int]@,
            parts@[from as int + 1]@,
            parts@[from as int + 2]@,
            parts@[from as int + 3]@,
            parts@[from as int + 4]@,
        ),
{
    let mut out: Vec<char> = Vec::new();
    crate::text::append_chars(&mut out, parts[from].as_slice());
    let mut i = from + 1;
    while i < to
        invariant
            from < i <= to <= parts@.len(),
            i == from + 1 ==> out@ == parts@[from as int]@,
            i == from + 2 ==> out@ == spec_joined2(parts@[from as int]@, parts@[from as int + 1]@),
            i == from + 3 ==> out@ == spec_joined3(
                parts@[from as int]@,
                parts@[from as int + 1]@,
                parts@[from as int + 2]@,
            ),
            i == from + 4 ==> out@ == spec_joined4(
                parts@[from as int]@,
                parts@[from as int + 1]@,
                parts@[from as int + 2]@,
                parts@[from as int + 3]@,
            ),
            i == from + 5 ==> out@ == spec_joined5(
                parts@[from as int]@,
                parts@[from as int + 1]@,
                parts@[from as int + 2]@,
                parts@[from as int + 3]@,
                parts@[from as int + 4]@,
            ),
            to - from <= 5,
        decreases to - i,
    {
        out.push(' ');
        crate::text::append_chars(&mut out, parts[i].as_slice());
        i = i + 1;
    }
    out
}

/// Reads a box-shadow value: `none`, or two to five whitespace-separated
/// tokens, each legal assignment of roles tried in a fixed priority order
/// with the first success winning.
pub fn parse_box_shadow(s: &[char]) -> (r: Result<BoxShadow, StyleError>)
    ensures
        match r {
            Ok(v) => spec_parse_box_shadow(s@) == Ok::<BoxShadow, SpecStyleError>(v),
            Err(e) => spec_parse_box_shadow(s@) == Err::<BoxShadow, SpecStyleError>(e@),
        },
{
    let parts = crate::text::split_whitespace(s);
    let n = parts.len();
    proof {
        assert forall|k: int| 0 <= k < n implies parts@.map_values(|p: Vec<char>| p@)[k]
            == parts@[k]@ by {}
    }
    if n == 1 && crate::text::chars_eq_str(parts[0].as_slice(), "none") {
        return Ok(BoxShadow::default());
    }
    if n == 2 {
        let pa = parse_px_pct(parts[0].as_slice());
        let pb = parse_px_pct(parts[1].as_slice());
        if let (Ok(h), Ok(v)) = (pa, pb) {
            return Ok(BoxShadow { h_offset: h, v_offset: v, ..BoxShadow::default() });
        }
        return Err(StyleError { error: crate::text::str_to_chars("Invalid box shadow value"), value: join_blanks(&parts, 0, 2) });
    }
    if n == 3 {
        let a = parts[0].as_slice();
        let b = parts[1].as_slice();
        let c = parts[2].as_slice();
        if let (Ok(h), Ok(v), Ok(col)) = (parse_px(a), parse_px(b), crate::theme::color::parse_color(c)) {
            return Ok(
                BoxShadow {
                    color: col,
                    h_offset: PxPct::Px(h.0),
                    v_offset: PxPct::Px(v.0),
                    ..BoxShadow::default()
                },
            );
        }
        if let (Ok(col), Ok(h), Ok(v)) = (crate::theme::color::parse_color(a), parse_px(b), parse_px(c)) {
            return Ok(
                BoxShadow {
                    color: col,
                    h_offset: PxPct::Px(h.0),
                    v_offset: PxPct::Px(v.0),
                    ..BoxShadow::default()
                },
            );
        }
        if let (Ok(h), Ok(v), Ok(blur)) = (parse_px(a), parse_px(b), parse_px(c)) {
            return Ok(
                BoxShadow {
                    blur_radius: PxPct::Px(blur.0),
                    h_offset: PxPct::Px(h.0),
                    v_offset: PxPct::Px(v.0),
                    ..BoxShadow::default()
                },
            );
        }
        return Err(StyleError { error: crate::text::str_to_chars("Invalid box-shadow value"), value: join_blanks(&parts, 0, 3) });
    }
    if n == 4 {
        let a = parts[0].as_slice();
        let b = parts[1].as_slice();
        let c = parts[2].as_slice();
        let d = parts[3].as_slice();
        if let (Ok(h), Ok(v), Ok(blur), Ok(col)) = (
            parse_px(a),
            parse_px(b),
            parse_px(c),
            crate::theme::color::parse_color(d),
        ) {
            return Ok(
                BoxShadow {
                    color: col,
                    blur_radius: PxPct::Px(blur.0),
                    h_offset: PxPct::Px(h.0),
                    v_offset: PxPct::Px(v.0),
                    ..BoxShadow::default()
                },
            );
        }
        if let (Ok(col), Ok(h), Ok(v), Ok(blur)) = (
            crate::theme::color::parse_color(a),
            parse_px(b),
            parse_px(c),
            parse_px(d),
        ) {
            return Ok(
                BoxShadow {
                    color: col,
                    blur_radius: PxPct::Px(blur.0),
                    h_offset: PxPct::Px(h.0),
                    v_offset: PxPct::Px(v.0),
                    ..BoxShadow::default()
                },
            );
        }
        if let (Ok(h), Ok(v), Ok(blur), Ok(spread)) = (
            parse_px(a),
            parse_px(b),
            parse_px(c),
            parse_px(d),
        ) {
            return Ok(
                BoxShadow {
                    blur_radius: PxPct::Px(blur.0),
                    spread: PxPct::Px(spread.0),
                    h_offset: PxPct::Px(h.0),
                    v_offset: PxPct::Px(v.0),
                    ..BoxShadow::default()
                },
            );
        }
        return Err(StyleError { error: crate::text::str_to_chars("Invalid box-shadow value"), value: join_blanks(&parts, 0, 4) });
    }
    if n == 5 {
        let a = parts[0].as_slice();
        let b = parts[1].as_slice();
        let c = parts[2].as_slice();
        let d = parts[3].as_slice();
        let e = parts[4].as_slice();
        if let (Ok(h), Ok(v), Ok(blur), Ok(spread), Ok(col)) = (
            parse_px(a),
            parse_px(b),
            parse_px(c),
            parse_px(d),
            crate::theme::color::parse_color(e),
        ) {
            return Ok(
                BoxShadow {
                    h_offset: PxPct::Px(h.0),
                    v_offset: PxPct::Px(v.0),
                    blur_radius: PxPct::Px(blur.0),
                    spread: PxPct::Px(spread.0),
                    color: col,
                },
            );
        }
        if let (Ok(col), Ok(h), Ok(v), Ok(blur), Ok(spread)) = (
            crate::theme::color::parse_color(a),
            parse_px(b),
            parse_px(c),
            parse_px(d),
            parse_px(e),
        ) {
            return Ok(
                BoxShadow {
                    h_offset: PxPct::Px(h.0),
                    v_offset: PxPct::Px(v.0),
                    blur_radius: PxPct::Px(blur.0),
                    spread: PxPct::Px(spread.0),
                    color: col,
                },
            );
        }
        return Err(StyleError { error: crate::text::str_to_chars("Invalid box-shadow value"), value: join_blanks(&parts, 0, 5) });
    }
    Err(StyleError::new("invalid box-shadow value", s))
}

/// The `display` keyword read as a result.
pub open spec fn spec_parse_display(s: Seq<char>) -> Result<Display, SpecStyleError> {
    match spec_display_keyword(s) {
        Some(v) => Ok(v),
        None => Err(SpecStyleError { error: "Invalid display"@, value: s }),
    }
}

/// The `position` keyword read as a result.
pub open spec fn spec_parse_position(s: Seq<char>) -> Result<Position, SpecStyleError> {
    match spec_position_keyword(s) {
        Some(v) => Ok(v),
        None => Err(SpecStyleError { error: "Invalid position"@, value: s }),
    }
}

/// The `flex-direction` keyword read as a result.
pub open spec fn spec_parse_flex_direction(s: Seq<char>) -> Result<FlexDirection, SpecStyleError> {
    match spec_flex_direction_keyword(s) {
        Some(v) => Ok(v),
        None => Err(SpecStyleError { error: "Invalid flex direction"@, value: s }),
    }
}

/// The `flex-wrap` keyword read as a result.
pub open spec fn spec_parse_flex_wrap(s: Seq<char>) -> Result<FlexWrap, SpecStyleError> {
    match spec_flex_wrap_keyword(s) {
        Some(v) => Ok(v),
        None => Err(SpecStyleError { error: "Invalid flex wrap"@, value: s }),
    }
}

/// The `justify-content` keyword read as a result.
pub open spec fn spec_parse_justify_content(s: Seq<char>) -> Result<JustifyContent, SpecStyleError> {
    match spec_justify_content_keyword(s) {
        Some(v) => Ok(v),
        None => Err(SpecStyleError { error: "Invalid justify-content value"@, value: s }),
    }
}

/// The `align-items` keyword read as a result.
pub open spec fn spec_parse_align_items(s: Seq<char>) -> Result<AlignItems, SpecStyleError> {
    match spec_align_items_keyword(s) {
        Some(v) => Ok(v),
        None => Err(SpecStyleError { error: "Invalid align-items value"@, value: s }),
    }
}

/// The `align-content` keyword read as a result.
pub open spec fn spec_parse_align_content(s: Seq<char>) -> Result<AlignContent, SpecStyleError> {
    match spec_align_content_keyword(s) {
        Some(v) => Ok(v),
        None => Err(SpecStyleError { error: "Invalid align-content value"@, value: s }),
    }
}

/// The `cursor-style` keyword read as a result.
pub open spec fn spec_parse_cursor_style(s: Seq<char>) -> Result<CursorStyle, SpecStyleError> {
    match spec_cursor_style_keyword(s) {
        Some(v) => Ok(v),
        None => Err(SpecStyleError { error: "Invalid cursor style value"@, value: s }),
    }
}

/// The `font-weight` keyword read as a result.
pub open spec fn spec_parse_font_weight(s: Seq<char>) -> Result<FontWeight, SpecStyleError> {
    match spec_font_weight_keyword(s) {
        Some(v) => Ok(v),
        None => Err(SpecStyleError { error: "Invalid cursor style value"@, value: s }),
    }
}

/// The `font-style` keyword read as a result.
pub open spec fn spec_parse_font_style(s: Seq<char>) -> Result<FontStyle, SpecStyleError> {
    match spec_font_style_keyword(s) {
        Some(v) => Ok(v),
        None => Err(SpecStyleError { error: "Invalid font style value"@, value: s }),
    }
}

/// The `text-overflow` keyword read as a result.
pub open spec fn spec_parse_text_overflow(s: Seq<char>) -> Result<TextOverflow, SpecStyleError> {
    match spec_text_overflow_keyword(s) {
        Some(v) => Ok(v),
        None => Err(SpecStyleError { error: "Invalid text overflow value"@, value: s }),
    }
}

/// A parsed style property: one variant per recognized key, carrying the
/// typed value its parser produced.
#[derive(Debug, PartialEq, Eq)]
pub enum StyleProps {
    Display(Display),
    Position(Position),
    Width(PxPctAuto),
    Height(PxPctAuto),
    MinWidth(PxPctAuto),
    MinHeight(PxPctAuto),
    MaxWidth(PxPctAuto),
    MaxHeight(PxPctAuto),
    FlexDirection(FlexDirection),
    FlexWrap(FlexWrap),
    FlexGrow(Decimal),
    FlexShrink(Decimal),
    FlexBasis(PxPctAuto),
    JustifyContent(JustifyContent),
    JustifySelf(AlignItems),
    AlignItems(AlignItems),
    AlignContent(AlignContent),
    AlignSelf(AlignItems),
    Border(Px),
    BorderLeft(Px),
    BorderTop(Px),
    BorderRight(Px),
    BorderBottom(Px),
    BorderRadius(PxPct),
    OutlineColor(crate::theme::color::Color),
    Outline(Px),
    BorderColor(crate::theme::color::Color),
    Padding(PxPct),
    PaddingLeft(PxPct),
    PaddingTop(PxPct),
    PaddingRight(PxPct),
    PaddingBottom(PxPct),
    Margin(PxPctAuto),
    MarginLeft(PxPctAuto),
    MarginTop(PxPctAuto),
    MarginRight(PxPctAuto),
    MarginBottom(PxPctAuto),
    InsetLeft(PxPctAuto),
    InsetTop(PxPctAuto),
    InsetRight(PxPctAuto),
    InsetBottom(PxPctAuto),
    ZIndex(i32),
    Cursor(CursorStyle),
    Color(crate::theme::color::Color),
    BackgroundColor(crate::theme::color::Color),
    BoxShadow(BoxShadow),
    FontSize(Decimal),
    FontFamily(Vec<char>),
    FontWeight(FontWeight),
    FontStyle(FontStyle),
    CursorColor(crate::theme::color::Color),
    TextOverflow(TextOverflow),
    LineHeight(Decimal),
    AspectRatio(Decimal),
    Gap(Size),
    Transition((Vec<char>, Transition)),
}

pub enum SpecStyleProps {
    Display(Display),
    Position(Position),
    Width(PxPctAuto),
    Height(PxPctAuto),
    MinWidth(PxPctAuto),
    MinHeight(PxPctAuto),
    MaxWidth(PxPctAuto),
    MaxHeight(PxPctAuto),
    FlexDirection(FlexDirection),
    FlexWrap(FlexWrap),
    FlexGrow(Decimal),
    FlexShrink(Decimal),
    FlexBasis(PxPctAuto),
    JustifyContent(JustifyContent),
    JustifySelf(AlignItems),
    AlignItems(AlignItems),
    AlignContent(AlignContent),
    AlignSelf(AlignItems),
    Border(Px),
    BorderLeft(Px),
    BorderTop(Px),
    BorderRight(Px),
    BorderBottom(Px),
    BorderRadius(PxPct),
    OutlineColor(crate::theme::color::Color),
    Outline(Px),
    BorderColor(crate::theme::color::Color),
    Padding(PxPct),
    PaddingLeft(PxPct),
    PaddingTop(PxPct),
    PaddingRight(PxPct),
    PaddingBottom(PxPct),
    Margin(PxPctAuto),
    MarginLeft(PxPctAuto),
    MarginTop(PxPctAuto),
    MarginRight(PxPctAuto),
    MarginBottom(PxPctAuto),
    InsetLeft(PxPctAuto),
    InsetTop(PxPctAuto),
    InsetRight(PxPctAuto),
    InsetBottom(PxPctAuto),
    ZIndex(i32),
    Cursor(CursorStyle),
    Color(crate::theme::color::Color),
    BackgroundColor(crate::theme::color::Color),
    BoxShadow(BoxShadow),
    FontSize(Decimal),
    FontFamily(Seq<char>),
    FontWeight(FontWeight),
    FontStyle(FontStyle),
    CursorColor(crate::theme::color::Color),
    TextOverflow(TextOverflow),
    LineHeight(Decimal),
    AspectRatio(Decimal),
    Gap(Size),
    Transition((Seq<char>, Transition)),
}

impl View for StyleProps {
    type V = SpecStyleProps;

    open spec fn view(&self) -> SpecStyleProps {
        match self {
            StyleProps::Display(v) => SpecStyleProps::Display(*v),
            StyleProps::Position(v) => SpecStyleProps::Position(*v),
            StyleProps::Width(v) => SpecStyleProps::Width(*v),
            StyleProps::Height(v) => SpecStyleProps::Height(*v),
            StyleProps::MinWidth(v) => SpecStyleProps::MinWidth(*v),
            StyleProps::MinHeight(v) => SpecStyleProps::MinHeight(*v),
            StyleProps::MaxWidth(v) => SpecStyleProps::MaxWidth(*v),
            StyleProps::MaxHeight(v) => SpecStyleProps::MaxHeight(*v),
            StyleProps::FlexDirection(v) => SpecStyleProps::FlexDirection(*v),
            StyleProps::FlexWrap(v) => SpecStyleProps::FlexWrap(*v),
            StyleProps::FlexGrow(v) => SpecStyleProps::FlexGrow(*v),
            StyleProps::FlexShrink(v) => SpecStyleProps::FlexShrink(*v),
            StyleProps::FlexBasis(v) => SpecStyleProps::FlexBasis(*v),
            StyleProps::JustifyContent(v) => SpecStyleProps::JustifyContent(*v),
            StyleProps::JustifySelf(v) => SpecStyleProps::JustifySelf(*v),
            StyleProps::AlignItems(v) => SpecStyleProps::AlignItems(*v),
            StyleProps::AlignContent(v) => SpecStyleProps::AlignContent(*v),
            StyleProps::AlignSelf(v) => SpecStyleProps::AlignSelf(*v),
            StyleProps::Border(v) => SpecStyleProps::Border(*v),
            StyleProps::BorderLeft(v) => SpecStyleProps::BorderLeft(*v),
            StyleProps::BorderTop(v) => SpecStyleProps::BorderTop(*v),
            StyleProps::BorderRight(v) => SpecStyleProps::BorderRight(*v),
            StyleProps::BorderBottom(v) => SpecStyleProps::BorderBottom(*v),
            StyleProps::BorderRadius(v) => SpecStyleProps::BorderRadius(*v),
            StyleProps::OutlineColor(v) => SpecStyleProps::OutlineColor(*v),
            StyleProps::Outline(v) => SpecStyleProps::Outline(*v),
            StyleProps::BorderColor(v) => SpecStyleProps::BorderColor(*v),
            StyleProps::Padding(v) => SpecStyleProps::Padding(*v),
            StyleProps::PaddingLeft(v) => SpecStyleProps::PaddingLeft(*v),
            StyleProps::PaddingTop(v) => SpecStyleProps::PaddingTop(*v),
            StyleProps::PaddingRight(v) => SpecStyleProps::PaddingRight(*v),
            StyleProps::PaddingBottom(v) => SpecStyleProps::PaddingBottom(*v),
            StyleProps::Margin(v) => SpecStyleProps::Margin(*v),
            StyleProps::MarginLeft(v) => SpecStyleProps::MarginLeft(*v),
            StyleProps::MarginTop(v) => SpecStyleProps::MarginTop(*v),
            StyleProps::MarginRight(v) => SpecStyleProps::MarginRight(*v),
            StyleProps::MarginBottom(v) => SpecStyleProps::MarginBottom(*v),
            StyleProps::InsetLeft(v) => SpecStyleProps::InsetLeft(*v),
            StyleProps::InsetTop(v) => SpecStyleProps::InsetTop(*v),
            StyleProps::InsetRight(v) => SpecStyleProps::InsetRight(*v),
            StyleProps::InsetBottom(v) => SpecStyleProps::InsetBottom(*v),
            StyleProps::ZIndex(v) => SpecStyleProps::ZIndex(*v),
            StyleProps::Cursor(v) => SpecStyleProps::Cursor(*v),
            StyleProps::Color(v) => SpecStyleProps::Color(*v),
            StyleProps::BackgroundColor(v) => SpecStyleProps::BackgroundColor(*v),
            StyleProps::BoxShadow(v) => SpecStyleProps::BoxShadow(*v),
            StyleProps::FontSize(v) => SpecStyleProps::FontSize(*v),
            StyleProps::FontFamily(v) => SpecStyleProps::FontFamily(v@),
            StyleProps::FontWeight(v) => SpecStyleProps::FontWeight(*v),
            StyleProps::FontStyle(v) => SpecStyleProps::FontStyle(*v),
            StyleProps::CursorColor(v) => SpecStyleProps::CursorColor(*v),
            StyleProps::TextOverflow(v) => SpecStyleProps::TextOverflow(*v),
            StyleProps::LineHeight(v) => SpecStyleProps::LineHeight(*v),
            StyleProps::AspectRatio(v) => SpecStyleProps::AspectRatio(*v),
            StyleProps::Gap(v) => SpecStyleProps::Gap(*v),
            StyleProps::Transition(v) => SpecStyleProps::Transition((v.0@, v.1)),
        }
    }
}

/// The key table: which parser reads which property, and the typed variant
/// the value becomes. An unrecognized key is an error naming the key.
pub open spec fn spec_try_props(key: Seq<char>, value: Seq<char>) -> Result<
    SpecStyleProps,
    SpecStyleError,
> {
    if key == "display"@ {
        match spec_parse_display(value) {
            Ok(v) => Ok(SpecStyleProps::Display(v)),
            Err(e) => Err(e),
        }
    } else if key == "position"@ {
        match spec_parse_position(value) {
            Ok(v) => Ok(SpecStyleProps::Position(v)),
            Err(e) => Err(e),
        }
    } else if key == "width"@ {
        match spec_parse_pxpctauto(value) {
            Ok(v) => Ok(SpecStyleProps::Width(v)),
            Err(e) => Err(e),
        }
    } else if key == "height"@ {
        match spec_parse_pxpctauto(value) {
            Ok(v) => Ok(SpecStyleProps::Height(v)),
            Err(e) => Err(e),
        }
    } else if key == "min-width"@ {
        match spec_parse_pxpctauto(value) {
            Ok(v) => Ok(SpecStyleProps::MinWidth(v)),
            Err(e) => Err(e),
        }
    } else if key == "min-height"@ {
        match spec_parse_pxpctauto(value) {
            Ok(v) => Ok(SpecStyleProps::MinHeight(v)),
            Err(e) => Err(e),
        }
    } else if key == "max-width"@ {
        match spec_parse_pxpctauto(value) {
            Ok(v) => Ok(SpecStyleProps::MaxWidth(v)),
            Err(e) => Err(e),
        }
    } else if key == "max-height"@ {
        match spec_parse_pxpctauto(value) {
            Ok(v) => Ok(SpecStyleProps::MaxHeight(v)),
            Err(e) => Err(e),
        }
    } else if key == "flex-direction"@ {
        match spec_parse_flex_direction(value) {
            Ok(v) => Ok(SpecStyleProps::FlexDirection(v)),
            Err(e) => Err(e),
        }
    } else if key == "flex-wrap"@ {
        match spec_parse_flex_wrap(value) {
            Ok(v) => Ok(SpecStyleProps::FlexWrap(v)),
            Err(e) => Err(e),
        }
    } else if key == "flex-grow"@ {
        match spec_parse_number(value) {
            Ok(v) => Ok(SpecStyleProps::FlexGrow(v)),
            Err(e) => Err(e),
        }
    } else if key == "flex-shrink"@ {
        match spec_parse_number(value) {
            Ok(v) => Ok(SpecStyleProps::FlexShrink(v)),
            Err(e) => Err(e),
        }
    } else if key == "flex-basis"@ {
        match spec_parse_pxpctauto(value) {
            Ok(v) => Ok(SpecStyleProps::FlexBasis(v)),
            Err(e) => Err(e),
        }
    } else if key == "justify-content"@ {
        match spec_parse_justify_content(value) {
            Ok(v) => Ok(SpecStyleProps::JustifyContent(v)),
            Err(e) => Err(e),
        }
    } else if key == "justify-self"@ {
        match spec_parse_align_items(value) {
            Ok(v) => Ok(SpecStyleProps::JustifySelf(v)),
            Err(e) => Err(e),
        }
    } else if key == "align-items"@ {
        match spec_parse_align_items(value) {
            Ok(v) => Ok(SpecStyleProps::AlignItems(v)),
            Err(e) => Err(e),
        }
    } else if key == "align-content"@ {
        match spec_parse_align_content(value) {
            Ok(v) => Ok(SpecStyleProps::AlignContent(v)),
            Err(e) => Err(e),
        }
    } else if key == "align-self"@ {
        match spec_parse_align_items(value) {
            Ok(v) => Ok(SpecStyleProps::AlignSelf(v)),
            Err(e) => Err(e),
        }
    } else if key == "border"@ {
        match spec_parse_px(value) {
            Ok(v) => Ok(SpecStyleProps::Border(Px(v))),
            Err(e) => Err(e),
        }
    } else if key == "border-left"@ {
        match spec_parse_px(value) {
            Ok(v) => Ok(SpecStyleProps::BorderLeft(Px(v))),
            Err(e) => Err(e),
        }
    } else if key == "border-top"@ {
        match spec_parse_px(value) {
            Ok(v) => Ok(SpecStyleProps::BorderTop(Px(v))),
            Err(e) => Err(e),
        }
    } else if key == "border-right"@ {
        match spec_parse_px(value) {
            Ok(v) => Ok(SpecStyleProps::BorderRight(Px(v))),
            Err(e) => Err(e),
        }
    } else if key == "border-bottom"@ {
        match spec_parse_px(value) {
            Ok(v) => Ok(SpecStyleProps::BorderBottom(Px(v))),
            Err(e) => Err(e),
        }
    } else if key == "border-radius"@ {
        match spec_parse_px_pct(value) {
            Ok(v) => Ok(SpecStyleProps::BorderRadius(v)),
            Err(e) => Err(e),
        }
    } else if key == "outline-color"@ {
        match crate::theme::color::spec_parse_color(value) {
            Ok(v) => Ok(SpecStyleProps::OutlineColor(v)),
            Err(e) => Err(e),
        }
    } else if key == "outline"@ {
        match spec_parse_px(value) {
            Ok(v) => Ok(SpecStyleProps::Outline(Px(v))),
            Err(e) => Err(e),
        }
    } else if key == "border-color"@ {
        match crate::theme::color::spec_parse_color(value) {
            Ok(v) => Ok(SpecStyleProps::BorderColor(v)),
            Err(e) => Err(e),
        }
    } else if key == "padding"@ {
        match spec_parse_px_pct(value) {
            Ok(v) => Ok(SpecStyleProps::Padding(v)),
            Err(e) => Err(e),
        }
    } else if key == "padding-left"@ {
        match spec_parse_px_pct(value) {
            Ok(v) => Ok(SpecStyleProps::PaddingLeft(v)),
            Err(e) => Err(e),
        }
    } else if key == "padding-top"@ {
        match spec_parse_px_pct(value) {
            Ok(v) => Ok(SpecStyleProps::PaddingTop(v)),
            Err(e) => Err(e),
        }
    } else if key == "padding-right"@ {
        match spec_parse_px_pct(value) {
            Ok(v) => Ok(SpecStyleProps::PaddingRight(v)),
            Err(e) => Err(e),
        }
    } else if key == "padding-bottom"@ {
        match spec_parse_px_pct(value) {
            Ok(v) => Ok(SpecStyleProps::PaddingBottom(v)),
            Err(e) => Err(e),
        }
    } else if key == "margin"@ {
        match spec_parse_pxpctauto(value) {
            Ok(v) => Ok(SpecStyleProps::Margin(v)),
            Err(e) => Err(e),
        }
    } else if key == "margin-left"@ {
        match spec_parse_pxpctauto(value) {
            Ok(v) => Ok(SpecStyleProps::MarginLeft(v)),
            Err(e) => Err(e),
        }
    } else if key == "margin-top"@ {
        match spec_parse_pxpctauto(value) {
            Ok(v) => Ok(SpecStyleProps::MarginTop(v)),
            Err(e) => Err(e),
        }
    } else if key == "margin-right"@ {
        match spec_parse_pxpctauto(value) {
            Ok(v) => Ok(SpecStyleProps::MarginRight(v)),
            Err(e) => Err(e),
        }
    } else if key == "margin-bottom"@ {
        match spec_parse_pxpctauto(value) {
            Ok(v) => Ok(SpecStyleProps::MarginBottom(v)),
            Err(e) => Err(e),
        }
    } else if key == "left"@ {
        match spec_parse_pxpctauto(value) {
            Ok(v) => Ok(SpecStyleProps::InsetLeft(v)),
            Err(e) => Err(e),
        }
    } else if key == "top"@ {
        match spec_parse_pxpctauto(value) {
            Ok(v) => Ok(SpecStyleProps::InsetTop(v)),
            Err(e) => Err(e),
        }
    } else if key == "right"@ {
        match spec_parse_pxpctauto(value) {
            Ok(v) => Ok(SpecStyleProps::InsetRight(v)),
            Err(e) => Err(e),
        }
    } else if key == "bottom"@ {
        match spec_parse_pxpctauto(value) {
            Ok(v) => Ok(SpecStyleProps::InsetBottom(v)),
            Err(e) => Err(e),
        }
    } else if key == "z-index"@ {
        match spec_parse_i32(value) {
            Ok(v) => Ok(SpecStyleProps::ZIndex(v)),
            Err(e) => Err(e),
        }
    } else if key == "cursor"@ {
        match spec_parse_cursor_style(value) {
            Ok(v) => Ok(SpecStyleProps::Cursor(v)),
            Err(e) => Err(e),
        }
    } else if key == "color"@ {
        match crate::theme::color::spec_parse_color(value) {
            Ok(v) => Ok(SpecStyleProps::Color(v)),
            Err(e) => Err(e),
        }
    } else if key == "background-color"@ {
        match crate::theme::color::spec_parse_color(value) {
            Ok(v) => Ok(SpecStyleProps::BackgroundColor(v)),
            Err(e) => Err(e),
        }
    } else if key == "box-shadow"@ {
        match spec_parse_box_shadow(value) {
            Ok(v) => Ok(SpecStyleProps::BoxShadow(v)),
            Err(e) => Err(e),
        }
    } else if key == "font-size"@ {
        match spec_parse_number(value) {
            Ok(v) => Ok(SpecStyleProps::FontSize(v)),
            Err(e) => Err(e),
        }
    } else if key == "font-family"@ {
        Ok(SpecStyleProps::FontFamily(value))
    } else if key == "font-weight"@ {
        match spec_parse_font_weight(value) {
            Ok(v) => Ok(SpecStyleProps::FontWeight(v)),
            Err(e) => Err(e),
        }
    } else if key == "font-style"@ {
        match spec_parse_font_style(value) {
            Ok(v) => Ok(SpecStyleProps::FontStyle(v)),
            Err(e) => Err(e),
        }
    } else if key == "cursor-color"@ {
        match crate::theme::color::spec_parse_color(value) {
            Ok(v) => Ok(SpecStyleProps::CursorColor(v)),
            Err(e) => Err(e),
        }
    } else if key == "text-wrap"@ {
        match spec_parse_text_overflow(value) {
            Ok(v) => Ok(SpecStyleProps::TextOverflow(v)),
            Err(e) => Err(e),
        }
    } else if key == "line-height"@ {
        match spec_parse_number(value) {
            Ok(v) => Ok(SpecStyleProps::LineHeight(v)),
            Err(e) => Err(e),
        }
    } else if key == "aspect-ratio"@ {
        match spec_parse_number(value) {
            Ok(v) => Ok(SpecStyleProps::AspectRatio(v)),
            Err(e) => Err(e),
        }
    } else if key == "gap"@ {
        match spec_parse_gap(value) {
            Ok(v) => Ok(SpecStyleProps::Gap(v)),
            Err(e) => Err(e),
        }
    } else if key == "transition"@ {
        match spec_parse_transition(value) {
            Ok(v) => Ok(SpecStyleProps::Transition((v.0, Transition { seconds: v.1 }))),
            Err(e) => Err(e),
        }
    } else {
        Err(SpecStyleError { error: "Unknown style key"@, value: key })
    }
}

impl StyleProps {
    /// Reads a raw property into its typed variant, by the key table.
    pub fn try_from(p: &StyleProperty) -> (r: Result<StyleProps, StyleError>)
        ensures
            match r {
                Ok(v) => spec_try_props(p@.key, p@.value) == Ok::<SpecStyleProps, SpecStyleError>(
                    v@,
                ),
                Err(e) => spec_try_props(p@.key, p@.value) == Err::<
                    SpecStyleProps,
                    SpecStyleError,
                >(e@),
            },
    {
        let k = p.key.as_slice();
        let v = p.value.as_slice();
        if crate::text::chars_eq_str(k, "display") {
            match parse_display(v) {
                Ok(x) => Ok(StyleProps::Display(x)),
                Err(e) => Err(e),
            }
        } else if crate::text::chars_eq_str(k, "position") {
            match parse_position(v) {
                Ok(x) => Ok(StyleProps::Position(x)),
                Err(e) => Err(e),
            }
        } else if crate::text::chars_eq_str(k, "width") {
            match parse_pxpctauto(v) {
                Ok(x) => Ok(StyleProps::Width(x)),
                Err(e) => Err(e),
            }
        } else if crate::text::chars_eq_str(k, "height") {
            match parse_pxpctauto(v) {
                Ok(x) => Ok(StyleProps::Height(x)),
                Err(e) => Err(e),
            }
        } else if crate::text::chars_eq_str(k, "min-width") {
            match parse_pxpctauto(v) {
                Ok(x) => Ok(StyleProps::MinWidth(x)),
                Err(e) => Err(e),
            }
        } else if crate::text::chars_eq_str(k, "min-height") {
            match parse_pxpctauto(v) {
                Ok(x) => Ok(StyleProps::MinHeight(x)),
                Err(e) => Err(e),
            }
        } else if crate::text::chars_eq_str(k, "max-width") {
            match parse_pxpctauto(v) {
                Ok(x) => Ok(StyleProps::MaxWidth(x)),
                Err(e) => Err(e),
            }
        } else if crate::text::chars_eq_str(k, "max-height") {
            match parse_pxpctauto(v) {
                Ok(x) => Ok(StyleProps::MaxHeight(x)),
                Err(e) => Err(e),
            }
        } else if crate::text::chars_eq_str(k, "flex-direction") {
            match parse_flex_direction(v) {
                Ok(x) => Ok(StyleProps::FlexDirection(x)),
                Err(e) => Err(e),
            }
        } else if crate::text::chars_eq_str(k, "flex-wrap") {
            match parse_flex_wrap(v) {
                Ok(x) => Ok(StyleProps::FlexWrap(x)),
                Err(e) => Err(e),
            }
        } else if crate::text::chars_eq_str(k, "flex-grow") {
            match parse_number(v) {
                Ok(x) => Ok(StyleProps::FlexGrow(x)),
                Err(e) => Err(e),
            }
        } else if crate::text::chars_eq_str(k, "flex-shrink") {
            match parse_number(v) {
                Ok(x) => Ok(StyleProps::FlexShrink(x)),
                Err(e) => Err(e),
            }
        } else if crate::text::chars_eq_str(k, "flex-basis") {
            match parse_pxpctauto(v) {
                Ok(x) => Ok(StyleProps::FlexBasis(x)),
                Err(e) => Err(e),
            }
        } else if crate::text::chars_eq_str(k, "justify-content") {
            match parse_justify_content(v) {
                Ok(x) => Ok(StyleProps::JustifyContent(x)),
                Err(e) => Err(e),
            }
        } else if crate::text::chars_eq_str(k, "justify-self") {
            match parse_align_items(v) {
                Ok(x) => Ok(StyleProps::JustifySelf(x)),
                Err(e) => Err(e),
            }
        } else if crate::text::chars_eq_str(k, "align-items") {
            match parse_align_items(v) {
                Ok(x) => Ok(StyleProps::AlignItems(x)),
                Err(e) => Err(e),
            }
        } else if crate::text::chars_eq_str(k, "align-content") {
            match parse_align_content(v) {
                Ok(x) => Ok(StyleProps::AlignContent(x)),
                Err(e) => Err(e),
            }
        } else if crate::text::chars_eq_str(k, "align-self") {
            match parse_align_items(v) {
                Ok(x) => Ok(StyleProps::AlignSelf(x)),
                Err(e) => Err(e),
            }
        } else if crate::text::chars_eq_str(k, "border") {
            match parse_px(v) {
                Ok(x) => Ok(StyleProps::Border(x)),
                Err(e) => Err(e),
            }
        } else if crate::text::chars_eq_str(k, "border-left") {
            match parse_px(v) {
                Ok(x) => Ok(StyleProps::BorderLeft(x)),
                Err(e) => Err(e),
            }
        } else if crate::text::chars_eq_str(k, "border-top") {
            match parse_px(v) {
                Ok(x) => Ok(StyleProps::BorderTop(x)),
                Err(e) => Err(e),
            }
        } else if crate::text::chars_eq_str(k, "border-right") {
            match parse_px(v) {
                Ok(x) => Ok(StyleProps::BorderRight(x)),
                Err(e) => Err(e),
            }
        } else if crate::text::chars_eq_str(k, "border-bottom") {
            match parse_px(v) {
                Ok(x) => Ok(StyleProps::BorderBottom(x)),
                Err(e) => Err(e),
            }
        } else if crate::text::chars_eq_str(k, "border-radius") {
            match parse_px_pct(v) {
                Ok(x) => Ok(StyleProps::BorderRadius(x)),
                Err(e) => Err(e),
            }
        } else if crate::text::chars_eq_str(k, "outline-color") {
            match crate::theme::color::parse_color(v) {
                Ok(x) => Ok(StyleProps::OutlineColor(x)),
                Err(e) => Err(e),
            }
        } else if crate::text::chars_eq_str(k, "outline") {
            match parse_px(v) {
                Ok(x) => Ok(StyleProps::Outline(x)),
                Err(e) => Err(e),
            }
        } else if crate::text::chars_eq_str(k, "border-color") {
            match crate::theme::color::parse_color(v) {
                Ok(x) => Ok(StyleProps::BorderColor(x)),
                Err(e) => Err(e),
            }
        } else if crate::text::chars_eq_str(k, "padding") {
            match parse_px_pct(v) {
                Ok(x) => Ok(StyleProps::Padding(x)),
                Err(e) => Err(e),
            }
        } else if crate::text::chars_eq_str(k, "padding-left") {
            match parse_px_pct(v) {
                Ok(x) => Ok(StyleProps::PaddingLeft(x)),
                Err(e) => Err(e),
            }
        } else if crate::text::chars_eq_str(k, "padding-top") {
            match parse_px_pct(v) {
                Ok(x) => Ok(StyleProps::PaddingTop(x)),
                Err(e) => Err(e),
            }
        } else if crate::text::chars_eq_str(k, "padding-right") {
            match parse_px_pct(v) {
                Ok(x) => Ok(StyleProps::PaddingRight(x)),
                Err(e) => Err(e),
            }
        } else if crate::text::chars_eq_str(k, "padding-bottom") {
            match parse_px_pct(v) {
                Ok(x) => Ok(StyleProps::PaddingBottom(x)),
                Err(e) => Err(e),
            }
        } else if crate::text::chars_eq_str(k, "margin") {
            match parse_pxpctauto(v) {
                Ok(x) => Ok(StyleProps::Margin(x)),
                Err(e) => Err(e),
            }
        } else if crate::text::chars_eq_str(k, "margin-left") {
            match parse_pxpctauto(v) {
                Ok(x) => Ok(StyleProps::MarginLeft(x)),
                Err(e) => Err(e),
            }
        } else if crate::text::chars_eq_str(k, "margin-top") {
            match parse_pxpctauto(v) {
                Ok(x) => Ok(StyleProps::MarginTop(x)),
                Err(e) => Err(e),
            }
        } else if crate::text::chars_eq_str(k, "margin-right") {
            match parse_pxpctauto(v) {
                Ok(x) => Ok(StyleProps::MarginRight(x)),
                Err(e) => Err(e),
            }
        } else if crate::text::chars_eq_str(k, "margin-bottom") {
            match parse_pxpctauto(v) {
                Ok(x) => Ok(StyleProps::MarginBottom(x)),
                Err(e) => Err(e),
            }
        } else if crate::text::chars_eq_str(k, "left") {
            match parse_pxpctauto(v) {
                Ok(x) => Ok(StyleProps::InsetLeft(x)),
                Err(e) => Err(e),
            }
        } else if crate::text::chars_eq_str(k, "top") {
            match parse_pxpctauto(v) {
                Ok(x) => Ok(StyleProps::InsetTop(x)),
                Err(e) => Err(e),
            }
        } else if crate::text::chars_eq_str(k, "right") {
            match parse_pxpctauto(v) {
                Ok(x) => Ok(StyleProps::InsetRight(x)),
                Err(e) => Err(e),
            }
        } else if crate::text::chars_eq_str(k, "bottom") {
            match parse_pxpctauto(v) {
                Ok(x) => Ok(StyleProps::InsetBottom(x)),
                Err(e) => Err(e),
            }
        } else if crate::text::chars_eq_str(k, "z-index") {
            match parse_i32(v) {
                Ok(x) => Ok(StyleProps::ZIndex(x)),
                Err(e) => Err(e),
            }
        } else if crate::text::chars_eq_str(k, "cursor") {
            match parse_cursor_style(v) {
                Ok(x) => Ok(StyleProps::Cursor(x)),
                Err(e) => Err(e),
            }
        } else if crate::text::chars_eq_str(k, "color") {
            match crate::theme::color::parse_color(v) {
                Ok(x) => Ok(StyleProps::Color(x)),
                Err(e) => Err(e),
            }
        } else if crate::text::chars_eq_str(k, "background-color") {
            match crate::theme::color::parse_color(v) {
                Ok(x) => Ok(StyleProps::BackgroundColor(x)),
                Err(e) => Err(e),
            }
        } else if crate::text::chars_eq_str(k, "box-shadow") {
            match parse_box_shadow(v) {
                Ok(x) => Ok(StyleProps::BoxShadow(x)),
                Err(e) => Err(e),
            }
        } else if crate::text::chars_eq_str(k, "font-size") {
            match parse_number(v) {
                Ok(x) => Ok(StyleProps::FontSize(x)),
                Err(e) => Err(e),
            }
        } else if crate::text::chars_eq_str(k, "font-family") {
            match to_owned(v) {
                Ok(x) => Ok(StyleProps::FontFamily(x)),
                Err(e) => Err(e),
            }
        } else if crate::text::chars_eq_str(k, "font-weight") {
            match parse_font_weight(v) {
                Ok(x) => Ok(StyleProps::FontWeight(x)),
                Err(e) => Err(e),
            }
        } else if crate::text::chars_eq_str(k, "font-style") {
            match parse_font_style(v) {
                Ok(x) => Ok(StyleProps::FontStyle(x)),
                Err(e) => Err(e),
            }
        } else if crate::text::chars_eq_str(k, "cursor-color") {
            match crate::theme::color::parse_color(v) {
                Ok(x) => Ok(StyleProps::CursorColor(x)),
                Err(e) => Err(e),
            }
        } else if crate::text::chars_eq_str(k, "text-wrap") {
            match parse_text_overflow(v) {
                Ok(x) => Ok(StyleProps::TextOverflow(x)),
                Err(e) => Err(e),
            }
        } else if crate::text::chars_eq_str(k, "line-height") {
            match parse_number(v) {
                Ok(x) => Ok(StyleProps::LineHeight(x)),
                Err(e) => Err(e),
            }
        } else if crate::text::chars_eq_str(k, "aspect-ratio") {
            match parse_number(v) {
                Ok(x) => Ok(StyleProps::AspectRatio(x)),
                Err(e) => Err(e),
            }
        } else if crate::text::chars_eq_str(k, "gap") {
            match parse_gap(v) {
                Ok(x) => Ok(StyleProps::Gap(x)),
                Err(e) => Err(e),
            }
        } else if crate::text::chars_eq_str(k, "transition") {
            match parse_transition(v) {
                Ok(x) => Ok(StyleProps::Transition(x)),
                Err(e) => Err(e),
            }
        } else {
            Err(StyleError::new("Unknown style key", k))
        }
    }
}

} // verus!
