//! Attributes and attribute values of markup elements, and the typed variable
//! references (`{type:name}`) that values and text may carry.

use vstd::prelude::*;

use crate::num::Decimal;
use crate::num::int_value;
use crate::num::is_decimal_literal;
use crate::num::is_int_literal;
use crate::num::decimal_fits;
use crate::num::spec_decimal;
use crate::text::dec_chars;
use crate::text::scan_back_while;
use crate::text::scan_to_char;
use crate::text::spec_trim;

verus! {

/// The type tag of a variable reference, from the `str`/`int`/`dec` prefix.
#[derive(Debug, Clone, Copy, PartialEq, Eq, Structural)]
pub enum VariableType {
    String,
    Integer,
    Float,
    Unknown,
}

/// The `VariableType` denoted by a type-prefix text.
pub open spec fn spec_variable_type(s: Seq<char>) -> VariableType {
    if s == "str"@ {
        VariableType::String
    } else if s == "int"@ {
        VariableType::Integer
    } else if s == "dec"@ {
        VariableType::Float
    } else {
        VariableType::Unknown
    }
}

impl VariableType {
    /// Maps a type-prefix text to its `VariableType`; anything but the three
    /// known prefixes is `Unknown`.
    pub fn from(value: &[char]) -> (r: VariableType)
        ensures
            r == spec_variable_type(value@),
    {
        if crate::text::chars_eq_str(value, "str") {
            VariableType::String
        } else if crate::text::chars_eq_str(value, "int") {
            VariableType::Integer
        } else if crate::text::chars_eq_str(value, "dec") {
            VariableType::Float
        } else {
            VariableType::Unknown
        }
    }
}

/// A variable name with its type tag.
#[derive(Debug, Clone, PartialEq, Eq)]
pub struct VariableName {
    pub name: Vec<char>,
    pub kind: VariableType,
}

pub struct SpecVariableName {
    pub name: Seq<char>,
    pub kind: VariableType,
}

impl View for VariableName {
    type V = SpecVariableName;

    open spec fn view(&self) -> SpecVariableName {
        SpecVariableName { name: self.name@, kind: self.kind }
    }
}

/// Splitting a reference text at its first `:`: the part before is the type
/// prefix, the part after is the name. Without a `:` the whole text is the
/// name and the type is `Unknown`.
pub open spec fn spec_variable_name(s: Seq<char>) -> SpecVariableName {
    let i = scan_to_char(s, 0, ':');
    if i == s.len() {
        SpecVariableName { name: s, kind: VariableType::Unknown }
    } else {
        SpecVariableName {
            name: s.subrange(i + 1, s.len() as int),
            kind: spec_variable_type(s.subrange(0, i)),
        }
    }
}

impl VariableName {
    /// Splits `value` at its first `:` into a type prefix and a name.
    pub fn from(value: &[char]) -> (r: VariableName)
        ensures
            r@ == spec_variable_name(value@),
    {
        let i = crate::text::find_char(value, 0, ':');
        if i == value.len() {
            proof {
                assert(value@.subrange(0, value@.len() as int) =~= value@);
            }
            VariableName {
                name: crate::text::span_to_vec(value, 0, value.len()),
                kind: VariableType::Unknown,
            }
        } else {
            proof {
                crate::text::lemma_scan_to_char(value@, 0, ':');
            }
            let prefix = crate::text::span_to_vec(value, 0, i);
            VariableName {
                name: crate::text::span_to_vec(value, i + 1, value.len()),
                kind: VariableType::from(prefix.as_slice()),
            }
        }
    }

    /// The type tag of the name.
    pub fn kind(&self) -> (r: VariableType)
        ensures
            r == self@.kind,
    {
        self.kind
    }
}

/// One `{type:name}` occurrence inside a text node: the matched text with its
/// braces, the span `[start, end)` of the occurrence within the text node's
/// content, and the parsed type tag.
#[derive(Debug, Clone, PartialEq, Eq)]
pub struct VariableRef {
    pub full_match: Vec<char>,
    pub start: usize,
    pub end: usize,
    pub kind: VariableType,
}

pub struct SpecVariableRef {
    pub full_match: Seq<char>,
    pub start: int,
    pub end: int,
    pub kind: VariableType,
}

impl View for VariableRef {
    type V = SpecVariableRef;

    open spec fn view(&self) -> SpecVariableRef {
        SpecVariableRef {
            full_match: self.full_match@,
            start: self.start as int,
            end: self.end as int,
            kind: self.kind,
        }
    }
}

/// The name inside a braced reference text: the content between the braces,
/// without the type prefix (everything after the first `:`, or all of the
/// content when there is none).
pub open spec fn spec_ref_name(full: Seq<char>) -> Seq<char> {
    if full.len() < 2 {
        Seq::empty()
    } else {
        let inner = full.subrange(1, full.len() - 1);
        let i = scan_to_char(inner, 0, ':');
        if i == inner.len() {
            inner
        } else {
            inner.subrange(i + 1, inner.len() as int)
        }
    }
}

impl VariableRef {
    /// The referenced variable's name: the text between the braces with the
    /// type prefix removed.
    pub fn name(&self) -> (r: Vec<char>)
        ensures
            r@ == spec_ref_name(self.full_match@),
    {
        let n = self.full_match.len();
        if n < 2 {
            return Vec::new();
        }
        let inner = crate::text::span_to_vec(self.full_match.as_slice(), 1, n - 1);
        let i = crate::text::find_char(inner.as_slice(), 0, ':');
        proof {
            crate::text::lemma_scan_to_char(inner@, 0, ':');
        }
        if i == inner.len() {
            inner
        } else {
            crate::text::span_to_vec(inner.as_slice(), i + 1, inner.len())
        }
    }
}

/// A typed attribute value with the line and column where it stood. A value is
/// read as an integer, then as a decimal number, a `{type:name}` reference
/// when it carries a `:`, and otherwise as a trimmed string.
#[derive(Debug, Clone, PartialEq, Eq)]
pub enum AttributeValue {
    String { value: Vec<char>, line: usize, col: usize },
    Integer { value: i64, line: usize, col: usize },
    Float { value: Decimal, line: usize, col: usize },
    Variable { name: VariableName, line: usize, col: usize },
}

pub enum SpecAttributeValue {
    String { value: Seq<char>, line: int, col: int },
    Integer { value: i64, line: int, col: int },
    Float { value: Decimal, line: int, col: int },
    Variable { name: SpecVariableName, line: int, col: int },
}

impl View for AttributeValue {
    type V = SpecAttributeValue;

    open spec fn view(&self) -> SpecAttributeValue {
        match self {
            AttributeValue::String { value, line, col } => SpecAttributeValue::String {
                value: value@,
                line: *line as int,
                col: *col as int,
            },
            AttributeValue::Integer { value, line, col } => SpecAttributeValue::Integer {
                value: *value,
                line: *line as int,
                col: *col as int,
            },
            AttributeValue::Float { value, line, col } => SpecAttributeValue::Float {
                value: *value,
                line: *line as int,
                col: *col as int,
            },
            AttributeValue::Variable { name, line, col } => SpecAttributeValue::Variable {
                name: name@,
                line: *line as int,
                col: *col as int,
            },
        }
    }
}

/// Trailing `{` and `}` characters, as trimmed from variable values.
pub open spec fn is_brace_char(c: char) -> bool {
    c == '{' || c == '}'
}

/// Characters trimmed from the ends of fallback string values.
pub open spec fn is_quote_or_space(c: char) -> bool {
    c == '"' || c == ' '
}

/// The diagnostic for a value holding a line break.
pub open spec fn spec_newline_value_msg(line: int, col: int) -> Seq<char> {
    "Line breaks are not allowed in attribute values. Line "@ + dec_chars(line as nat) + ", col "@
        + dec_chars(col as nat)
}

/// The outcome of reading an attribute value, step by step as
/// `AttributeValue::new` decides it.
pub open spec fn spec_attribute_value(input: Seq<char>, line: int, col: int) -> Result<
    SpecAttributeValue,
    Seq<char>,
> {
    if scan_to_char(input, 0, ':') < input.len() {
        Ok(
            SpecAttributeValue::Variable {
                name: spec_variable_name(crate::text::spec_trim_end(input, |c: char| is_brace_char(c))),
                line,
                col,
            },
        )
    } else if is_int_literal(input) && i64::MIN <= int_value(input) <= i64::MAX {
        Ok(SpecAttributeValue::Integer { value: int_value(input) as i64, line, col })
    } else if is_decimal_literal(input) && decimal_fits(input) {
        Ok(SpecAttributeValue::Float { value: spec_decimal(input), line, col })
    } else if scan_to_char(input, 0, '\n') < input.len() {
        Err(spec_newline_value_msg(line, col))
    } else {
        Ok(
            SpecAttributeValue::String {
                value: spec_trim(input, |c: char| is_quote_or_space(c)),
                line,
                col,
            },
        )
    }
}

impl AttributeValue {
    /// Reads an attribute value: a `:` makes it a variable reference, then an
    /// integer and a decimal parse are tried, a remaining value holding a
    /// line break is an error, and anything else is a string trimmed of
    /// quotes and spaces.
    pub fn new(input: &[char], line: usize, col: usize) -> (r: Result<AttributeValue, Vec<char>>)
        ensures
            ({
                let sp = spec_attribute_value(input@, line as int, col as int);
                match r {
                    Ok(v) => sp == Ok::<SpecAttributeValue, Seq<char>>(v@),
                    Err(m) => sp == Err::<SpecAttributeValue, Seq<char>>(m@),
                }
            }),
    {
        let n = input.len();
        let colon = crate::text::find_char(input, 0, ':');
        if colon < n {
            let e = trim_end_braces_idx(input);
            let trimmed = crate::text::span_to_vec(input, 0, e);
            proof {
                assert(trimmed@ =~= crate::text::spec_trim_end(
                    input@,
                    |c: char| is_brace_char(c),
                ));
            }
            let name = VariableName::from(trimmed.as_slice());
            return Ok(AttributeValue::Variable { name, line, col });
        }
        if let Some(value) = crate::num::parse_i64(input) {
            return Ok(AttributeValue::Integer { value, line, col });
        }
        if let Some(value) = crate::num::parse_decimal_span(input, 0, n) {
            proof {
                assert(input@.subrange(0, n as int) =~= input@);
            }
            return Ok(AttributeValue::Float { value, line, col });
        }
        proof {
            assert(input@.subrange(0, n as int) =~= input@);
        }
        let newline = crate::text::find_char(input, 0, '\n');
        if newline < n {
            let mut msg: Vec<char> = Vec::new();
            crate::text::push_str_chars(&mut msg, "Line breaks are not allowed in attribute values. Line ");
            let mut digits = crate::text::u64_to_chars(line as u64);
            crate::text::append_chars(&mut msg, digits.as_slice());
            crate::text::push_str_chars(&mut msg, ", col ");
            let mut digits2 = crate::text::u64_to_chars(col as u64);
            crate::text::append_chars(&mut msg, digits2.as_slice());
            proof {
                assert(msg@ =~= spec_newline_value_msg(line as int, col as int));
            }
            return Err(msg);
        }
        let value = trim_quotes_spaces(input);
        Ok(AttributeValue::String { value, line, col })
    }

    /// Builds a value from a lexer token known to be a `Variable` or an
    /// `AttributeValue` whose text reads cleanly. `text` is the token's text.
    pub fn from_token(text: &[char], is_variable: bool, line: usize, col: usize) -> (r:
        AttributeValue)
        requires
            !is_variable ==> spec_attribute_value(text@, line as int, col as int) is Ok,
        ensures
            is_variable ==> r@ == (SpecAttributeValue::Variable {
                name: spec_variable_name(text@),
                line: line as int,
                col: col as int,
            }),
            !is_variable ==> Ok::<SpecAttributeValue, Seq<char>>(r@) == spec_attribute_value(
                text@,
                line as int,
                col as int,
            ),
    {
        if is_variable {
            AttributeValue::Variable { name: VariableName::from(text), line, col }
        } else {
            match AttributeValue::new(text, line, col) {
                Ok(v) => v,
                Err(_) => {
                    proof {
                        assert(false);
                    }
                    AttributeValue::Integer { value: 0, line, col }
                },
            }
        }
    }
}

/// The index ending `s` once trailing braces are trimmed.
fn trim_end_braces_idx(s: &[char]) -> (r: usize)
    ensures
        r == scan_back_while(s@, s@.len() as int, |c: char| is_brace_char(c)),
        r <= s@.len(),
{
    let mut b = s.len();
    while b > 0 && (s[b - 1] == '{' || s[b - 1] == '}')
        invariant
            b <= s@.len(),
            scan_back_while(s@, s@.len() as int, |c: char| is_brace_char(c)) == scan_back_while(
                s@,
                b as int,
                |c: char| is_brace_char(c),
            ),
        decreases b,
    {
        b = b - 1;
    }
    b
}

/// A copy of `s` with quotes and spaces trimmed from both ends.
fn trim_quotes_spaces(s: &[char]) -> (r: Vec<char>)
    ensures
        r@ == spec_trim(s@, |c: char| is_quote_or_space(c)),
{
    let n = s.len();
    let mut a: usize = 0;
    while a < n && (s[a] == '"' || s[a] == ' ')
        invariant
            a <= n,
            n == s@.len(),
            crate::text::scan_while(s@, 0, |c: char| is_quote_or_space(c)) == crate::text::scan_while(
                s@,
                a as int,
                |c: char| is_quote_or_space(c),
            ),
        decreases n - a,
    {
        a = a + 1;
    }
    let mut b = n;
    while b > 0 && (s[b - 1] == '"' || s[b - 1] == ' ')
        invariant
            b <= n,
            n == s@.len(),
            scan_back_while(s@, n as int, |c: char| is_quote_or_space(c)) == scan_back_while(
                s@,
                b as int,
                |c: char| is_quote_or_space(c),
            ),
        decreases b,
    {
        b = b - 1;
    }
    if a <= b {
        crate::text::span_to_vec(s, a, b)
    } else {
        let r: Vec<char> = Vec::new();
        proof {
            assert(r@ =~= spec_trim(s@, |c: char| is_quote_or_space(c)));
        }
        r
    }
}

/// A named attribute.
#[derive(Debug, Clone, PartialEq, Eq)]
pub struct Attribute {
    pub name: Vec<char>,
    pub value: AttributeValue,
}

pub struct SpecAttribute {
    pub name: Seq<char>,
    pub value: SpecAttributeValue,
}

impl View for Attribute {
    type V = SpecAttribute;

    open spec fn view(&self) -> SpecAttribute {
        SpecAttribute { name: self.name@, value: self.value@ }
    }
}

} // verus!
