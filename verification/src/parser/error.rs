//! Positioned parse errors with preformatted diagnostics.

use vstd::prelude::*;

use crate::lexer::TokenKind;
use crate::text::dec_chars;

verus! {

/// The two shapes of diagnostic, each carrying its rendered message.
#[derive(Debug, Clone, PartialEq, Eq)]
pub enum ParseErrorKind {
    ExpectedToken(Vec<char>),
    MismatchingClosingTag(Vec<char>),
}

/// A parse error with the position it was raised at.
#[derive(Debug, Clone, PartialEq, Eq)]
pub struct ParseError {
    pub kind: ParseErrorKind,
    pub line: usize,
    pub col: usize,
}

/// The display name of a token kind.
pub open spec fn spec_kind_name(k: TokenKind) -> Seq<char> {
    match k {
        TokenKind::TagStart => "TagStart"@,
        TokenKind::TagEnd => "TagEnd"@,
        TokenKind::TagClose => "TagClose"@,
        TokenKind::TagSelfClose => "TagSelfClose"@,
        TokenKind::TagName(_) => "TagName"@,
        TokenKind::AttributeName(_) => "AttributeName"@,
        TokenKind::AttributeValue(_) => "AttributeValue"@,
        TokenKind::Variable(_) => "Variable"@,
        TokenKind::EqualSign => "EqualSign"@,
        TokenKind::Text(_) => "Text"@,
        TokenKind::LineComment(_) => "LineComment"@,
    }
}

/// The display name of a token kind.
pub fn kind_name(k: &TokenKind) -> (r: &'static str)
    ensures
        r@ == spec_kind_name(*k),
{
    match k {
        TokenKind::TagStart => "TagStart",
        TokenKind::TagEnd => "TagEnd",
        TokenKind::TagClose => "TagClose",
        TokenKind::TagSelfClose => "TagSelfClose",
        TokenKind::TagName(_) => "TagName",
        TokenKind::AttributeName(_) => "AttributeName",
        TokenKind::AttributeValue(_) => "AttributeValue",
        TokenKind::Variable(_) => "Variable",
        TokenKind::EqualSign => "EqualSign",
        TokenKind::Text(_) => "Text",
        TokenKind::LineComment(_) => "LineComment",
    }
}

/// The message of an expected-token error.
pub open spec fn spec_expected_token_msg(
    expected: TokenKind,
    found: TokenKind,
    line: int,
    col: int,
) -> Seq<char> {
    "Expected token `"@ + spec_kind_name(expected) + "`, found `"@ + spec_kind_name(found)
        + "` at "@ + dec_chars(line as nat) + ":"@ + dec_chars(col as nat)
}

/// The message of a mismatched closing tag.
pub open spec fn spec_mismatch_msg(
    expected: Seq<char>,
    found: Seq<char>,
    line: int,
    col: int,
) -> Seq<char> {
    "Mismatching closing tag. Expected `"@ + expected + "`, found `"@ + found + "` at "@
        + dec_chars(line as nat) + ":"@ + dec_chars(col as nat)
}

impl ParseError {
    /// An error for finding `found` where `expected` should stand.
    pub fn expected_token(expected: &TokenKind, found: &TokenKind, line: usize, col: usize) -> (r:
        ParseError)
        ensures
            r.kind is ExpectedToken,
            r.message()@ == spec_expected_token_msg(*expected, *found, line as int, col as int),
            r.line == line,
            r.col == col,
    {
        let mut msg: Vec<char> = Vec::new();
        crate::text::push_str_chars(&mut msg, "Expected token `");
        crate::text::push_str_chars(&mut msg, kind_name(expected));
        crate::text::push_str_chars(&mut msg, "`, found `");
        crate::text::push_str_chars(&mut msg, kind_name(found));
        crate::text::push_str_chars(&mut msg, "` at ");
        let digits = crate::text::u64_to_chars(line as u64);
        crate::text::append_chars(&mut msg, digits.as_slice());
        crate::text::push_str_chars(&mut msg, ":");
        let digits2 = crate::text::u64_to_chars(col as u64);
        crate::text::append_chars(&mut msg, digits2.as_slice());
        proof {
            assert(msg@ =~= spec_expected_token_msg(*expected, *found, line as int, col as int));
        }
        ParseError { kind: ParseErrorKind::ExpectedToken(msg), line, col }
    }

    /// An error for a closing tag whose name does not match its opening tag.
    pub fn mismatching_closing_tag(expected: &[char], found: &[char], line: usize, col: usize)
        -> (r: ParseError)
        ensures
            r.kind is MismatchingClosingTag,
            r.message()@ == spec_mismatch_msg(expected@, found@, line as int, col as int),
            r.line == line,
            r.col == col,
    {
        let mut msg: Vec<char> = Vec::new();
        crate::text::push_str_chars(&mut msg, "Mismatching closing tag. Expected `");
        crate::text::append_chars(&mut msg, expected);
        crate::text::push_str_chars(&mut msg, "`, found `");
        crate::text::append_chars(&mut msg, found);
        crate::text::push_str_chars(&mut msg, "` at ");
        let digits = crate::text::u64_to_chars(line as u64);
        crate::text::append_chars(&mut msg, digits.as_slice());
        crate::text::push_str_chars(&mut msg, ":");
        let digits2 = crate::text::u64_to_chars(col as u64);
        crate::text::append_chars(&mut msg, digits2.as_slice());
        proof {
            assert(msg@ =~= spec_mismatch_msg(expected@, found@, line as int, col as int));
        }
        ParseError { kind: ParseErrorKind::MismatchingClosingTag(msg), line, col }
    }

    /// The rendered diagnostic.
    pub open spec fn message(&self) -> Vec<char> {
        match &self.kind {
            ParseErrorKind::ExpectedToken(m) => *m,
            ParseErrorKind::MismatchingClosingTag(m) => *m,
        }
    }

    /// The rendered diagnostic, for callers.
    pub fn message_chars(&self) -> (r: &Vec<char>)
        ensures
            r@ == self.message()@,
    {
        match &self.kind {
            ParseErrorKind::ExpectedToken(m) => m,
            ParseErrorKind::MismatchingClosingTag(m) => m,
        }
    }
}

} // verus!
