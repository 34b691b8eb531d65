//! The markup lexer: a single forward pass over the source characters that
//! produces a flat sequence of positioned tokens. The lexer never fails;
//! malformed input degrades into `Text` tokens and error detection is left to
//! the parser.
//!
//! The function `spec_lex` is the specification of the whole pass: `Lexer::lex`
//! returns exactly `spec_lex(input, 0, false)`.

use vstd::prelude::*;

use crate::text::is_alpha_char;
use crate::text::is_numeric_char;
use crate::text::is_space_char;
use crate::text::scan_to_char;
use crate::text::skip_spaces;
use crate::text::lemma_scan_to_char;
use crate::text::lemma_skip_spaces;

verus! {

/// A half-open span `[start, end)` of character positions in the source
/// buffer. Tokens address their text this way instead of borrowing slices.
#[derive(Debug, Clone, Copy, PartialEq, Eq, Structural)]
pub struct Span {
    pub start: usize,
    pub end: usize,
}

/// The kinds of markup tokens. Kinds that carry text identify it by a span of
/// the source buffer: for `Variable` and `AttributeValue` lexed from a quoted
/// literal the span covers the content between the delimiters; for the others
/// it covers the token itself.
#[derive(Debug, Clone, Copy, PartialEq, Eq, Structural)]
pub enum TokenKind {
    /// `<`
    TagStart,
    /// `>`
    TagEnd,
    /// `</`
    TagClose,
    /// `/>`
    TagSelfClose,
    TagName(Span),
    AttributeName(Span),
    AttributeValue(Span),
    /// An inline `{...}` reference; the span excludes the braces.
    Variable(Span),
    /// `=`
    EqualSign,
    /// Text content between tags.
    Text(Span),
    /// A `//` comment, running to the end of its line.
    LineComment(Span),
}

/// A token with its whole-token span and the line and column reached after it
/// was read (lines are 1-based; the column counts characters since the last
/// newline).
#[derive(Debug, Clone, Copy, PartialEq, Eq, Structural)]
pub struct Token {
    pub kind: TokenKind,
    pub start: usize,
    pub end: usize,
    pub line: usize,
    pub col: usize,
}

/// How many newline characters occur strictly before position `pos`.
pub open spec fn newlines_before(s: Seq<char>, pos: int) -> nat
    decreases pos,
{
    if pos <= 0 {
        0
    } else {
        newlines_before(s, pos - 1) + (if s[pos - 1] == '\n' {
            1nat
        } else {
            0nat
        })
    }
}

/// The 1-based line number at position `pos`.
pub open spec fn line_at(s: Seq<char>, pos: int) -> int {
    1 + newlines_before(s, pos) as int
}

/// The column at position `pos`: characters read since the last newline.
pub open spec fn col_at(s: Seq<char>, pos: int) -> int
    decreases pos,
{
    if pos <= 0 {
        0
    } else if s[pos - 1] == '\n' {
        0
    } else {
        col_at(s, pos - 1) + 1
    }
}

/// Line and column counters never exceed the position that produced them.
pub proof fn lemma_line_col_bounds(s: Seq<char>, pos: int)
    requires
        pos >= 0,
    ensures
        newlines_before(s, pos) <= pos,
        0 <= col_at(s, pos) <= pos,
    decreases pos,
{
    if pos > 0 {
        lemma_line_col_bounds(s, pos - 1);
    }
}

/// The token constructor used throughout the lexer specification: the token
/// records the consumed span and the line and column at its end.
pub open spec fn spec_token(s: Seq<char>, kind: TokenKind, start: int, end: int) -> Token {
    Token {
        kind,
        start: start as usize,
        end: end as usize,
        line: line_at(s, end) as usize,
        col: col_at(s, end) as usize,
    }
}

pub open spec fn spec_span(start: int, end: int) -> Span {
    Span { start: start as usize, end: end as usize }
}

/// An identifier character: alphanumeric or `-`, `:`, `_`.
pub open spec fn is_ident_char(c: char) -> bool {
    is_alpha_char(c) || is_numeric_char(c) || c == '-' || c == ':' || c == '_'
}

/// A numeric-literal character: numeric or `.`.
pub open spec fn is_num_char(c: char) -> bool {
    is_numeric_char(c) || c == '.'
}

/// The end of the identifier run beginning at `from`.
pub open spec fn ident_end(s: Seq<char>, from: int) -> int
    decreases s.len() - from,
{
    if from < 0 || from >= s.len() {
        s.len() as int
    } else if is_ident_char(s[from]) {
        ident_end(s, from + 1)
    } else {
        from
    }
}

pub proof fn lemma_ident_end(s: Seq<char>, from: int)
    requires
        0 <= from <= s.len(),
    ensures
        from <= ident_end(s, from) <= s.len(),
    decreases s.len() - from,
{
    if from < s.len() && is_ident_char(s[from]) {
        lemma_ident_end(s, from + 1);
    }
}

/// The end of the numeric-literal run beginning at `from`.
pub open spec fn num_end(s: Seq<char>, from: int) -> int
    decreases s.len() - from,
{
    if from < 0 || from >= s.len() {
        s.len() as int
    } else if is_num_char(s[from]) {
        num_end(s, from + 1)
    } else {
        from
    }
}

pub proof fn lemma_num_end(s: Seq<char>, from: int)
    requires
        0 <= from <= s.len(),
    ensures
        from <= num_end(s, from) <= s.len(),
    decreases s.len() - from,
{
    if from < s.len() && is_num_char(s[from]) {
        lemma_num_end(s, from + 1);
    }
}

/// One step of the lexer at position `pos` (which must hold a character):
/// the tokens it emits (none or one), the position after the step including
/// the trailing whitespace skip, and the new value of the `inside_tag` flag.
pub open spec fn lex_step(s: Seq<char>, pos: int, inside: bool) -> (Seq<Token>, int, bool)
    recommends
        0 <= pos < s.len(),
{
    let c = s[pos];
    if c == '<' {
        if pos + 1 < s.len() && s[pos + 1] == '/' {
            (
                seq![spec_token(s, TokenKind::TagClose, pos, pos + 2)],
                skip_spaces(s, pos + 2),
                true,
            )
        } else {
            (seq![spec_token(s, TokenKind::TagStart, pos, pos + 1)], skip_spaces(s, pos + 1), true)
        }
    } else if c == '>' {
        (seq![spec_token(s, TokenKind::TagEnd, pos, pos + 1)], skip_spaces(s, pos + 1), false)
    } else if c == '/' {
        if pos + 1 >= s.len() {
            // a lone `/` at the end of input stops the pass
            (Seq::empty(), s.len() as int, inside)
        } else if s[pos + 1] == '>' {
            (
                seq![spec_token(s, TokenKind::TagSelfClose, pos, pos + 2)],
                skip_spaces(s, pos + 2),
                inside,
            )
        } else if s[pos + 1] == '/' {
            let e = scan_to_char(s, pos + 1, '\n');
            if e < s.len() {
                // the newline itself is not part of the comment
                (
                    seq![spec_token(s, TokenKind::LineComment(spec_span(pos, e)), pos, e)],
                    skip_spaces(s, e),
                    inside,
                )
            } else {
                // a comment running to the end of input emits nothing
                (Seq::empty(), s.len() as int, inside)
            }
        } else {
            // a stray `/` is skipped
            (Seq::empty(), skip_spaces(s, pos + 1), inside)
        }
    } else if c == '=' && inside {
        (seq![spec_token(s, TokenKind::EqualSign, pos, pos + 1)], skip_spaces(s, pos + 1), inside)
    } else if c == '{' {
        let close = scan_to_char(s, pos + 1, '}');
        if close < s.len() {
            (
                seq![
                    spec_token(s, TokenKind::Variable(spec_span(pos + 1, close)), pos, close + 1)
                ],
                skip_spaces(s, close + 1),
                inside,
            )
        } else {
            // unterminated reference: everything up to the last character
            // degrades into the reference text and the pass ends
            let e = if pos + 1 > s.len() - 1 {
                pos + 1
            } else {
                s.len() - 1
            };
            (
                seq![spec_token(s, TokenKind::Variable(spec_span(pos + 1, e)), pos, s.len() as int)],
                s.len() as int,
                inside,
            )
        }
    } else if c == '"' && inside {
        let close = scan_to_char(s, pos + 1, '"');
        if close < s.len() {
            (
                seq![
                    spec_token(
                        s,
                        TokenKind::AttributeValue(spec_span(pos + 1, close)),
                        pos,
                        close + 1,
                    )
                ],
                skip_spaces(s, close + 1),
                inside,
            )
        } else {
            // unterminated literal: the rest of the input is the value
            (
                seq![
                    spec_token(
                        s,
                        TokenKind::AttributeValue(spec_span(pos + 1, s.len() as int)),
                        pos,
                        s.len() as int,
                    )
                ],
                s.len() as int,
                inside,
            )
        }
    } else if c == '\n' || c == '\t' {
        (Seq::empty(), skip_spaces(s, pos + 1), inside)
    } else if inside {
        if is_alpha_char(c) || c == '_' || c == '-' {
            let e = ident_end(s, pos + 1);
            if e < s.len() && s[e] == '=' {
                (
                    seq![spec_token(s, TokenKind::AttributeName(spec_span(pos, e)), pos, e)],
                    skip_spaces(s, e),
                    inside,
                )
            } else {
                (
                    seq![spec_token(s, TokenKind::TagName(spec_span(pos, e)), pos, e)],
                    skip_spaces(s, e),
                    inside,
                )
            }
        } else if is_numeric_char(c) || c == '.' {
            let e = num_end(s, pos + 1);
            (
                seq![spec_token(s, TokenKind::AttributeValue(spec_span(pos, e)), pos, e)],
                skip_spaces(s, e),
                inside,
            )
        } else if !is_space_char(c) {
            // defensive recovery: anything else inside a tag is text up to
            // the next `<`
            let e = scan_to_char(s, pos + 1, '<');
            (
                seq![spec_token(s, TokenKind::Text(spec_span(pos, e)), pos, e)],
                skip_spaces(s, e),
                inside,
            )
        } else {
            (Seq::empty(), skip_spaces(s, pos + 1), inside)
        }
    } else {
        // outside a tag everything up to the next `<` is one text token
        let e = scan_to_char(s, pos + 1, '<');
        (
            seq![spec_token(s, TokenKind::Text(spec_span(pos, e)), pos, e)],
            skip_spaces(s, e),
            inside,
        )
    }
}

/// Every step consumes at least one character.
pub proof fn lemma_lex_step_advances(s: Seq<char>, pos: int, inside: bool)
    requires
        0 <= pos < s.len(),
    ensures
        pos < lex_step(s, pos, inside).1 <= s.len(),
{
    lemma_skip_spaces(s, pos + 1);
    if pos + 2 <= s.len() {
        lemma_skip_spaces(s, pos + 2);
    }
    lemma_scan_to_char(s, pos + 1, '\n');
    if scan_to_char(s, pos + 1, '\n') < s.len() {
        lemma_skip_spaces(s, scan_to_char(s, pos + 1, '\n'));
    }
    lemma_scan_to_char(s, pos + 1, '}');
    if scan_to_char(s, pos + 1, '}') + 1 <= s.len() {
        lemma_skip_spaces(s, scan_to_char(s, pos + 1, '}') + 1);
    }
    lemma_scan_to_char(s, pos + 1, '"');
    if scan_to_char(s, pos + 1, '"') + 1 <= s.len() {
        lemma_skip_spaces(s, scan_to_char(s, pos + 1, '"') + 1);
    }
    lemma_ident_end(s, pos + 1);
    lemma_skip_spaces(s, ident_end(s, pos + 1));
    lemma_num_end(s, pos + 1);
    lemma_skip_spaces(s, num_end(s, pos + 1));
    lemma_scan_to_char(s, pos + 1, '<');
    lemma_skip_spaces(s, scan_to_char(s, pos + 1, '<'));
}

/// The tokens of the whole input from position `pos` on, with the given
/// `inside_tag` state.
pub open spec fn spec_lex(s: Seq<char>, pos: int, inside: bool) -> Seq<Token>
    decreases s.len() - pos,
    when 0 <= pos
    via spec_lex_decreases
{
    if pos >= s.len() {
        Seq::empty()
    } else {
        let step = lex_step(s, pos, inside);
        step.0 + spec_lex(s, step.1, step.2)
    }
}

#[via_fn]
proof fn spec_lex_decreases(s: Seq<char>, pos: int, inside: bool) {
    if pos < s.len() {
        lemma_lex_step_advances(s, pos, inside);
    }
}

/// The token sequence of a complete source text.
pub open spec fn spec_tokens(s: Seq<char>) -> Seq<Token> {
    spec_lex(s, 0, false)
}

/// The markup lexer: the source characters and a cursor with line and column
/// bookkeeping.
pub struct Lexer<'a> {
    input: &'a [char],
    position: usize,
    line: usize,
    column: usize,
}

impl<'a> Lexer<'a> {
    /// The cursor is inside the input and the line and column counters agree
    /// with the cursor position.
    pub closed spec fn wf(self) -> bool {
        &&& self.position <= self.input@.len()
        &&& self.input@.len() < usize::MAX
        &&& self.line == line_at(self.input@, self.position as int)
        &&& self.column == col_at(self.input@, self.position as int)
    }

    pub closed spec fn spec_input(self) -> Seq<char> {
        self.input@
    }

    pub closed spec fn spec_position(self) -> int {
        self.position as int
    }

    /// A lexer at the start of `input`. The length bound keeps the 1-based
    /// line counter within `usize`.
    pub fn new(input: &'a [char]) -> (r: Lexer<'a>)
        requires
            input@.len() < usize::MAX,
        ensures
            r.wf(),
            r.spec_input() == input@,
            r.spec_position() == 0,
    {
        Lexer { input, position: 0, line: 1, column: 0 }
    }

    /// Consumes one character, keeping the line and column counters in step.
    fn next_char(&mut self) -> (r: Option<char>)
        requires
            old(self).wf(),
        ensures
            final(self).wf(),
            final(self).input == old(self).input,
            match r {
                Some(c) => old(self).position < old(self).input@.len() && c == old(
                    self,
                ).input@[old(self).position as int] && final(self).position == old(self).position
                    + 1,
                None => old(self).position == old(self).input@.len() && *final(self) == *old(self),
            },
    {
        if self.position >= self.input.len() {
            return None;
        }
        let ch = self.input[self.position];
        proof {
            lemma_line_col_bounds(self.input@, self.position as int);
        }
        self.position = self.position + 1;
        if ch == '\n' {
            self.line = self.line + 1;
            self.column = 0;
        } else {
            self.column = self.column + 1;
        }
        Some(ch)
    }

    /// The character under the cursor, without consuming it.
    fn peek_char(&self) -> (r: Option<char>)
        requires
            self.wf(),
        ensures
            match r {
                Some(c) => self.position < self.input@.len() && c
                    == self.input@[self.position as int],
                None => self.position == self.input@.len(),
            },
    {
        if self.position < self.input.len() {
            Some(self.input[self.position])
        } else {
            None
        }
    }

    /// Consumes white space.
    fn skip_whitespace(&mut self)
        requires
            old(self).wf(),
        ensures
            final(self).wf(),
            final(self).input == old(self).input,
            final(self).position == skip_spaces(old(self).input@, old(self).position as int),
    {
        loop
            invariant
                self.wf(),
                self.input == old(self).input,
                skip_spaces(self.input@, old(self).position as int) == skip_spaces(
                    self.input@,
                    self.position as int,
                ),
            decreases self.input@.len() - self.position,
        {
            match self.peek_char() {
                Some(ch) => {
                    if crate::text::char_is_space(ch) {
                        let _ = self.next_char();
                    } else {
                        return ;
                    }
                },
                None => {
                    return ;
                },
            }
        }
    }

    /// Consumes characters until one equal to `target` has been consumed or
    /// the input ends.
    fn consume_through(&mut self, target: char)
        requires
            old(self).wf(),
        ensures
            final(self).wf(),
            final(self).input == old(self).input,
            final(self).position == ({
                let sc = scan_to_char(old(self).input@, old(self).position as int, target);
                if sc < old(self).input@.len() {
                    sc + 1
                } else {
                    sc
                }
            }),
    {
        loop
            invariant
                self.wf(),
                self.input == old(self).input,
                scan_to_char(self.input@, old(self).position as int, target) == scan_to_char(
                    self.input@,
                    self.position as int,
                    target,
                ),
                self.position <= self.input@.len(),
            decreases self.input@.len() - self.position,
        {
            let ghost before = self.position as int;
            match self.next_char() {
                Some(ch) => {
                    if ch == target {
                        proof {
                            assert(scan_to_char(self.input@, before, target) == before);
                        }
                        return ;
                    }
                },
                None => {
                    return ;
                },
            }
        }
    }

    /// Consumes characters while they differ from `target`, stopping with the
    /// cursor on the first `target` (or at the end of input).
    fn consume_until(&mut self, target: char)
        requires
            old(self).wf(),
        ensures
            final(self).wf(),
            final(self).input == old(self).input,
            final(self).position == scan_to_char(
                old(self).input@,
                old(self).position as int,
                target,
            ),
    {
        loop
            invariant
                self.wf(),
                self.input == old(self).input,
                scan_to_char(self.input@, old(self).position as int, target) == scan_to_char(
                    self.input@,
                    self.position as int,
                    target,
                ),
            decreases self.input@.len() - self.position,
        {
            match self.peek_char() {
                Some(ch) => {
                    if ch == target {
                        return ;
                    }
                    let _ = self.next_char();
                },
                None => {
                    return ;
                },
            }
        }
    }

    /// Consumes an identifier run.
    fn consume_ident_run(&mut self)
        requires
            old(self).wf(),
        ensures
            final(self).wf(),
            final(self).input == old(self).input,
            final(self).position == ident_end(old(self).input@, old(self).position as int),
    {
        loop
            invariant
                self.wf(),
                self.input == old(self).input,
                ident_end(self.input@, old(self).position as int) == ident_end(
                    self.input@,
                    self.position as int,
                ),
            decreases self.input@.len() - self.position,
        {
            match self.peek_char() {
                Some(ch) => {
                    let keep = crate::text::char_is_alphanumeric(ch) || ch == '-' || ch == ':'
                        || ch == '_';
                    if keep {
                        let _ = self.next_char();
                    } else {
                        return ;
                    }
                },
                None => {
                    return ;
                },
            }
        }
    }

    /// Consumes a numeric-literal run.
    fn consume_num_run(&mut self)
        requires
            old(self).wf(),
        ensures
            final(self).wf(),
            final(self).input == old(self).input,
            final(self).position == num_end(old(self).input@, old(self).position as int),
    {
        loop
            invariant
                self.wf(),
                self.input == old(self).input,
                num_end(self.input@, old(self).position as int) == num_end(
                    self.input@,
                    self.position as int,
                ),
            decreases self.input@.len() - self.position,
        {
            match self.peek_char() {
                Some(ch) => {
                    if crate::text::char_is_numeric(ch) || ch == '.' {
                        let _ = self.next_char();
                    } else {
                        return ;
                    }
                },
                None => {
                    return ;
                },
            }
        }
    }

    /// Runs the lexer over the rest of the input and returns the tokens: the
    /// result is exactly `spec_lex` of the input from the current position,
    /// with the tag flag initially clear.
    #[verifier::rlimit(100)]
    pub fn lex(&mut self) -> (tokens: Vec<Token>)
        requires
            old(self).wf(),
        ensures
            final(self).spec_input() == old(self).spec_input(),
            tokens@ == spec_lex(old(self).spec_input(), old(self).spec_position(), false),
    {
        let ghost s = self.input@;
        let ghost initial = self.position as int;
        let mut tokens: Vec<Token> = Vec::new();
        let mut inside_tag = false;

        loop
            invariant
                self.wf(),
                self.input@ == s,
                0 <= initial <= self.position,
                tokens@ + spec_lex(s, self.position as int, inside_tag) == spec_lex(
                    s,
                    initial,
                    false,
                ),
            ensures
                self.wf(),
                self.input@ == s,
                tokens@ == spec_lex(s, initial, false),
            decreases s.len() - self.position,
        {
            let ghost pos0 = self.position as int;
            let ghost inside0 = inside_tag;
            let ghost toks0 = tokens@;
            let start_pos = self.position;

            let ch = match self.next_char() {
                Some(c) => c,
                None => {
                    proof {
                        assert(spec_lex(s, self.position as int, inside_tag) =~= Seq::<
                            Token,
                        >::empty());
                        assert(tokens@ =~= tokens@ + Seq::<Token>::empty());
                    }
                    break ;
                },
            };
            let ghost step = lex_step(s, pos0, inside0);

            match ch {
                '<' => {
                    inside_tag = true;
                    if let Some('/') = self.peek_char() {
                        let _ = self.next_char();
                        tokens.push(
                            Token {
                                kind: TokenKind::TagClose,
                                start: start_pos,
                                end: self.position,
                                line: self.line,
                                col: self.column,
                            },
                        );
                    } else {
                        tokens.push(
                            Token {
                                kind: TokenKind::TagStart,
                                start: start_pos,
                                end: self.position,
                                line: self.line,
                                col: self.column,
                            },
                        );
                    }
                    self.skip_whitespace();
                    proof {
                        assert(tokens@ =~= toks0 + step.0);
                    }
                },
                '>' => {
                    inside_tag = false;
                    tokens.push(
                        Token {
                            kind: TokenKind::TagEnd,
                            start: start_pos,
                            end: self.position,
                            line: self.line,
                            col: self.column,
                        },
                    );
                    self.skip_whitespace();
                    proof {
                        assert(tokens@ =~= toks0 + step.0);
                    }
                },
                '/' => {
                    match self.peek_char() {
                        Some('>') => {
                            let _ = self.next_char();
                            tokens.push(
                                Token {
                                    kind: TokenKind::TagSelfClose,
                                    start: start_pos,
                                    end: self.position,
                                    line: self.line,
                                    col: self.column,
                                },
                            );
                            self.skip_whitespace();
                            proof {
                                assert(tokens@ =~= toks0 + step.0);
                            }
                        },
                        Some('/') => {
                            self.consume_until('\n');
                            if self.position < self.input.len() {
                                tokens.push(
                                    Token {
                                        kind: TokenKind::LineComment(
                                            Span { start: start_pos, end: self.position },
                                        ),
                                        start: start_pos,
                                        end: self.position,
                                        line: self.line,
                                        col: self.column,
                                    },
                                );
                                self.skip_whitespace();
                                proof {
                                    assert(tokens@ =~= toks0 + step.0);
                                }
                            } else {
                                proof {
                                    assert(tokens@ =~= toks0 + step.0);
                                }
                            }
                        },
                        None => {
                            proof {
                                assert(self.position == s.len());
                                assert(step.0 =~= Seq::<Token>::empty());
                                assert(spec_lex(s, pos0, inside0) == step.0 + spec_lex(
                                    s,
                                    step.1,
                                    step.2,
                                ));
                                assert(spec_lex(s, step.1, step.2) =~= Seq::<Token>::empty());
                                assert(spec_lex(s, pos0, inside0) =~= Seq::<Token>::empty());
                                assert(tokens@ =~= spec_lex(s, initial, false));
                            }
                            break ;
                        },
                        _ => {
                            self.skip_whitespace();
                            proof {
                                assert(tokens@ =~= toks0 + step.0);
                            }
                        },
                    }
                },
                '=' if inside_tag => {
                    tokens.push(
                        Token {
                            kind: TokenKind::EqualSign,
                            start: start_pos,
                            end: self.position,
                            line: self.line,
                            col: self.column,
                        },
                    );
                    self.skip_whitespace();
                    proof {
                        assert(tokens@ =~= toks0 + step.0);
                    }
                },
                '{' => {
                    self.consume_through('}');
                    proof {
                        lemma_scan_to_char(s, pos0 + 1, '}');
                    }
                    let text_end = if self.position < self.input.len() {
                        // the closing brace was consumed
                        self.position - 1
                    } else if start_pos + 1 < self.position - 1 {
                        self.position - 1
                    } else {
                        start_pos + 1
                    };
                    proof {
                        let close = scan_to_char(s, pos0 + 1, '}');
                        lemma_scan_to_char(s, pos0 + 1, '}');
                        if close < s.len() {
                            assert(self.position == close + 1);
                            assert(text_end == close);
                        }
                    }
                    tokens.push(
                        Token {
                            kind: TokenKind::Variable(Span { start: start_pos + 1, end: text_end }),
                            start: start_pos,
                            end: self.position,
                            line: self.line,
                            col: self.column,
                        },
                    );
                    self.skip_whitespace();
                    proof {
                        let close = scan_to_char(s, pos0 + 1, '}');
                        if close >= s.len() {
                            assert(skip_spaces(s, self.position as int) == s.len() as int);
                        }
                        assert(tokens@ =~= toks0 + step.0);
                    }
                },
                '"' if inside_tag => {
                    let value_start = self.position;
                    self.consume_through('"');
                    proof {
                        lemma_scan_to_char(s, pos0 + 1, '"');
                    }
                    // when the literal was terminated, the cursor sits just
                    // past its closing quote
                    let text_end = if self.position > start_pos + 1 && self.input[self.position
                        - 1] == '"' {
                        self.position - 1
                    } else {
                        self.position
                    };
                    proof {
                        let close = scan_to_char(s, pos0 + 1, '"');
                        if close < s.len() {
                            assert(self.position == close + 1);
                            assert(text_end == close);
                        } else {
                            assert(self.position == s.len());
                            assert(text_end == s.len());
                        }
                    }
                    tokens.push(
                        Token {
                            kind: TokenKind::AttributeValue(
                                Span { start: value_start, end: text_end },
                            ),
                            start: start_pos,
                            end: self.position,
                            line: self.line,
                            col: self.column,
                        },
                    );
                    self.skip_whitespace();
                    proof {
                        let close = scan_to_char(s, pos0 + 1, '"');
                        if close >= s.len() {
                            assert(skip_spaces(s, self.position as int) == s.len() as int);
                        }
                        assert(tokens@ =~= toks0 + step.0);
                    }
                },
                '\n' | '\t' => {
                    self.skip_whitespace();
                    proof {
                        assert(tokens@ =~= toks0 + step.0);
                    }
                },
                _ => {
                    if inside_tag {
                        let alpha = crate::text::char_is_alphabetic(ch);
                        if alpha || ch == '_' || ch == '-' {
                            self.consume_ident_run();
                            let end_pos = self.position;
                            let is_attr = match self.peek_char() {
                                Some('=') => true,
                                _ => false,
                            };
                            if is_attr {
                                tokens.push(
                                    Token {
                                        kind: TokenKind::AttributeName(
                                            Span { start: start_pos, end: end_pos },
                                        ),
                                        start: start_pos,
                                        end: end_pos,
                                        line: self.line,
                                        col: self.column,
                                    },
                                );
                            } else {
                                tokens.push(
                                    Token {
                                        kind: TokenKind::TagName(
                                            Span { start: start_pos, end: end_pos },
                                        ),
                                        start: start_pos,
                                        end: end_pos,
                                        line: self.line,
                                        col: self.column,
                                    },
                                );
                            }
                            self.skip_whitespace();
                            proof {
                                assert(tokens@ =~= toks0 + step.0);
                            }
                        } else if crate::text::char_is_numeric(ch) || ch == '.' {
                            self.consume_num_run();
                            tokens.push(
                                Token {
                                    kind: TokenKind::AttributeValue(
                                        Span { start: start_pos, end: self.position },
                                    ),
                                    start: start_pos,
                                    end: self.position,
                                    line: self.line,
                                    col: self.column,
                                },
                            );
                            self.skip_whitespace();
                            proof {
                                assert(tokens@ =~= toks0 + step.0);
                            }
                        } else if !crate::text::char_is_space(ch) {
                            self.consume_until('<');
                            tokens.push(
                                Token {
                                    kind: TokenKind::Text(
                                        Span { start: start_pos, end: self.position },
                                    ),
                                    start: start_pos,
                                    end: self.position,
                                    line: self.line,
                                    col: self.column,
                                },
                            );
                            self.skip_whitespace();
                            proof {
                                assert(tokens@ =~= toks0 + step.0);
                            }
                        } else {
                            self.skip_whitespace();
                            proof {
                                assert(tokens@ =~= toks0 + step.0);
                            }
                        }
                    } else {
                        self.consume_until('<');
                        tokens.push(
                            Token {
                                kind: TokenKind::Text(Span { start: start_pos, end: self.position }),
                                start: start_pos,
                                end: self.position,
                                line: self.line,
                                col: self.column,
                            },
                        );
                        self.skip_whitespace();
                        proof {
                            assert(tokens@ =~= toks0 + step.0);
                        }
                    }
                },
            }
            proof {
                lemma_lex_step_advances(s, pos0, inside0);
                assert(self.position as int == step.1);
                assert(inside_tag == step.2);
                assert(spec_lex(s, pos0, inside0) == step.0 + spec_lex(s, step.1, step.2));
                assert(tokens@ + spec_lex(s, self.position as int, inside_tag) =~= spec_lex(
                    s,
                    initial,
                    false,
                ));
            }
        }
        tokens
    }
}

} // verus!
