//! The markup parser: recursive descent with a single cursor over the token
//! sequence, producing the element tree. Parsing is fail-fast: the first
//! structural error is returned as a rendered diagnostic.
//!
//! The functions `spec_parse_element`, `spec_parse_children`,
//! `spec_parse_attributes` and `spec_parse` are the specification of the
//! grammar; every `Parser` method returns exactly what they describe.

pub mod attr;
pub mod element;
pub mod error;

use vstd::prelude::*;

use crate::lexer::Span;
use crate::lexer::Token;
use crate::lexer::TokenKind;
use crate::parser::attr::Attribute;
use crate::parser::attr::SpecAttribute;
use crate::parser::attr::SpecVariableRef;
use crate::parser::attr::VariableRef;
use crate::parser::attr::VariableType;
use crate::parser::attr::spec_attribute_value;
use crate::parser::attr::spec_variable_type;
use crate::parser::element::Element;
use crate::parser::element::Node;
use crate::parser::element::SpecElement;
use crate::parser::element::SpecNode;
use crate::parser::element::SpecTextElement;
use crate::parser::element::TextElement;
use crate::parser::element::spec_element;
use crate::text::dec_chars;
use crate::text::scan_to_char;

verus! {

/// The text a span addresses.
pub open spec fn span_text(s: Seq<char>, sp: Span) -> Seq<char> {
    s.subrange(sp.start as int, sp.end as int)
}

/// The tokens the parser keeps: everything but comments.
pub open spec fn spec_retained_tokens(toks: Seq<Token>) -> Seq<Token> {
    toks.filter(|t: Token| !(t.kind is LineComment))
}

/// Whether a token's span (if its kind carries one) lies within a source of
/// length `n`.
pub open spec fn token_wf(t: Token, n: int) -> bool {
    match t.kind {
        TokenKind::TagName(sp) => sp.start <= sp.end <= n,
        TokenKind::AttributeName(sp) => sp.start <= sp.end <= n,
        TokenKind::AttributeValue(sp) => sp.start <= sp.end <= n,
        TokenKind::Variable(sp) => sp.start <= sp.end <= n,
        TokenKind::Text(sp) => sp.start <= sp.end <= n,
        TokenKind::LineComment(sp) => sp.start <= sp.end <= n,
        _ => true,
    }
}

pub open spec fn tokens_wf(toks: Seq<Token>, n: int) -> bool {
    forall|i: int| 0 <= i < toks.len() ==> #[trigger] token_wf(toks[i], n)
}

/// One lexer step only emits tokens whose spans lie within the source.
pub proof fn lemma_lex_step_wf(s: Seq<char>, pos: int, inside: bool)
    requires
        0 <= pos < s.len(),
        s.len() <= usize::MAX,
    ensures
        forall|i: int|
            0 <= i < crate::lexer::lex_step(s, pos, inside).0.len() ==> #[trigger] token_wf(
                crate::lexer::lex_step(s, pos, inside).0[i],
                s.len() as int,
            ),
{
    crate::text::lemma_scan_to_char(s, pos + 1, '\n');
    crate::text::lemma_scan_to_char(s, pos + 1, '}');
    crate::text::lemma_scan_to_char(s, pos + 1, '"');
    crate::text::lemma_scan_to_char(s, pos + 1, '<');
    crate::lexer::lemma_ident_end(s, pos + 1);
    crate::lexer::lemma_num_end(s, pos + 1);
}

/// Every token the lexer emits has a span within the source.
pub proof fn lemma_spec_lex_wf(s: Seq<char>, pos: int, inside: bool)
    requires
        0 <= pos,
        s.len() <= usize::MAX,
    ensures
        tokens_wf(crate::lexer::spec_lex(s, pos, inside), s.len() as int),
    decreases s.len() - pos,
{
    if pos < s.len() {
        lemma_lex_step_wf(s, pos, inside);
        crate::lexer::lemma_lex_step_advances(s, pos, inside);
        let step = crate::lexer::lex_step(s, pos, inside);
        lemma_spec_lex_wf(s, step.1, step.2);
        assert forall|i: int|
            0 <= i < crate::lexer::spec_lex(s, pos, inside).len() implies #[trigger] token_wf(
            crate::lexer::spec_lex(s, pos, inside)[i],
            s.len() as int,
        ) by {
            if i < step.0.len() {
                assert(crate::lexer::spec_lex(s, pos, inside)[i] == step.0[i]);
            } else {
                assert(crate::lexer::spec_lex(s, pos, inside)[i] == crate::lexer::spec_lex(
                    s,
                    step.1,
                    step.2,
                )[i - step.0.len()]);
            }
        }
    }
}

/// A diagnostic of the shape `{prefix}{line}{mid}{col}`.
pub open spec fn spec_msg_pos(prefix: Seq<char>, line: int, mid: Seq<char>, col: int) -> Seq<
    char,
> {
    prefix + dec_chars(line as nat) + mid + dec_chars(col as nat)
}

/// The diagnostic for a closing tag that does not match its opening tag.
pub open spec fn spec_mismatched_tag_msg(name: Seq<char>, close: Seq<char>) -> Seq<char> {
    "Mismatched closing tag: expected "@ + name + ", found "@ + close
}

/// The type tag of an extracted reference: the text before the first `:` of
/// the braced content, or the empty text when there is no `:`.
pub open spec fn spec_ref_kind(inner: Seq<char>) -> VariableType {
    let i = scan_to_char(inner, 0, ':');
    if i < inner.len() {
        spec_variable_type(inner.subrange(0, i))
    } else {
        spec_variable_type(Seq::empty())
    }
}

/// Scans `t` from `from` for `{...}` spans, left to right and without
/// nesting; every span whose content does not end in a backslash (an escaped
/// closing brace) becomes a reference. A `{` with no later `}` ends the scan.
pub open spec fn spec_extract_refs(t: Seq<char>, from: int, acc: Seq<SpecVariableRef>) -> Seq<
    SpecVariableRef,
>
    decreases t.len() - from,
    when 0 <= from
    via spec_extract_refs_dec
{
    let open = scan_to_char(t, from, '{');
    if open >= t.len() {
        acc
    } else {
        let close = scan_to_char(t, open + 1, '}');
        if close >= t.len() {
            acc
        } else {
            let inner = t.subrange(open + 1, close);
            let acc2 = if inner.len() > 0 && inner.last() == '\\' {
                acc
            } else {
                acc.push(
                    SpecVariableRef {
                        full_match: t.subrange(open, close + 1),
                        start: open,
                        end: close + 1,
                        kind: spec_ref_kind(inner),
                    },
                )
            };
            spec_extract_refs(t, close + 1, acc2)
        }
    }
}

#[via_fn]
proof fn spec_extract_refs_dec(t: Seq<char>, from: int, acc: Seq<SpecVariableRef>) {
    if from <= t.len() {
        crate::text::lemma_scan_to_char(t, from, '{');
        let open = scan_to_char(t, from, '{');
        if open < t.len() {
            crate::text::lemma_scan_to_char(t, open + 1, '}');
        }
    }
}

/// A reference addressing a valid, nonempty subrange of its text and carrying
/// exactly that text (braces included).
pub open spec fn ref_span_wf(r: SpecVariableRef, t: Seq<char>) -> bool {
    r.start >= 0 && r.start + 2 <= r.end <= t.len() && r.full_match == t.subrange(r.start, r.end)
}

/// Every reference found by the scan addresses a valid, nonempty subrange of
/// the text and carries exactly that text (braces included).
pub proof fn lemma_extract_refs_spans(t: Seq<char>, from: int, acc: Seq<SpecVariableRef>)
    requires
        0 <= from,
        forall|i: int| 0 <= i < acc.len() ==> ref_span_wf(#[trigger] acc[i], t),
    ensures
        forall|i: int|
            0 <= i < spec_extract_refs(t, from, acc).len() ==> ref_span_wf(
                #[trigger] spec_extract_refs(t, from, acc)[i],
                t,
            ),
    decreases t.len() - from,
{
    if from <= t.len() {
        crate::text::lemma_scan_to_char(t, from, '{');
        let open = scan_to_char(t, from, '{');
        if open < t.len() {
            crate::text::lemma_scan_to_char(t, open + 1, '}');
            let close = scan_to_char(t, open + 1, '}');
            if close < t.len() {
                let inner = t.subrange(open + 1, close);
                let pushed = SpecVariableRef {
                    full_match: t.subrange(open, close + 1),
                    start: open,
                    end: close + 1,
                    kind: spec_ref_kind(inner),
                };
                let acc2 = if inner.len() > 0 && inner.last() == '\\' {
                    acc
                } else {
                    acc.push(pushed)
                };
                assert(ref_span_wf(pushed, t));
                assert(forall|i: int| 0 <= i < acc2.len() ==> ref_span_wf(#[trigger] acc2[i], t));
                lemma_extract_refs_spans(t, close + 1, acc2);
                assert(spec_extract_refs(t, from, acc) == spec_extract_refs(t, close + 1, acc2));
            } else {
                assert(spec_extract_refs(t, from, acc) == acc);
            }
        } else {
            assert(spec_extract_refs(t, from, acc) == acc);
        }
    } else {
        assert(scan_to_char(t, from, '{') == t.len());
        assert(spec_extract_refs(t, from, acc) == acc);
    }
}

/// Reads the attribute list at `pos`: a run of `name = value` triples, ended
/// by the first token that is not an attribute name (the normal exit, not an
/// error). Returns the attributes read and the position after them.
pub open spec fn spec_parse_attributes(
    s: Seq<char>,
    toks: Seq<Token>,
    pos: int,
    acc: Seq<SpecAttribute>,
) -> Result<(Seq<SpecAttribute>, int), Seq<char>>
    decreases toks.len() - pos,
    when 0 <= pos
{
    if pos >= toks.len() {
        Ok((acc, pos))
    } else {
        let t = toks[pos];
        match t.kind {
            TokenKind::AttributeName(nsp) => {
                if pos + 1 >= toks.len() || !(toks[pos + 1].kind is EqualSign) {
                    Err(
                        spec_msg_pos(
                            "Expected Equal (=): Line "@,
                            t.line as int,
                            " Col "@,
                            t.col as int,
                        ),
                    )
                } else if pos + 2 >= toks.len() {
                    Err(
                        spec_msg_pos(
                            "Expected AttributeValue: Line "@,
                            t.line as int,
                            " Col "@,
                            t.col as int,
                        ),
                    )
                } else {
                    match toks[pos + 2].kind {
                        TokenKind::AttributeValue(vsp) => spec_parse_attr_value(
                            s,
                            toks,
                            pos,
                            acc,
                            nsp,
                            vsp,
                        ),
                        TokenKind::Variable(vsp) => spec_parse_attr_value(
                            s,
                            toks,
                            pos,
                            acc,
                            nsp,
                            vsp,
                        ),
                        _ => Err(
                            spec_msg_pos(
                                "Expected AttributeValue or Variable: Line "@,
                                t.line as int,
                                ", Col "@,
                                t.col as int,
                            ),
                        ),
                    }
                }
            },
            _ => Ok((acc, pos)),
        }
    }
}

/// One attribute triple: the value text is read by `spec_attribute_value`
/// (whether it came from a quoted value, a numeric literal or a `{...}`
/// reference), and the list continues after it.
pub open spec fn spec_parse_attr_value(
    s: Seq<char>,
    toks: Seq<Token>,
    pos: int,
    acc: Seq<SpecAttribute>,
    nsp: Span,
    vsp: Span,
) -> Result<(Seq<SpecAttribute>, int), Seq<char>>
    decreases toks.len() - pos, 0int,
    when 0 <= pos && pos + 3 <= toks.len()
{
    let t = toks[pos];
    match spec_attribute_value(span_text(s, vsp), t.line as int, t.col as int) {
        Ok(av) => spec_parse_attributes(
            s,
            toks,
            pos + 3,
            acc.push(SpecAttribute { name: span_text(s, nsp), value: av }),
        ),
        Err(m) => Err(m),
    }
}

/// Attribute parsing never moves the cursor backward or past the end.
pub proof fn lemma_attributes_advance(
    s: Seq<char>,
    toks: Seq<Token>,
    pos: int,
    acc: Seq<SpecAttribute>,
)
    requires
        0 <= pos <= toks.len(),
    ensures
        match spec_parse_attributes(s, toks, pos, acc) {
            Ok((atts, p)) => pos <= p <= toks.len(),
            Err(_) => true,
        },
    decreases toks.len() - pos,
{
    if pos < toks.len() {
        let t = toks[pos];
        match t.kind {
            TokenKind::AttributeName(nsp) => {
                if pos + 2 < toks.len() {
                    match toks[pos + 2].kind {
                        TokenKind::AttributeValue(vsp) => {
                            match spec_attribute_value(
                                span_text(s, vsp),
                                t.line as int,
                                t.col as int,
                            ) {
                                Ok(av) => lemma_attributes_advance(
                                    s,
                                    toks,
                                    pos + 3,
                                    acc.push(
                                        SpecAttribute { name: span_text(s, nsp), value: av },
                                    ),
                                ),
                                Err(_) => {},
                            }
                        },
                        TokenKind::Variable(vsp) => {
                            match spec_attribute_value(
                                span_text(s, vsp),
                                t.line as int,
                                t.col as int,
                            ) {
                                Ok(av) => lemma_attributes_advance(
                                    s,
                                    toks,
                                    pos + 3,
                                    acc.push(
                                        SpecAttribute { name: span_text(s, nsp), value: av },
                                    ),
                                ),
                                Err(_) => {},
                            }
                        },
                        _ => {},
                    }
                }
            },
            _ => {},
        }
    }
}

/// Reads one element at `pos` with ids drawn from `id` on: `<` and a tag
/// name, the attribute list, and then either `/>`, or `>`, the children, and
/// a matching closing tag. `Ok` carries the element, the position after it,
/// and the next free id; `Err` carries the first diagnostic, rendered with
/// the position of the offending token. The element's own id is drawn after
/// its children's, in order of construction.
pub open spec fn spec_parse_element(s: Seq<char>, toks: Seq<Token>, pos: int, id: int) -> Result<
    (SpecElement, int, int),
    Seq<char>,
>
    decreases toks.len() - pos, 1int,
    when 0 <= pos <= toks.len()
    via spec_parse_element_dec
{
    if pos >= toks.len() {
        Err("EOF: Expected TagStart"@)
    } else if !(toks[pos].kind is TagStart) {
        Err(
            spec_msg_pos(
                "Expected TagStart: Line "@,
                toks[pos].line as int,
                " Col "@,
                toks[pos].col as int,
            ),
        )
    } else if pos + 1 >= toks.len() {
        Err("EOF: Expected TagName"@)
    } else {
        match toks[pos + 1].kind {
            TokenKind::TagName(nsp) => {
                let name = span_text(s, nsp);
                match spec_parse_attributes(s, toks, pos + 2, Seq::empty()) {
                    Err(m) => Err(m),
                    Ok((attrs, p)) => {
                        if p < toks.len() && toks[p].kind is TagSelfClose {
                            Ok((spec_element(name, attrs, Seq::empty(), id as u64), p + 1, id + 1))
                        } else if p >= toks.len() {
                            Err("EOF: Expected TagName"@)
                        } else if !(toks[p].kind is TagEnd) {
                            Err(
                                spec_msg_pos(
                                    "Expected TagEnd: Line "@,
                                    toks[p].line as int,
                                    " Col "@,
                                    toks[p].col as int,
                                ),
                            )
                        } else {
                            match spec_parse_children(s, toks, p + 1, id, Seq::empty()) {
                                Err(m) => Err(m),
                                Ok((children, q, id2)) => {
                                    if q >= toks.len() {
                                        Err("Unexpected EOF"@)
                                    } else if !(toks[q].kind is TagClose) {
                                        Err(
                                            spec_msg_pos(
                                                "Expected TagClose: Line "@,
                                                toks[q].line as int,
                                                " Col "@,
                                                toks[q].col as int,
                                            ),
                                        )
                                    } else if q + 1 >= toks.len() {
                                        Err("Expected TagName"@)
                                    } else {
                                        match toks[q + 1].kind {
                                            TokenKind::TagName(csp) => {
                                                if span_text(s, csp) != name {
                                                    Err(
                                                        spec_mismatched_tag_msg(
                                                            name,
                                                            span_text(s, csp),
                                                        ),
                                                    )
                                                } else if q + 2 >= toks.len() {
                                                    Err("Unexpected EOF"@)
                                                } else if !(toks[q + 2].kind is TagEnd) {
                                                    Err(
                                                        spec_msg_pos(
                                                            "Expected TagEnd: Line "@,
                                                            toks[q + 2].line as int,
                                                            " Col "@,
                                                            toks[q + 2].col as int,
                                                        ),
                                                    )
                                                } else {
                                                    Ok(
                                                        (
                                                            spec_element(
                                                                name,
                                                                attrs,
                                                                children,
                                                                id2 as u64,
                                                            ),
                                                            q + 3,
                                                            id2 + 1,
                                                        ),
                                                    )
                                                }
                                            },
                                            _ => Err("Expected TagName"@),
                                        }
                                    }
                                },
                            }
                        }
                    },
                }
            },
            _ => Err("Expected TagName"@),
        }
    }
}

#[via_fn]
proof fn spec_parse_element_dec(s: Seq<char>, toks: Seq<Token>, pos: int, id: int) {
    if pos + 1 < toks.len() {
        lemma_attributes_advance(s, toks, pos + 2, Seq::empty());
    }
}

/// Reads the children at `pos`: nested elements (a `<` not immediately
/// followed by `</`), text runs (scanned for `{...}` references) and inline
/// `{...}` references (each becoming a one-reference text node). Any other
/// token ends the list; this is the normal exit, not an error.
pub open spec fn spec_parse_children(
    s: Seq<char>,
    toks: Seq<Token>,
    pos: int,
    id: int,
    acc: Seq<SpecNode>,
) -> Result<(Seq<SpecNode>, int, int), Seq<char>>
    decreases toks.len() - pos, 2int,
    when 0 <= pos <= toks.len()
{
    if pos >= toks.len() {
        Ok((acc, pos, id))
    } else {
        let t = toks[pos];
        match t.kind {
            TokenKind::TagStart => {
                if pos + 1 < toks.len() && toks[pos + 1].kind is TagClose {
                    Ok((acc, pos, id))
                } else {
                    match spec_parse_element(s, toks, pos, id) {
                        Ok((e, p, id2)) => {
                            // the parsed element always ends past `pos`; the
                            // bound keeps the recursion well founded
                            let p2 = if pos < p <= toks.len() {
                                p
                            } else {
                                pos + 1
                            };
                            spec_parse_children(s, toks, p2, id2, acc.push(SpecNode::Element(e)))
                        },
                        Err(m) => Err(m),
                    }
                }
            },
            TokenKind::Text(sp) => {
                let content = span_text(s, sp);
                spec_parse_children(
                    s,
                    toks,
                    pos + 1,
                    id,
                    acc.push(
                        SpecNode::Text(
                            SpecTextElement {
                                content,
                                variable_refs: spec_extract_refs(content, 0, Seq::empty()),
                            },
                        ),
                    ),
                )
            },
            TokenKind::Variable(sp) => {
                let inner = span_text(s, sp);
                let content = seq!['{'] + inner + seq!['}'];
                spec_parse_children(
                    s,
                    toks,
                    pos + 1,
                    id,
                    acc.push(
                        SpecNode::Text(
                            SpecTextElement {
                                content,
                                variable_refs: seq![
                                    SpecVariableRef {
                                        full_match: content,
                                        start: 0,
                                        end: content.len() as int,
                                        kind: spec_ref_kind(inner),
                                    }
                                ],
                            },
                        ),
                    ),
                )
            },
            _ => Ok((acc, pos, id)),
        }
    }
}

/// Reads top-level elements until the tokens are exhausted, failing fast on
/// the first error.
pub open spec fn spec_parse(
    s: Seq<char>,
    toks: Seq<Token>,
    pos: int,
    id: int,
    acc: Seq<SpecNode>,
) -> Result<Seq<SpecNode>, Seq<char>>
    decreases toks.len() - pos,
    when 0 <= pos <= toks.len()
{
    if pos >= toks.len() {
        Ok(acc)
    } else {
        match spec_parse_element(s, toks, pos, id) {
            Ok((e, p, id2)) => {
                let p2 = if pos < p <= toks.len() {
                    p
                } else {
                    pos + 1
                };
                spec_parse(s, toks, p2, id2, acc.push(SpecNode::Element(e)))
            },
            Err(m) => Err(m),
        }
    }
}

/// Everything `spec_parse` returns is an element: text cannot stand at the
/// top level.
pub proof fn lemma_parse_all_elements(
    s: Seq<char>,
    toks: Seq<Token>,
    pos: int,
    id: int,
    acc: Seq<SpecNode>,
)
    requires
        0 <= pos <= toks.len(),
        forall|i: int| 0 <= i < acc.len() ==> (#[trigger] acc[i]) is Element,
    ensures
        match spec_parse(s, toks, pos, id, acc) {
            Ok(nodes) => forall|i: int| 0 <= i < nodes.len() ==> (#[trigger] nodes[i]) is Element,
            Err(_) => true,
        },
    decreases toks.len() - pos,
{
    if pos < toks.len() {
        match spec_parse_element(s, toks, pos, id) {
            Ok((e, p, id2)) => {
                let p2 = if pos < p <= toks.len() {
                    p
                } else {
                    pos + 1
                };
                lemma_parse_all_elements(s, toks, p2, id2, acc.push(SpecNode::Element(e)));
            },
            Err(_) => {},
        }
    }
}

/// The markup parser: the source buffer the token spans address, the token
/// sequence (comments already dropped), a cursor, and the id counter for the
/// elements of this parse.
pub struct Parser<'a> {
    input: &'a [char],
    tokens: Vec<Token>,
    position: usize,
    next_id: u64,
}

impl<'a> Parser<'a> {
    /// The cursor is inside the token list, every token span addresses the
    /// source, and enough ids remain for the tokens still unread.
    pub closed spec fn wf(self) -> bool {
        &&& self.position <= self.tokens@.len()
        &&& tokens_wf(self.tokens@, self.input@.len() as int)
        &&& self.next_id as int + (self.tokens@.len() - self.position as int) <= u64::MAX
    }

    pub closed spec fn spec_input(self) -> Seq<char> {
        self.input@
    }

    pub closed spec fn spec_toks(self) -> Seq<Token> {
        self.tokens@
    }

    pub closed spec fn spec_pos(self) -> int {
        self.position as int
    }

    pub closed spec fn spec_next_id(self) -> int {
        self.next_id as int
    }

    /// A parser over `tokens`, which must address `input`. Comment tokens are
    /// dropped and the id counter starts at zero.
    pub fn new(input: &'a [char], tokens: Vec<Token>) -> (r: Parser<'a>)
        requires
            tokens_wf(tokens@, input@.len() as int),
        ensures
            r.wf(),
            r.spec_input() == input@,
            r.spec_toks() == spec_retained_tokens(tokens@),
            r.spec_pos() == 0,
            r.spec_next_id() == 0,
    {
        broadcast use vstd::seq_lib::group_filter_ensures;

        let mut kept: Vec<Token> = Vec::new();
        let n = tokens.len();
        for i in 0..n
            invariant
                n == tokens@.len(),
                tokens_wf(tokens@, input@.len() as int),
                kept@ == spec_retained_tokens(tokens@.subrange(0, i as int)),
                kept@.len() <= i,
                tokens_wf(kept@, input@.len() as int),
        {
            let t = tokens[i];
            let ghost prefix = tokens@.subrange(0, i as int);
            let ghost single = seq![tokens@[i as int]];
            proof {
                reveal_with_fuel(Seq::filter, 2);
                assert(tokens@.subrange(0, i + 1) =~= prefix + single);
                assert(spec_retained_tokens(Seq::<Token>::empty()) =~= Seq::<Token>::empty());
                assert(single.drop_last() =~= Seq::<Token>::empty());
                assert(spec_retained_tokens(single) =~= if !(tokens@[i as int].kind
                    is LineComment) {
                    single
                } else {
                    Seq::<Token>::empty()
                });
                assert(spec_retained_tokens(prefix + single) =~= spec_retained_tokens(prefix)
                    + spec_retained_tokens(single));
            }
            let keep = match t.kind {
                TokenKind::LineComment(_) => false,
                _ => true,
            };
            if keep {
                kept.push(t);
            }
            proof {
                assert(kept@ =~= spec_retained_tokens(tokens@.subrange(0, i + 1)));
            }
        }
        proof {
            assert(tokens@.subrange(0, n as int) =~= tokens@);
        }
        let mut counter: u64 = 0;
        crate::parser::element::ElementId::reset(&mut counter);
        Parser { input, tokens: kept, position: 0, next_id: counter }
    }

    /// The source and token buffers are those of `other`.
    pub closed spec fn frame(self, other: Parser<'a>) -> bool {
        self.input == other.input && self.tokens == other.tokens
    }

    /// The token under the cursor.
    fn current_token(&self) -> (r: Option<&Token>)
        ensures
            match r {
                Some(t) => self.spec_pos() < self.spec_toks().len() && *t == self.spec_toks()[
                    self.spec_pos()
                ],
                None => self.spec_pos() >= self.spec_toks().len(),
            },
    {
        if self.position < self.tokens.len() {
            Some(&self.tokens[self.position])
        } else {
            None
        }
    }

    /// Moves the cursor one token forward.
    fn advance(&mut self)
        requires
            old(self).spec_pos() < old(self).spec_toks().len(),
        ensures
            *final(self) == (Parser { position: (old(self).position + 1) as usize, ..*old(self) }),
    {
        let n = self.tokens.len();
        self.position = self.position + 1;
    }

    /// Reads the attribute list at the cursor, leaving the cursor on the
    /// first token after it.
    fn parse_attributes(&mut self) -> (r: Result<Vec<Attribute>, Vec<char>>)
        requires
            old(self).wf(),
        ensures
            final(self).wf(),
            final(self).frame(*old(self)),
            final(self).spec_next_id() == old(self).spec_next_id(),
            old(self).spec_pos() <= final(self).spec_pos() <= final(self).spec_toks().len(),
            match r {
                Ok(attrs) => spec_parse_attributes(
                    old(self).spec_input(),
                    old(self).spec_toks(),
                    old(self).spec_pos(),
                    Seq::empty(),
                ) == Ok::<(Seq<SpecAttribute>, int), Seq<char>>(
                    (attrs@.map_values(|a: Attribute| a@), final(self).spec_pos()),
                ),
                Err(m) => spec_parse_attributes(
                    old(self).spec_input(),
                    old(self).spec_toks(),
                    old(self).spec_pos(),
                    Seq::empty(),
                ) == Err::<(Seq<SpecAttribute>, int), Seq<char>>(m@),
            },
    {
        let ghost s = self.input@;
        let ghost toks = self.tokens@;
        let ghost pos0 = self.position as int;
        let mut attributes: Vec<Attribute> = Vec::new();
        proof {
            assert(attributes@.map_values(|a: Attribute| a@) =~= Seq::<SpecAttribute>::empty());
        }
        loop
            invariant
                self.wf(),
                self.input@ == s,
                self.tokens@ == toks,
                self.input == old(self).input,
                self.tokens == old(self).tokens,
                self.next_id == old(self).next_id,
                pos0 <= self.position as int,
                pos0 == old(self).spec_pos(),
                spec_parse_attributes(s, toks, pos0, Seq::empty()) == spec_parse_attributes(
                    s,
                    toks,
                    self.position as int,
                    attributes@.map_values(|a: Attribute| a@),
                ),
            decreases toks.len() - self.position,
        {
            let ghost posc = self.position as int;
            let ghost accv = attributes@.map_values(|a: Attribute| a@);
            if self.position >= self.tokens.len() {
                return Ok(attributes);
            }
            let t = self.tokens[self.position];
            match t.kind {
                TokenKind::AttributeName(nsp) => {
                    let has_eq = self.position + 1 < self.tokens.len() && match self.tokens[
                        self.position + 1].kind {
                        TokenKind::EqualSign => true,
                        _ => false,
                    };
                    if !has_eq {
                        return Err(
                            msg_positioned("Expected Equal (=): Line ", t.line, " Col ", t.col),
                        );
                    }
                    if self.position + 2 >= self.tokens.len() {
                        return Err(
                            msg_positioned(
                                "Expected AttributeValue: Line ",
                                t.line,
                                " Col ",
                                t.col,
                            ),
                        );
                    }
                    let vt = self.tokens[self.position + 2];
                    proof {
                        assert(token_wf(toks[posc + 2], s.len() as int));
                        assert(token_wf(toks[posc], s.len() as int));
                    }
                    let vsp = match vt.kind {
                        TokenKind::AttributeValue(sp) => sp,
                        TokenKind::Variable(sp) => sp,
                        _ => {
                            return Err(
                                msg_positioned(
                                    "Expected AttributeValue or Variable: Line ",
                                    t.line,
                                    ", Col ",
                                    t.col,
                                ),
                            );
                        },
                    };
                    let value_text = crate::text::span_to_vec(
                        self.input,
                        vsp.start,
                        vsp.end,
                    );
                    let av = match attr::AttributeValue::new(value_text.as_slice(), t.line, t.col) {
                        Ok(v) => v,
                        Err(m) => {
                            return Err(m);
                        },
                    };
                    let name_vec = crate::text::span_to_vec(
                        self.input,
                        nsp.start,
                        nsp.end,
                    );
                    attributes.push(Attribute { name: name_vec, value: av });
                    self.position = self.position + 3;
                    proof {
                        assert(attributes@.map_values(|a: Attribute| a@) =~= accv.push(
                            SpecAttribute {
                                name: span_text(s, nsp),
                                value: av@,
                            },
                        ));
                        assert(spec_parse_attributes(s, toks, posc, accv)
                            == spec_parse_attributes(
                            s,
                            toks,
                            self.position as int,
                            attributes@.map_values(|a: Attribute| a@),
                        ));
                    }
                },
                _ => {
                    return Ok(attributes);
                },
            }
        }
    }

    /// Reads the children at the cursor: nested elements, text runs (scanned
    /// for `{...}` references) and inline references; stops at the first
    /// token that cannot begin a child.
    fn parse_children(&mut self) -> (r: Result<Vec<Node>, Vec<char>>)
        requires
            old(self).wf(),
        ensures
            final(self).wf(),
            final(self).frame(*old(self)),
            old(self).spec_pos() <= final(self).spec_pos() <= final(self).spec_toks().len(),
            final(self).spec_next_id() - old(self).spec_next_id()
                <= final(self).spec_pos() - old(self).spec_pos(),
            old(self).spec_next_id() <= final(self).spec_next_id(),
            match r {
                Ok(ns) => spec_parse_children(
                    old(self).spec_input(),
                    old(self).spec_toks(),
                    old(self).spec_pos(),
                    old(self).spec_next_id(),
                    Seq::empty(),
                ) == Ok::<(Seq<SpecNode>, int, int), Seq<char>>(
                    (
                        ns@.map_values(|n: Node| n@),
                        final(self).spec_pos(),
                        final(self).spec_next_id(),
                    ),
                ),
                Err(m) => spec_parse_children(
                    old(self).spec_input(),
                    old(self).spec_toks(),
                    old(self).spec_pos(),
                    old(self).spec_next_id(),
                    Seq::empty(),
                ) == Err::<(Seq<SpecNode>, int, int), Seq<char>>(m@),
            },
        decreases self.tokens@.len() - self.position, 2int,
    {
        let ghost s = self.input@;
        let ghost toks = self.tokens@;
        let ghost pos0 = self.position as int;
        let ghost id0 = self.next_id as int;
        let mut children: Vec<Node> = Vec::new();
        proof {
            assert(children@.map_values(|n: Node| n@) =~= Seq::<SpecNode>::empty());
        }
        loop
            invariant
                self.wf(),
                self.input@ == s,
                self.tokens@ == toks,
                self.input == old(self).input,
                self.tokens == old(self).tokens,
                pos0 <= self.position as int,
                pos0 == old(self).spec_pos(),
                id0 == old(self).spec_next_id(),
                id0 <= self.next_id as int,
                self.next_id as int - id0 <= self.position as int - pos0,
                spec_parse_children(s, toks, pos0, id0, Seq::empty()) == spec_parse_children(
                    s,
                    toks,
                    self.position as int,
                    self.next_id as int,
                    children@.map_values(|n: Node| n@),
                ),
            decreases toks.len() - self.position,
        {
            let ghost posc = self.position as int;
            let ghost idc = self.next_id as int;
            let ghost accv = children@.map_values(|n: Node| n@);
            if self.position >= self.tokens.len() {
                return Ok(children);
            }
            let t = self.tokens[self.position];
            proof {
                assert(token_wf(toks[posc], s.len() as int));
            }
            match t.kind {
                TokenKind::TagStart => {
                    let closes = self.position + 1 < self.tokens.len() && match self.tokens[
                        self.position + 1].kind {
                        TokenKind::TagClose => true,
                        _ => false,
                    };
                    if closes {
                        return Ok(children);
                    }
                    match self.parse_element() {
                        Ok(e) => {
                            children.push(Node::Element(e));
                            proof {
                                assert(children@.map_values(|n: Node| n@) =~= accv.push(
                                    SpecNode::Element(spec_parse_element(s, toks, posc, idc)->Ok_0.0),
                                ));
                                assert(spec_parse_children(s, toks, posc, idc, accv)
                                    == spec_parse_children(
                                    s,
                                    toks,
                                    self.position as int,
                                    self.next_id as int,
                                    children@.map_values(|n: Node| n@),
                                ));
                            }
                        },
                        Err(m) => {
                            return Err(m);
                        },
                    }
                },
                TokenKind::Text(sp) => {
                    let content = crate::text::span_to_vec(
                        self.input,
                        sp.start,
                        sp.end,
                    );
                    let variable_refs = extract_variable_refs(content.as_slice());
                    children.push(Node::Text(TextElement { content, variable_refs }));
                    self.advance();
                    proof {
                        assert(children@.map_values(|n: Node| n@) =~= accv.push(
                            SpecNode::Text(
                                SpecTextElement {
                                    content: span_text(s, sp),
                                    variable_refs: spec_extract_refs(
                                        span_text(s, sp),
                                        0,
                                        Seq::empty(),
                                    ),
                                },
                            ),
                        ));
                        assert(spec_parse_children(s, toks, posc, idc, accv)
                            == spec_parse_children(
                            s,
                            toks,
                            self.position as int,
                            self.next_id as int,
                            children@.map_values(|n: Node| n@),
                        ));
                    }
                },
                TokenKind::Variable(sp) => {
                    let mut content: Vec<char> = Vec::new();
                    content.push('{');
                    crate::text::push_span(&mut content, self.input, sp.start, sp.end);
                    content.push('}');
                    let inner = crate::text::span_to_vec(self.input, sp.start, sp.end);
                    let ci = crate::text::find_char(inner.as_slice(), 0, ':');
                    proof {
                        crate::text::lemma_scan_to_char(inner@, 0, ':');
                    }
                    let prefix = if ci < inner.len() {
                        crate::text::span_to_vec(inner.as_slice(), 0, ci)
                    } else {
                        Vec::new()
                    };
                    let kind = attr::VariableType::from(prefix.as_slice());
                    let end = content.len();
                    let full_ref = VariableRef { full_match: content, start: 0, end, kind };
                    let mut variable_refs: Vec<VariableRef> = Vec::new();
                    let mut content2: Vec<char> = Vec::new();
                    content2.push('{');
                    crate::text::push_span(&mut content2, self.input, sp.start, sp.end);
                    content2.push('}');
                    variable_refs.push(full_ref);
                    let ghost spec_content = seq!['{'] + span_text(s, sp) + seq!['}'];
                    proof {
                        assert(content2@ =~= spec_content);
                        assert(kind == spec_ref_kind(span_text(s, sp)));
                        assert(variable_refs@.map_values(|v: VariableRef| v@) =~= seq![
                            SpecVariableRef {
                                full_match: spec_content,
                                start: 0,
                                end: spec_content.len() as int,
                                kind: spec_ref_kind(span_text(s, sp)),
                            }
                        ]);
                    }
                    children.push(Node::Text(TextElement { content: content2, variable_refs }));
                    self.advance();
                    proof {
                        assert(children@.map_values(|n: Node| n@) =~= accv.push(
                            SpecNode::Text(
                                SpecTextElement {
                                    content: spec_content,
                                    variable_refs: seq![
                                        SpecVariableRef {
                                            full_match: spec_content,
                                            start: 0,
                                            end: spec_content.len() as int,
                                            kind: spec_ref_kind(span_text(s, sp)),
                                        }
                                    ],
                                },
                            ),
                        ));
                        assert(spec_parse_children(s, toks, posc, idc, accv)
                            == spec_parse_children(
                            s,
                            toks,
                            self.position as int,
                            self.next_id as int,
                            children@.map_values(|n: Node| n@),
                        ));
                    }
                },
                _ => {
                    return Ok(children);
                },
            }
        }
    }

    /// Reads one element at the cursor: the opening tag with its attributes,
    /// then either a self-closing mark or the children and the matching
    /// closing tag.
    fn parse_element(&mut self) -> (r: Result<Element, Vec<char>>)
        requires
            old(self).wf(),
        ensures
            final(self).wf(),
            final(self).frame(*old(self)),
            old(self).spec_pos() <= final(self).spec_pos() <= final(self).spec_toks().len(),
            final(self).spec_next_id() - old(self).spec_next_id()
                <= final(self).spec_pos() - old(self).spec_pos(),
            old(self).spec_next_id() <= final(self).spec_next_id(),
            match r {
                Ok(e) => spec_parse_element(
                    old(self).spec_input(),
                    old(self).spec_toks(),
                    old(self).spec_pos(),
                    old(self).spec_next_id(),
                ) == Ok::<(SpecElement, int, int), Seq<char>>(
                    (e@, final(self).spec_pos(), final(self).spec_next_id()),
                ) && old(self).spec_pos() + 3 <= final(self).spec_pos()
                    && final(self).spec_next_id() - old(self).spec_next_id()
                    <= (final(self).spec_pos() - old(self).spec_pos()) - 2,
                Err(m) => spec_parse_element(
                    old(self).spec_input(),
                    old(self).spec_toks(),
                    old(self).spec_pos(),
                    old(self).spec_next_id(),
                ) == Err::<(SpecElement, int, int), Seq<char>>(m@),
            },
        decreases self.tokens@.len() - self.position, 1int,
    {
        let ghost s = self.input@;
        let ghost toks = self.tokens@;
        let ghost pos0 = self.position as int;
        let ghost id0 = self.next_id as int;

        // the opening `<`
        if self.position >= self.tokens.len() {
            return Err(crate::text::str_to_chars("EOF: Expected TagStart"));
        }
        let t0 = self.tokens[self.position];
        match t0.kind {
            TokenKind::TagStart => {},
            _ => {
                return Err(msg_positioned("Expected TagStart: Line ", t0.line, " Col ", t0.col));
            },
        }
        self.advance();

        // the tag name
        if self.position >= self.tokens.len() {
            return Err(crate::text::str_to_chars("EOF: Expected TagName"));
        }
        let t1 = self.tokens[self.position];
        let nsp = match t1.kind {
            TokenKind::TagName(sp) => sp,
            _ => {
                return Err(crate::text::str_to_chars("Expected TagName"));
            },
        };
        proof {
            assert(token_wf(toks[pos0 + 1], s.len() as int));
        }
        self.advance();
        let name = crate::text::span_to_vec(self.input, nsp.start, nsp.end);

        let attributes = match self.parse_attributes() {
            Ok(a) => a,
            Err(m) => {
                return Err(m);
            },
        };

        // a self-closing tag has no children
        let self_closes = self.position < self.tokens.len() && match self.tokens[
            self.position].kind {
            TokenKind::TagSelfClose => true,
            _ => false,
        };
        if self_closes {
            self.advance();
            let children: Vec<Node> = Vec::new();
            proof {
                assert(children@.map_values(|n: Node| n@) =~= Seq::<SpecNode>::empty());
            }
            let e = crate::parser::element::Element::new(
                name,
                attributes,
                children,
                &mut self.next_id,
            );
            proof {
                assert(spec_parse_element(s, toks, pos0, id0) == Ok::<
                    (SpecElement, int, int),
                    Seq<char>,
                >((e@, self.position as int, self.next_id as int)));
            }
            return Ok(e);
        }

        // the `>` ending the opening tag
        if self.position >= self.tokens.len() {
            return Err(crate::text::str_to_chars("EOF: Expected TagName"));
        }
        let t2 = self.tokens[self.position];
        match t2.kind {
            TokenKind::TagEnd => {},
            _ => {
                return Err(msg_positioned("Expected TagEnd: Line ", t2.line, " Col ", t2.col));
            },
        }
        self.advance();

        let children = match self.parse_children() {
            Ok(c) => c,
            Err(m) => {
                return Err(m);
            },
        };

        // the `</` of the closing tag
        if self.position >= self.tokens.len() {
            return Err(crate::text::str_to_chars("Unexpected EOF"));
        }
        let t3 = self.tokens[self.position];
        match t3.kind {
            TokenKind::TagClose => {},
            _ => {
                return Err(msg_positioned("Expected TagClose: Line ", t3.line, " Col ", t3.col));
            },
        }
        self.advance();

        // the closing tag's name must match the opening tag's
        if self.position >= self.tokens.len() {
            return Err(crate::text::str_to_chars("Expected TagName"));
        }
        let t4 = self.tokens[self.position];
        let csp = match t4.kind {
            TokenKind::TagName(sp) => sp,
            _ => {
                return Err(crate::text::str_to_chars("Expected TagName"));
            },
        };
        proof {
            assert(token_wf(toks[self.position as int], s.len() as int));
        }
        let close_name = crate::text::span_to_vec(self.input, csp.start, csp.end);
        if !crate::parser::element::slices_eq(close_name.as_slice(), name.as_slice()) {
            return Err(msg_mismatched_tag(name.as_slice(), close_name.as_slice()));
        }
        self.advance();

        // the `>` ending the closing tag
        if self.position >= self.tokens.len() {
            return Err(crate::text::str_to_chars("Unexpected EOF"));
        }
        let t5 = self.tokens[self.position];
        match t5.kind {
            TokenKind::TagEnd => {},
            _ => {
                return Err(msg_positioned("Expected TagEnd: Line ", t5.line, " Col ", t5.col));
            },
        }
        self.advance();

        let e = crate::parser::element::Element::new(name, attributes, children, &mut self.next_id);
        proof {
            assert(spec_parse_element(s, toks, pos0, id0) == Ok::<
                (SpecElement, int, int),
                Seq<char>,
            >((e@, self.position as int, self.next_id as int)));
        }
        Ok(e)
    }

    /// Reads top-level elements until the tokens are exhausted, failing fast
    /// on the first error.
    pub fn parse(&mut self) -> (r: Result<Vec<Node>, Vec<char>>)
        requires
            old(self).wf(),
        ensures
            match r {
                Ok(nodes) => spec_parse(
                    old(self).spec_input(),
                    old(self).spec_toks(),
                    old(self).spec_pos(),
                    old(self).spec_next_id(),
                    Seq::empty(),
                ) == Ok::<Seq<SpecNode>, Seq<char>>(nodes@.map_values(|n: Node| n@)),
                Err(m) => spec_parse(
                    old(self).spec_input(),
                    old(self).spec_toks(),
                    old(self).spec_pos(),
                    old(self).spec_next_id(),
                    Seq::empty(),
                ) == Err::<Seq<SpecNode>, Seq<char>>(m@),
            },
    {
        let ghost s = self.input@;
        let ghost toks = self.tokens@;
        let ghost pos0 = self.position as int;
        let ghost id0 = self.next_id as int;
        let mut nodes: Vec<Node> = Vec::new();
        proof {
            assert(nodes@.map_values(|n: Node| n@) =~= Seq::<SpecNode>::empty());
        }
        loop
            invariant
                self.wf(),
                self.input@ == s,
                self.tokens@ == toks,
                self.input == old(self).input,
                self.tokens == old(self).tokens,
                pos0 <= self.position as int,
                pos0 == old(self).spec_pos(),
                id0 == old(self).spec_next_id(),
                spec_parse(s, toks, pos0, id0, Seq::empty()) == spec_parse(
                    s,
                    toks,
                    self.position as int,
                    self.next_id as int,
                    nodes@.map_values(|n: Node| n@),
                ),
            decreases toks.len() - self.position,
        {
            let ghost posc = self.position as int;
            let ghost idc = self.next_id as int;
            let ghost accv = nodes@.map_values(|n: Node| n@);
            if self.current_token().is_none() {
                proof {
                    assert(spec_parse(s, toks, posc, idc, accv) == Ok::<Seq<SpecNode>, Seq<char>>(
                        accv,
                    ));
                }
                return Ok(nodes);
            }
            match self.parse_element() {
                Ok(e) => {
                    nodes.push(Node::Element(e));
                    proof {
                        assert(nodes@.map_values(|n: Node| n@) =~= accv.push(
                            SpecNode::Element(spec_parse_element(s, toks, posc, idc)->Ok_0.0),
                        ));
                        assert(spec_parse(s, toks, posc, idc, accv) == spec_parse(
                            s,
                            toks,
                            self.position as int,
                            self.next_id as int,
                            nodes@.map_values(|n: Node| n@),
                        ));
                    }
                },
                Err(m) => {
                    proof {
                        assert(spec_parse(s, toks, posc, idc, accv) == Err::<
                            Seq<SpecNode>,
                            Seq<char>,
                        >(m@));
                    }
                    return Err(m);
                },
            }
        }
    }
}

/// Scans `text` for `{...}` variable references, as `spec_extract_refs`
/// describes.
fn extract_variable_refs(text: &[char]) -> (r: Vec<VariableRef>)
    ensures
        r@.map_values(|v: VariableRef| v@) == spec_extract_refs(text@, 0, Seq::empty()),
{
    let mut refs: Vec<VariableRef> = Vec::new();
    proof {
        assert(refs@.map_values(|v: VariableRef| v@) =~= Seq::<SpecVariableRef>::empty());
    }
    let mut cur: usize = 0;
    loop
        invariant
            cur <= text@.len(),
            spec_extract_refs(text@, 0, Seq::empty()) == spec_extract_refs(
                text@,
                cur as int,
                refs@.map_values(|v: VariableRef| v@),
            ),
        decreases text@.len() - cur,
    {
        let ghost accv = refs@.map_values(|v: VariableRef| v@);
        let open = crate::text::find_char(text, cur, '{');
        proof {
            crate::text::lemma_scan_to_char(text@, cur as int, '{');
        }
        if open == text.len() {
            return refs;
        }
        let close = crate::text::find_char(text, open + 1, '}');
        proof {
            crate::text::lemma_scan_to_char(text@, open as int + 1, '}');
        }
        if close == text.len() {
            return refs;
        }
        let ghost inner = text@.subrange(open as int + 1, close as int);
        let escaped = close > open + 1 && text[close - 1] == '\\';
        proof {
            assert(inner.len() == close - open - 1);
            if close > open + 1 {
                assert(inner.last() == text@[close - 1]);
            }
            assert(escaped == (inner.len() > 0 && inner.last() == '\\'));
        }
        if !escaped {
            let full = crate::text::span_to_vec(text, open, close + 1);
            let inner_v = crate::text::span_to_vec(text, open + 1, close);
            let ci = crate::text::find_char(inner_v.as_slice(), 0, ':');
            proof {
                crate::text::lemma_scan_to_char(inner_v@, 0, ':');
            }
            let prefix = if ci < inner_v.len() {
                crate::text::span_to_vec(inner_v.as_slice(), 0, ci)
            } else {
                Vec::new()
            };
            let kind = attr::VariableType::from(prefix.as_slice());
            proof {
                assert(kind == spec_ref_kind(inner));
            }
            refs.push(VariableRef { full_match: full, start: open, end: close + 1, kind });
            proof {
                assert(refs@.map_values(|v: VariableRef| v@) =~= accv.push(
                    SpecVariableRef {
                        full_match: text@.subrange(open as int, close as int + 1),
                        start: open as int,
                        end: close as int + 1,
                        kind: spec_ref_kind(inner),
                    },
                ));
            }
        }
        proof {
            assert(spec_extract_refs(text@, cur as int, accv) == spec_extract_refs(
                text@,
                close as int + 1,
                refs@.map_values(|v: VariableRef| v@),
            ));
        }
        cur = close + 1;
    }
}

/// Renders a diagnostic of the shape `{prefix}{line}{mid}{col}`.
fn msg_positioned(prefix: &str, line: usize, mid: &str, col: usize) -> (r: Vec<char>)
    ensures
        r@ == spec_msg_pos(prefix@, line as int, mid@, col as int),
{
    let mut m: Vec<char> = Vec::new();
    crate::text::push_str_chars(&mut m, prefix);
    let d1 = crate::text::u64_to_chars(line as u64);
    crate::text::append_chars(&mut m, d1.as_slice());
    crate::text::push_str_chars(&mut m, mid);
    let d2 = crate::text::u64_to_chars(col as u64);
    crate::text::append_chars(&mut m, d2.as_slice());
    proof {
        assert(m@ =~= spec_msg_pos(prefix@, line as int, mid@, col as int));
    }
    m
}

/// Renders the mismatched-closing-tag diagnostic.
fn msg_mismatched_tag(name: &[char], close: &[char]) -> (r: Vec<char>)
    ensures
        r@ == spec_mismatched_tag_msg(name@, close@),
{
    let mut m: Vec<char> = Vec::new();
    crate::text::push_str_chars(&mut m, "Mismatched closing tag: expected ");
    crate::text::append_chars(&mut m, name);
    crate::text::push_str_chars(&mut m, ", found ");
    crate::text::append_chars(&mut m, close);
    proof {
        assert(m@ =~= spec_mismatched_tag_msg(name@, close@));
    }
    m
}


/// The ids of a tree in construction order: children before their parent,
/// text nodes contributing nothing.
pub open spec fn spec_node_ids(n: SpecNode) -> Seq<int>
    decreases n, 1int,
{
    match n {
        SpecNode::Text(_) => Seq::empty(),
        SpecNode::Element(e) => spec_nodes_ids(e.children) + seq![e.id as int],
    }
}

/// The ids of a node list in construction order.
pub open spec fn spec_nodes_ids(ns: Seq<SpecNode>) -> Seq<int>
    decreases ns, 0int,
{
    if ns.len() == 0 {
        Seq::empty()
    } else {
        spec_node_ids(ns[0]) + spec_nodes_ids(ns.subrange(1, ns.len() as int))
    }
}

/// The consecutive run `a, a+1, ..., b-1`.
pub open spec fn id_run(a: int, b: int) -> Seq<int> {
    Seq::new(if a <= b { (b - a) as nat } else { 0 }, |k: int| a + k)
}

/// Appending a node appends its ids.
pub proof fn lemma_nodes_ids_push(ns: Seq<SpecNode>, n: SpecNode)
    ensures
        spec_nodes_ids(ns.push(n)) == spec_nodes_ids(ns) + spec_node_ids(n),
    decreases ns.len(),
{
    if ns.len() == 0 {
        assert(ns.push(n)[0] == n);
        assert(ns.push(n).subrange(1, ns.push(n).len() as int) =~= Seq::<SpecNode>::empty());
        assert(spec_nodes_ids(Seq::<SpecNode>::empty()) =~= Seq::<int>::empty());
        assert(ns =~= Seq::<SpecNode>::empty());
        assert(spec_nodes_ids(ns.push(n)) =~= spec_nodes_ids(ns) + spec_node_ids(n));
    } else {
        assert(ns.push(n).subrange(1, ns.push(n).len() as int) =~= ns.subrange(
            1,
            ns.len() as int,
        ).push(n));
        lemma_nodes_ids_push(ns.subrange(1, ns.len() as int), n);
        assert(spec_nodes_ids(ns.push(n)) =~= spec_nodes_ids(ns) + spec_node_ids(n));
    }
}

/// The element read at `pos` carries exactly the ids `id .. id2` (its result
/// counter), consecutively, in construction order. Ids are therefore unique
/// within the parse and strictly increasing as elements are built.
pub proof fn lemma_element_ids_consecutive(s: Seq<char>, toks: Seq<Token>, pos: int, id: int)
    requires
        0 <= pos <= toks.len(),
        0 <= id,
        id + (toks.len() - pos) <= u64::MAX,
    ensures
        match spec_parse_element(s, toks, pos, id) {
            Ok((e, p, id2)) => pos + 3 <= p <= toks.len() && id < id2 <= id + (p - pos)
                && spec_node_ids(SpecNode::Element(e)) == id_run(id, id2),
            Err(_) => true,
        },
    decreases toks.len() - pos, 1int,
{
    if pos < toks.len() && toks[pos].kind is TagStart && pos + 1 < toks.len() {
        match toks[pos + 1].kind {
            TokenKind::TagName(nsp) => {
                let name = span_text(s, nsp);
                match spec_parse_attributes(s, toks, pos + 2, Seq::empty()) {
                    Err(_) => {},
                    Ok((attrs, p)) => {
                        lemma_attributes_advance(s, toks, pos + 2, Seq::empty());
                        if p < toks.len() && toks[p].kind is TagSelfClose {
                            let e = spec_element(name, attrs, Seq::empty(), id as u64);
                            assert(e.id as int == id);
                            assert(spec_nodes_ids(Seq::<SpecNode>::empty()) =~= Seq::<
                                int,
                            >::empty());
                            assert(spec_nodes_ids(e.children) =~= Seq::<int>::empty());
                            assert(spec_node_ids(SpecNode::Element(e)) =~= id_run(id, id + 1));
                        } else if p < toks.len() && toks[p].kind is TagEnd {
                            lemma_children_ids_consecutive(s, toks, p + 1, id, Seq::empty());
                            assert(spec_nodes_ids(Seq::<SpecNode>::empty()) =~= Seq::<
                                int,
                            >::empty());
                            match spec_parse_children(s, toks, p + 1, id, Seq::empty()) {
                                Err(_) => {},
                                Ok((children, q, id2)) => {
                                    if q + 2 < toks.len() && toks[q].kind is TagClose {
                                        match toks[q + 1].kind {
                                            TokenKind::TagName(csp) => {
                                                if span_text(s, csp) == name && toks[q + 2].kind
                                                    is TagEnd {
                                                    let e = spec_element(
                                                        name,
                                                        attrs,
                                                        children,
                                                        id2 as u64,
                                                    );
                                                    assert(e.id as int == id2);
                                                    assert(spec_nodes_ids(e.children)
                                                        =~= Seq::<int>::empty() + id_run(
                                                        id,
                                                        id2,
                                                    ));
                                                    assert(spec_nodes_ids(e.children) =~= id_run(
                                                        id,
                                                        id2,
                                                    ));
                                                    assert(spec_node_ids(SpecNode::Element(e))
                                                        =~= id_run(id, id2 + 1));
                                                }
                                            },
                                            _ => {},
                                        }
                                    }
                                },
                            }
                        }
                    },
                }
            },
            _ => {},
        }
    }
}

/// The children read at `pos` from counter `id` extend the accumulator's ids
/// by exactly the run `id .. id2`.
pub proof fn lemma_children_ids_consecutive(
    s: Seq<char>,
    toks: Seq<Token>,
    pos: int,
    id: int,
    acc: Seq<SpecNode>,
)
    requires
        0 <= pos <= toks.len(),
        0 <= id,
        id + (toks.len() - pos) <= u64::MAX,
    ensures
        match spec_parse_children(s, toks, pos, id, acc) {
            Ok((ns, q, id2)) => pos <= q <= toks.len() && id <= id2 <= id + (q - pos)
                && spec_nodes_ids(ns) == spec_nodes_ids(acc) + id_run(id, id2),
            Err(_) => true,
        },
    decreases toks.len() - pos, 2int,
{
    if pos >= toks.len() {
        assert(spec_nodes_ids(acc) + id_run(id, id) =~= spec_nodes_ids(acc));
    } else {
        let t = toks[pos];
        match t.kind {
            TokenKind::TagStart => {
                if pos + 1 < toks.len() && toks[pos + 1].kind is TagClose {
                    assert(spec_nodes_ids(acc) + id_run(id, id) =~= spec_nodes_ids(acc));
                } else {
                    lemma_element_ids_consecutive(s, toks, pos, id);
                    match spec_parse_element(s, toks, pos, id) {
                        Ok((e, p, idm)) => {
                            let p2 = if pos < p <= toks.len() {
                                p
                            } else {
                                pos + 1
                            };
                            let acc2 = acc.push(SpecNode::Element(e));
                            lemma_nodes_ids_push(acc, SpecNode::Element(e));
                            lemma_children_ids_consecutive(s, toks, p2, idm, acc2);
                            match spec_parse_children(s, toks, p2, idm, acc2) {
                                Ok((ns, q, id2)) => {
                                    assert(spec_nodes_ids(acc2) + id_run(idm, id2)
                                        =~= spec_nodes_ids(acc) + (id_run(id, idm) + id_run(
                                        idm,
                                        id2,
                                    )));
                                    assert(id_run(id, idm) + id_run(idm, id2) =~= id_run(id, id2));
                                    assert(spec_nodes_ids(ns) =~= spec_nodes_ids(acc) + id_run(
                                        id,
                                        id2,
                                    ));
                                },
                                Err(_) => {},
                            }
                        },
                        Err(_) => {},
                    }
                }
            },
            TokenKind::Text(sp) => {
                let content = span_text(s, sp);
                let node = SpecNode::Text(
                    SpecTextElement {
                        content,
                        variable_refs: spec_extract_refs(content, 0, Seq::empty()),
                    },
                );
                lemma_nodes_ids_push(acc, node);
                lemma_children_ids_consecutive(s, toks, pos + 1, id, acc.push(node));
                match spec_parse_children(s, toks, pos + 1, id, acc.push(node)) {
                    Ok((ns, q, id2)) => {
                        assert(spec_nodes_ids(acc.push(node)) =~= spec_nodes_ids(acc));
                    },
                    Err(_) => {},
                }
            },
            TokenKind::Variable(sp) => {
                let inner = span_text(s, sp);
                let content = seq!['{'] + inner + seq!['}'];
                let node = SpecNode::Text(
                    SpecTextElement {
                        content,
                        variable_refs: seq![
                            SpecVariableRef {
                                full_match: content,
                                start: 0,
                                end: content.len() as int,
                                kind: spec_ref_kind(inner),
                            }
                        ],
                    },
                );
                lemma_nodes_ids_push(acc, node);
                lemma_children_ids_consecutive(s, toks, pos + 1, id, acc.push(node));
                match spec_parse_children(s, toks, pos + 1, id, acc.push(node)) {
                    Ok((ns, q, id2)) => {
                        assert(spec_nodes_ids(acc.push(node)) =~= spec_nodes_ids(acc));
                    },
                    Err(_) => {},
                }
            },
            _ => {
                assert(spec_nodes_ids(acc) + id_run(id, id) =~= spec_nodes_ids(acc));
            },
        }
    }
}

} // verus!
