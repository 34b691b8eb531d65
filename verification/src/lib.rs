//! Parsers for two small user-interface description languages: a tag-based
//! markup format describing a tree of elements, text and inline variable
//! references, and a CSS-like style format describing class-scoped visual
//! properties with pseudo-state selectors and root-level substitution
//! variables.
//!
//! The markup pipeline is `Lexer` (source text to positioned tokens) followed
//! by `Parser` (tokens to an `Node` tree). The style pipeline is
//! `StyleParser::blocks` (style text to `StyleBlock` values) together with the
//! typed value parsers in `theme::value`.
//!
//! Source text is handled as a sequence of Unicode scalar values
//! (`Vec<char>`); tokens address the source by spans, and the syntax trees
//! carry owned copies of the text they name.

pub mod lexer;
pub mod parser;
pub mod num;
pub mod observer;
pub mod theme;
pub mod text;

use vstd::prelude::*;

use crate::parser::element::Node;
use crate::parser::element::SpecNode;

verus! {

/// The outcome of parsing a complete markup document: the tokens of the
/// source with comments dropped are parsed from a fresh id counter, and the
/// first top-level element is the document's root. A document with no
/// top-level element at all is an error.
pub open spec fn spec_markup(s: Seq<char>) -> Result<SpecNode, Seq<char>> {
    let toks = crate::parser::spec_retained_tokens(crate::lexer::spec_tokens(s));
    match crate::parser::spec_parse(s, toks, 0, 0, Seq::empty()) {
        Ok(nodes) => if nodes.len() > 0 {
            Ok(nodes[0])
        } else {
            Err("No root tag found!"@)
        },
        Err(m) => Err(m),
    }
}

/// Parses a markup document: lexes, parses, and returns the first top-level
/// element. Extra top-level elements are tolerated (the first is returned);
/// a document with none is an error, as is any structural fault, reported
/// with the position of the offending token. The returned node is always an
/// element.
pub fn parse(source: &str) -> (r: Result<Node, Vec<char>>)
    requires
        source@.len() < usize::MAX,
    ensures
        match r {
            Ok(node) => spec_markup(source@) == Ok::<SpecNode, Seq<char>>(node@) && node@
                is Element,
            Err(m) => spec_markup(source@) == Err::<SpecNode, Seq<char>>(m@),
        },
{
    let chars = crate::text::str_to_chars(source);
    let mut lexer = crate::lexer::Lexer::new(chars.as_slice());
    let tokens = lexer.lex();
    proof {
        crate::parser::lemma_spec_lex_wf(source@, 0, false);
    }
    let mut parser = crate::parser::Parser::new(chars.as_slice(), tokens);
    let ghost toks = crate::parser::spec_retained_tokens(crate::lexer::spec_tokens(source@));
    let mut nodes = match parser.parse() {
        Ok(nodes) => nodes,
        Err(m) => {
            return Err(m);
        },
    };
    proof {
        crate::parser::lemma_parse_all_elements(source@, toks, 0, 0, Seq::empty());
    }
    if nodes.len() == 0 {
        return Err(crate::text::str_to_chars("No root tag found!"));
    }
    let first = nodes.remove(0);
    proof {
        assert(nodes@.insert(0, first) =~= seq![first].add(nodes@));
    }
    Ok(first)
}

/// Parsing is a pure function of the source text: two parses of the same
/// source, each from a fresh element-id counter, have the same outcome.
pub proof fn lemma_parse_deterministic(
    s: Seq<char>,
    r1: Result<SpecNode, Seq<char>>,
    r2: Result<SpecNode, Seq<char>>,
)
    requires
        r1 == spec_markup(s),
        r2 == spec_markup(s),
    ensures
        r1 == r2,
{
}

} // verus!
