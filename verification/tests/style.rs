//! Tests of the style block parser.

use fml::theme::parser::{ClassSelector, Selector, StyleParser, StyleProperty};
use fml::theme::ThemeOptions;
use fml::observer::SourceMap;

fn chars(s: &str) -> Vec<char> {
    s.chars().collect()
}

fn text_of(v: &[char]) -> String {
    v.iter().collect()
}

#[test]
fn class_with_pseudo_selector() {
    let src = chars(".btn:hover { color: red; }");
    let blocks = StyleParser::blocks(&src);
    assert_eq!(blocks.len(), 1);
    let b = &blocks[0];
    assert_eq!(b.selectors.len(), 1);
    assert_eq!(text_of(&b.selectors[0].class), "btn");
    assert_eq!(b.selectors[0].selector, Some(Selector::Hover));
    assert_eq!(b.props.len(), 1);
    assert_eq!(text_of(&b.props[0].key), "color");
    assert_eq!(text_of(&b.props[0].value), "red");
    assert_eq!(b.errors.len(), 0);
}

#[test]
fn root_variables_substitute_textually() {
    let src = chars(":root { --gap: 10px; } .a { gap: var(--gap); }");
    let blocks = StyleParser::blocks(&src);
    assert_eq!(blocks.len(), 1);
    let b = &blocks[0];
    assert_eq!(text_of(&b.selectors[0].class), "a");
    assert_eq!(b.props.len(), 1);
    assert_eq!(text_of(&b.props[0].key), "gap");
    assert_eq!(text_of(&b.props[0].value), "10px");
}

#[test]
fn malformed_property_keeps_its_siblings() {
    let src = chars(".a { color: red; badprop; gap: 4px; }");
    let blocks = StyleParser::blocks(&src);
    assert_eq!(blocks.len(), 1);
    let b = &blocks[0];
    assert_eq!(text_of(&b.selectors[0].class), "a");
    assert_eq!(b.props.len(), 2);
    assert_eq!(text_of(&b.props[0].key), "color");
    assert_eq!(text_of(&b.props[1].key), "gap");
    assert_eq!(b.errors.len(), 1);
    assert_eq!(text_of(&b.errors[0].error), "Expecting key value pair with :");
    assert_eq!(text_of(&b.errors[0].value), "badprop");
}

#[test]
fn comments_are_stripped() {
    let src = chars("/* heading */ .a { color: red; /* inline */ gap: 4px; }");
    let blocks = StyleParser::blocks(&src);
    assert_eq!(blocks.len(), 1);
    assert_eq!(blocks[0].props.len(), 2);
}

#[test]
fn selectors_are_sorted() {
    let src = chars(".z, .a, .z:hover, .z:active { color: red; }");
    let blocks = StyleParser::blocks(&src);
    assert_eq!(blocks.len(), 1);
    let classes: Vec<String> = blocks[0]
        .selectors
        .iter()
        .map(|s| text_of(&s.class))
        .collect();
    assert_eq!(classes, ["a", "z", "z", "z"]);
    assert_eq!(blocks[0].selectors[1].selector, None);
    assert_eq!(blocks[0].selectors[2].selector, Some(Selector::Active));
    assert_eq!(blocks[0].selectors[3].selector, Some(Selector::Hover));
}

#[test]
fn bad_chunks_are_dropped_not_fatal() {
    let src = chars("garbage } .a { color: red; }");
    let blocks = StyleParser::blocks(&src);
    assert_eq!(blocks.len(), 1);
    assert_eq!(text_of(&blocks[0].selectors[0].class), "a");
}

#[test]
fn unknown_pseudo_selector_drops_the_chunk() {
    let src = chars(".a:bogus { color: red; } .b { gap: 4px; }");
    let blocks = StyleParser::blocks(&src);
    assert_eq!(blocks.len(), 1);
    assert_eq!(text_of(&blocks[0].selectors[0].class), "b");
}

#[test]
fn selector_keyword_table() {
    assert_eq!(Selector::from_str(&chars("active")).unwrap(), Selector::Active);
    assert_eq!(Selector::from_str(&chars("focus")).unwrap(), Selector::Focus);
    assert_eq!(Selector::from_str(&chars("hover")).unwrap(), Selector::Hover);
    assert_eq!(
        Selector::from_str(&chars("disabled")).unwrap(),
        Selector::Disabled
    );
    let e = Selector::from_str(&chars("pressed")).unwrap_err();
    assert_eq!(text_of(&e.error), "unsupported selector");
    assert_eq!(text_of(&e.value), "pressed");
}

#[test]
fn class_selector_trims_and_strips_the_dot() {
    let c = ClassSelector::from_str(&chars("  .btn : hover ")).unwrap();
    assert_eq!(text_of(&c.class), "btn");
    assert_eq!(c.selector, Some(Selector::Hover));
    let plain = ClassSelector::from_str(&chars("body")).unwrap();
    assert_eq!(text_of(&plain.class), "body");
    assert_eq!(plain.selector, None);
    assert!(ClassSelector::from_str(&chars("   ")).is_err());
    assert!(ClassSelector::from_str(&chars(": hover")).is_err());
}

#[test]
fn property_needs_exactly_one_colon() {
    let p = StyleProperty::from_str(&chars(" color :  red ")).unwrap();
    assert_eq!(text_of(&p.key), "color");
    assert_eq!(text_of(&p.value), "red");
    assert!(StyleProperty::from_str(&chars("no colon")).is_err());
    assert!(StyleProperty::from_str(&chars("a:b:c")).is_err());
}

#[test]
fn multiple_blocks_in_order() {
    let src = chars(".a { gap: 1px; } .b { gap: 2px; }");
    let blocks = StyleParser::blocks(&src);
    assert_eq!(blocks.len(), 2);
    assert_eq!(text_of(&blocks[0].selectors[0].class), "a");
    assert_eq!(text_of(&blocks[1].selectors[0].class), "b");
}

#[test]
fn theme_options_builder() {
    let o = ThemeOptions::with_path(chars("themes"));
    assert!(o.overrides.is_none());
    let o = o.overrides(chars("extra"));
    assert_eq!(text_of(&o.overrides.unwrap()), "extra");
}

#[test]
fn source_map_insert_and_lookup() {
    let mut m = SourceMap::new(chars("<root/>"));
    assert!(m.component(&chars("card")).is_none());
    assert!(!m.insert_component(chars("card"), chars("<box/>")));
    assert_eq!(text_of(m.component(&chars("card")).unwrap()), "<box/>");
    // a second insert under the same name replaces the first
    assert!(m.insert_component(chars("card"), chars("<label/>")));
    assert_eq!(text_of(m.component(&chars("card")).unwrap()), "<label/>");
    assert_eq!(m.components.len(), 1);
}

#[test]
fn empty_sheet_has_no_blocks() {
    assert_eq!(StyleParser::blocks(&chars("")).len(), 0);
    assert_eq!(StyleParser::blocks(&chars("   \n  ")).len(), 0);
}

#[test]
fn sheet_without_root_block_is_fine() {
    let src = chars(".a { gap: var(--gap); }");
    let blocks = StyleParser::blocks(&src);
    assert_eq!(blocks.len(), 1);
    // with no root block the reference stays as written
    assert_eq!(text_of(&blocks[0].props[0].value), "var(--gap)");
}

#[test]
fn several_root_variables_substitute_in_order() {
    let src = chars(":root { --fg: #fff; --pad: 2px; } .a { color: var(--fg); padding: var(--pad); }");
    let blocks = StyleParser::blocks(&src);
    assert_eq!(blocks.len(), 1);
    assert_eq!(text_of(&blocks[0].props[0].value), "#fff");
    assert_eq!(text_of(&blocks[0].props[1].value), "2px");
}
