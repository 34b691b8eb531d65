//! Tests of the typed style-value parsers.

use fml::num::Decimal;
use fml::theme::color::{parse_color, Color};
use fml::theme::parser::StyleProperty;
use fml::theme::value::{
    parse_box_shadow, parse_display, parse_font_weight, parse_gap, parse_i32, parse_number,
    parse_pct, parse_px, parse_px_pct, parse_pxpctauto, parse_transition, BoxShadow, Display,
    FontWeight, PxPct, PxPctAuto, StyleProps,
};

fn chars(s: &str) -> Vec<char> {
    s.chars().collect()
}

fn text_of(v: &[char]) -> String {
    v.iter().collect()
}

fn dec(neg: bool, mantissa: u64, scale: u32) -> Decimal {
    Decimal { neg, mantissa, scale }
}

#[test]
fn pixel_literals() {
    assert_eq!(parse_px(&chars("10px")).unwrap().0, dec(false, 10, 0));
    assert_eq!(parse_px(&chars("2.5px")).unwrap().0, dec(false, 25, 1));
    assert_eq!(parse_px(&chars("-1px")).unwrap().0, dec(true, 1, 0));
    let e = parse_px(&chars("10")).unwrap_err();
    assert_eq!(text_of(&e.error), "Cannot convert to Px");
    assert_eq!(text_of(&e.value), "10");
    assert!(parse_px(&chars("xpx")).is_err());
}

#[test]
fn percent_literals() {
    assert_eq!(parse_pct(&chars("50%")).unwrap().0, dec(false, 50, 0));
    assert!(parse_pct(&chars("50px")).is_err());
}

#[test]
fn combined_lengths() {
    assert_eq!(parse_px_pct(&chars("4px")).unwrap(), PxPct::Px(dec(false, 4, 0)));
    assert_eq!(parse_px_pct(&chars("40%")).unwrap(), PxPct::Pct(dec(false, 40, 0)));
    let e = parse_px_pct(&chars("wide")).unwrap_err();
    assert_eq!(text_of(&e.error), "Cannot convert to PxPctAuto");
    assert_eq!(parse_pxpctauto(&chars("auto")).unwrap(), PxPctAuto::Auto);
    assert_eq!(
        parse_pxpctauto(&chars("4px")).unwrap(),
        PxPctAuto::Px(dec(false, 4, 0))
    );
}

#[test]
fn scalar_properties_are_written_as_pixels() {
    assert_eq!(parse_number(&chars("1.5px")).unwrap(), dec(false, 15, 1));
    assert!(parse_number(&chars("1.5")).is_err());
}

#[test]
fn z_index_is_a_signed_integer() {
    assert_eq!(parse_i32(&chars("-3")).unwrap(), -3);
    assert_eq!(parse_i32(&chars("12")).unwrap(), 12);
    assert!(parse_i32(&chars("1.5")).is_err());
}

#[test]
fn hex_colors() {
    assert_eq!(
        parse_color(&chars("#000")).unwrap(),
        Color { r: 0, g: 0, b: 0, a: 255 }
    );
    assert_eq!(
        parse_color(&chars("#ff8000")).unwrap(),
        Color { r: 0xff, g: 0x80, b: 0x00, a: 255 }
    );
    assert_eq!(
        parse_color(&chars("#ABC")).unwrap(),
        Color { r: 0xaa, g: 0xbb, b: 0xcc, a: 255 }
    );
    assert_eq!(
        parse_color(&chars("#11223344")).unwrap(),
        Color { r: 0x11, g: 0x22, b: 0x33, a: 0x44 }
    );
    assert!(parse_color(&chars("#12345")).is_err());
}

#[test]
fn named_colors_ignore_ascii_case() {
    let red = Color { r: 0xff, g: 0, b: 0, a: 255 };
    assert_eq!(parse_color(&chars("red")).unwrap(), red);
    assert_eq!(parse_color(&chars("RED")).unwrap(), red);
    assert_eq!(
        parse_color(&chars("transparent")).unwrap(),
        Color { r: 0, g: 0, b: 0, a: 0 }
    );
    let e = parse_color(&chars("nosuchcolor")).unwrap_err();
    assert_eq!(text_of(&e.error), "Invalid color value");
}

#[test]
fn functional_color_forms() {
    assert_eq!(
        parse_color(&chars("rgb(1, 2, 3)")).unwrap(),
        Color { r: 1, g: 2, b: 3, a: 255 }
    );
    assert_eq!(
        parse_color(&chars("rgba(0, 0, 0, 0.5)")).unwrap(),
        Color { r: 0, g: 0, b: 0, a: 127 }
    );
    assert_eq!(
        parse_color(&chars("rgba(0, 0, 0, 2)")).unwrap().a,
        255,
        "alpha clamps to one"
    );
    // a percentage channel is clamped to 100
    assert_eq!(parse_color(&chars("rgb(200%, 0, 0)")).unwrap().r, 100);
    assert_eq!(parse_color(&chars("rgb(50%, 0, 0)")).unwrap().r, 50);
    let e = parse_color(&chars("rgb(300, 0, 0)")).unwrap_err();
    assert_eq!(text_of(&e.error), "Invalid rgb value");
    let e = parse_color(&chars("hsl(10, 20, 30)")).unwrap_err();
    assert_eq!(text_of(&e.error), "hsl not supported");
    let e = parse_color(&chars("hwb(10, 20, 30)")).unwrap_err();
    assert_eq!(text_of(&e.error), "hwb not supported");
}

#[test]
fn box_shadow_color_position_is_order_insensitive() {
    let first = parse_box_shadow(&chars("2px 2px #000")).unwrap();
    let second = parse_box_shadow(&chars("#000 2px 2px")).unwrap();
    assert_eq!(first, second);
    assert_eq!(first.h_offset, PxPct::Px(dec(false, 2, 0)));
    assert_eq!(first.v_offset, PxPct::Px(dec(false, 2, 0)));
    assert_eq!(first.color, Color { r: 0, g: 0, b: 0, a: 255 });
    assert_eq!(first.blur_radius, PxPct::Px(dec(false, 0, 0)));
    assert_eq!(first.spread, PxPct::Px(dec(false, 0, 0)));
}

#[test]
fn box_shadow_arities() {
    assert_eq!(parse_box_shadow(&chars("none")).unwrap(), BoxShadow::default());
    let two = parse_box_shadow(&chars("1px 2px")).unwrap();
    assert_eq!(two.h_offset, PxPct::Px(dec(false, 1, 0)));
    assert_eq!(two.v_offset, PxPct::Px(dec(false, 2, 0)));
    let three = parse_box_shadow(&chars("1px 2px 3px")).unwrap();
    assert_eq!(three.blur_radius, PxPct::Px(dec(false, 3, 0)));
    let four = parse_box_shadow(&chars("1px 2px 3px 4px")).unwrap();
    assert_eq!(four.spread, PxPct::Px(dec(false, 4, 0)));
    let five = parse_box_shadow(&chars("1px 2px 3px 4px #fff")).unwrap();
    assert_eq!(five.color, Color { r: 255, g: 255, b: 255, a: 255 });
    let five_first = parse_box_shadow(&chars("#fff 1px 2px 3px 4px")).unwrap();
    assert_eq!(five, five_first);
    let e = parse_box_shadow(&chars("1px")).unwrap_err();
    assert_eq!(text_of(&e.error), "invalid box-shadow value");
}

#[test]
fn display_keywords() {
    assert_eq!(parse_display(&chars("block")).unwrap(), Display::Block);
    assert_eq!(parse_display(&chars("none")).unwrap(), Display::Hidden);
    let e = parse_display(&chars("inline")).unwrap_err();
    assert_eq!(text_of(&e.error), "Invalid display");
}

#[test]
fn font_weight_names_and_numbers() {
    assert_eq!(parse_font_weight(&chars("bold")).unwrap(), FontWeight(700));
    assert_eq!(parse_font_weight(&chars("100")).unwrap(), FontWeight(100));
    assert_eq!(parse_font_weight(&chars("thin")).unwrap(), FontWeight(100));
    // the diagnostic for a bad weight names the cursor family, as the key
    // table always did
    let e = parse_font_weight(&chars("950")).unwrap_err();
    assert_eq!(text_of(&e.error), "Invalid cursor style value");
}

#[test]
fn transitions_pair_key_and_duration() {
    let (key, t) = parse_transition(&chars("background-color 0.3s")).unwrap();
    assert_eq!(text_of(&key), "background-color");
    assert_eq!(t.seconds, dec(false, 3, 1));
    let e = parse_transition(&chars("color")).unwrap_err();
    assert_eq!(text_of(&e.error), "Missing transition duration");
    let e = parse_transition(&chars("color 3")).unwrap_err();
    assert_eq!(
        text_of(&e.error),
        "Duration must be given as seconds i.e. 1s or 0.1s"
    );
}

#[test]
fn gap_applies_to_both_axes() {
    let g = parse_gap(&chars("4px")).unwrap();
    assert_eq!(g.width, dec(false, 4, 0));
    assert_eq!(g.height, dec(false, 4, 0));
}

#[test]
fn property_key_table_dispatch() {
    let p = StyleProperty {
        key: chars("width"),
        value: chars("50%"),
    };
    match StyleProps::try_from(&p).unwrap() {
        StyleProps::Width(v) => assert_eq!(v, PxPctAuto::Pct(dec(false, 50, 0))),
        other => panic!("{other:?}"),
    }
    let p = StyleProperty {
        key: chars("color"),
        value: chars("#102030"),
    };
    match StyleProps::try_from(&p).unwrap() {
        StyleProps::Color(c) => {
            assert_eq!(c, Color { r: 0x10, g: 0x20, b: 0x30, a: 255 })
        },
        other => panic!("{other:?}"),
    }
    let p = StyleProperty {
        key: chars("font-family"),
        value: chars("serif"),
    };
    match StyleProps::try_from(&p).unwrap() {
        StyleProps::FontFamily(f) => assert_eq!(text_of(&f), "serif"),
        other => panic!("{other:?}"),
    }
    let p = StyleProperty {
        key: chars("shade"),
        value: chars("dark"),
    };
    let e = StyleProps::try_from(&p).unwrap_err();
    assert_eq!(text_of(&e.error), "Unknown style key");
    assert_eq!(text_of(&e.value), "shade");
}

#[test]
fn huge_integers_fall_back_to_decimals() {
    // one past i64::MAX no longer reads as an integer, but still reads as a
    // decimal number
    let v = fml::parser::attr::AttributeValue::new(&chars("9223372036854775808"), 1, 1).unwrap();
    match v {
        fml::parser::attr::AttributeValue::Float { value, .. } => {
            assert_eq!(value, dec(false, 9223372036854775808, 0))
        },
        other => panic!("{other:?}"),
    }
}
