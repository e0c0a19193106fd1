use std::sync::Arc;
use termcell::{
    grapheme_column_width, unicode_column_width, AttributeChange, Blink, Cell, CellAttributes,
    ColorAttribute, Hyperlink, ImageCell, Intensity, Presentation, RgbColor, SemanticType,
    TeenyString, Underline, UnicodeVersion,
};

fn red() -> ColorAttribute {
    ColorAttribute::TrueColor(RgbColor {
        red: 255,
        green: 0,
        blue: 0,
    })
}

#[test]
fn round_trip_inline_and_heap() {
    // Shorter than a machine word: stored inline, text returned verbatim.
    let short = TeenyString::from_str("e\u{301}", None);
    assert!(short.is_inline());
    assert_eq!(short.str(), "e\u{301}");

    // At or above the word size: stored on the heap, same equality.
    let long = "\u{1F469}\u{1F3FF}\u{200D}\u{1F91D}\u{200D}\u{1F469}\u{1F3FC}";
    let stored = TeenyString::from_str(long, None);
    assert!(!stored.is_inline());
    assert_eq!(stored.str(), long);

    // Equality is byte-content equality regardless of representation.
    assert_eq!(stored, TeenyString::from_str(long, Some(2)));
    assert_ne!(stored, TeenyString::space());
}

#[test]
fn neutralization_of_control_bytes() {
    for b in 0u8..0x20 {
        let s = (b as char).to_string();
        let stored = TeenyString::from_str(&s, None);
        assert_eq!(stored.str(), " ");
        assert_eq!(stored.width(), 1);
    }
    let del = "\u{7f}";
    let stored = TeenyString::from_str(del, None);
    assert_eq!(stored.str(), " ");
    assert_eq!(stored.width(), 1);

    for s in &["", "\r\n"] {
        let stored = TeenyString::from_str(s, None);
        assert_eq!(stored.str(), " ");
        assert_eq!(stored.width(), 1);
    }

    // A two-character string that merely contains a control byte is kept.
    let kept = TeenyString::from_str("a\u{7}", None);
    assert_eq!(kept.str(), "a\u{7}");
}

#[test]
fn width_monotonicity_between_tables() {
    // A pictograph the Unicode 9 tables widened.
    let foot = "\u{1f9b6}";
    let w8 = grapheme_column_width(foot, Some(UnicodeVersion(8)));
    let w9 = grapheme_column_width(foot, Some(UnicodeVersion(9)));
    assert!(w8 < w9);
    assert_eq!(w8, 1);
    assert_eq!(w9, 2);
}

#[test]
fn presentation_selector_overrides_width() {
    // An explicit text selector forces one column, an explicit emoji
    // selector two, and a default-emoji character is two without one.
    assert_eq!(unicode_column_width("\u{270c}\u{fe0e}", None), 1);
    assert_eq!(unicode_column_width("\u{270c}\u{fe0f}", None), 2);
    assert_eq!(unicode_column_width("\u{270a}", None), 2);
    // Below version 14 the selector has no effect.
    assert_eq!(
        unicode_column_width("\u{270c}\u{fe0f}", Some(UnicodeVersion(13))),
        1
    );
}

#[test]
fn empty_string_has_no_width() {
    assert_eq!(unicode_column_width("", None), 0);
}

#[test]
fn overflow_allocation_round_trip() {
    let link = Arc::new(Hyperlink::new(String::from("https://example.com/")));

    let mut plain = CellAttributes::blank();
    plain.set_intensity(Intensity::Bold);

    let mut attrs = plain.clone();
    attrs.set_hyperlink(Some(Arc::clone(&link)));
    assert!(attrs.hyperlink().is_some());
    assert_ne!(attrs, plain);

    // Clearing the hyperlink deallocates the overflow block and returns
    // the record bit-for-bit to its pre-hyperlink state.
    attrs.set_hyperlink(None);
    assert!(attrs.hyperlink().is_none());
    assert_eq!(attrs, plain);

    // The same discipline holds for the other overflow-only fields.
    let mut attrs = CellAttributes::blank();
    attrs.set_underline_color(red());
    assert_ne!(attrs, CellAttributes::blank());
    attrs.set_underline_color(ColorAttribute::Default);
    assert_eq!(attrs, CellAttributes::blank());

    let mut attrs = CellAttributes::blank();
    attrs.set_foreground(red());
    assert_eq!(attrs.foreground(), red());
    attrs.set_foreground(ColorAttribute::Default);
    assert_eq!(attrs, CellAttributes::blank());

    let mut attrs = CellAttributes::blank();
    attrs.set_image(Box::new(ImageCell::new(7, None, 0)));
    attrs.clear_images();
    assert_eq!(attrs, CellAttributes::blank());
}

#[test]
fn image_ordering_is_stable() {
    let mut attrs = CellAttributes::blank();
    attrs.attach_image(Box::new(ImageCell::new(1, Some(10), 5)));
    attrs.attach_image(Box::new(ImageCell::new(2, Some(20), 1)));
    attrs.attach_image(Box::new(ImageCell::new(3, Some(30), 5)));
    attrs.attach_image(Box::new(ImageCell::new(4, Some(40), 3)));

    let images = attrs.images().expect("images should be attached");
    let order: Vec<(u32, i32)> = images.iter().map(|im| (im.image_id(), im.z_index())).collect();
    assert_eq!(order, vec![(2, 1), (4, 3), (1, 5), (3, 5)]);
}

#[test]
fn detach_image_by_placement() {
    let mut attrs = CellAttributes::blank();
    attrs.attach_image(Box::new(ImageCell::new(1, Some(10), 0)));
    attrs.attach_image(Box::new(ImageCell::new(1, Some(11), 0)));
    attrs.attach_image(Box::new(ImageCell::new(2, Some(10), 0)));

    attrs.detach_image_with_placement(1, Some(10));
    let images = attrs.images().expect("two attachments should remain");
    assert_eq!(images.len(), 2);
    assert!(images.iter().all(|im| (im.image_id(), im.placement_id()) != (1, Some(10))));

    // Removing the rest deallocates the overflow block.
    attrs.detach_image_with_placement(1, Some(11));
    attrs.detach_image_with_placement(2, Some(10));
    assert!(attrs.images().is_none());
    assert_eq!(attrs, CellAttributes::blank());
}

#[test]
fn clone_sgr_only_drops_extras() {
    let link = Arc::new(Hyperlink::new(String::from("https://example.com/")));
    let mut attrs = CellAttributes::blank();
    attrs
        .set_intensity(Intensity::Bold)
        .set_underline(Underline::Curly)
        .set_italic(true)
        .set_semantic_type(SemanticType::Input)
        .set_foreground(red())
        .set_background(ColorAttribute::PaletteIndex(4))
        .set_hyperlink(Some(Arc::clone(&link)));
    attrs.attach_image(Box::new(ImageCell::new(1, None, 0)));

    let copy = attrs.clone_sgr_only();
    assert!(copy.hyperlink().is_none());
    assert!(copy.images().is_none());
    assert_eq!(copy.foreground(), red());
    assert_eq!(copy.background(), ColorAttribute::PaletteIndex(4));
    assert_eq!(copy.semantic_type(), SemanticType::Output);
    assert_eq!(copy.intensity(), Intensity::Bold);
    assert_eq!(copy.underline(), Underline::Curly);
    assert!(copy.italic());
}

#[test]
fn attribute_bits_equal_ignores_overflow() {
    let link = Arc::new(Hyperlink::new(String::from("https://example.com/")));
    let mut a = CellAttributes::blank();
    let mut b = CellAttributes::blank();
    a.set_intensity(Intensity::Half).set_reverse(true);
    b.set_intensity(Intensity::Half).set_reverse(true);
    b.set_hyperlink(Some(Arc::clone(&link)));

    assert!(a.attribute_bits_equal(&b));
    assert_ne!(a, b);

    b.set_reverse(false);
    assert!(!a.attribute_bits_equal(&b));
}

#[test]
fn bitfield_setters_are_independent() {
    let mut attrs = CellAttributes::blank();
    attrs
        .set_intensity(Intensity::Half)
        .set_underline(Underline::Dashed)
        .set_blink(Blink::Rapid)
        .set_italic(true)
        .set_reverse(true)
        .set_strikethrough(true)
        .set_invisible(true)
        .set_wrapped(true)
        .set_overline(true)
        .set_semantic_type(SemanticType::Prompt);

    assert_eq!(attrs.intensity(), Intensity::Half);
    assert_eq!(attrs.underline(), Underline::Dashed);
    assert_eq!(attrs.blink(), Blink::Rapid);
    assert!(attrs.italic());
    assert!(attrs.reverse());
    assert!(attrs.strikethrough());
    assert!(attrs.invisible());
    assert!(attrs.wrapped());
    assert!(attrs.overline());
    assert_eq!(attrs.semantic_type(), SemanticType::Prompt);

    attrs.set_underline(Underline::NoUnderline);
    assert_eq!(attrs.underline(), Underline::NoUnderline);
    assert_eq!(attrs.intensity(), Intensity::Half);
    assert_eq!(attrs.blink(), Blink::Rapid);
    assert!(attrs.italic());
}

#[test]
fn extended_colors_survive_inline_reset() {
    let mut attrs = CellAttributes::blank();
    attrs.set_foreground(ColorAttribute::PaletteIndex(9));
    assert_eq!(attrs.foreground(), ColorAttribute::PaletteIndex(9));
    attrs.set_foreground(red());
    assert_eq!(attrs.foreground(), red());
    // Going back to a compact color clears the extended slot again.
    attrs.set_foreground(ColorAttribute::PaletteIndex(3));
    assert_eq!(attrs.foreground(), ColorAttribute::PaletteIndex(3));
    assert_eq!(attrs, {
        let mut fresh = CellAttributes::blank();
        fresh.set_foreground(ColorAttribute::PaletteIndex(3));
        fresh
    });
}

#[test]
fn cell_accessors() {
    let mut attrs = CellAttributes::blank();
    attrs.set_wrapped(true);
    let cell = Cell::new('a', attrs.clone());
    assert_eq!(cell.str(), "a");
    assert_eq!(cell.width(), 1);
    assert!(cell.attrs().wrapped());

    let mut cell = Cell::blank_with_attrs(attrs);
    assert_eq!(cell.str(), " ");
    cell.attrs_mut().set_wrapped(false);
    assert!(!cell.attrs().wrapped());

    assert_eq!(Cell::blank(), Cell::default());
    assert_eq!(Cell::blank().str(), " ");
    assert_eq!(Cell::blank().width(), 1);
}

#[test]
fn cell_presentation_class() {
    let text_hand = Cell::new_grapheme("\u{270c}\u{fe0e}", CellAttributes::blank());
    assert_eq!(text_hand.presentation(), Presentation::Text);
    let fist = Cell::new_grapheme("\u{270a}", CellAttributes::blank());
    assert_eq!(fist.presentation(), Presentation::Emoji);
    assert_eq!(Cell::blank().presentation(), Presentation::Text);
}

#[test]
fn hyperlink_keeps_uri() {
    let link = Hyperlink::new(String::from("https://example.com/a"));
    assert_eq!(link.uri(), "https://example.com/a");
    assert_eq!(link, Hyperlink::new(String::from("https://example.com/a")));
    assert_ne!(link, Hyperlink::new(String::from("https://example.com/b")));
}

#[test]
fn attribute_change_variants_carry_values() {
    let change = AttributeChange::Intensity(Intensity::Bold);
    assert_eq!(change, AttributeChange::Intensity(Intensity::Bold));
    assert_ne!(change, AttributeChange::Italic(true));
    let link: Option<Arc<Hyperlink>> = None;
    assert_eq!(
        AttributeChange::Hyperlink(link.clone()),
        AttributeChange::Hyperlink(None)
    );
    assert_eq!(
        AttributeChange::Foreground(red()),
        AttributeChange::Foreground(red())
    );
}
