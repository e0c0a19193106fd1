use termcell::{
    unicode_column_width, Cell, CellAttributes, ColorAttribute, Presentation, RgbColor,
    TeenyString, UnicodeVersion,
};
use unicode_segmentation::UnicodeSegmentation;

#[test]
fn teeny_string() {
    let s = TeenyString::from_char('a');
    assert_eq!(s.as_bytes(), &[b'a']);

    let longer = TeenyString::from_str("hellothere", None);
    assert_eq!(longer.as_bytes(), b"hellothere");

    assert_eq!(
        TeenyString::from_char(' ').as_bytes(),
        TeenyString::space().as_bytes()
    );
}

#[test]
fn memory_usage() {
    // The documented memory budget on a 64-bit target: the attribute
    // record is two machine words, the grapheme storage four, a cell
    // six.
    assert_eq!(std::mem::size_of::<RgbColor>(), 3);
    assert_eq!(std::mem::size_of::<ColorAttribute>(), 4);
    assert_eq!(std::mem::size_of::<CellAttributes>(), 16);
    assert_eq!(std::mem::size_of::<Cell>(), 48);
    assert_eq!(std::mem::size_of::<Vec<u8>>(), 24);
    assert_eq!(std::mem::size_of::<char>(), 4);
    assert_eq!(std::mem::size_of::<TeenyString>(), 32);
}

#[test]
fn nerf_special() {
    for c in " \n\r\t".chars() {
        let cell = Cell::new(c, CellAttributes::default());
        assert_eq!(cell.str(), " ");
    }

    for g in &["", " ", "\n", "\r", "\t", "\r\n"] {
        let cell = Cell::new_grapheme(g, CellAttributes::default());
        assert_eq!(cell.str(), " ");
    }
}

#[test]
fn test_width() {
    let foot = "\u{1f9b6}";
    println!("foot chars");
    for c in foot.chars() {
        println!("char: {:?}", c);
    }
    assert_eq!(unicode_column_width(foot, None), 2, "{} should be 2", foot);

    let women_holding_hands_dark_skin_tone_medium_light_skin_tone =
        "\u{1F469}\u{1F3FF}\u{200D}\u{1F91D}\u{200D}\u{1F469}\u{1F3FC}";

    // Ensure that we can hold this longer grapheme sequence in the cell
    // and correctly return its string contents!
    let cell = Cell::new_grapheme(
        women_holding_hands_dark_skin_tone_medium_light_skin_tone,
        CellAttributes::default(),
    );
    assert_eq!(
        cell.str(),
        women_holding_hands_dark_skin_tone_medium_light_skin_tone
    );
    assert_eq!(
        cell.width(),
        2,
        "width of {} should be 2",
        women_holding_hands_dark_skin_tone_medium_light_skin_tone
    );

    let deaf_man = "\u{1F9CF}\u{200D}\u{2642}\u{FE0F}";
    println!("deaf_man chars");
    for c in deaf_man.chars() {
        println!("char: {:?}", c);
    }
    assert_eq!(unicode_column_width(deaf_man, None), 2);

    let man_dancing = "\u{1F57A}";
    assert_eq!(
        unicode_column_width(man_dancing, Some(UnicodeVersion(9))),
        2
    );
    assert_eq!(
        unicode_column_width(man_dancing, Some(UnicodeVersion(8))),
        1
    );

    // This is a codepoint in the private use area
    let font_awesome_star = "\u{f005}";
    println!("font_awesome_star {}", font_awesome_star.escape_debug());
    assert_eq!(unicode_column_width(font_awesome_star, None), 1);

    let england_flag = "\u{1f3f4}\u{e0067}\u{e0062}\u{e0065}\u{e006e}\u{e0067}\u{e007f}";
    assert_eq!(unicode_column_width(england_flag, None), 2);
}

#[test]
fn issue_1161() {
    let x_ideographic_space_x = "x\u{3000}x";
    assert_eq!(unicode_column_width(x_ideographic_space_x, None), 4);
    assert_eq!(
        x_ideographic_space_x.graphemes(true).collect::<Vec<_>>(),
        vec!["x".to_string(), "\u{3000}".to_string(), "x".to_string()],
    );

    let c = Cell::new_grapheme("\u{3000}", CellAttributes::blank());
    assert_eq!(c.width(), 2);
}

#[test]
fn issue_997() {
    let victory_hand = "\u{270c}";
    let victory_hand_text_presentation = "\u{270c}\u{fe0e}";

    assert_eq!(
        unicode_column_width(victory_hand_text_presentation, None),
        1
    );
    assert_eq!(unicode_column_width(victory_hand, None), 1);

    assert_eq!(
        victory_hand_text_presentation
            .graphemes(true)
            .collect::<Vec<_>>(),
        vec![victory_hand_text_presentation.to_string()]
    );
    assert_eq!(
        victory_hand.graphemes(true).collect::<Vec<_>>(),
        vec![victory_hand.to_string()]
    );

    let copyright_emoji_presentation = "\u{00A9}\u{FE0F}";
    assert_eq!(
        copyright_emoji_presentation
            .graphemes(true)
            .collect::<Vec<_>>(),
        vec![copyright_emoji_presentation.to_string()]
    );
    assert_eq!(unicode_column_width(copyright_emoji_presentation, None), 2);
    assert_eq!(
        unicode_column_width(copyright_emoji_presentation, Some(UnicodeVersion(9))),
        1
    );

    let copyright_text_presentation = "\u{00A9}";
    assert_eq!(
        copyright_text_presentation
            .graphemes(true)
            .collect::<Vec<_>>(),
        vec![copyright_text_presentation.to_string()]
    );
    assert_eq!(unicode_column_width(copyright_text_presentation, None), 1);

    let raised_fist = "\u{270a}";
    // Not valid to have explicit Text presentation for raised fist
    let raised_fist_text = "\u{270a}\u{fe0e}";
    assert_eq!(
        Presentation::for_grapheme(raised_fist),
        (Presentation::Emoji, None)
    );
    assert_eq!(unicode_column_width(raised_fist, None), 2);
    assert_eq!(
        Presentation::for_grapheme(raised_fist_text),
        (Presentation::Emoji, None)
    );
    assert_eq!(unicode_column_width(raised_fist_text, None), 2);

    assert_eq!(
        raised_fist_text.graphemes(true).collect::<Vec<_>>(),
        vec![raised_fist_text.to_string()]
    );
    assert_eq!(
        raised_fist.graphemes(true).collect::<Vec<_>>(),
        vec![raised_fist.to_string()]
    );
}
