use chat_feed::text::is_blank;

#[test]
fn empty_text_is_blank() {
    assert!(is_blank(""));
}

#[test]
fn spaces_and_line_ends_are_blank() {
    assert!(is_blank(" "));
    assert!(is_blank(" \t\r\n \u{0B}\u{0C}"));
}

#[test]
fn unicode_white_space_is_blank() {
    assert!(is_blank("\u{85}\u{A0}\u{1680}\u{2000}\u{200A}\u{2028}\u{2029}\u{202F}\u{205F}\u{3000}"));
}

#[test]
fn text_with_a_letter_is_not_blank() {
    assert!(!is_blank("a"));
    assert!(!is_blank("  a  "));
    assert!(!is_blank("\n{}\n"));
}

#[test]
fn zero_width_space_is_not_white_space() {
    assert!(!is_blank("\u{200B}"));
    assert!(!is_blank("\u{180E}"));
    assert!(!is_blank("\u{FEFF}"));
    assert!(!is_blank("\u{1F}"));
}

#[test]
fn white_space_is_what_unicode_says() {
    for code in 0..=0x10FFFFu32 {
        if let Some(c) = char::from_u32(code) {
            let listed = matches!(
                code,
                0x09..=0x0D
                    | 0x20
                    | 0x85
                    | 0xA0
                    | 0x1680
                    | 0x2000..=0x200A
                    | 0x2028
                    | 0x2029
                    | 0x202F
                    | 0x205F
                    | 0x3000
            );
            let mut text = String::new();
            text.push(c);
            assert_eq!(is_blank(&text), listed, "U+{:04X}", code);
        }
    }
}

#[test]
fn blank_at_the_ends_does_not_make_blank() {
    assert!(!is_blank(" \u{3000}x\n"));
    assert!(!is_blank("x\n"));
    assert!(!is_blank("\tx"));
    assert!(is_blank("\t\u{2003}\n"));
}
