use greeter::text::{is_whitespace, to_chars, trim};

#[test]
fn trim_removes_whitespace_on_both_sides() {
    assert_eq!(trim("  Ada  "), "Ada");
}

#[test]
fn trim_removes_the_line_break() {
    assert_eq!(trim("Ada\n"), "Ada");
    assert_eq!(trim("Ada\r\n"), "Ada");
    assert_eq!(trim("\t Ada \r\n"), "Ada");
}

#[test]
fn trim_keeps_inner_whitespace() {
    assert_eq!(trim("  Ada   Lovelace \n"), "Ada   Lovelace");
}

#[test]
fn trim_accepts_an_empty_line() {
    assert_eq!(trim(""), "");
    assert_eq!(trim("\n"), "");
    assert_eq!(trim("   \t  \n"), "");
}

#[test]
fn trim_leaves_tight_text_alone() {
    assert_eq!(trim("Ada"), "Ada");
    assert_eq!(trim("x"), "x");
}

#[test]
fn trim_twice_is_trim_once() {
    let lines = vec!["  Ada  ", "", " \n", "a b", "\u{3000}x\u{a0}"];
    for line in lines {
        assert_eq!(trim(trim(line)), trim(line));
    }
}

#[test]
fn trim_handles_text_beyond_ascii() {
    assert_eq!(trim(" \u{2003}Zo\u{eb} 🦀\u{2028}\n"), "Zo\u{eb} 🦀");
    assert_eq!(trim("\u{feff}x"), "\u{feff}x");
    assert_eq!(trim("\u{200b}x\u{200b}"), "\u{200b}x\u{200b}");
}

#[test]
fn trim_agrees_with_the_standard_library() {
    let lines = vec![
        "",
        " ",
        "a",
        " a",
        "a ",
        " a ",
        "  a  b  ",
        "\n\n",
        "\u{85}a\u{1680}",
        "\u{180e}a\u{180e}",
        " 42\n",
        "\u{2000}\u{200a}x\u{202f}\u{205f}",
    ];
    for line in lines {
        assert_eq!(trim(line), line.trim());
    }
}

#[test]
fn whitespace_agrees_with_the_standard_library_on_every_character() {
    let mut code: u32 = 0;
    while code <= 0x10ffff {
        if let Some(c) = char::from_u32(code) {
            assert_eq!(is_whitespace(c), c.is_whitespace(), "U+{:04X}", code);
        }
        code += 1;
    }
}

#[test]
fn whitespace_on_chosen_characters() {
    assert!(is_whitespace(' '));
    assert!(is_whitespace('\n'));
    assert!(is_whitespace('\r'));
    assert!(is_whitespace('\t'));
    assert!(is_whitespace('\u{3000}'));
    assert!(!is_whitespace('a'));
    assert!(!is_whitespace('0'));
    assert!(!is_whitespace('\u{200b}'));
    assert!(!is_whitespace('\u{0}'));
}

#[test]
fn to_chars_gives_the_characters_in_order() {
    assert_eq!(to_chars("a🦀b"), vec!['a', '🦀', 'b']);
    assert_eq!(to_chars(""), Vec::<char>::new());
}
