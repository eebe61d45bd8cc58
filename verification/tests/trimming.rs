use gherkin_outline::trim;

#[test]
fn trim_takes_white_space_from_both_ends() {
    assert_eq!(trim("  a b \t"), "a b");
    assert_eq!(trim("\n\tword\r\n"), "word");
    assert_eq!(trim("x  "), "x");
    assert_eq!(trim("  x"), "x");
}

#[test]
fn trim_leaves_tight_text_alone() {
    assert_eq!(trim("a  b"), "a  b");
    assert_eq!(trim("x"), "x");
}

#[test]
fn trim_of_nothing_but_white_space_is_empty() {
    assert_eq!(trim(""), "");
    assert_eq!(trim(" "), "");
    assert_eq!(trim(" \t \u{a0}\u{3000}"), "");
}

#[test]
fn trim_knows_unicode_white_space() {
    assert_eq!(trim("\u{2003}é – ü\u{2028}"), "é – ü");
    assert_eq!(trim("\u{a0}日本語\u{1680}"), "日本語");
    assert_eq!(trim("\u{200b}x\u{200b}"), "\u{200b}x\u{200b}");
}

#[test]
fn trim_agrees_with_the_standard_library() {
    let samples = [
        "",
        " ",
        "a",
        " a",
        "a ",
        "  I have a login  ",
        "\t\ttabs\t",
        "\u{85}next line\u{85}",
        "é",
        " é ",
        "日本 語 ",
        "\u{feff}bom ",
        "a\u{2009}b\u{2009}",
        "\u{1f600} \u{1f600} ",
    ];
    for s in samples {
        assert_eq!(trim(s), s.trim(), "{:?}", s);
    }
}

#[test]
fn trim_hands_back_a_slice_of_its_argument() {
    let s = String::from("  inner  ");
    let t = trim(&s);
    let offset = t.as_ptr() as usize - s.as_ptr() as usize;
    assert_eq!(offset, 2);
    assert_eq!(t.len(), 5);
}

fn listed(c: char) -> bool {
    matches!(
        c as u32,
        0x0009..=0x000D
            | 0x0020
            | 0x0085
            | 0x00A0
            | 0x1680
            | 0x2000..=0x200A
            | 0x2028
            | 0x2029
            | 0x202F
            | 0x205F
            | 0x3000
    )
}

#[test]
fn white_space_is_the_listed_set_for_every_character() {
    let mut text = String::new();
    let mut count = 0;
    for n in 0..=0x10FFFF_u32 {
        if let Some(c) = char::from_u32(n) {
            text.clear();
            text.push(c);
            assert_eq!(trim(&text).is_empty(), listed(c), "U+{:04X}", n);
            assert_eq!(c.is_whitespace(), listed(c), "U+{:04X}", n);
            if listed(c) {
                count += 1;
            }
        }
    }
    assert_eq!(count, 25);
}
