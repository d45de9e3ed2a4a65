use exo_markup::text::{
    char_is_white_space, chars_find, chars_occur_at, str_contains, str_eq, str_split,
    str_starts_with, str_trim, to_chars,
};

#[test]
fn to_chars_gives_each_character() {
    assert_eq!(to_chars("aé-"), vec!['a', 'é', '-']);
    assert_eq!(to_chars(""), Vec::<char>::new());
}

#[test]
fn occurrence_at_an_index() {
    let s = to_chars("abcabc");
    let p = to_chars("bc");
    assert!(chars_occur_at(&s, &p, 1));
    assert!(chars_occur_at(&s, &p, 4));
    assert!(!chars_occur_at(&s, &p, 0));
    assert!(!chars_occur_at(&s, &p, 5));
    assert!(!chars_occur_at(&s, &p, 100));
    assert!(chars_occur_at(&s, &to_chars(""), 6));
}

#[test]
fn find_gives_the_first_index_from_a_start() {
    let s = to_chars("abcabc");
    let p = to_chars("bc");
    assert_eq!(chars_find(&s, &p, 0), Some(1));
    assert_eq!(chars_find(&s, &p, 2), Some(4));
    assert_eq!(chars_find(&s, &p, 5), None);
    assert_eq!(chars_find(&s, &to_chars("abcabcd"), 0), None);
}

#[test]
fn contains_and_starts_with() {
    assert!(str_contains("Un Exercice", "Exercice"));
    assert!(!str_contains("Exercic", "Exercice"));
    assert!(str_contains("x", ""));
    assert!(str_starts_with("Indication 2", "Indication"));
    assert!(!str_starts_with(" Indication", "Indication"));
    assert!(!str_starts_with("Ind", "Indication"));
}

#[test]
fn equality_of_strings() {
    assert!(str_eq("ol", "ol"));
    assert!(!str_eq("ol", "ul"));
    assert!(!str_eq("ol", "olx"));
    assert!(str_eq("", ""));
}

#[test]
fn split_matches_the_standard_split() {
    for s in ["", "a", "-----", "a-----b", "-----a----------", "a------b", "----"] {
        let expected: Vec<String> = s.split("-----").map(|p| p.to_string()).collect();
        assert_eq!(str_split(s, "-----"), expected);
    }
}

#[test]
fn empty_separator_cuts_nothing() {
    assert_eq!(str_split("abc", ""), vec!["abc".to_string()]);
    assert_eq!(str_split("", ""), vec![String::new()]);
}

#[test]
fn white_space_is_the_standard_property_on_every_character() {
    let mut n: u32 = 0;
    while n <= 0x10FFFF {
        if let Some(c) = char::from_u32(n) {
            assert_eq!(char_is_white_space(c), c.is_whitespace(), "U+{:04X}", n);
        }
        n += 1;
    }
}

#[test]
fn trim_removes_white_space_at_both_ends_only() {
    assert_eq!(str_trim(" Mines "), "Mines");
    assert_eq!(str_trim("\t\n a  b \r\n"), "a  b");
    assert_eq!(str_trim("a"), "a");
    assert_eq!(str_trim(""), "");
    assert_eq!(str_trim(" \n\t"), "");
    assert_eq!(str_trim("\u{a0}x\u{3000}"), "x");
    assert_eq!(str_trim("\u{200b}x\u{200b}"), "\u{200b}x\u{200b}");
}

#[test]
fn trim_agrees_with_the_standard_trim() {
    let samples = [
        "",
        " ",
        "  a",
        "a  ",
        " é è ",
        "\u{85}\u{1680}\u{2000}\u{200a}\u{2028}\u{2029}\u{202f}\u{205f}x y\u{b}\u{c}",
        "\u{1c}x\u{1f}",
        "\u{feff}x\u{180e}",
    ];
    for s in samples {
        assert_eq!(str_trim(s), s.trim());
    }
}

#[test]
fn joining_the_pieces_gives_the_text_back() {
    for s in ["", "a", "-----", "a-----b", "-----a----------", "a------b", "é-----è"] {
        assert_eq!(str_split(s, "-----").join("-----"), s);
    }
}
