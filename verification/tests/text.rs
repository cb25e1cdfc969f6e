use screen_memory::text::{
    chars_of, has_text, is_white_space, push_decimal, push_two_digits, sorts_at_or_before, trim,
};

#[test]
fn white_space_is_what_std_takes_for_it() {
    for code in 0..=0x10ffff_u32 {
        if let Some(c) = char::from_u32(code) {
            assert_eq!(is_white_space(c), c.is_whitespace(), "U+{:04X}", code);
        }
    }
}

#[test]
fn trim_takes_white_space_off_both_ends() {
    for text in [
        "",
        " ",
        "\t\n \u{3000}",
        "plain",
        "  two words \r\n",
        "\u{a0}x\u{2003}",
        "a\u{200b}",
    ] {
        assert_eq!(trim(text), text.trim());
    }
    assert_eq!(trim("  two words \r\n"), "two words");
}

#[test]
fn trimming_twice_changes_nothing() {
    let once = trim(" \u{2028} kept inside\tit  ");
    assert_eq!(once, "kept inside\tit");
    assert_eq!(trim(&once), once);
}

#[test]
fn text_sorts_as_str_does() {
    let texts = ["", "a", "ab", "b", "B", "é", "e\u{301}", "\u{ffff}", "\u{10000}", "2024-01-01"];
    for a in texts {
        for b in texts {
            assert_eq!(sorts_at_or_before(a, b), a <= b, "{a:?} {b:?}");
        }
    }
}

#[test]
fn text_is_found_as_str_finds_it() {
    let hays = ["", "a", "banana", "ünïcode text", "aab"];
    let needles = ["", "a", "nan", "ban", "ana", "code t", "ab", "banana!", "ï"];
    for hay in hays {
        for needle in needles {
            assert_eq!(has_text(hay, needle), hay.contains(needle), "{hay:?} {needle:?}");
        }
    }
}

#[test]
fn characters_come_in_order() {
    assert_eq!(chars_of("aé\u{1f600}"), vec!['a', 'é', '\u{1f600}']);
    assert!(chars_of("").is_empty());
}

#[test]
fn numbers_are_written_in_base_ten() {
    for n in [0_u64, 7, 9, 10, 99, 100, 1234567890, u64::MAX] {
        let mut text = "n=".to_string();
        push_decimal(&mut text, n);
        assert_eq!(text, format!("n={n}"));
    }
}

#[test]
fn small_numbers_get_a_leading_zero() {
    for n in [0_u64, 1, 9, 10, 42, 99, 100, 1000] {
        let mut text = String::new();
        push_two_digits(&mut text, n);
        assert_eq!(text, format!("{n:02}"));
    }
}
