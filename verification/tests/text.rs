use modsync::text::{
    char_is_whitespace, chars_of, str_eq_ignore_ascii_case, to_ascii_lower, trim_bounds,
};

#[test]
fn whitespace_is_the_unicode_property_for_every_char() {
    let mut n: u32 = 0;
    while n <= 0x10FFFF {
        if let Some(c) = char::from_u32(n) {
            assert_eq!(char_is_whitespace(c), c.is_whitespace(), "U+{:04X}", n);
        }
        n += 1;
    }
}

#[test]
fn ascii_lower_folds_capitals_only() {
    let mut n: u32 = 0;
    while n <= 0x10FFFF {
        if let Some(c) = char::from_u32(n) {
            assert_eq!(to_ascii_lower(c), c.to_ascii_lowercase(), "U+{:04X}", n);
        }
        n += 1;
    }
    assert_eq!(to_ascii_lower('A'), 'a');
    assert_eq!(to_ascii_lower('Z'), 'z');
    assert_eq!(to_ascii_lower('@'), '@');
    assert_eq!(to_ascii_lower('['), '[');
    assert_eq!(to_ascii_lower('É'), 'É');
}

#[test]
fn chars_of_keeps_every_character_in_order() {
    assert_eq!(chars_of(""), Vec::<char>::new());
    assert_eq!(chars_of("a|é\u{3000}"), vec!['a', '|', 'é', '\u{3000}']);
}

#[test]
fn comparison_ignores_ascii_case_only() {
    assert!(str_eq_ignore_ascii_case("REQUIRED", "required"));
    assert!(str_eq_ignore_ascii_case("ReMoVe", "REMOVE"));
    assert!(str_eq_ignore_ascii_case("", ""));
    assert!(!str_eq_ignore_ascii_case("REMOVE", "REMOVED"));
    assert!(!str_eq_ignore_ascii_case("REMOVE", "REMOVA"));
    assert!(!str_eq_ignore_ascii_case("é", "É"));
    assert!(str_eq_ignore_ascii_case("aé", "Aé"));
    // '@' and '`' differ by the same bit as a letter and its capital.
    assert!(!str_eq_ignore_ascii_case("@", "`"));
    assert!(!str_eq_ignore_ascii_case("[", "{"));
}

#[test]
fn comparison_agrees_with_std_on_generated_texts() {
    let alphabet = ['a', 'A', 'z', 'Z', '@', '`', '1', 'é'];
    let mut seed: u64 = 7;
    let mut round = 0;
    while round < 4000 {
        let mut a = String::new();
        let mut b = String::new();
        let len = (next(&mut seed) % 4) as usize;
        for _ in 0..len {
            a.push(alphabet[(next(&mut seed) % 8) as usize]);
        }
        let len_b = if next(&mut seed) % 4 == 0 { (next(&mut seed) % 4) as usize } else { len };
        for _ in 0..len_b {
            b.push(alphabet[(next(&mut seed) % 8) as usize]);
        }
        assert_eq!(str_eq_ignore_ascii_case(&a, &b), a.eq_ignore_ascii_case(&b), "{:?} {:?}", a, b);
        round += 1;
    }
}

fn next(seed: &mut u64) -> u64 {
    *seed = seed.wrapping_mul(6364136223846793005).wrapping_add(1442695040888963407);
    *seed >> 33
}

#[test]
fn trim_bounds_mark_the_trimmed_part() {
    let cases = [
        "",
        " ",
        "a",
        "  a b  ",
        "\t\r\n x \u{3000}\u{a0}",
        "\u{2003}\u{2003}",
        "x\u{200b} ",
        "|",
    ];
    for text in cases {
        let chars = chars_of(text);
        let (a, b) = trim_bounds(&chars);
        assert!(a <= b && b <= chars.len());
        let kept: String = chars[a..b].iter().collect();
        assert_eq!(kept, text.trim(), "{:?}", text);
    }
    let chars = chars_of("  a b  ");
    assert_eq!(trim_bounds(&chars), (2, 5));
    let blank = chars_of("   ");
    assert_eq!(trim_bounds(&blank), (3, 3));
}
