use power_profiles_cfg::text::decimal_string;
use power_profiles_cfg::text::decode_utf8_text;
use power_profiles_cfg::text::is_white_space;
use power_profiles_cfg::text::str_eq;
use power_profiles_cfg::text::trim;

#[test]
fn str_eq_tells_equal_from_different() {
    assert!(str_eq("", ""));
    assert!(str_eq("intel_pstate", "intel_pstate"));
    assert!(!str_eq("intel_pstate", "intel_pstat"));
    assert!(!str_eq("intel_pstate", "intel_pstatE"));
    assert!(!str_eq("a", ""));
    assert!(str_eq("\u{e9}t\u{e9}", "\u{e9}t\u{e9}"));
    assert!(!str_eq("\u{e9}", "e"));
}

#[test]
fn decode_accepts_utf8_only() {
    assert_eq!(decode_utf8_text(b"powersave\n"), Some("powersave\n"));
    assert_eq!(decode_utf8_text(b""), Some(""));
    assert_eq!(decode_utf8_text(&[0xc3, 0xa9]), Some("\u{e9}"));
    assert_eq!(decode_utf8_text(&[0xff, 0x30]), None);
    assert_eq!(decode_utf8_text(&[0xc3]), None);
    assert_eq!(decode_utf8_text(&[0xed, 0xa0, 0x80]), None);
    assert_eq!(decode_utf8_text(&[0xc0, 0x80]), None);
    assert_eq!(decode_utf8_text(&[0xe0, 0x80, 0x80]), None);
    assert_eq!(decode_utf8_text(&[0xf4, 0x90, 0x80, 0x80]), None);
    assert_eq!(decode_utf8_text(&[0xf4, 0x8f, 0xbf, 0xbf]), Some("\u{10ffff}"));
    assert_eq!(decode_utf8_text(&[0x80]), None);
    assert_eq!(decode_utf8_text(b"0\n\xf0\x9f"), None);
}

#[test]
fn white_space_is_the_unicode_property() {
    let mut code: u32 = 0;
    while code <= 0x10ffff {
        if let Some(c) = char::from_u32(code) {
            assert_eq!(is_white_space(c), c.is_whitespace(), "U+{:04X}", code);
        }
        code += 1;
    }
}

#[test]
fn white_space_examples() {
    assert!(is_white_space(' '));
    assert!(is_white_space('\n'));
    assert!(is_white_space('\t'));
    assert!(is_white_space('\r'));
    assert!(is_white_space('\u{a0}'));
    assert!(is_white_space('\u{3000}'));
    assert!(!is_white_space('0'));
    assert!(!is_white_space('a'));
    assert!(!is_white_space('\u{200b}'));
    assert!(!is_white_space('\u{8}'));
    assert!(!is_white_space('\u{e}'));
}

#[test]
fn trim_removes_white_space_at_both_ends() {
    assert_eq!(trim("1\n"), "1");
    assert_eq!(trim("  powersave \t\r\n"), "powersave");
    assert_eq!(trim("on demand"), "on demand");
    assert_eq!(trim("\n a b \n"), "a b");
    assert_eq!(trim(""), "");
    assert_eq!(trim(" \n\t "), "");
    assert_eq!(trim("x"), "x");
    assert_eq!(trim("\u{3000}\u{e9}t\u{e9}\u{a0}"), "\u{e9}t\u{e9}");
}

#[test]
fn trim_agrees_with_std() {
    let samples = [
        "",
        " ",
        "0",
        "0\n",
        "\n0",
        " 0 1 ",
        "\u{2003}performance\u{2028}",
        "\u{200b}x\u{200b}",
        "\t\tschedutil",
        "a\u{85}",
        "\u{1680}\u{205f}\u{202f}q\u{2029}\u{2000}\u{200a}",
    ];
    for sample in samples {
        assert_eq!(trim(sample), sample.trim(), "{:?}", sample);
    }
}

#[test]
fn decimal_string_exact_values() {
    assert_eq!(decimal_string(0), "0");
    assert_eq!(decimal_string(7), "7");
    assert_eq!(decimal_string(9), "9");
    assert_eq!(decimal_string(10), "10");
    assert_eq!(decimal_string(11), "11");
    assert_eq!(decimal_string(99), "99");
    assert_eq!(decimal_string(100), "100");
    assert_eq!(decimal_string(1234567890), "1234567890");
    assert_eq!(decimal_string(usize::MAX), format!("{}", usize::MAX));
}

#[test]
fn decimal_string_agrees_with_std() {
    let mut n: usize = 0;
    while n < 5000 {
        assert_eq!(decimal_string(n), format!("{}", n));
        n += 1;
    }
}
