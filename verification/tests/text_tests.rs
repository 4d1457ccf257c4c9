use ple7_vpn::text::{decimal_chars, decimal_padded_chars, replace_text, str_chars, trim_chars};

fn chars(x: &str) -> Vec<char> {
    x.chars().collect()
}

#[test]
fn trims_unicode_white_space() {
    assert_eq!(trim_chars(&chars(" \t a b \n")), chars("a b"));
    assert_eq!(trim_chars(&chars("\u{a0}\u{2003}x\u{205f}")), chars("x"));
    assert_eq!(trim_chars(&chars("   ")), chars(""));
    assert_eq!(trim_chars(&chars("")), chars(""));
    assert_eq!(trim_chars(&chars("\u{200b}x")), chars("\u{200b}x"));
}

#[test]
fn trim_agrees_with_std() {
    for t in ["  hi  ", "\u{85}a\u{2028}", "\r\n\t", "x", "\u{feff}y "] {
        assert_eq!(trim_chars(&chars(t)), chars(t.trim()));
    }
}

#[test]
fn replaces_every_occurrence() {
    assert_eq!(replace_text("aXbXc", "X", "--"), "a--b--c");
    assert_eq!(replace_text("aaa", "aa", "b"), "ba");
    assert_eq!(replace_text("none", "zz", "y"), "none");
    assert_eq!(replace_text("", "x", "y"), "");
}

#[test]
fn replace_agrees_with_std() {
    for (t, p, r) in [("https://a/https://b", "https://", "wss://"), ("abababa", "aba", "X"), ("hhttp://", "http://", "ws://")] {
        assert_eq!(replace_text(t, p, r), t.replace(p, r));
    }
}

#[test]
fn formats_decimals() {
    assert_eq!(decimal_chars(0), chars("0"));
    assert_eq!(decimal_chars(1234567890), chars("1234567890"));
    assert_eq!(decimal_chars(u64::MAX), chars("18446744073709551615"));
    assert_eq!(decimal_padded_chars(7, 3), chars("007"));
    assert_eq!(decimal_padded_chars(1234, 3), chars("1234"));
    assert_eq!(decimal_padded_chars(5, 0), chars("5"));
}

#[test]
fn splits_into_chars() {
    assert_eq!(str_chars("añb"), vec!['a', 'ñ', 'b']);
}
