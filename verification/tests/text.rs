use versionwatch::text::{
    contains, count_char, decimal_text, has_prefix, has_suffix, is_whitespace, join,
    parse_u32, remove_all, split_on, strip_prefix, strip_suffix,
    text_eq, text_less, trim, trim_leading, up_to_last,
};

fn samples() -> Vec<&'static str> {
    vec![
        "", "v", "vv1.2.3", "v1.2.3", "1.2.3", "release-1.25.3", "1.17.3-latest", "a.b.c", ".",
        "..", "1.", ".1", "  padded \t\n", "\u{a0}x\u{3000}", "héllo.wörld", "Released: 01 Jan 2024",
        "MongoDB 7.0", "MongoDB MongoDB 7.0MongoDB ", "1_2_3", "go1.21rc2", "aaa", "aa", "+5", "007",
    ]
}

#[test]
fn text_eq_agrees_with_std() {
    for a in samples() {
        for b in samples() {
            assert_eq!(text_eq(a, b), a == b, "{a:?} {b:?}");
        }
    }
}

#[test]
fn text_less_agrees_with_std_order() {
    for a in samples() {
        for b in samples() {
            assert_eq!(text_less(a, b), a < b, "{a:?} {b:?}");
        }
    }
}

#[test]
fn prefix_and_suffix_agree_with_std() {
    for a in samples() {
        for b in samples() {
            assert_eq!(has_prefix(a, b), a.starts_with(b), "{a:?} {b:?}");
            assert_eq!(has_suffix(a, b), a.ends_with(b), "{a:?} {b:?}");
            assert_eq!(strip_prefix(a, b), a.strip_prefix(b).unwrap_or(a), "{a:?} {b:?}");
            assert_eq!(strip_suffix(a, b), a.strip_suffix(b).unwrap_or(a), "{a:?} {b:?}");
            assert_eq!(contains(a, b), a.contains(b), "{a:?} {b:?}");
        }
    }
}

#[test]
fn strip_prefix_takes_the_prefix_once() {
    assert_eq!(strip_prefix("vv1.0.0", "v"), "v1.0.0");
    assert_eq!(strip_prefix("release-1.25.3", "release-"), "1.25.3");
    assert_eq!(strip_prefix("1.25.3", "release-"), "1.25.3");
    assert_eq!(strip_suffix("1.17.3-latest", "-latest"), "1.17.3");
    assert_eq!(strip_suffix("1.17.3", "-latest"), "1.17.3");
}

#[test]
fn trim_leading_takes_every_leading_character() {
    for a in samples() {
        assert_eq!(trim_leading(a, 'v'), a.trim_start_matches('v'), "{a:?}");
        assert_eq!(trim_leading(a, '.'), a.trim_start_matches('.'), "{a:?}");
    }
    assert_eq!(trim_leading("vv1.0.0", 'v'), "1.0.0");
    assert_eq!(trim_leading("vvv", 'v'), "");
}

#[test]
fn count_char_agrees_with_std() {
    for a in samples() {
        assert_eq!(count_char(a, '.'), a.matches('.').count(), "{a:?}");
        assert_eq!(count_char(a, 'a'), a.matches('a').count(), "{a:?}");
    }
}

#[test]
fn split_on_agrees_with_std() {
    for a in samples() {
        let expected: Vec<String> = a.split('.').map(|p| p.to_string()).collect();
        assert_eq!(split_on(a, '.'), expected, "{a:?}");
    }
    assert_eq!(split_on("", '.'), vec![String::new()]);
    assert_eq!(split_on("1.21.0", '.'), vec!["1".to_string(), "21".to_string(), "0".to_string()]);
}

#[test]
fn parse_u32_agrees_with_std() {
    let cases = vec![
        "", "+", "-", "0", "5", "+5", "-5", "007", "42", "4294967295", "4294967296",
        "99999999999999999999999", "12a", "a12", " 12", "12 ", "1.2", "++1", "٣",
    ];
    for a in cases {
        assert_eq!(parse_u32(a), a.parse::<u32>().ok(), "{a:?}");
    }
    assert_eq!(parse_u32("4294967295"), Some(u32::MAX));
    assert_eq!(parse_u32("4294967296"), None);
}

#[test]
fn decimal_text_agrees_with_std() {
    for n in [0u64, 1, 9, 10, 11, 99, 100, 403, 429, 12345, u32::MAX as u64, u64::MAX] {
        assert_eq!(decimal_text(n), n.to_string());
    }
}

#[test]
fn remove_agrees_with_std() {
    for a in samples() {
        assert_eq!(remove_all(a, "MongoDB "), a.replace("MongoDB ", ""), "{a:?}");
        assert_eq!(remove_all(a, "aa"), a.replace("aa", ""), "{a:?}");
        assert_eq!(remove_all(a, "Released:"), a.replace("Released:", ""), "{a:?}");
    }
    assert_eq!(remove_all("aaa", "aa"), "a");
    assert_eq!(remove_all("abc", ""), "abc");
}

#[test]
fn whitespace_is_what_std_takes_for_it() {
    let mut n: u32 = 0;
    while n <= 0x3100 {
        if let Some(c) = char::from_u32(n) {
            assert_eq!(is_whitespace(c), c.is_whitespace(), "{n:#x}");
        }
        n += 1;
    }
    assert!(!is_whitespace('\u{feff}'));
    assert!(!is_whitespace('\u{10ffff}'));
}

#[test]
fn trim_agrees_with_std() {
    for a in samples() {
        assert_eq!(trim(a), a.trim(), "{a:?}");
    }
    assert_eq!(trim("  padded \t\n"), "padded");
    assert_eq!(trim(" \t "), "");
    assert_eq!(trim("\u{a0}x\u{3000}"), "x");
}

#[test]
fn up_to_last_gives_what_stands_before_the_last_separator() {
    for a in samples() {
        let expected = a.rsplitn(2, '.').last().unwrap_or(a);
        assert_eq!(up_to_last(a, '.'), expected, "{a:?}");
    }
    assert_eq!(up_to_last("1.21.0", '.'), "1.21");
    assert_eq!(up_to_last("121", '.'), "121");
}

#[test]
fn join_puts_one_text_behind_the_other() {
    assert_eq!(join("v", "20"), "v20");
    assert_eq!(join("", ""), "");
}
