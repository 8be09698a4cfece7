use floorp_installer::number::{i32_text, parse_i32, u32_text};
use floorp_installer::text::{
    followed_by, contains, ends_with, find_line, join, last_segment, lines, starts_with, trim,
    trim_start_matches,
};
use floorp_installer::wide::{from_utf16_lossy, wide_null};

fn samples() -> Vec<&'static str> {
    vec![
        "",
        " ",
        "a",
        "abc",
        " a b ",
        "\u{3000}path\u{a0}\r\n",
        "\u{200b}x\u{200b}",
        "line one\r\nline two\nline three",
        "trailing\n",
        "bare\r",
        "\n\n",
        "\r\n",
        "x\r\r\ny",
        "aaaa",
        "EXITCODE:EXITCODE: 5",
        "C:\\Users\\O'Brien\\Desktop",
        "日本語 😀 text",
    ]
}

#[test]
fn contains_agrees_with_std() {
    for s in samples() {
        for pat in ["", "a", "aa", "b ", "EXITCODE:", "😀", "line", "zzz"] {
            assert_eq!(contains(s, pat), s.contains(pat));
            assert_eq!(starts_with(s, pat), s.starts_with(pat));
            assert_eq!(ends_with(s, pat), s.ends_with(pat));
        }
    }
    assert!(contains("xxab", "ab"));
    assert!(!contains("xab", "abb"));
}

#[test]
fn trim_agrees_with_std() {
    for s in samples() {
        assert_eq!(trim(s), s.trim());
    }
    assert_eq!(trim("  C:\\Floorp \r\n"), "C:\\Floorp");
}

#[test]
fn white_space_agrees_with_std_on_every_character() {
    for code in 0u32..=0x10ffff {
        if let Some(c) = char::from_u32(code) {
            let s: String = format!("{}", c);
            assert_eq!(trim(&s).is_empty(), c.is_whitespace());
        }
    }
}

#[test]
fn lines_agree_with_std() {
    for s in samples() {
        let expected: Vec<String> = s.lines().map(|l| l.to_string()).collect();
        assert_eq!(lines(s), expected);
    }
    assert_eq!(lines("a\r\nb\n\nc"), vec!["a", "b", "", "c"]);
    assert_eq!(lines("bare\r"), vec!["bare\r"]);
}

#[test]
fn find_line_gives_the_first() {
    assert_eq!(
        find_line("x\nEXITCODE:1\r\nEXITCODE:2", "EXITCODE:"),
        Some("EXITCODE:1".to_string())
    );
    assert_eq!(find_line("x EXITCODE:1", "EXITCODE:"), None);
    assert_eq!(find_line("", "EXITCODE:"), None);
}

#[test]
fn trim_start_matches_agrees_with_std() {
    for s in samples() {
        for prefix in ["a", "EXITCODE:", "aa", "zz"] {
            assert_eq!(trim_start_matches(s, prefix), s.trim_start_matches(prefix));
        }
    }
    assert_eq!(trim_start_matches("EXITCODE:EXITCODE: 5", "EXITCODE:"), " 5");
    assert_eq!(trim_start_matches("abc", ""), "abc");
}

#[test]
fn last_segment_agrees_with_std() {
    for s in ["", "a", "a/b", "a/b/", "/", "https://x.test/d/f.exe"] {
        assert_eq!(last_segment(s, '/'), s.split('/').last().unwrap());
    }
}

#[test]
fn join_agrees_with_std() {
    let none: Vec<String> = vec![];
    assert_eq!(join(&none, " "), "");
    let one = vec!["/S".to_string()];
    assert_eq!(join(&one, " "), "/S");
    let three = vec!["/S".to_string(), "".to_string(), "/INI=a b".to_string()];
    assert_eq!(join(&three, " "), three.join(" "));
}

#[test]
fn followed_by_appends() {
    assert_eq!(followed_by("key|", "detail"), "key|detail");
}

#[test]
fn decimal_agrees_with_std() {
    for n in [0, 7, 10, 99, 1603, -1, -10, i32::MAX, i32::MIN] {
        assert_eq!(i32_text(n), format!("{}", n));
        assert_eq!(parse_i32(&i32_text(n)), Some(n));
    }
    for n in [0u32, 2148204809, u32::MAX] {
        assert_eq!(u32_text(n), format!("{}", n));
    }
}

#[test]
fn parse_agrees_with_std() {
    for s in [
        "", "-", "+", "0", "-0", "+5", "007", "2147483647", "2147483648", "-2147483648",
        "-2147483649", "99999999999999999999999", "--1", "+-1", "1 ", " 1", "1a", "٣", "-0000000000000001",
    ] {
        assert_eq!(parse_i32(s), s.parse::<i32>().ok());
    }
}

#[test]
fn wide_null_encodes_and_ends_with_zero() {
    assert_eq!(wide_null(""), vec![0]);
    assert_eq!(wide_null("ab"), vec![0x61, 0x62, 0]);
    assert_eq!(wide_null("😀"), vec![0xd83d, 0xde00, 0]);
    for s in samples() {
        let mut expected: Vec<u16> = s.encode_utf16().collect();
        expected.push(0);
        assert_eq!(wide_null(s), expected);
    }
}

#[test]
fn utf16_is_read_back() {
    for s in samples() {
        let units = wide_null(s);
        assert_eq!(from_utf16_lossy(&units, units.len() - 1), s);
    }
}

#[test]
fn unpaired_surrogates_are_replaced() {
    for units in [
        vec![0xd800u16],
        vec![0xdc00, 0x41],
        vec![0xd800, 0x41],
        vec![0xd800, 0xd83d, 0xde00],
        vec![0xd83d, 0xde00, 0xde00],
        vec![0xdbff, 0xdfff, 0xe000, 0xffff],
    ] {
        assert_eq!(
            from_utf16_lossy(&units, units.len()),
            String::from_utf16_lossy(&units)
        );
    }
    assert_eq!(from_utf16_lossy(&vec![0x41, 0xd83d, 0xde00], 2), "A\u{fffd}");
}
