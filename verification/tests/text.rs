//! Text functions against the standard library's.

use rgit::order::{not_after, sorted};
use rgit::percent::{decode_bytes, urlencoding_decode};
use rgit::store::{TextMap, TextSet};
use rgit::text::{
    chars_of, contains_char, contains_text, decimal, ends_with, find, first_word, lines, parse_u16, same_ignoring_case,
    same_text, split, split_once, stands_at, string_of, strip_prefix, tail_after, trim, trim_leading, white_space,
};

/// Texts with the characters that the functions treat specially.
fn samples() -> Vec<String> {
    let alphabet = ['a', '/', '.', '%', '\n', '\r', ' ', 'é', '\u{3000}', '+'];
    let mut all = vec![String::new()];
    let mut last = vec![String::new()];
    for _ in 0..3 {
        let mut next = Vec::new();
        for s in &last {
            for c in alphabet {
                let mut t = s.clone();
                t.push(c);
                next.push(t);
            }
        }
        all.extend(next.iter().cloned());
        last = next;
    }
    all
}

#[test]
fn white_space_is_that_of_unicode() {
    for code in 0..=0x10ffffu32 {
        if let Some(c) = char::from_u32(code) {
            assert_eq!(white_space(c), c.is_whitespace(), "{code:x}");
        }
    }
}

#[test]
fn trimming_and_words_match_std() {
    for s in samples() {
        assert_eq!(trim(&s), s.trim());
        assert_eq!(first_word(&s).as_deref(), s.split_whitespace().next());
        assert_eq!(trim_leading(&s, '/'), s.trim_start_matches('/'));
    }
    assert_eq!(first_word("  200 OK").as_deref(), Some("200"));
    assert_eq!(first_word(" \t"), None);
}

#[test]
fn splitting_matches_std() {
    for s in samples() {
        assert_eq!(split(&s, "/"), s.split('/').collect::<Vec<_>>());
        assert_eq!(split(&s, "\r\n"), s.split("\r\n").collect::<Vec<_>>());
        assert_eq!(split(&s, ".."), s.split("..").collect::<Vec<_>>());
        assert_eq!(lines(&s), s.lines().collect::<Vec<_>>());
        assert_eq!(
            split_once(&s, "/"),
            s.split_once('/').map(|(a, b)| (a.to_string(), b.to_string()))
        );
        assert_eq!(tail_after(&s, '/'), s.rsplit('/').next().unwrap());
        assert_eq!(strip_prefix(&s, "a/").as_deref(), s.strip_prefix("a/"));
        assert_eq!(ends_with(&s, "/a"), s.ends_with("/a"));
        assert_eq!(contains_text(&s, ".."), s.contains(".."));
        assert_eq!(contains_char(&s, '%'), s.contains('%'));
    }
}

#[test]
fn split_parts_join_to_the_text() {
    for s in samples() {
        assert_eq!(split(&s, "/").join("/"), s);
    }
}

#[test]
fn search_finds_the_first_place() {
    let text = chars_of("a/b/c");
    assert_eq!(find(&text, &['/']), Some(1));
    assert_eq!(find(&text, &['c']), Some(4));
    assert_eq!(find(&text, &['x']), None);
    assert_eq!(find(&text, &[]), Some(0));
    assert!(stands_at(&text, &['b', '/'], 2));
    assert!(!stands_at(&text, &['b', '/'], 3));
    assert!(!stands_at(&text, &['c', 'd'], 4));
    assert_eq!(string_of(&text), "a/b/c");
}

#[test]
fn equality_of_texts() {
    for a in samples().iter().take(120) {
        for b in samples().iter().take(120) {
            assert_eq!(same_text(a, b), a == b);
        }
    }
}

#[test]
fn case_is_ignored_in_ascii_only() {
    assert!(same_ignoring_case("STATUS", "Status"));
    assert!(same_ignoring_case("status", "Status"));
    assert!(!same_ignoring_case("Statu", "Status"));
    assert!(!same_ignoring_case("É", "é"));
    assert!(!same_ignoring_case("@", "`"));
    assert!(!same_ignoring_case("[", "{"));
}

#[test]
fn numbers_match_std() {
    for n in 0..70000u32 {
        let s = n.to_string();
        assert_eq!(parse_u16(&s), s.parse::<u16>().ok());
        assert_eq!(decimal(n as usize), s);
    }
    for s in ["", "+", "-", "-0", "+7", "++7", "007", "65535", "65536", "99999999999999999999", " 7", "7 ", "1a", "٣"] {
        assert_eq!(parse_u16(s), s.parse::<u16>().ok(), "{s}");
    }
    assert_eq!(decimal(usize::MAX), usize::MAX.to_string());
}

/// The decoding of escapes of two hexadecimal digits, read by the standard library.
fn decoded_by_std(bytes: &[u8]) -> Vec<u8> {
    let mut out = Vec::new();
    let mut i = 0;
    while i < bytes.len() {
        if bytes[i] == b'%' && i + 2 < bytes.len() {
            let digits = &bytes[i + 1..i + 3];
            if digits.iter().all(u8::is_ascii_hexdigit) {
                let text = std::str::from_utf8(digits).unwrap();
                out.push(u8::from_str_radix(text, 16).unwrap());
                i += 3;
                continue;
            }
        }
        out.push(bytes[i]);
        i += 1;
    }
    out
}

#[test]
fn every_pair_after_a_percent_sign() {
    for high in 0..=255u8 {
        for low in 0..=255u8 {
            let bytes = [b'%', high, low, b'x'];
            assert_eq!(decode_bytes(&bytes), decoded_by_std(&bytes));
        }
    }
}

#[test]
fn escapes_at_the_end() {
    for s in ["", "%", "%4", "%41", "a%41", "%41b", "%4", "%zz", "%%41", "%2", "100%", "%+f", "%-1"] {
        assert_eq!(decode_bytes(s.as_bytes()), decoded_by_std(s.as_bytes()), "{s}");
    }
    assert_eq!(decode_bytes(b"%+f"), b"%+f");
    assert_eq!(urlencoding_decode("%+f"), "%+f");
    assert_eq!(urlencoding_decode("a%2B%+f%"), "a+%+f%");
}

#[test]
fn decoded_texts() {
    assert_eq!(urlencoding_decode("src%2Fmain.rs"), "src/main.rs");
    assert_eq!(urlencoding_decode("a+b"), "a+b");
    assert_eq!(urlencoding_decode("%E6%97%A5%e6%9c%ac"), "日本");
    assert_eq!(urlencoding_decode("日本"), "日本");
    assert_eq!(urlencoding_decode("100%"), "100%");
    assert_eq!(urlencoding_decode(""), "");
}

#[test]
fn bytes_that_are_no_text_are_replaced() {
    assert_eq!(urlencoding_decode("a%FFb"), "a\u{fffd}b");
    assert_eq!(urlencoding_decode("%E6%97"), "\u{fffd}");
}

#[test]
fn decoding_undoes_escaping_in_either_case() {
    let text = "100% 日本/é";
    let mut written = String::new();
    for (i, b) in text.bytes().enumerate() {
        match i % 3 {
            0 => written.push_str(&format!("%{b:02x}")),
            1 => written.push_str(&format!("%{b:02X}")),
            _ if b.is_ascii_alphanumeric() => written.push(b as char),
            _ => written.push_str(&format!("%{b:02x}")),
        }
    }
    assert_eq!(urlencoding_decode(&written), text);
}

#[test]
fn decoding_undoes_escaping() {
    for escape_all in [true, false] {
        let bytes: Vec<u8> = (0..=255).collect();
        let mut written = Vec::new();
        for b in &bytes {
            if !escape_all && b.is_ascii_alphanumeric() {
                written.push(*b);
            } else {
                written.extend(format!("%{b:02X}").bytes());
            }
        }
        assert_eq!(decode_bytes(&written), bytes);
    }
}

#[test]
fn order_of_texts_matches_std() {
    let list = ["", "a", "aa", "ab", "b", "B", "é", "z", "日本", "\u{10000}", "\u{ffff}", "a.git", "a-b.git"];
    for a in list {
        for b in list {
            assert_eq!(not_after(a, b), a <= b, "{a} {b}");
        }
    }
    let mut expected: Vec<String> = list.iter().chain(list.iter()).map(|s| s.to_string()).collect();
    let result = sorted(expected.clone());
    expected.sort();
    assert_eq!(result, expected);
    assert!(sorted(Vec::new()).is_empty());
}

#[test]
fn maps_hold_each_key_once() {
    let mut map: TextMap<u32> = TextMap::new();
    assert!(map.get("a").is_none());
    map.insert("b".to_string(), 1);
    map.insert("a".to_string(), 2);
    map.insert("b".to_string(), 3);
    assert_eq!(map.get("b"), Some(&3));
    assert_eq!(map.get("a"), Some(&2));
    assert_eq!(map.sorted_keys(), ["a", "b"]);
    assert!(map.contains_key("a"));
    assert!(map.remove("a"));
    assert!(!map.remove("a"));
    assert!(!map.contains_key("a"));
    assert_eq!(map.get("b"), Some(&3));
}

#[test]
fn sets_hold_each_member_once() {
    let mut set = TextSet::new();
    set.insert("b".to_string());
    set.insert("a".to_string());
    set.insert("b".to_string());
    assert_eq!(set.sorted_members(), ["a", "b"]);
    assert!(set.contains("b"));
    assert!(set.remove("b"));
    assert!(!set.contains("b"));
    assert!(!set.remove("b"));
}
