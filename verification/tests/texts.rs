use mbp_channel::encoding::{append_bytes, base64_decode, bytes_equal};
use mbp_channel::names::NameMap;
use mbp_channel::text::{
    characters, contains, parse_u64, precedes, strip_0x, text_equal, trim, white_space, words,
};

#[test]
fn base64_is_canonical() {
    assert_eq!(base64_decode("").unwrap(), Vec::<u8>::new());
    assert_eq!(base64_decode("/+8=").unwrap(), vec![0xff, 0xef]);
    assert_eq!(base64_decode("Zg==").unwrap(), b"f".to_vec());
    assert_eq!(base64_decode("Zm9v").unwrap(), b"foo".to_vec());
    assert!(base64_decode("Zh==").is_none());
    assert!(base64_decode("Zg=").is_none());
    assert!(base64_decode("Zg").is_none());
    assert!(base64_decode("Zm9v ").is_none());
    assert!(base64_decode("Zm-v").is_none());
}

#[test]
fn byte_strings() {
    let mut bytes = vec![1u8];
    append_bytes(&mut bytes, &[2, 3]);
    assert_eq!(bytes, vec![1, 2, 3]);
    assert!(bytes_equal(&bytes, &[1, 2, 3]));
    assert!(!bytes_equal(&bytes, &[1, 2]));
    assert!(!bytes_equal(&bytes, &[1, 2, 4]));
}

#[test]
fn white_space_is_that_of_unicode() {
    for code in 0..=0x10ffffu32 {
        if let Some(c) = char::from_u32(code) {
            assert_eq!(white_space(c), c.is_whitespace(), "{:x}", code);
        }
    }
}

#[test]
fn words_of_a_line() {
    assert_eq!(words("  pay bob\t10 \u{3000}1\n"), vec!["pay", "bob", "10", "1"]);
    assert!(words(" \t ").is_empty());
    assert!(words("").is_empty());
    assert_eq!(words("one"), vec!["one"]);
    assert_eq!(characters("aé"), vec!['a', 'é']);
}

#[test]
fn trimming() {
    assert_eq!(trim(" \n0xab c\r\n"), "0xab c");
    assert_eq!(trim("  "), "");
    assert_eq!(strip_0x("0x0xab0x"), "ab0x");
    assert_eq!(strip_0x("0Xab"), "0Xab");
    assert_eq!(strip_0x("0"), "0");
}

#[test]
fn parts_of_texts() {
    assert!(contains("abcabd", "abd"));
    assert!(contains("abc", ""));
    assert!(contains("abc", "abc"));
    assert!(!contains("abc", "abcd"));
    assert!(!contains("abc", "ac"));
    assert!(text_equal("é", "é"));
    assert!(!text_equal("é", "e"));
}

#[test]
fn numbers() {
    let cases = [
        "0",
        "007",
        "+5",
        "18446744073709551615",
        "18446744073709551616",
        "18446744073709551620",
        "99999999999999999999999",
        "",
        "+",
        "-1",
        "-0",
        "1a",
        "++1",
        " 1",
        "٣",
    ];
    for case in cases {
        assert_eq!(parse_u64(case), case.parse::<u64>().ok(), "{}", case);
    }
}

#[test]
fn order_of_texts() {
    let cases = ["", "a", "aa", "b", "B", "é", "\u{ffff}", "\u{10000}"];
    for a in cases {
        for b in cases {
            assert_eq!(precedes(a, b), a < b, "{} {}", a, b);
        }
    }
}

#[test]
fn name_maps() {
    let mut map: NameMap<u64> = NameMap::new();
    assert_eq!(map.len(), 0);
    map.insert("carol", 3);
    map.insert("alice", 1);
    map.insert("bob", 2);
    map.insert("alice", 10);
    assert_eq!(map.len(), 3);
    assert_eq!(map.get("alice"), Some(10));
    assert_eq!(map.get("dave"), None);
    assert!(map.contains_key("bob"));
    assert!(!map.contains_key("Bob"));
    assert_eq!(map.sorted_names(), vec!["alice", "bob", "carol"]);
    let mut entries = map.to_entries();
    entries.sort();
    assert_eq!(
        entries,
        vec![
            ("alice".to_string(), 10),
            ("bob".to_string(), 2),
            ("carol".to_string(), 3)
        ]
    );
}
