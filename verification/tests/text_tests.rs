use animation_asset_manager::paths::{extension_of_path, join_path};
use animation_asset_manager::text::{chars_of, parse_u32, split_words, trim_chars, IntErrorKind};

fn chars(s: &str) -> Vec<char> {
    s.chars().collect()
}

#[test]
fn numbers_read_like_std() {
    for s in ["0", "7", "+42", "0042", "4294967295", "4294967296", "", "+", "-1", "12a", "99999999999a", "a99999999999", " 1"] {
        let std = s.parse::<u32>().map_err(|e| match e.kind() {
            std::num::IntErrorKind::Empty => IntErrorKind::Empty,
            std::num::IntErrorKind::InvalidDigit => IntErrorKind::InvalidDigit,
            std::num::IntErrorKind::PosOverflow => IntErrorKind::PosOverflow,
            _ => unreachable!(),
        });
        assert_eq!(parse_u32(&chars(s)), std, "{:?}", s);
    }
}

#[test]
fn written_numbers_read_back() {
    for n in [0u32, 9, 10, 65535, 4294967295] {
        assert_eq!(parse_u32(&chars(&n.to_string())), Ok(n));
    }
}

#[test]
fn trimming_and_words_like_std() {
    for s in ["", "  a b  ", "\u{2028}x\u{85}", "abc", " \t "] {
        assert_eq!(trim_chars(&chars(s)), chars(s.trim()));
        let words: Vec<String> = s.split_whitespace().map(|w| w.to_string()).collect();
        assert_eq!(split_words(s), words);
    }
    assert_eq!(chars_of("héllo"), chars("héllo"));
}

#[test]
fn paths_join_and_extensions_like_std() {
    assert_eq!(join_path("/a", "b"), "/a/b");
    assert_eq!(join_path("/a/", "b"), "/a/b");
    assert_eq!(join_path("/a", "/b"), "/b");
    assert_eq!(join_path("", "b"), "b");
    assert_eq!(join_path("a", ""), "a/");
    for p in ["a/b.c", "a/b.c/", "a/.b", "a/..", "a/b.", "a/...", "/", "", ".", "a/.x.y", "a/b.c/.", "x.y/z"] {
        let std = std::path::Path::new(p).extension().map(|e| e.to_str().unwrap().to_string());
        assert_eq!(extension_of_path(p), std, "{:?}", p);
    }
    for (b, q) in [("/a", "b"), ("/a/", "b"), ("/a", "/b"), ("", "b"), ("a", "")] {
        assert_eq!(join_path(b, q), std::path::Path::new(b).join(q).to_str().unwrap());
    }
}

#[test]
fn int_error_messages_match_std() {
    assert_eq!(IntErrorKind::Empty.message(), "".parse::<u32>().unwrap_err().to_string());
    assert_eq!(IntErrorKind::InvalidDigit.message(), "x".parse::<u32>().unwrap_err().to_string());
    assert_eq!(IntErrorKind::PosOverflow.message(), "99999999999".parse::<u32>().unwrap_err().to_string());
}
