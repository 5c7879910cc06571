use redfog::numbers::{parse_i32, parse_u32, push_decimal, push_signed};
use redfog::paths::{default_runtime_dir, join_path};
use redfog::text::{
    is_before, is_white, join_all, last_segment, quoted_list, split_lines, split_on, split_words, to_lower, trim,
    trimmed_end,
};

const SAMPLES: [&str; 14] = [
    "", " ", "a", " a b ", "a\nb\r\nc", "\n\n", "a\r", "x:y::z:", ":::", "\u{2003}wide\u{3000}", "tab\there",
    "one\n", "\u{85}nel\u{a0}", "ÄÖ z",
];

#[test]
fn white_space_is_what_std_says() {
    for c in '\0'..=char::MAX {
        assert_eq!(is_white(c), c.is_whitespace(), "{c:?}");
    }
}

#[test]
fn splitting_and_trimming_agree_with_std() {
    for s in SAMPLES {
        assert_eq!(trim(s), s.trim());
        assert_eq!(trimmed_end(s), s.trim_end());
        assert_eq!(split_on(s, ':'), s.split(':').collect::<Vec<_>>());
        assert_eq!(split_words(s), s.split_whitespace().collect::<Vec<_>>());
        assert_eq!(split_lines(s), s.lines().collect::<Vec<_>>());
        assert_eq!(to_lower(s), s.to_ascii_lowercase());
        assert_eq!(last_segment(s), s.rsplit('/').next().unwrap());
    }
    assert_eq!(last_segment("/dev/dri/card0"), "card0");
    assert_eq!(last_segment("/dev/dri/"), "");
    assert_eq!(to_lower("0x10DE"), "0x10de");
}

#[test]
fn what_was_split_joins_again() {
    for s in SAMPLES {
        assert_eq!(join_all(&split_on(s, ':'), ":"), s);
    }
}

#[test]
fn texts_are_ordered_as_std_orders_them() {
    let words = ["", "a", "ab", "b", "renderD128", "renderD129", "renderD13", "ä", "𝄞", "\u{ffff}"];
    for a in words {
        for b in words {
            assert_eq!(is_before(a, b), a < b, "{a:?} {b:?}");
        }
    }
}

#[test]
fn lists_are_quoted_as_std_quotes_them() {
    for list in [vec![], vec!["a"], vec!["stop", "x.socket"], vec!["q\"q", "tab\t", "é\u{301}", "nul\0"]] {
        let owned: Vec<String> = list.iter().map(|s| s.to_string()).collect();
        assert_eq!(quoted_list(&owned), format!("{list:?}"));
    }
}

#[test]
fn numbers_read_as_std_reads_them() {
    let texts = [
        "", "+", "-", "0", "-0", "+0", "7", "007", "4294967295", "4294967296", "99999999999999999999", "2147483647",
        "2147483648", "-2147483648", "-2147483649", "-99999999999999999999", "12a", " 1", "1 ", "+-1", "--1", "٣", "-5",
        "+5",
    ];
    for t in texts {
        match (parse_u32(t), t.parse::<u32>()) {
            (Ok(a), Ok(b)) => assert_eq!(a, b),
            (Err(a), Err(b)) => assert_eq!(a.message(), b.to_string(), "{t:?}"),
            (a, b) => panic!("{t:?}: {a:?} {b:?}"),
        }
        match (parse_i32(t), t.parse::<i32>()) {
            (Ok(a), Ok(b)) => assert_eq!(a, b),
            (Err(a), Err(b)) => assert_eq!(a.message(), b.to_string(), "{t:?}"),
            (a, b) => panic!("{t:?}: {a:?} {b:?}"),
        }
    }
}

#[test]
fn numbers_are_written_as_std_writes_them() {
    for n in [0u64, 9, 10, 99, 100, 12345, u32::MAX as u64, u64::MAX] {
        let mut s = String::from("x");
        push_decimal(&mut s, n);
        assert_eq!(s, format!("x{n}"));
    }
    for n in [0i64, -1, 42, i32::MIN as i64, i64::MAX, i64::MIN] {
        let mut s = String::new();
        push_signed(&mut s, n);
        assert_eq!(s, n.to_string());
    }
}

#[test]
fn paths_join_as_std_joins_them() {
    for base in ["", "/", "/run", "/run/", "rel", "a//"] {
        for name in ["", "x", "/abs", "a/b", "."] {
            let std = std::path::Path::new(base).join(name);
            assert_eq!(join_path(base, name), std.to_str().unwrap(), "{base:?} {name:?}");
        }
    }
}

#[test]
fn the_runtime_directory_has_a_default() {
    assert_eq!(default_runtime_dir(None), "/tmp/redfog-runtime");
    assert_eq!(default_runtime_dir(Some("/run/r".to_string())), "/run/r");
}
