//! Texts, numbers and JSON.

use nonoka::alphabet::order_words;
use nonoka::encoding::data_url;
use nonoka::json::{self, Fields, Items, Json};
use nonoka::number::{div, fmt_secs, modulo, to_unsigned};
use nonoka::order::{order_ascending, order_descending};
use nonoka::path;
use nonoka::report::{Piece, Report};
use nonoka::tally::Tally;
use nonoka::text;
use nonoka::textmap::TextMap;

#[test]
fn spaces_are_those_of_the_standard_library() {
    for n in 0..=0x10ffffu32 {
        if let Some(c) = char::from_u32(n) {
            assert_eq!(text::space(c), c.is_whitespace(), "{n:x}");
        }
    }
}

#[test]
fn texts_are_cut_as_the_standard_library_cuts_them() {
    for s in ["", "  ", "\u{3000}a\u{85}", "a b", "//a//", "a.b.c", "x\r\ny\n\nz", "三行\n", "\n"] {
        assert_eq!(text::trim(s), s.trim());
        assert_eq!(text::trim_end(s), s.trim_end());
        assert_eq!(text::trim_end_of(s, '/'), s.trim_end_matches('/'));
        assert_eq!(text::trim_start_of(s, '/'), s.trim_start_matches('/'));
        assert_eq!(text::to_ascii_lowercase(s), s.to_ascii_lowercase());
        assert_eq!(text::lines(s), s.lines().collect::<Vec<_>>());
        assert_eq!(text::split(s, '.'), s.split('.').collect::<Vec<_>>());
        assert_eq!(text::after_last(s, '.'), s.rsplit('.').next().unwrap());
        assert_eq!(text::byte_len(s), s.len() as u128);
        assert_eq!(text::until(s, "b"), s.split('b').next().unwrap());
        assert_eq!(text::contains(s, "b"), s.contains("b"));
        assert_eq!(text::starts_with(s, "a"), s.starts_with("a"));
        assert_eq!(text::ends_with(s, "c"), s.ends_with("c"));
    }
    assert_eq!(text::strip_prefix("ab", "a"), Some("b".to_string()));
    assert_eq!(text::strip_prefix("ab", "b"), None);
    assert_eq!(text::between("a?b?c", "?"), Some("b".to_string()));
    assert_eq!(text::between("a", "?"), None);
    assert_eq!(text::byte_len("a¢€😀"), 10);
}

#[test]
fn numbers_are_written_and_read() {
    for n in [0u128, 7, 10, 1234567890, u128::MAX] {
        assert_eq!(text::decimal_text(n), n.to_string());
    }
    for n in [0i128, -7, 42, i128::MAX] {
        assert_eq!(text::signed_text(n), n.to_string());
        assert_eq!(text::plus_signed_text(n), format!("{n:+}"));
    }
    for s in ["", "0", "007", "+5", "-5", "9x", "18446744073709551615", "18446744073709551616"] {
        assert_eq!(text::parse_unsigned(s, u64::MAX), s.parse::<u64>().ok(), "{s}");
    }
    for s in ["", "-", "+", "-0", "9223372036854775807", "9223372036854775808", "-9223372036854775808"] {
        assert_eq!(text::parse_integer(s), s.parse::<i64>().ok(), "{s}");
    }
    for (a, b) in [(7i64, 2u32), (-7, 2), (0, 5), (i64::MIN, 3)] {
        assert_eq!(div(a, b), a / i64::from(b));
        assert_eq!(modulo(a, b), a % i64::from(b));
    }
    for n in [0i64, -1, i64::MIN, 5] {
        assert_eq!(to_unsigned(n), n as u64);
    }
    assert_eq!(fmt_secs(65), "1:05");
    assert_eq!(fmt_secs(3600), "60:00");
}

fn serde(value: &Json) -> serde_json::Value {
    match value {
        Json::Null => serde_json::Value::Null,
        Json::Bool(b) => serde_json::Value::from(*b),
        Json::Unsigned(n) => serde_json::Value::from(*n),
        Json::Negative(n) => serde_json::Value::from(*n),
        Json::Real(s) => serde_json::from_str(s).unwrap(),
        Json::Text(s) => serde_json::Value::from(s.as_str()),
        Json::Array(v) => serde_json::Value::Array(v.iter().map(serde).collect()),
        Json::Object(v) => {
            serde_json::Value::Object(v.iter().map(|(k, v)| (k.clone(), serde(v))).collect())
        }
    }
}

#[test]
fn json_is_written_as_serde_writes_it() {
    let strange: String = (0..0x80u32)
        .filter_map(char::from_u32)
        .chain("\u{7f}\u{85}三😀\u{2028}".chars())
        .collect();
    let value = Fields::new()
        .with("a", Json::Null)
        .with("b", Json::Bool(true))
        .with("c", json::integer(-5))
        .with("d", json::integer(5))
        .with("e", Items::new().with(json::string(&strange)).with(json::string("")).build())
        .with("f", Fields::new().build())
        .with("g", Items::new().build())
        .with("h", Json::Real("1.5".to_string()))
        .with("i", json::integer(i64::MIN))
        .build();
    assert_eq!(value.to_text(), serde(&value).to_string());
    assert_eq!(value.duplicate(), value);
    assert_eq!(json::string("a\"\u{1}").to_text(), "\"a\\\"\\u0001\"");
}

#[test]
fn json_is_read_member_by_member() {
    let value = Fields::new()
        .with("t", json::string("x"))
        .with("n", json::integer(-3))
        .with("t", json::string("second"))
        .build();
    assert_eq!(value.text_at("t"), Some("x"));
    assert_eq!(value.integer_at("n"), Some(-3));
    assert_eq!(value.natural_at("n"), None);
    assert_eq!(value.get("none"), None);
    assert_eq!(Json::Null.get("t"), None);
    assert_eq!(value.text_or("none", "d"), "d");
    assert_eq!(value.integer_or("t", 9), 9);
    assert_eq!(Json::Unsigned(u64::MAX).as_i64(), None);
    assert_eq!(Json::Unsigned(u64::MAX).as_u64(), Some(u64::MAX));
}

#[test]
fn bytes_become_data_urls() {
    assert_eq!(data_url("a/b", b""), "data:a/b;base64,");
    assert_eq!(data_url("a/b", b"f"), "data:a/b;base64,Zg==");
    assert_eq!(data_url("a/b", b"fo"), "data:a/b;base64,Zm8=");
    assert_eq!(data_url("a/b", b"foo"), "data:a/b;base64,Zm9v");
    assert_eq!(data_url("a/b", &[0xfb, 0xff]), "data:a/b;base64,+/8=");
}

#[test]
fn items_are_put_in_order() {
    assert_eq!(order_ascending(&vec![3, 1, 3, 2]), vec![1, 3, 0, 2]);
    assert_eq!(order_descending(&vec![3, 1, 3, 2]), vec![0, 2, 3, 1]);
    let words: Vec<Vec<u32>> = ["b", "a", "ab", "", "a"]
        .iter()
        .map(|w| w.chars().map(u32::from).collect())
        .collect();
    assert_eq!(order_words(&words), vec![3, 1, 4, 2, 0]);
}

#[test]
fn paths_are_joined_as_the_standard_library_joins_them() {
    for (base, rel) in [("/a", "b"), ("/a/", "b"), ("/a", "/b"), ("", "b"), ("a", "")] {
        assert_eq!(
            path::join(base, rel),
            std::path::Path::new(base).join(rel).to_str().unwrap()
        );
    }
}

#[test]
fn maps_keep_the_last_value() {
    let mut map = TextMap::new();
    map.insert("a", 1u64);
    map.insert("b", 2);
    map.insert("a", 3);
    assert_eq!(map.get("a"), Some(&3));
    assert_eq!(map.get("b"), Some(&2));
    assert_eq!(map.get("c"), None);
}

#[test]
fn tallies_count_games_and_wins() {
    let mut tally = Tally::new();
    tally.count("x", true);
    tally.count("y", false);
    tally.count("x", false);
    assert_eq!(tally.games(), 3);
    assert_eq!((tally.rows[0].games, tally.rows[0].wins), (2, 1));
    tally.assign("y", 9, 4);
    assert_eq!((tally.rows[1].games, tally.rows[1].wins), (9, 4));
}

#[test]
fn reports_are_filled_with_their_numbers() {
    let mut report = Report::new();
    report.text("rate ");
    report.rate(1, 3, 1);
    report.text("%, ");
    report.fixed("2.5", 2);
    assert!(matches!(report.pieces[1], Piece::Rate { wins: 1, games: 3, decimals: 1 }));
    assert_eq!(
        report.fill(&vec!["33.3".to_string(), "2.50".to_string()]),
        "rate 33.3%, 2.50"
    );
}
