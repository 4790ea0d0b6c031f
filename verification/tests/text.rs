use todo::text::id_text;
use todo::text::parse_id;
use todo::text::same_text;
use todo::words::is_separator;
use todo::words::join_from;
use todo::words::split_words;
use todo::tokenize;

fn strings(items: &[&str]) -> Vec<String> {
    items.iter().map(|s| s.to_string()).collect()
}

#[test]
fn parse_id_reads_plain_numerals() {
    assert_eq!(parse_id("0"), Some(0));
    assert_eq!(parse_id("1"), Some(1));
    assert_eq!(parse_id("42"), Some(42));
    assert_eq!(parse_id("999"), Some(999));
    assert_eq!(parse_id("007"), Some(7));
    assert_eq!(parse_id("+5"), Some(5));
    assert_eq!(parse_id("18446744073709551615"), Some(u64::MAX));
    assert_eq!(parse_id("00018446744073709551615"), Some(u64::MAX));
}

#[test]
fn parse_id_refuses_everything_else() {
    for token in [
        "", "+", "-", "-1", "1.5", "abc", "12a", "a12", " 1", "1 ", "1_000", "++1", "+-1",
        "18446744073709551616", "99999999999999999999999", "٣", "１",
    ] {
        assert_eq!(parse_id(token), None, "token {:?}", token);
    }
}

#[test]
fn parse_id_agrees_with_the_standard_parser() {
    let tokens = [
        "", "0", "+0", "-0", "1", "+", "10", "0010", "18446744073709551615",
        "18446744073709551616", "184467440737095516150", "+18446744073709551615", "x", "1x",
        "+1+", "4294967296", "  7", "7\n",
    ];
    for token in tokens {
        assert_eq!(parse_id(token), token.parse::<u64>().ok(), "token {:?}", token);
    }
}

#[test]
fn id_text_is_the_decimal_numeral() {
    assert_eq!(id_text(0), "0");
    assert_eq!(id_text(7), "7");
    assert_eq!(id_text(10), "10");
    assert_eq!(id_text(1234567890), "1234567890");
    assert_eq!(id_text(u64::MAX), "18446744073709551615");
}

#[test]
fn id_text_reads_back() {
    let mut id: u64 = 1;
    while id < u64::MAX / 7 {
        assert_eq!(id_text(id), id.to_string());
        assert_eq!(parse_id(&id_text(id)), Some(id));
        id = id * 7 + 3;
    }
    assert_eq!(parse_id(&id_text(u64::MAX)), Some(u64::MAX));
}

#[test]
fn same_text_compares_characters() {
    assert!(same_text(&"add".to_string(), "add"));
    assert!(!same_text(&"add".to_string(), "ad"));
    assert!(!same_text(&"Add".to_string(), "add"));
    assert!(same_text(&String::new(), ""));
}

#[test]
fn separators_are_the_whitespace_characters() {
    let mut code: u32 = 0;
    while code <= 0x10FFFF {
        if let Some(c) = char::from_u32(code) {
            assert_eq!(is_separator(c), c.is_whitespace(), "character {:?}", c);
        }
        code += 1;
    }
}

#[test]
fn split_words_splits_at_runs_of_whitespace() {
    assert_eq!(split_words(""), strings(&[]));
    assert_eq!(split_words("   \t \n"), strings(&[]));
    assert_eq!(split_words("add"), strings(&["add"]));
    assert_eq!(split_words("  add   buy \t milk  "), strings(&["add", "buy", "milk"]));
    assert_eq!(split_words("a\u{3000}b\u{00A0}c"), strings(&["a", "b", "c"]));
    assert_eq!(split_words("héllo wörld"), strings(&["héllo", "wörld"]));
}

#[test]
fn split_words_agrees_with_the_standard_splitter() {
    for line in ["", " ", "x", " x", "x ", "a b", "a  b\tc\r\nd", "  täsk \u{2003} ünï  ", "\u{85}a"] {
        let expected: Vec<String> = line.split_whitespace().map(|w| w.to_string()).collect();
        assert_eq!(split_words(line), expected, "line {:?}", line);
    }
}

#[test]
fn join_from_puts_single_spaces_between() {
    let words = strings(&["update", "3", "buy", "more", "milk"]);
    assert_eq!(join_from(&words, 2), "buy more milk");
    assert_eq!(join_from(&words, 4), "milk");
    assert_eq!(join_from(&words, 5), "");
    assert_eq!(join_from(&words, 0), "update 3 buy more milk");
}

#[test]
fn tokenize_joins_the_free_text() {
    assert_eq!(tokenize(""), strings(&[]));
    assert_eq!(tokenize("   "), strings(&[]));
    assert_eq!(tokenize("show"), strings(&["show"]));
    assert_eq!(tokenize("add buy milk"), strings(&["add", "buy milk"]));
    assert_eq!(tokenize("  add   buy    milk  "), strings(&["add", "buy milk"]));
    assert_eq!(tokenize("delete 3"), strings(&["delete", "3"]));
    assert_eq!(tokenize("delete 3 4"), strings(&["delete", "3 4"]));
    assert_eq!(tokenize("done 12"), strings(&["done", "12"]));
}

#[test]
fn tokenize_keeps_the_id_of_update_apart() {
    assert_eq!(tokenize("update"), strings(&["update"]));
    assert_eq!(tokenize("update 3"), strings(&["update", "3"]));
    assert_eq!(tokenize("update 3 buy bread"), strings(&["update", "3", "buy bread"]));
    assert_eq!(tokenize("update 3   a  b   c"), strings(&["update", "3", "a b c"]));
    assert_eq!(tokenize("Update 3 a b"), strings(&["Update", "3 a b"]));
}
