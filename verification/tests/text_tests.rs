use phpxx::error::Error;
use phpxx::lex::{Token, Tokens};
use phpxx::table::{find, put};
use phpxx::text::{
    count_matches, drop_last_graphemes, drop_last_parts, escape, graphemes, join_range,
    reverse_graphemes, reverse_parts, slice_text, take_last_graphemes, take_last_parts, text_less,
    unescape,
};
use phpxx::visualize::decimal_text;

#[test]
fn slice_text_cuts_by_bytes() {
    assert_eq!(slice_text("héllo wörld", &(0..6)), "héllo");
    assert_eq!(slice_text("héllo wörld", &(7..13)), "wörld");
    assert_eq!(slice_text("abc", &(1..1)), "");
}

#[test]
fn unescape_resolves_quotes_and_escapes() {
    assert_eq!(unescape("\"a\\nb\""), Some("a\nb".to_string()));
    assert_eq!(unescape("\"\\u{41}\""), Some("A".to_string()));
    assert_eq!(unescape("\"\\q\""), None);
    assert_eq!(unescape("\"\\u\""), None);
}

#[test]
fn escape_quotes_where_needed() {
    assert_eq!(escape("plain"), "plain");
    assert_eq!(escape("two words"), "'two words'");
    assert_eq!(escape("tab\there"), "\"tab\\there\"");
}

#[test]
fn grapheme_helpers() {
    assert_eq!(drop_last_graphemes("abc", 1), "ab");
    assert_eq!(drop_last_graphemes("abc", 3), "");
    assert_eq!(drop_last_graphemes("abc", 7), "");
    assert_eq!(drop_last_graphemes("abc", 0), "abc");
    assert_eq!(take_last_graphemes("abc", 2), "bc");
    assert_eq!(take_last_graphemes("abc", 0), "");
    assert_eq!(take_last_graphemes("abc", 9), "abc");
    assert_eq!(reverse_graphemes("abc"), "cba");
    assert_eq!(reverse_graphemes("e\u{301}x"), "xe\u{301}");
    assert_eq!(reverse_graphemes(""), "");
    assert_eq!(drop_last_graphemes("xe\u{301}", 1), "x");
}

#[test]
fn text_less_orders_by_bytes() {
    let samples = ["", "a", "ab", "b", "B", "é", "z", "aa"];
    for a in samples {
        for b in samples {
            assert_eq!(text_less(a, b), a < b, "{:?} < {:?}", a, b);
        }
    }
}

#[test]
fn count_matches_counts_without_overlap() {
    let cases = [
        ("", "a"),
        ("abc", ""),
        ("", ""),
        ("aaaa", "aa"),
        ("aaa", "aa"),
        ("abcabc", "bc"),
        ("abc", "abcd"),
        ("éé", "é"),
        ("éa", ""),
        ("abab", "ab"),
    ];
    for (hay, needle) in cases {
        assert_eq!(count_matches(hay, needle), hay.matches(needle).count(), "{:?} {:?}", hay, needle);
    }
}

#[test]
fn tables_overwrite_in_place() {
    let mut entries: Vec<(String, u64)> = Vec::new();
    put(&mut entries, "a".to_string(), 1);
    put(&mut entries, "b".to_string(), 2);
    put(&mut entries, "a".to_string(), 3);
    assert_eq!(entries, vec![("a".to_string(), 3), ("b".to_string(), 2)]);
    assert_eq!(find(&entries, &"b".to_string()), Some(1));
    assert_eq!(find(&entries, &"c".to_string()), None);
}

#[test]
fn error_holds_message_and_location() {
    let error = Error::new("bad".to_string(), Some(1..2));
    assert_eq!(error.message, "bad");
    assert_eq!(error.location, Some(1..2));
    assert_eq!(Error::new("bad".to_string(), None).location, None);
}

#[test]
fn cursor_positions() {
    let items = vec![Token::If, Token::Number, Token::Begin];
    let spans = vec![0..2, 3..4, 5..6];
    let numbers = vec![None, Some(1), None];
    let mut tokens = Tokens::new(&items, &spans, &numbers);
    assert_eq!(tokens.span_explicit(), None);
    assert_eq!(tokens.span(), 0..0);
    assert_eq!(tokens.number(), None);
    assert_eq!(tokens.remember(), 0);
    tokens.advance();
    assert_eq!(tokens.remember(), 1);
    assert_eq!(tokens.span_explicit(), Some(0..2));
    tokens.advance_by(2);
    assert_eq!(tokens.peek(), None);
    assert_eq!(tokens.span(), 5..6);
    tokens.backtrack(1);
    assert_eq!(tokens.peek(), Some(&Token::Number));
    assert_eq!(tokens.get_token(2), Some(&Token::Begin));
    assert_eq!(tokens.get_token(3), None);
    assert_eq!(tokens.get_span(1), Some(&(3..4)));
    assert_eq!(tokens.get_span(3), None);
    tokens.backtrack(9);
    assert_eq!(tokens.span_explicit(), None);
    assert_eq!(tokens.next(), None);
    assert_eq!(tokens.remember(), 9);
}

#[test]
fn spans_are_checked_against_the_text() {
    let items = vec![Token::Identifier];
    let numbers = vec![None];
    let good = vec![0..2];
    let past = vec![0..9];
    let backwards = vec![2..1];
    let inside = vec![0..1];
    assert!(Tokens::new(&items, &good, &numbers).spans_within("éa"));
    assert!(!Tokens::new(&items, &past, &numbers).spans_within("éa"));
    assert!(!Tokens::new(&items, &backwards, &numbers).spans_within("éa"));
    assert!(!Tokens::new(&items, &inside, &numbers).spans_within("éa"));
}

#[test]
fn parts_are_joined_as_asked() {
    let parts = vec!["ab".to_string(), "c".to_string(), "".to_string(), "de".to_string()];
    assert_eq!(drop_last_parts(&parts, 0), "abcde");
    assert_eq!(drop_last_parts(&parts, 1), "abc");
    assert_eq!(drop_last_parts(&parts, 3), "ab");
    assert_eq!(drop_last_parts(&parts, 4), "");
    assert_eq!(drop_last_parts(&parts, 9), "");
    assert_eq!(take_last_parts(&parts, 0), "");
    assert_eq!(take_last_parts(&parts, 1), "de");
    assert_eq!(take_last_parts(&parts, 3), "cde");
    assert_eq!(take_last_parts(&parts, 9), "abcde");
    assert_eq!(reverse_parts(&parts), "decab");
    assert_eq!(reverse_parts(&vec![]), "");
    assert_eq!(join_range(&parts, 1, 4), "cde");
    assert_eq!(join_range(&parts, 2, 2), "");
}

#[test]
fn graphemes_are_the_clusters() {
    assert_eq!(graphemes("e\u{301}x"), vec!["e\u{301}".to_string(), "x".to_string()]);
    assert!(graphemes("").is_empty());
}

#[test]
fn decimal_text_writes_the_digits() {
    for n in [0usize, 7, 10, 42, 100, 909, 12345, usize::MAX] {
        assert_eq!(decimal_text(n), n.to_string());
    }
}
