use phpxx::lex::{Token, Tokens};

#[test]
fn cursor_walks_the_stream() {
    let items = vec![Token::Echo, Token::Number];
    let spans = vec![0..4, 5..6];
    let numbers = vec![None, Some(4.0f64.to_bits())];
    let mut tokens = Tokens::new(&items, &spans, &numbers);
    assert!(tokens.has_next());
    assert_eq!(tokens.peek(), Some(&Token::Echo));
    assert_eq!(tokens.next(), Some(&Token::Echo));
    assert_eq!(tokens.span(), 0..4);
    assert_eq!(tokens.next(), Some(&Token::Number));
    assert_eq!(tokens.number(), Some(4.0f64.to_bits()));
    assert_eq!(tokens.next(), None);
    assert_eq!(tokens.span(), 5..6);
    assert!(!tokens.has_next());
}
