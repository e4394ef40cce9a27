use saphyr::scanner::{Scanner, TEncoding, TScalarStyle, TokenType};

fn plain(s: &str) -> TokenType {
    TokenType::Scalar(TScalarStyle::Plain, s.to_string())
}

#[test]
fn new_scanner_has_read_nothing() {
    let scanner = Scanner::new("a: b".chars().collect());
    assert!(!scanner.stream_started());
    assert!(!scanner.stream_ended());
    assert_eq!(scanner.get_error(), None);
    let mark = scanner.mark();
    assert_eq!((mark.index(), mark.line(), mark.col()), (0, 1, 0));
}

#[test]
fn first_fetch_produces_the_stream_start_only() {
    let mut scanner = Scanner::new("a: b".chars().collect());
    assert_eq!(scanner.fetch_next_token(), Ok(()));
    assert!(scanner.stream_started());
    assert_eq!(scanner.mark().index(), 0);
    let token = scanner.next_token().unwrap().unwrap();
    assert_eq!(token.1, TokenType::StreamStart(TEncoding::Utf8));
    assert_eq!(token.0.index(), 0);
}

#[test]
fn fetch_more_tokens_waits_for_the_key_to_be_settled() {
    let mut scanner = Scanner::new("a: b".chars().collect());
    assert_eq!(scanner.next_token().unwrap().unwrap().1, TokenType::StreamStart(TEncoding::Utf8));
    assert_eq!(scanner.fetch_more_tokens(), Ok(()));
    // The scalar `a` could still become a key: the `:` had to be read.
    assert_eq!(scanner.mark().index(), 2);
    assert_eq!(scanner.next_token().unwrap().unwrap().1, TokenType::BlockMappingStart);
    assert_eq!(scanner.next_token().unwrap().unwrap().1, TokenType::Key);
    assert_eq!(scanner.next_token().unwrap().unwrap().1, plain("a"));
    assert_eq!(scanner.next_token().unwrap().unwrap().1, TokenType::Value);
    assert_eq!(scanner.next_token().unwrap().unwrap().1, plain("b"));
    assert_eq!(scanner.next_token().unwrap().unwrap().1, TokenType::BlockEnd);
    assert!(!scanner.stream_ended());
    assert_eq!(scanner.next_token().unwrap().unwrap().1, TokenType::StreamEnd);
    assert!(scanner.stream_ended());
    assert_eq!(scanner.next_token(), Ok(None));
    assert_eq!(scanner.next_token(), Ok(None));
    assert_eq!(scanner.next(), None);
}

#[test]
fn next_token_latches_the_first_error() {
    let mut scanner = Scanner::new("@ a".chars().collect());
    assert!(scanner.next_token().unwrap().is_some());
    let e = scanner.next_token().unwrap_err();
    assert_eq!(e.info(), "unexpected character: `@'");
    assert_eq!(scanner.get_error(), Some(e.clone()));
    let mark = scanner.mark();
    // Behind the error nothing is read and nothing is handed out.
    assert_eq!(scanner.next_token(), Ok(None));
    assert_eq!(scanner.next_token(), Ok(None));
    assert_eq!(scanner.next(), None);
    assert_eq!(scanner.mark(), mark);
    assert_eq!(scanner.get_error(), Some(e));
    assert!(!scanner.stream_ended());
}

#[test]
fn next_latches_the_first_error() {
    let mut scanner = Scanner::new("a: 'b".chars().collect());
    let mut count = 0;
    while let Some(_) = scanner.next() {
        count += 1;
    }
    assert_eq!(count, 5);
    let e = scanner.get_error().unwrap();
    assert_eq!(e.info(), "while scanning a quoted scalar, found unexpected end of stream");
    assert_eq!(scanner.next_token(), Ok(None));
    assert_eq!(scanner.get_error(), Some(e));
}

#[test]
fn stream_end_is_marked_on_a_new_line() {
    let mut scanner = Scanner::new("ab".chars().collect());
    let mut last = None;
    while let Some(t) = scanner.next() {
        last = Some(t);
    }
    let last = last.unwrap();
    assert_eq!(last.1, TokenType::StreamEnd);
    assert_eq!((last.0.index(), last.0.line(), last.0.col()), (2, 2, 0));
    let mut scanner = Scanner::new("ab\n".chars().collect());
    let mut last = None;
    while let Some(t) = scanner.next() {
        last = Some(t);
    }
    let last = last.unwrap();
    assert_eq!((last.0.index(), last.0.line(), last.0.col()), (3, 2, 0));
}

#[test]
fn extra_fetches_at_the_end_queue_stream_ends() {
    let mut scanner = Scanner::new("".chars().collect());
    assert_eq!(scanner.fetch_next_token(), Ok(()));
    assert_eq!(scanner.fetch_next_token(), Ok(()));
    assert_eq!(scanner.fetch_next_token(), Ok(()));
    assert_eq!(scanner.next_token().unwrap().unwrap().1, TokenType::StreamStart(TEncoding::Utf8));
    assert_eq!(scanner.next_token().unwrap().unwrap().1, TokenType::StreamEnd);
    assert_eq!(scanner.next_token(), Ok(None));
}
