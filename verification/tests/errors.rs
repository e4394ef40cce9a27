use saphyr::scanner::{ScanError, Scanner, TEncoding, Token, TokenType};

fn scan(input: &str) -> (Vec<Token>, Option<ScanError>) {
    let mut scanner = Scanner::new(input.chars().collect());
    let mut tokens = Vec::new();
    while let Some(token) = scanner.next() {
        tokens.push(token);
    }
    (tokens, scanner.get_error())
}

fn error_at(input: &str) -> (String, usize, usize, usize) {
    let (_, error) = scan(input);
    match error {
        Some(e) => {
            (e.info().to_string(), e.marker().index(), e.marker().line(), e.marker().col())
        }
        None => panic!("no error on {:?}", input),
    }
}

#[test]
fn required_simple_key_removed_at_flow_end() {
    assert_eq!(error_at("- [\nx ]"), ("simple key expected".to_string(), 6, 2, 2));
}

#[test]
fn required_simple_key_left_behind_on_its_line() {
    assert_eq!(error_at("- [\nx\n]"), ("simple key expected".to_string(), 6, 3, 0));
}

#[test]
fn flow_nesting_is_limited() {
    let deep = "[".repeat(255);
    let (tokens, error) = scan(&deep);
    assert_eq!(error, None);
    assert_eq!(tokens.len(), 257);
    // Every `[` may start a simple key, so none is handed out before the
    // line is read to its end: the error comes first.
    let deeper = "[".repeat(256);
    let (tokens, error) = scan(&deeper);
    assert_eq!(tokens.len(), 1);
    let e = error.unwrap();
    assert_eq!(e.info(), "recursion limit exceeded");
    assert_eq!(e.marker().index(), 255);
}

#[test]
fn block_entry_inside_flow() {
    assert_eq!(
        error_at("[- a]"),
        ("\"-\" is only valid inside a block".to_string(), 1, 1, 1)
    );
}

#[test]
fn block_entry_behind_a_scalar() {
    assert_eq!(
        error_at("'a' - b"),
        ("block sequence entries are not allowed in this context".to_string(), 4, 1, 4)
    );
    assert_eq!(
        error_at("- !t - b"),
        ("block sequence entries are not allowed in this context".to_string(), 5, 1, 5)
    );
}

#[test]
fn explicit_key_behind_a_scalar() {
    assert_eq!(
        error_at("'a' ? b"),
        ("mapping keys are not allowed in this context".to_string(), 4, 1, 4)
    );
    assert_eq!(
        error_at("&x ? b"),
        ("mapping keys are not allowed in this context".to_string(), 3, 1, 3)
    );
}

#[test]
fn value_without_a_key() {
    assert_eq!(
        error_at("'a\n b': c"),
        ("mapping values are not allowed in this context".to_string(), 6, 2, 3)
    );
    // A flow end gives up the candidate and allows no new one.
    assert_eq!(
        error_at("] : b"),
        ("mapping values are not allowed in this context".to_string(), 2, 1, 2)
    );
}

#[test]
fn tab_before_a_block_indicator() {
    let info = "tabs disallowed within this context (block indentation)".to_string();
    assert_eq!(error_at("\t- x"), (info.clone(), 1, 1, 1));
    assert_eq!(error_at(" \t - x"), (info.clone(), 3, 1, 3));
    assert_eq!(error_at("a:\n\t- x"), (info.clone(), 4, 2, 1));
    assert_eq!(error_at("\t? a"), (info.clone(), 1, 1, 1));
    assert_eq!(error_at("? 'a'\n\t: b"), (info.clone(), 7, 2, 1));
    assert_eq!(error_at("\t-"), (info.clone(), 1, 1, 1));
}

#[test]
fn tab_before_a_block_mapping_key() {
    let info = "tabs disallowed within this context (block indentation)".to_string();
    assert_eq!(error_at("\ta: b"), (info.clone(), 1, 1, 1));
    assert_eq!(error_at("a:\n \tb: c"), (info.clone(), 5, 2, 2));
    assert_eq!(error_at("\t'a' : b"), (info.clone(), 1, 1, 1));
}

#[test]
fn tab_that_leads_no_block_token_is_skipped() {
    // Before a scalar that is no key, inside a flow collection, and behind
    // text, a tab is a blank like a space.
    for input in ["\tabc", "a:\n\tb", "{\n\t? a}", "{\n\ta: b}", "[\n\ta]", "- a\t- b", "\t-x"] {
        let (_, error) = scan(input);
        assert_eq!(error, None, "{:?}", input);
    }
    let (tokens, _) = scan("a:\n\tb");
    let kinds: Vec<TokenType> = tokens.into_iter().map(|t| t.1).collect();
    assert_eq!(
        kinds,
        vec![
            TokenType::StreamStart(TEncoding::Utf8),
            TokenType::BlockMappingStart,
            TokenType::Key,
            TokenType::Scalar(saphyr::scanner::TScalarStyle::Plain, "a".to_string()),
            TokenType::Value,
            TokenType::Scalar(saphyr::scanner::TScalarStyle::Plain, "b".to_string()),
            TokenType::BlockEnd,
            TokenType::StreamEnd,
        ]
    );
}

#[test]
fn tab_behind_text_is_no_indentation() {
    let (_, error) = scan(" a:\n  b\t: c");
    assert_eq!(error, None);
}

#[test]
fn error_is_latched() {
    let mut scanner = Scanner::new("a: 'b' - c".chars().collect());
    let mut count = 0;
    while let Some(_) = scanner.next() {
        count += 1;
    }
    assert_eq!(count, 5);
    let first = scanner.get_error();
    assert!(first.is_some());
    let mark = scanner.mark();
    assert!(scanner.next().is_none());
    assert!(scanner.next().is_none());
    assert_eq!(scanner.get_error(), first);
    assert_eq!(scanner.mark(), mark);
    assert!(!scanner.stream_ended());
}

#[test]
fn tokens_before_an_error_are_handed_out() {
    let (tokens, error) = scan("a: 'b");
    let kinds: Vec<TokenType> = tokens.into_iter().map(|t| t.1).collect();
    assert_eq!(
        kinds,
        vec![
            TokenType::StreamStart(TEncoding::Utf8),
            TokenType::BlockMappingStart,
            TokenType::Key,
            TokenType::Scalar(saphyr::scanner::TScalarStyle::Plain, "a".to_string()),
            TokenType::Value,
        ]
    );
    assert_eq!(
        error.unwrap().info(),
        "while scanning a quoted scalar, found unexpected end of stream"
    );
}

#[test]
fn error_shown_with_line_and_column_from_one() {
    let (_, error) = scan("'a' - b");
    assert_eq!(
        error.unwrap().to_string(),
        "block sequence entries are not allowed in this context at line 1 column 5"
    );
    let (_, error) = scan("a:\n  b\nc: 'd");
    assert_eq!(
        error.unwrap().to_string(),
        "while scanning a quoted scalar, found unexpected end of stream at line 3 column 4"
    );
}

#[test]
fn error_shown_with_long_numbers() {
    let mut input = "\n".repeat(1234);
    input.push_str(&" ".repeat(99));
    input.push('@');
    let (_, error) = scan(&input);
    let e = error.unwrap();
    assert_eq!(e.to_string(), "unexpected character: `@' at line 1235 column 100");
    assert_eq!(ScanError::new(*e.marker(), "x").to_string(), "x at line 1235 column 100");
}

#[test]
fn scan_error_is_built_from_its_parts() {
    let scanner = Scanner::new("abc".chars().collect());
    let e = ScanError::new(scanner.mark(), "oops");
    assert_eq!(e.info(), "oops");
    assert_eq!(e.marker().index(), 0);
    assert_eq!(e.marker().line(), 1);
    assert_eq!(e.marker().col(), 0);
    assert_eq!(e.clone(), e);
    assert_eq!(e.to_string(), "oops at line 1 column 1");
}
