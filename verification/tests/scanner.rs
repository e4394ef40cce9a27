use saphyr::scanner::Scanner;
use saphyr::token::{ScanError, TEncoding, TScalarStyle, Token, TokenType};

fn scan(input: &str) -> (Vec<Token>, Option<ScanError>) {
    let mut scanner = Scanner::new(input.chars().collect());
    let mut tokens = Vec::new();
    while let Some(token) = scanner.next() {
        tokens.push(token);
    }
    (tokens, scanner.get_error())
}

fn kinds(input: &str) -> Vec<TokenType> {
    let (tokens, error) = scan(input);
    assert_eq!(error, None);
    tokens.into_iter().map(|t| t.1).collect()
}

fn error_of(input: &str) -> ScanError {
    let (_, error) = scan(input);
    match error {
        Some(e) => e,
        None => panic!("no error on {:?}", input),
    }
}

fn plain(s: &str) -> TokenType {
    TokenType::Scalar(TScalarStyle::Plain, s.to_string())
}

#[test]
fn block_mapping_of_two_pairs() {
    assert_eq!(
        kinds("a: 1\nb: 2\n"),
        vec![
            TokenType::StreamStart(TEncoding::Utf8),
            TokenType::BlockMappingStart,
            TokenType::Key,
            plain("a"),
            TokenType::Value,
            plain("1"),
            TokenType::Key,
            plain("b"),
            TokenType::Value,
            plain("2"),
            TokenType::BlockEnd,
            TokenType::StreamEnd,
        ]
    );
}

#[test]
fn block_sequence_of_two_entries() {
    assert_eq!(
        kinds("- x\n- y\n"),
        vec![
            TokenType::StreamStart(TEncoding::Utf8),
            TokenType::BlockSequenceStart,
            TokenType::BlockEntry,
            plain("x"),
            TokenType::BlockEntry,
            plain("y"),
            TokenType::BlockEnd,
            TokenType::StreamEnd,
        ]
    );
}

#[test]
fn double_quoted_with_escaped_newline() {
    assert_eq!(
        kinds("\"a\\nb\""),
        vec![
            TokenType::StreamStart(TEncoding::Utf8),
            TokenType::Scalar(TScalarStyle::DoubleQuoted, "a\nb".to_string()),
            TokenType::StreamEnd,
        ]
    );
}

#[test]
fn double_quoted_line_break_folds_to_space() {
    assert_eq!(
        kinds("\"a\nb\""),
        vec![
            TokenType::StreamStart(TEncoding::Utf8),
            TokenType::Scalar(TScalarStyle::DoubleQuoted, "a b".to_string()),
            TokenType::StreamEnd,
        ]
    );
}

#[test]
fn literal_block_scalar() {
    assert_eq!(
        kinds("|\n  hello\n  world\n"),
        vec![
            TokenType::StreamStart(TEncoding::Utf8),
            TokenType::Scalar(TScalarStyle::Literal, "hello\nworld\n".to_string()),
            TokenType::StreamEnd,
        ]
    );
}

#[test]
fn folded_block_scalar() {
    assert_eq!(
        kinds(">\n  hello\n  world\n"),
        vec![
            TokenType::StreamStart(TEncoding::Utf8),
            TokenType::Scalar(TScalarStyle::Folded, "hello world\n".to_string()),
            TokenType::StreamEnd,
        ]
    );
}

#[test]
fn flow_mapping_with_nested_sequence() {
    assert_eq!(
        kinds("{a: [1, 2], b: 3}"),
        vec![
            TokenType::StreamStart(TEncoding::Utf8),
            TokenType::FlowMappingStart,
            TokenType::Key,
            plain("a"),
            TokenType::Value,
            TokenType::FlowSequenceStart,
            plain("1"),
            TokenType::FlowEntry,
            plain("2"),
            TokenType::FlowSequenceEnd,
            TokenType::FlowEntry,
            TokenType::Key,
            plain("b"),
            TokenType::Value,
            plain("3"),
            TokenType::FlowMappingEnd,
            TokenType::StreamEnd,
        ]
    );
}

#[test]
fn version_directive_and_document() {
    assert_eq!(
        kinds("%YAML 1.2\n---\nfoo"),
        vec![
            TokenType::StreamStart(TEncoding::Utf8),
            TokenType::VersionDirective(1, 2),
            TokenType::DocumentStart,
            plain("foo"),
            TokenType::StreamEnd,
        ]
    );
}

#[test]
fn plain_scalar_survives_unchanged() {
    assert_eq!(
        kinds("abc"),
        vec![TokenType::StreamStart(TEncoding::Utf8), plain("abc"), TokenType::StreamEnd]
    );
}

#[test]
fn tab_before_block_entry_is_an_error() {
    let (tokens, error) = scan("\t- x");
    let e = error.unwrap();
    assert_eq!(e.info(), "tabs disallowed within this context (block indentation)");
    assert!(tokens.iter().all(|t| t.1 != TokenType::BlockEntry));
}

#[test]
fn tab_in_block_indentation_is_an_error() {
    let e = error_of(" a:\n\t- x");
    assert_eq!(e.info(), "tabs disallowed within this context (block indentation)");
    assert_eq!(e.marker().line(), 2);
    assert_eq!(e.marker().col(), 0);
}
