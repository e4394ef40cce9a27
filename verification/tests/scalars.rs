use saphyr::scanner::{ScanError, Scanner, TEncoding, TScalarStyle, Token, TokenType};

fn scan(input: &str) -> (Vec<Token>, Option<ScanError>) {
    let mut scanner = Scanner::new(input.chars().collect());
    let mut tokens = Vec::new();
    while let Some(token) = scanner.next() {
        tokens.push(token);
    }
    (tokens, scanner.get_error())
}

fn kinds(input: &str) -> Vec<TokenType> {
    let (tokens, error) = scan(input);
    assert_eq!(error, None);
    tokens.into_iter().map(|t| t.1).collect()
}

fn error_of(input: &str) -> ScanError {
    let (_, error) = scan(input);
    match error {
        Some(e) => e,
        None => panic!("no error on {:?}", input),
    }
}

fn scalar(style: TScalarStyle, s: &str) -> TokenType {
    TokenType::Scalar(style, s.to_string())
}

fn plain(s: &str) -> TokenType {
    scalar(TScalarStyle::Plain, s)
}

/// The one scalar of a stream that holds nothing else.
fn only_scalar(input: &str) -> TokenType {
    let k = kinds(input);
    assert_eq!(k.len(), 3, "{:?}", k);
    assert_eq!(k[0], TokenType::StreamStart(TEncoding::Utf8));
    assert_eq!(k[2], TokenType::StreamEnd);
    k[1].clone()
}

#[test]
fn plain_words_on_one_line_are_joined_by_one_space() {
    assert_eq!(only_scalar("a   b"), plain("a b"));
    assert_eq!(only_scalar("a \t b"), plain("a b"));
    assert_eq!(only_scalar("a b  c"), plain("a b c"));
}

#[test]
fn plain_line_break_folds_to_space() {
    assert_eq!(only_scalar("a\n b"), plain("a b"));
    assert_eq!(only_scalar("a  \n   b"), plain("a b"));
}

#[test]
fn plain_empty_lines_become_newlines() {
    assert_eq!(only_scalar("a\n\n b"), plain("a\nb"));
    assert_eq!(only_scalar("a\n\n\n b"), plain("a\n\nb"));
}

#[test]
fn plain_ends_at_comment() {
    assert_eq!(only_scalar("a #b"), plain("a"));
    assert_eq!(only_scalar("a#b"), plain("a#b"));
}

#[test]
fn plain_trailing_blanks_are_dropped() {
    assert_eq!(only_scalar("abc   "), plain("abc"));
    assert_eq!(only_scalar("abc\n\n"), plain("abc"));
}

#[test]
fn plain_may_hold_colon_and_dash() {
    assert_eq!(only_scalar("a:b"), plain("a:b"));
    assert_eq!(only_scalar("-a"), plain("-a"));
    assert_eq!(only_scalar("?a"), plain("?a"));
    assert_eq!(only_scalar(":a"), plain(":a"));
}

#[test]
fn plain_tab_in_indentation_is_an_error() {
    let e = error_of("k: a\n\tb");
    assert_eq!(e.info(), "while scanning a plain scalar, found a tab");
    assert_eq!(e.marker().index(), 3);
}

#[test]
fn single_quoted_doubles_its_quote() {
    assert_eq!(only_scalar("'a''b'"), scalar(TScalarStyle::SingleQuoted, "a'b"));
    assert_eq!(only_scalar("''"), scalar(TScalarStyle::SingleQuoted, ""));
    assert_eq!(only_scalar("''''"), scalar(TScalarStyle::SingleQuoted, "'"));
}

#[test]
fn single_quoted_keeps_backslash_and_blanks() {
    assert_eq!(only_scalar("'a\\nb'"), scalar(TScalarStyle::SingleQuoted, "a\\nb"));
    assert_eq!(only_scalar("'a   b'"), scalar(TScalarStyle::SingleQuoted, "a   b"));
    assert_eq!(only_scalar("' a '"), scalar(TScalarStyle::SingleQuoted, " a "));
}

#[test]
fn single_quoted_folds_lines() {
    assert_eq!(only_scalar("'a  \n  b'"), scalar(TScalarStyle::SingleQuoted, "a b"));
    assert_eq!(only_scalar("'a\n\n b'"), scalar(TScalarStyle::SingleQuoted, "a\nb"));
    assert_eq!(only_scalar("'a\r\n\r\n\r\n b'"), scalar(TScalarStyle::SingleQuoted, "a\n\nb"));
}

#[test]
fn double_quoted_one_letter_escapes() {
    assert_eq!(
        only_scalar("\"\\0\\a\\b\\t\\\t\\n\\v\\f\\r\\e\\ \\\"\\'\\\\\\N\\_\\L\\P\""),
        scalar(
            TScalarStyle::DoubleQuoted,
            "\0\u{7}\u{8}\t\t\n\u{b}\u{c}\r\u{1b} \"'\\\u{85}\u{a0}\u{2028}\u{2029}"
        )
    );
}

#[test]
fn double_quoted_hex_escapes() {
    assert_eq!(only_scalar("\"\\x41\""), scalar(TScalarStyle::DoubleQuoted, "A"));
    assert_eq!(only_scalar("\"\\u00e9\""), scalar(TScalarStyle::DoubleQuoted, "\u{e9}"));
    assert_eq!(only_scalar("\"\\U0001F600\""), scalar(TScalarStyle::DoubleQuoted, "\u{1F600}"));
    assert_eq!(only_scalar("\"\\xfFz\""), scalar(TScalarStyle::DoubleQuoted, "\u{ff}z"));
    assert_eq!(only_scalar("\"\\U0010FFFF\""), scalar(TScalarStyle::DoubleQuoted, "\u{10FFFF}"));
    assert_eq!(only_scalar("\"\\uD7FF\\uE000\""), scalar(TScalarStyle::DoubleQuoted, "\u{D7FF}\u{E000}"));
}

#[test]
fn double_quoted_surrogate_escape_is_an_error() {
    for input in ["\"\\uD800\"", "\"\\uDFFF\"", "\"\\U00110000\"", "\"\\UFFFFFFFF\""] {
        let e = error_of(input);
        assert_eq!(
            e.info(),
            "while parsing a quoted scalar, found invalid Unicode character escape code"
        );
        assert_eq!(e.marker().index(), 0);
    }
}

#[test]
fn double_quoted_bad_hex_is_an_error() {
    for input in ["\"\\xZZ\"", "\"\\x4\"", "\"\\u12", "\"\\U0001F60g\""] {
        let e = error_of(input);
        assert_eq!(
            e.info(),
            "while parsing a quoted scalar, did not find expected hexadecimal number"
        );
    }
}

#[test]
fn double_quoted_unknown_escape_is_an_error() {
    let e = error_of("\"\\q\"");
    assert_eq!(e.info(), "while parsing a quoted scalar, found unknown escape character");
    let e = error_of("\"\\");
    assert_eq!(e.info(), "while parsing a quoted scalar, found unknown escape character");
}

#[test]
fn double_quoted_escaped_line_break_joins_lines() {
    assert_eq!(only_scalar("\"a\\\n  b\""), scalar(TScalarStyle::DoubleQuoted, "ab"));
    assert_eq!(only_scalar("\"a\\\r\n\n  b\""), scalar(TScalarStyle::DoubleQuoted, "a\nb"));
    assert_eq!(only_scalar("\"a\\\n\""), scalar(TScalarStyle::DoubleQuoted, "a"));
}

#[test]
fn double_quoted_keeps_blanks_and_single_quotes() {
    assert_eq!(only_scalar("\"a  'b'\""), scalar(TScalarStyle::DoubleQuoted, "a  'b'"));
    assert_eq!(only_scalar("\"a \t\n b\""), scalar(TScalarStyle::DoubleQuoted, "a b"));
}

#[test]
fn quoted_scalar_cut_by_end_of_stream() {
    for input in ["\"abc", "'abc", "'", "\"a\n"] {
        let e = error_of(input);
        assert_eq!(e.info(), "while scanning a quoted scalar, found unexpected end of stream");
        assert_eq!(e.marker().index(), 0);
    }
}

#[test]
fn quoted_scalar_cut_by_document_indicator() {
    for input in ["\"a\n--- b\"", "'a\n...\n'", "'a\n---"] {
        let e = error_of(input);
        assert_eq!(
            e.info(),
            "while scanning a quoted scalar, found unexpected document indicator"
        );
    }
    assert_eq!(only_scalar("'a\n ---'"), scalar(TScalarStyle::SingleQuoted, "a ---"));
    assert_eq!(only_scalar("'a\n---b'"), scalar(TScalarStyle::SingleQuoted, "a ---b"));
}

#[test]
fn literal_keeps_line_breaks() {
    assert_eq!(only_scalar("|\n a\n b\n"), scalar(TScalarStyle::Literal, "a\nb\n"));
    assert_eq!(only_scalar("|\n a\n\n b\n"), scalar(TScalarStyle::Literal, "a\n\nb\n"));
    assert_eq!(only_scalar("|\n a\n  b\n"), scalar(TScalarStyle::Literal, "a\n b\n"));
    assert_eq!(only_scalar("|\r\n a\r\n b\r"), scalar(TScalarStyle::Literal, "a\nb\n"));
}

#[test]
fn folded_folds_between_plain_lines_only() {
    assert_eq!(only_scalar(">\n a\n b\n"), scalar(TScalarStyle::Folded, "a b\n"));
    assert_eq!(only_scalar(">\n a\n\n b\n"), scalar(TScalarStyle::Folded, "a\nb\n"));
    assert_eq!(only_scalar(">\n a\n  b\n c\n"), scalar(TScalarStyle::Folded, "a\n b\nc\n"));
    assert_eq!(only_scalar(">\n a\n\n\n b\n"), scalar(TScalarStyle::Folded, "a\n\nb\n"));
}

#[test]
fn block_scalar_chomping() {
    assert_eq!(only_scalar("|\n a\n\n\n"), scalar(TScalarStyle::Literal, "a\n"));
    assert_eq!(only_scalar("|-\n a\n\n\n"), scalar(TScalarStyle::Literal, "a"));
    assert_eq!(only_scalar("|+\n a\n\n\n"), scalar(TScalarStyle::Literal, "a\n\n\n"));
    assert_eq!(only_scalar(">-\n a\n b\n"), scalar(TScalarStyle::Folded, "a b"));
    assert_eq!(only_scalar(">+\n a\n\n"), scalar(TScalarStyle::Folded, "a\n\n"));
    assert_eq!(only_scalar("|\n a"), scalar(TScalarStyle::Literal, "a"));
}

#[test]
fn block_scalar_indentation_indicator() {
    assert_eq!(only_scalar("|2\n   a\n  b\n"), scalar(TScalarStyle::Literal, " a\nb\n"));
    assert_eq!(only_scalar("|1-\n  a\n"), scalar(TScalarStyle::Literal, " a"));
    assert_eq!(only_scalar("|-1\n  a\n"), scalar(TScalarStyle::Literal, " a"));
    assert_eq!(only_scalar("|+2\n  a\n\n"), scalar(TScalarStyle::Literal, "a\n\n"));
}

#[test]
fn block_scalar_indentation_from_first_line() {
    assert_eq!(only_scalar("|\n   a\n   b\n"), scalar(TScalarStyle::Literal, "a\nb\n"));
    assert_eq!(only_scalar("|\n\n   a\n"), scalar(TScalarStyle::Literal, "\na\n"));
    assert_eq!(only_scalar("|\n"), scalar(TScalarStyle::Literal, ""));
    assert_eq!(only_scalar("| # comment\n a\n"), scalar(TScalarStyle::Literal, "a\n"));
}

#[test]
fn block_scalar_inside_a_mapping() {
    assert_eq!(
        kinds("k: |\n  a\nj: b\n"),
        vec![
            TokenType::StreamStart(TEncoding::Utf8),
            TokenType::BlockMappingStart,
            TokenType::Key,
            plain("k"),
            TokenType::Value,
            scalar(TScalarStyle::Literal, "a\n"),
            TokenType::Key,
            plain("j"),
            TokenType::Value,
            plain("b"),
            TokenType::BlockEnd,
            TokenType::StreamEnd,
        ]
    );
}

#[test]
fn block_scalar_header_errors() {
    let zero = "while scanning a block scalar, found an indentation indicator equal to 0";
    assert_eq!(error_of("|0\n a").info(), zero);
    assert_eq!(error_of(">-0\n a").info(), zero);
    assert_eq!(error_of("|+0").info(), zero);
    assert_eq!(
        error_of("| x\n a").info(),
        "while scanning a block scalar, did not find expected comment or line break"
    );
    assert_eq!(
        error_of("|12\n a").info(),
        "while scanning a block scalar, did not find expected comment or line break"
    );
    let e = error_of("k: |\n\ta");
    assert_eq!(e.info(), "a block scalar content cannot start with a tab");
    assert_eq!(e.marker().index(), 3);
}

#[test]
fn block_scalar_is_plain_inside_flow() {
    assert_eq!(
        kinds("[|]"),
        vec![
            TokenType::StreamStart(TEncoding::Utf8),
            TokenType::FlowSequenceStart,
            plain("|"),
            TokenType::FlowSequenceEnd,
            TokenType::StreamEnd,
        ]
    );
}
