use saphyr::scanner::{ScanError, Scanner, TEncoding, TScalarStyle, Token, TokenType};

fn scan(input: &str) -> (Vec<Token>, Option<ScanError>) {
    let mut scanner = Scanner::new(input.chars().collect());
    let mut tokens = Vec::new();
    while let Some(token) = scanner.next() {
        tokens.push(token);
    }
    (tokens, scanner.get_error())
}

fn kinds(input: &str) -> Vec<TokenType> {
    let (tokens, error) = scan(input);
    assert_eq!(error, None);
    tokens.into_iter().map(|t| t.1).collect()
}

fn error_of(input: &str) -> ScanError {
    let (_, error) = scan(input);
    match error {
        Some(e) => e,
        None => panic!("no error on {:?}", input),
    }
}

fn scalar(style: TScalarStyle, s: &str) -> TokenType {
    TokenType::Scalar(style, s.to_string())
}
fn plain(s: &str) -> TokenType {
    scalar(TScalarStyle::Plain, s)
}


fn start() -> TokenType {
    TokenType::StreamStart(TEncoding::Utf8)
}

#[test]
fn block_and_flow_mapping_differ_in_their_frame_only() {
    assert_eq!(
        kinds("a: b"),
        vec![
            start(),
            TokenType::BlockMappingStart,
            TokenType::Key,
            plain("a"),
            TokenType::Value,
            plain("b"),
            TokenType::BlockEnd,
            TokenType::StreamEnd,
        ]
    );
    assert_eq!(
        kinds("{a: b}"),
        vec![
            start(),
            TokenType::FlowMappingStart,
            TokenType::Key,
            plain("a"),
            TokenType::Value,
            plain("b"),
            TokenType::FlowMappingEnd,
            TokenType::StreamEnd,
        ]
    );
}

#[test]
fn document_start_needs_column_zero() {
    assert_eq!(
        kinds("---\nfoo"),
        vec![start(), TokenType::DocumentStart, plain("foo"), TokenType::StreamEnd]
    );
    assert_eq!(kinds(" ---\n"), vec![start(), plain("---"), TokenType::StreamEnd]);
    assert_eq!(
        kinds("--- foo"),
        vec![start(), TokenType::DocumentStart, plain("foo"), TokenType::StreamEnd]
    );
    assert_eq!(kinds("---foo"), vec![start(), plain("---foo"), TokenType::StreamEnd]);
    assert_eq!(kinds("foo\n ---"), vec![start(), plain("foo ---"), TokenType::StreamEnd]);
}

#[test]
fn document_end_needs_column_zero() {
    assert_eq!(
        kinds("a\n...\n"),
        vec![start(), plain("a"), TokenType::DocumentEnd, TokenType::StreamEnd]
    );
    assert_eq!(kinds("a\n ...\n"), vec![start(), plain("a ..."), TokenType::StreamEnd]);
}

#[test]
fn document_indicator_closes_blocks() {
    assert_eq!(
        kinds("a:\n  - b\n---\nc"),
        vec![
            start(),
            TokenType::BlockMappingStart,
            TokenType::Key,
            plain("a"),
            TokenType::Value,
            TokenType::BlockSequenceStart,
            TokenType::BlockEntry,
            plain("b"),
            TokenType::BlockEnd,
            TokenType::BlockEnd,
            TokenType::DocumentStart,
            plain("c"),
            TokenType::StreamEnd,
        ]
    );
}

#[test]
fn empty_stream() {
    assert_eq!(kinds(""), vec![start(), TokenType::StreamEnd]);
    assert_eq!(kinds("  \n# comment\n\t\n"), vec![start(), TokenType::StreamEnd]);
}

#[test]
fn embedded_nul_ends_the_stream() {
    assert_eq!(kinds("a\0b"), vec![start(), plain("a"), TokenType::StreamEnd]);
}

#[test]
fn nested_blocks_close_in_order() {
    assert_eq!(
        kinds("a:\n  b:\n    - c\nd: e\n"),
        vec![
            start(),
            TokenType::BlockMappingStart,
            TokenType::Key,
            plain("a"),
            TokenType::Value,
            TokenType::BlockMappingStart,
            TokenType::Key,
            plain("b"),
            TokenType::Value,
            TokenType::BlockSequenceStart,
            TokenType::BlockEntry,
            plain("c"),
            TokenType::BlockEnd,
            TokenType::BlockEnd,
            TokenType::Key,
            plain("d"),
            TokenType::Value,
            plain("e"),
            TokenType::BlockEnd,
            TokenType::StreamEnd,
        ]
    );
}

#[test]
fn explicit_key() {
    assert_eq!(
        kinds("? a\n: b\n"),
        vec![
            start(),
            TokenType::BlockMappingStart,
            TokenType::Key,
            plain("a"),
            TokenType::Value,
            plain("b"),
            TokenType::BlockEnd,
            TokenType::StreamEnd,
        ]
    );
    assert_eq!(
        kinds("{?\na\n: b}"),
        vec![
            start(),
            TokenType::FlowMappingStart,
            TokenType::Key,
            plain("a"),
            TokenType::Value,
            plain("b"),
            TokenType::FlowMappingEnd,
            TokenType::StreamEnd,
        ]
    );
}

#[test]
fn simple_key_may_follow_an_explicit_key() {
    // Behind `?` a simple key may start: the `:` on its line makes it one.
    assert_eq!(
        kinds("{? a: b}"),
        vec![
            start(),
            TokenType::FlowMappingStart,
            TokenType::Key,
            TokenType::Key,
            plain("a"),
            TokenType::Value,
            plain("b"),
            TokenType::FlowMappingEnd,
            TokenType::StreamEnd,
        ]
    );
}

#[test]
fn simple_key_may_follow_a_value() {
    assert_eq!(
        kinds("a: b: c"),
        vec![
            start(),
            TokenType::BlockMappingStart,
            TokenType::Key,
            plain("a"),
            TokenType::Value,
            TokenType::BlockMappingStart,
            TokenType::Key,
            plain("b"),
            TokenType::Value,
            plain("c"),
            TokenType::BlockEnd,
            TokenType::BlockEnd,
            TokenType::StreamEnd,
        ]
    );
    assert_eq!(
        kinds("a: - b"),
        vec![
            start(),
            TokenType::BlockMappingStart,
            TokenType::Key,
            plain("a"),
            TokenType::Value,
            TokenType::BlockSequenceStart,
            TokenType::BlockEntry,
            plain("b"),
            TokenType::BlockEnd,
            TokenType::BlockEnd,
            TokenType::StreamEnd,
        ]
    );
}

#[test]
fn simple_key_may_follow_a_document_start() {
    assert_eq!(
        kinds("--- a: b"),
        vec![
            start(),
            TokenType::DocumentStart,
            TokenType::BlockMappingStart,
            TokenType::Key,
            plain("a"),
            TokenType::Value,
            plain("b"),
            TokenType::BlockEnd,
            TokenType::StreamEnd,
        ]
    );
}

#[test]
fn value_at_the_start_of_a_line_follows_a_complex_key() {
    // The line break allows a key again, so the `:` opens a mapping.
    assert_eq!(
        kinds("[a]\n: b"),
        vec![
            start(),
            TokenType::FlowSequenceStart,
            plain("a"),
            TokenType::FlowSequenceEnd,
            TokenType::BlockMappingStart,
            TokenType::Value,
            plain("b"),
            TokenType::BlockEnd,
            TokenType::StreamEnd,
        ]
    );
}

#[test]
fn no_simple_key_behind_a_document_end() {
    let (_, error) = scan("... a: b");
    assert_eq!(error.unwrap().info(), "mapping values are not allowed in this context");
}

#[test]
fn value_right_behind_a_quoted_key_in_flow() {
    assert_eq!(
        kinds("{\"a\":1}"),
        vec![
            start(),
            TokenType::FlowMappingStart,
            TokenType::Key,
            scalar(TScalarStyle::DoubleQuoted, "a"),
            TokenType::Value,
            plain("1"),
            TokenType::FlowMappingEnd,
            TokenType::StreamEnd,
        ]
    );
    assert_eq!(
        kinds("{a:1}"),
        vec![
            start(),
            TokenType::FlowMappingStart,
            plain("a:1"),
            TokenType::FlowMappingEnd,
            TokenType::StreamEnd,
        ]
    );
}

#[test]
fn value_right_behind_a_flow_collection_in_flow() {
    assert_eq!(
        kinds("{[1, 2]:3}"),
        vec![
            start(),
            TokenType::FlowMappingStart,
            TokenType::Key,
            TokenType::FlowSequenceStart,
            plain("1"),
            TokenType::FlowEntry,
            plain("2"),
            TokenType::FlowSequenceEnd,
            TokenType::Value,
            plain("3"),
            TokenType::FlowMappingEnd,
            TokenType::StreamEnd,
        ]
    );
    // Outside flow collections the `:` needs a blank behind it.
    assert_eq!(
        kinds("[1]:3"),
        vec![
            start(),
            TokenType::FlowSequenceStart,
            plain("1"),
            TokenType::FlowSequenceEnd,
            plain(":3"),
            TokenType::StreamEnd,
        ]
    );
}

#[test]
fn flow_sequence_as_a_key() {
    assert_eq!(
        kinds("[a]: b"),
        vec![
            start(),
            TokenType::BlockMappingStart,
            TokenType::Key,
            TokenType::FlowSequenceStart,
            plain("a"),
            TokenType::FlowSequenceEnd,
            TokenType::Value,
            plain("b"),
            TokenType::BlockEnd,
            TokenType::StreamEnd,
        ]
    );
}

#[test]
fn flow_end_outside_flow_is_a_token() {
    assert_eq!(
        kinds("]"),
        vec![start(), TokenType::FlowSequenceEnd, TokenType::StreamEnd]
    );
    assert_eq!(
        kinds("[}"),
        vec![
            start(),
            TokenType::FlowSequenceStart,
            TokenType::FlowMappingEnd,
            TokenType::StreamEnd
        ]
    );
}

#[test]
fn unclosed_flow_keeps_blocks_open() {
    assert_eq!(
        kinds("a: ["),
        vec![
            start(),
            TokenType::BlockMappingStart,
            TokenType::Key,
            plain("a"),
            TokenType::Value,
            TokenType::FlowSequenceStart,
            TokenType::StreamEnd,
        ]
    );
}

#[test]
fn anchors_and_aliases() {
    assert_eq!(
        kinds("&a b"),
        vec![start(), TokenType::Anchor("a".to_string()), plain("b"), TokenType::StreamEnd]
    );
    assert_eq!(
        kinds("*a-1:x"),
        vec![start(), TokenType::Alias("a-1:x".to_string()), TokenType::StreamEnd]
    );
    assert_eq!(
        kinds("[*a,&b]"),
        vec![
            start(),
            TokenType::FlowSequenceStart,
            TokenType::Alias("a".to_string()),
            TokenType::FlowEntry,
            TokenType::Anchor("b".to_string()),
            TokenType::FlowSequenceEnd,
            TokenType::StreamEnd,
        ]
    );
}

#[test]
fn anchor_errors() {
    let info = "while scanning an anchor or alias, did not find expected alphabetic or numeric character";
    assert_eq!(error_of("& a").info(), info);
    assert_eq!(error_of("*").info(), info);
    assert_eq!(error_of("&a!").info(), info);
    let e = error_of("x: &a[");
    assert_eq!(e.info(), info);
    assert_eq!(e.marker().index(), 3);
}

#[test]
fn tags() {
    let tag = |h: &str, s: &str| TokenType::Tag(h.to_string(), s.to_string());
    assert_eq!(kinds("!"), vec![start(), tag("", "!"), TokenType::StreamEnd]);
    assert_eq!(kinds("!a b"), vec![start(), tag("!", "a"), plain("b"), TokenType::StreamEnd]);
    assert_eq!(kinds("!!str"), vec![start(), tag("!!", "str"), TokenType::StreamEnd]);
    assert_eq!(kinds("!e!x"), vec![start(), tag("!e!", "x"), TokenType::StreamEnd]);
    assert_eq!(
        kinds("!<tag:yaml.org,2002:str>"),
        vec![start(), tag("", "tag:yaml.org,2002:str"), TokenType::StreamEnd]
    );
    assert_eq!(kinds("!a%41b"), vec![start(), tag("!", "aAb"), TokenType::StreamEnd]);
}

#[test]
fn tag_escapes_are_utf8() {
    let tag = |h: &str, s: &str| TokenType::Tag(h.to_string(), s.to_string());
    assert_eq!(kinds("!%7e"), vec![start(), tag("!", "~"), TokenType::StreamEnd]);
    assert_eq!(kinds("!%C3%A9"), vec![start(), tag("!", "\u{e9}"), TokenType::StreamEnd]);
    assert_eq!(
        kinds("!<%C3%A9> a"),
        vec![start(), tag("", "\u{e9}"), plain("a"), TokenType::StreamEnd]
    );
    assert_eq!(kinds("!%E2%82%AC"), vec![start(), tag("!", "\u{20AC}"), TokenType::StreamEnd]);
    assert_eq!(
        kinds("!%F0%9F%98%80"),
        vec![start(), tag("!", "\u{1F600}"), TokenType::StreamEnd]
    );
    assert_eq!(kinds("!%DF%BF%EF%BF%BF"), vec![start(), tag("!", "\u{7FF}\u{FFFF}"), TokenType::StreamEnd]);
    assert_eq!(kinds("!%F4%8F%BF%BF"), vec![start(), tag("!", "\u{10FFFF}"), TokenType::StreamEnd]);
}

#[test]
fn tag_escapes_of_no_character() {
    // A surrogate, and a code beyond the last character.
    assert_eq!(
        error_of("!%ED%A0%80").info(),
        "while parsing a tag, found an invalid UTF-8 codepoint"
    );
    assert_eq!(
        error_of("!%ED%BF%BF").info(),
        "while parsing a tag, found an invalid UTF-8 codepoint"
    );
    assert_eq!(
        error_of("!%F4%90%80%80").info(),
        "while parsing a tag, found an invalid UTF-8 codepoint"
    );
}

#[test]
fn tag_errors() {
    assert_eq!(
        error_of("!<a").info(),
        "while scanning a tag, did not find the expected '>'"
    );
    assert_eq!(
        error_of("!<>").info(),
        "while parsing a tag, did not find expected tag URI"
    );
    assert_eq!(
        error_of("!e!").info(),
        "while parsing a tag, did not find expected tag URI"
    );
    assert_eq!(
        error_of("!a}").info(),
        "while scanning a tag, did not find expected whitespace or line break"
    );
    assert_eq!(
        error_of("!%4").info(),
        "while parsing a tag, did not find URI escaped octet"
    );
    assert_eq!(
        error_of("!%C3").info(),
        "while parsing a tag, did not find URI escaped octet"
    );
    assert_eq!(
        error_of("!%FF").info(),
        "while parsing a tag, found an incorrect leading UTF-8 octet"
    );
    assert_eq!(
        error_of("!%80").info(),
        "while parsing a tag, found an incorrect leading UTF-8 octet"
    );
    assert_eq!(
        error_of("!%C3%41").info(),
        "while parsing a tag, found an incorrect trailing UTF-8 octet"
    );
}

#[test]
fn version_directive() {
    assert_eq!(
        kinds("%YAML   12.345 # note\n"),
        vec![start(), TokenType::VersionDirective(12, 345), TokenType::StreamEnd]
    );
    assert_eq!(
        kinds("%YAML 123456789.999999999"),
        vec![start(), TokenType::VersionDirective(123456789, 999999999), TokenType::StreamEnd]
    );
    assert_eq!(
        kinds("%YAML 007.0"),
        vec![start(), TokenType::VersionDirective(7, 0), TokenType::StreamEnd]
    );
}

#[test]
fn version_directive_errors() {
    assert_eq!(
        error_of("%YAML 1234567890.1").info(),
        "while scanning a YAML directive, found extremely long version number"
    );
    assert_eq!(
        error_of("%YAML 1.1234567890").info(),
        "while scanning a YAML directive, found extremely long version number"
    );
    assert_eq!(
        error_of("%YAML x").info(),
        "while scanning a YAML directive, did not find expected version number"
    );
    assert_eq!(
        error_of("%YAML 1.").info(),
        "while scanning a YAML directive, did not find expected version number"
    );
    assert_eq!(
        error_of("%YAML 1").info(),
        "while scanning a YAML directive, did not find expected digit or '.' character"
    );
    assert_eq!(
        error_of("%YAML 1.2 x").info(),
        "while scanning a directive, did not find expected comment or line break"
    );
}

#[test]
fn directive_name_errors() {
    assert_eq!(
        error_of("% YAML 1.2").info(),
        "while scanning a directive, could not find expected directive name"
    );
    assert_eq!(
        error_of("%").info(),
        "while scanning a directive, could not find expected directive name"
    );
    assert_eq!(
        error_of("%YAML:1.2").info(),
        "while scanning a directive, found unexpected non-alphabetical character"
    );
}

#[test]
fn tag_directive() {
    assert_eq!(
        kinds("%TAG !e! tag:e.com,2000:\n"),
        vec![
            start(),
            TokenType::TagDirective("!e!".to_string(), "tag:e.com,2000:".to_string()),
            TokenType::StreamEnd
        ]
    );
    assert_eq!(
        kinds("%TAG ! !x"),
        vec![
            start(),
            TokenType::TagDirective("!".to_string(), "!x".to_string()),
            TokenType::StreamEnd
        ]
    );
    assert_eq!(
        kinds("%TAG !! a%20b"),
        vec![
            start(),
            TokenType::TagDirective("!!".to_string(), "a b".to_string()),
            TokenType::StreamEnd
        ]
    );
}

#[test]
fn tag_directive_errors() {
    assert_eq!(
        error_of("%TAG e").info(),
        "while scanning a tag, did not find expected '!'"
    );
    assert_eq!(
        error_of("%TAG !e x").info(),
        "while parsing a tag directive, did not find expected '!'"
    );
    assert_eq!(
        error_of("%TAG ! ").info(),
        "while parsing a tag, did not find expected tag URI"
    );
    assert_eq!(
        error_of("%TAG ! a}").info(),
        "while scanning TAG, did not find expected whitespace or line break"
    );
}

#[test]
fn unknown_directive_is_an_empty_tag_directive() {
    assert_eq!(
        kinds("%FOO bar baz\n---\n"),
        vec![
            start(),
            TokenType::TagDirective(String::new(), String::new()),
            TokenType::DocumentStart,
            TokenType::StreamEnd
        ]
    );
}

#[test]
fn directive_not_at_column_zero_is_an_error() {
    let e = error_of(" %YAML 1.2");
    assert_eq!(e.info(), "unexpected character: `%'");
    assert_eq!(e.marker().index(), 1);
    assert_eq!(error_of("@a").info(), "unexpected character: `@'");
    assert_eq!(error_of("`a").info(), "unexpected character: ``'");
}

#[test]
fn carriage_return_line_feed_is_one_break() {
    let (tokens, error) = scan("a: 1\r\nb: 2\r\n");
    assert_eq!(error, None);
    let marks: Vec<(usize, usize, usize)> =
        tokens.iter().map(|t| (t.0.index(), t.0.line(), t.0.col())).collect();
    assert_eq!(
        marks,
        vec![
            (0, 1, 0),
            (0, 1, 0),
            (0, 1, 0),
            (0, 1, 0),
            (1, 1, 1),
            (3, 1, 3),
            (6, 2, 0),
            (6, 2, 0),
            (7, 2, 1),
            (9, 2, 3),
            (12, 3, 0),
            (12, 3, 0),
        ]
    );
}

#[test]
fn lone_carriage_return_advances_the_column() {
    let (tokens, error) = scan("a\rb");
    assert_eq!(error, None);
    assert_eq!(tokens[1].1, plain("a b"));
    assert_eq!((tokens[2].0.index(), tokens[2].0.line(), tokens[2].0.col()), (3, 2, 0));
}
