use saphyr::scanner::{Scanner, TEncoding, Token, TokenType};

const SAMPLES: [&str; 14] = [
    "",
    "abc",
    "a: 1\nb: 2\n",
    "- x\n- y\n",
    "a:\n  b:\n    - c\n    - d: e\n  f: g\nh: [i, {j: k}]\n",
    "{a: [1, 2], b: 3}",
    "%YAML 1.2\n---\nfoo\n...\n--- !!str bar\n",
    "? [a, b]\n: |\n  text\n  more\nk: >-\n  folded\n  text\n",
    "&x a: *x\n",
    "- - - a\n    - b\n  - c\n- d\n",
    "a: [",
    "[}]]",
    "a: 'b",
    "a:\n  - b\n c",
];

fn scan(input: &str) -> Vec<Token> {
    let mut scanner = Scanner::new(input.chars().collect());
    let mut tokens = Vec::new();
    while let Some(token) = scanner.next() {
        tokens.push(token);
    }
    tokens
}

fn ended(input: &str) -> bool {
    let mut scanner = Scanner::new(input.chars().collect());
    while let Some(_) = scanner.next() {}
    scanner.stream_ended()
}

#[test]
fn stream_start_is_first_and_stream_end_is_last() {
    for input in SAMPLES {
        let tokens = scan(input);
        assert_eq!(tokens[0].1, TokenType::StreamStart(TEncoding::Utf8), "{:?}", input);
        for (i, t) in tokens.iter().enumerate() {
            if i > 0 {
                assert!(!matches!(t.1, TokenType::StreamStart(_)), "{:?}", input);
            }
            if t.1 == TokenType::StreamEnd {
                assert_eq!(i, tokens.len() - 1, "{:?}", input);
            }
        }
        assert_eq!(
            ended(input),
            tokens.last().unwrap().1 == TokenType::StreamEnd,
            "{:?}",
            input
        );
    }
}

#[test]
fn blocks_are_closed_in_the_order_they_were_opened() {
    for input in SAMPLES {
        let mut depth: i64 = 0;
        let mut flow: i64 = 0;
        for t in scan(input) {
            match t.1 {
                TokenType::BlockSequenceStart | TokenType::BlockMappingStart => depth += 1,
                TokenType::BlockEnd => depth -= 1,
                TokenType::FlowSequenceStart | TokenType::FlowMappingStart => flow += 1,
                TokenType::FlowSequenceEnd | TokenType::FlowMappingEnd => {
                    if flow > 0 {
                        flow -= 1
                    }
                }
                _ => {}
            }
            assert!(depth >= 0, "{:?}", input);
        }
        if ended(input) && flow == 0 {
            assert_eq!(depth, 0, "{:?}", input);
        }
    }
}

#[test]
fn block_tokens_stand_outside_flow_collections() {
    for input in SAMPLES {
        let mut flow: i64 = 0;
        for t in scan(input) {
            match t.1 {
                TokenType::FlowSequenceStart | TokenType::FlowMappingStart => flow += 1,
                TokenType::FlowSequenceEnd | TokenType::FlowMappingEnd => {
                    if flow > 0 {
                        flow -= 1
                    }
                }
                TokenType::BlockEntry
                | TokenType::BlockSequenceStart
                | TokenType::BlockMappingStart
                | TokenType::BlockEnd => assert_eq!(flow, 0, "{:?}", input),
                _ => {}
            }
        }
    }
}

#[test]
fn marks_follow_the_input() {
    for input in SAMPLES {
        let mut last = 0;
        for t in scan(input) {
            assert!(t.0.index() >= last, "{:?}", input);
            last = t.0.index();
        }
    }
    // The block mapping that a simple key opens is marked where the key starts.
    let tokens = scan("x\n---\nab: c");
    assert_eq!(tokens[3].1, TokenType::BlockMappingStart);
    assert_eq!((tokens[3].0.index(), tokens[3].0.line(), tokens[3].0.col()), (6, 3, 0));
    assert_eq!(tokens[4].1, TokenType::Key);
    assert_eq!(tokens[4].0.index(), 6);
    assert_eq!(tokens[6].1, TokenType::Value);
    assert_eq!(tokens[6].0.index(), 8);
}

#[test]
fn scanning_twice_gives_the_same_tokens() {
    for input in SAMPLES {
        assert_eq!(scan(input), scan(input), "{:?}", input);
    }
}

#[test]
fn simple_key_window() {
    // The key starts exactly 1024 characters before its `:`: accepted.
    let mut input = "a".repeat(1024);
    input.push_str(": b");
    let mut scanner = Scanner::new(input.chars().collect());
    let mut kinds = Vec::new();
    while let Some(t) = scanner.next() {
        kinds.push(t.1);
    }
    assert_eq!(scanner.get_error(), None);
    assert_eq!(kinds[1], TokenType::BlockMappingStart);
    assert_eq!(kinds[2], TokenType::Key);
    // One more, and the candidate is stale when the `:` is read.
    let mut input = "a".repeat(1025);
    input.push_str(": b");
    let mut scanner = Scanner::new(input.chars().collect());
    let mut kinds = Vec::new();
    while let Some(t) = scanner.next() {
        kinds.push(t.1);
    }
    assert_eq!(kinds.len(), 2);
    assert!(!kinds.contains(&TokenType::Key));
    let e = scanner.get_error().unwrap();
    assert_eq!(e.info(), "mapping values are not allowed in this context");
    assert_eq!(e.marker().index(), 1025);
}

#[test]
fn simple_key_must_stay_on_its_line() {
    let mut scanner = Scanner::new("'a\n b': c".chars().collect());
    while let Some(_) = scanner.next() {}
    let e = scanner.get_error().unwrap();
    assert_eq!(e.info(), "mapping values are not allowed in this context");
}
