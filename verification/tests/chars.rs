use saphyr::chars::{
    as_hex, is_alpha, is_blank, is_blankz, is_break, is_breakz, is_digit, is_flow, is_hex, is_z,
    CharClass,
};
use saphyr::text::{digit_char, push_decimal};

#[test]
fn end_of_stream_and_breaks() {
    assert!(is_z('\0'));
    assert!(!is_z('0'));
    assert!(is_break('\n') && is_break('\r'));
    assert!(!is_break('\0') && !is_break(' ') && !is_break('\u{85}'));
    assert!(is_breakz('\n') && is_breakz('\r') && is_breakz('\0'));
    assert!(!is_breakz(' '));
}

#[test]
fn blanks() {
    assert!(is_blank(' ') && is_blank('\t'));
    assert!(!is_blank('\n') && !is_blank('\0') && !is_blank('\u{a0}'));
    assert!(is_blankz(' ') && is_blankz('\t') && is_blankz('\n') && is_blankz('\r'));
    assert!(is_blankz('\0'));
    assert!(!is_blankz('a'));
}

#[test]
fn digits_and_letters() {
    for c in '0'..='9' {
        assert!(is_digit(c) && is_alpha(c) && is_hex(c));
    }
    assert!(!is_digit('/') && !is_digit(':') && !is_digit('a'));
    for c in ['a', 'z', 'A', 'Z', '_', '-'] {
        assert!(is_alpha(c));
    }
    for c in ['`', '{', '@', '[', ' ', '.', '\u{e9}'] {
        assert!(!is_alpha(c));
    }
    for c in ['a', 'f', 'A', 'F'] {
        assert!(is_hex(c));
    }
    for c in ['g', 'G', '`', '@', '/', ':'] {
        assert!(!is_hex(c));
    }
}

#[test]
fn hex_digit_values() {
    assert_eq!(as_hex('0'), 0);
    assert_eq!(as_hex('9'), 9);
    assert_eq!(as_hex('a'), 10);
    assert_eq!(as_hex('f'), 15);
    assert_eq!(as_hex('A'), 10);
    assert_eq!(as_hex('F'), 15);
}

#[test]
fn flow_indicators() {
    for c in [',', '[', ']', '{', '}'] {
        assert!(is_flow(c));
    }
    for c in [':', '-', '(', ')', ' '] {
        assert!(!is_flow(c));
    }
}

#[test]
fn character_classes() {
    assert!(CharClass::Blank.has(' ') && CharClass::Blank.has('\t') && !CharClass::Blank.has('\n'));
    assert!(CharClass::Space.has(' ') && !CharClass::Space.has('\t'));
    assert!(CharClass::Line.has('a') && CharClass::Line.has(' '));
    assert!(!CharClass::Line.has('\n') && !CharClass::Line.has('\r') && !CharClass::Line.has('\0'));
    assert!(CharClass::Alpha.has('a') && !CharClass::Alpha.has(':'));
    assert!(CharClass::Anchor.has('a') && CharClass::Anchor.has(':') && !CharClass::Anchor.has(','));
}

#[test]
fn decimal_notation() {
    for d in 0..10u8 {
        assert_eq!(digit_char(d), (b'0' + d) as char);
    }
    let mut s = String::from("n=");
    push_decimal(&mut s, 0);
    s.push(',');
    push_decimal(&mut s, 7);
    s.push(',');
    push_decimal(&mut s, 10);
    s.push(',');
    push_decimal(&mut s, 1234567890);
    s.push(',');
    push_decimal(&mut s, u128::MAX);
    assert_eq!(s, "n=0,7,10,1234567890,340282366920938463463374607431768211455");
}
