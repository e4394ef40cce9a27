//! Quoted scalars: single-quoted and double-quoted.

use vstd::prelude::*;
use crate::chars::{as_hex, is_blank, is_blankz, is_break, is_hex, is_z, spec_as_hex, spec_is_blank, spec_is_blankz, spec_is_break, spec_is_hex};
use crate::fold::{Fold, FoldBuf};
use crate::nesting::{document_starts, is_content};
use crate::model::{Cursor, State};
use crate::scanner::{result_view, unit_view, ScanResult, Scanner};
use crate::text::is_scalar_value;
use crate::token::{ErrorInfo, Mark, Marker, ScanError, TScalarStyle, Tok, Token, TokenKind, TokenType};

verus! {

/// The character that a one-letter escape of a double-quoted scalar denotes.
pub open spec fn spec_simple_escape(c: char) -> Option<char> {
    if c == '0' {
        Some('\0')
    } else if c == 'a' {
        Some('\x07')
    } else if c == 'b' {
        Some('\x08')
    } else if c == 't' || c == '\t' {
        Some('\t')
    } else if c == 'n' {
        Some('\n')
    } else if c == 'v' {
        Some('\x0b')
    } else if c == 'f' {
        Some('\x0c')
    } else if c == 'r' {
        Some('\x0d')
    } else if c == 'e' {
        Some('\x1b')
    } else if c == ' ' {
        Some(' ')
    } else if c == '"' {
        Some('"')
    } else if c == '\'' {
        Some('\'')
    } else if c == '\\' {
        Some('\\')
    } else if c == 'N' {
        Some('\u{85}')
    } else if c == '_' {
        Some('\u{a0}')
    } else if c == 'L' {
        Some('\u{2028}')
    } else if c == 'P' {
        Some('\u{2029}')
    } else {
        None
    }
}

/// The character that a one-letter escape denotes, if it is one.
#[verifier::when_used_as_spec(spec_simple_escape)]
pub fn simple_escape(c: char) -> (r: Option<char>)
    ensures
        r == spec_simple_escape(c),
{
    if c == '0' {
        Some('\0')
    } else if c == 'a' {
        Some('\x07')
    } else if c == 'b' {
        Some('\x08')
    } else if c == 't' || c == '\t' {
        Some('\t')
    } else if c == 'n' {
        Some('\n')
    } else if c == 'v' {
        Some('\x0b')
    } else if c == 'f' {
        Some('\x0c')
    } else if c == 'r' {
        Some('\x0d')
    } else if c == 'e' {
        Some('\x1b')
    } else if c == ' ' {
        Some(' ')
    } else if c == '"' {
        Some('"')
    } else if c == '\'' {
        Some('\'')
    } else if c == '\\' {
        Some('\\')
    } else if c == 'N' {
        Some('\u{85}')
    } else if c == '_' {
        Some('\u{a0}')
    } else if c == 'L' {
        Some('\u{2028}')
    } else if c == 'P' {
        Some('\u{2029}')
    } else {
        None
    }
}

/// How many hexadecimal digits follow the escape letter: 2 behind `x`, 4
/// behind `u`, 8 behind `U`, none behind any other.
pub open spec fn spec_hex_length(c: char) -> nat {
    if c == 'x' {
        2
    } else if c == 'u' {
        4
    } else if c == 'U' {
        8
    } else {
        0
    }
}

/// How many hexadecimal digits follow the escape letter.
pub fn hex_length(c: char) -> (r: usize)
    ensures
        r == spec_hex_length(c),
{
    if c == 'x' {
        2
    } else if c == 'u' {
        4
    } else if c == 'U' {
        8
    } else {
        0
    }
}

/// The number that a string of hexadecimal digits denotes.
pub open spec fn hex_value(s: Seq<char>) -> nat
    decreases s.len(),
{
    if s.len() == 0 {
        0
    } else {
        hex_value(s.drop_last()) * 16 + spec_as_hex(s.last()) as nat
    }
}

/// One more than the largest number of `n` hexadecimal digits, for `n` up
/// to 8.
pub open spec fn hex_bound(n: int) -> int {
    if n <= 0 {
        1
    } else if n == 1 {
        0x10
    } else if n == 2 {
        0x100
    } else if n == 3 {
        0x1000
    } else if n == 4 {
        0x1_0000
    } else if n == 5 {
        0x10_0000
    } else if n == 6 {
        0x100_0000
    } else if n == 7 {
        0x1000_0000
    } else {
        0x1_0000_0000
    }
}

/// The quote that closes a scalar of the given kind.
pub open spec fn quote_of(single: bool) -> char {
    if single {
        '\''
    } else {
        '"'
    }
}

impl Cursor {
    /// Consuming `n` characters moves the index by `n`.
    pub proof fn lemma_step_n(self, input: Seq<char>, n: nat)
        ensures
            self.step_n(input, n).index == self.index + n,
        decreases n,
    {
        if n > 0 {
            self.step(input).lemma_step_n(input, (n - 1) as nat);
        }
    }
}

impl State {
    /// The next `n` characters are hexadecimal digits.
    pub open spec fn hex_here(self, n: nat) -> bool {
        forall|i: int| 0 <= i < n ==> spec_is_hex(#[trigger] self.at(i))
    }

    /// An escape of a double-quoted scalar, from its `\`: a letter that
    /// denotes a character, or `x`, `u` or `U` with the code of a character
    /// in 2, 4 or 8 hexadecimal digits. A code that is no Unicode scalar
    /// value is an error.
    pub open spec fn scan_escape(self, start: Mark) -> (State, Result<char, ErrorInfo>) {
        let letter = self.at(1);
        let s2 = self.with_cur(self.cur.step2(self.input));
        let n = spec_hex_length(letter);
        let code = hex_value(s2.input.subrange(s2.cur.index, s2.cur.index + n));
        if spec_simple_escape(letter) is Some {
            (s2, Ok(spec_simple_escape(letter)->0))
        } else if n == 0 {
            (
                self,
                Err(
                    State::error_at(
                        start,
                        "while parsing a quoted scalar, found unknown escape character"@,
                    ),
                ),
            )
        } else if !s2.hex_here(n) {
            (
                s2,
                Err(
                    State::error_at(
                        start,
                        "while parsing a quoted scalar, did not find expected hexadecimal number"@,
                    ),
                ),
            )
        } else if !is_scalar_value(code as int) {
            (
                s2,
                Err(
                    State::error_at(
                        start,
                        "while parsing a quoted scalar, found invalid Unicode character escape code"@,
                    ),
                ),
            )
        } else {
            (s2.with_cur(s2.cur.step_n(s2.input, n)), Ok(code as char))
        }
    }

    /// A word of a quoted scalar ends before a blank, a line break, the end
    /// of the stream, and the closing quote. In a single-quoted scalar two
    /// quotes in a row do not close it.
    pub open spec fn quoted_word_ends(self, single: bool) -> bool {
        ||| spec_is_blankz(self.ch())
        ||| single && self.ch() == '\'' && self.at(1) != '\''
        ||| !single && self.ch() == '"'
    }

    /// A word of a quoted scalar, appended to `text`. In a single-quoted
    /// scalar `''` stands for one quote. In a double-quoted scalar `\`
    /// starts an escape; a `\` before a line break ends the word behind the
    /// break, which the second component of the result reports.
    pub open spec fn quoted_word(self, single: bool, start: Mark, text: Seq<char>) -> (State, Result<(Seq<char>, bool), ErrorInfo>)
        decreases self.input.len() - self.cur.index,
    {
        if !(0 <= self.cur.index < self.input.len()) || self.quoted_word_ends(single) {
            (self, Ok((text, false)))
        } else if single && self.ch() == '\'' {
            proof {
                self.cur.step(self.input).lemma_step_valid_index(self.input);
            }
            self.with_cur(self.cur.step2(self.input)).quoted_word(single, start, text.push('\''))
        } else if !single && self.ch() == '\\' {
            if spec_is_break(self.at(1)) {
                (
                    self.with_cur(self.cur.step(self.input).step_line(self.input)),
                    Ok((text, true)),
                )
            } else {
                let (s2, r) = self.scan_escape(start);
                match r {
                    Err(e) => (s2, Err(e)),
                    Ok(c) => {
                        proof {
                            self.lemma_scan_escape(start);
                        }
                        s2.quoted_word(single, start, text.push(c))
                    },
                }
            }
        } else {
            self.with_cur(self.cur.step(self.input)).quoted_word(
                single,
                start,
                text.push(self.ch()),
            )
        }
    }

    /// The blanks and line breaks behind a word of a quoted scalar.
    pub open spec fn quoted_blanks(self, fold: Fold) -> (State, Fold)
        decreases self.input.len() - self.cur.index,
    {
        if !(0 <= self.cur.index < self.input.len()) {
            (self, fold)
        } else if spec_is_blank(self.ch()) {
            self.with_cur(self.cur.step(self.input)).quoted_blanks(fold.blank(self.ch()))
        } else if spec_is_break(self.ch()) {
            self.with_cur(self.cur.step_line(self.input)).quoted_blanks(fold.line_break())
        } else {
            (self, fold)
        }
    }

    /// The text of a quoted scalar from the cursor to its closing quote,
    /// appended to `text`: words, and between them blanks and line breaks,
    /// folded. A document indicator at the start of a line, and the end of
    /// the stream, are errors.
    pub open spec fn quoted_text(self, single: bool, start: Mark, text: Seq<char>) -> (State, Result<Seq<char>, ErrorInfo>)
        decreases self.input.len() - self.cur.index,
    {
        if self.document_indicator_here() {
            (
                self,
                Err(
                    State::error_at(
                        start,
                        "while scanning a quoted scalar, found unexpected document indicator"@,
                    ),
                ),
            )
        } else if self.ch() == '\0' {
            (
                self,
                Err(
                    State::error_at(
                        start,
                        "while scanning a quoted scalar, found unexpected end of stream"@,
                    ),
                ),
            )
        } else {
            let (s1, r) = self.quoted_word(single, start, text);
            match r {
                Err(e) => (s1, Err(e)),
                Ok((text1, escaped_break)) => {
                    if s1.ch() == quote_of(single) {
                        (s1, Ok(text1))
                    } else {
                        let (s2, fold) = s1.quoted_blanks(
                            Fold { leading_blanks: escaped_break, ..Fold::none() },
                        );
                        proof {
                            self.lemma_quoted_word(single, start, text);
                            s1.lemma_quoted_blanks(
                                Fold { leading_blanks: escaped_break, ..Fold::none() },
                            );
                        }
                        s2.quoted_text(single, start, fold.join(text1, false))
                    }
                },
            }
        }
    }

    /// A quoted scalar, from its opening quote to its closing quote.
    pub open spec fn scan_flow_scalar(self, single: bool) -> (State, Result<Tok, ErrorInfo>) {
        let (s1, r) = self.with_cur(self.cur.step(self.input)).quoted_text(
            single,
            self.cur.mark(),
            Seq::empty(),
        );
        match r {
            Err(e) => (s1, Err(e)),
            Ok(text) => (
                s1.with_cur(s1.cur.step(s1.input)),
                Ok(
                    Tok {
                        mark: self.cur.mark(),
                        kind: TokenKind::Scalar(
                            if single {
                                TScalarStyle::SingleQuoted
                            } else {
                                TScalarStyle::DoubleQuoted
                            },
                            text,
                        ),
                    },
                ),
            ),
        }
    }

    /// A quoted scalar may start a simple key, and none may start behind
    /// it. Inside a flow collection a `:` may stand right behind it.
    pub open spec fn fetch_flow_scalar(self, single: bool) -> (State, Result<(), ErrorInfo>) {
        let (s1, r1) = self.save_simple_key();
        if r1 is Err {
            (s1, r1)
        } else {
            let (s2, r2) = s1.with_simple_key_allowed(false).scan_flow_scalar(single);
            match r2 {
                Err(e) => (s2, Err(e)),
                Ok(t) => (
                    (State { adjacent_value_allowed_at: s2.cur.index, ..s2 }).pushed(t),
                    Ok(()),
                ),
            }
        }
    }

    /// An escape is read forwards, inside the input, and one that was read
    /// took at least two characters.
    pub proof fn lemma_scan_escape(self, start: Mark)
        requires
            0 <= self.cur.index < self.input.len(),
            self.ch() == '\\',
        ensures
            self.cur.index <= self.scan_escape(start).0.cur.index <= self.input.len(),
            self.scan_escape(start).1 is Ok ==> self.cur.index < self.scan_escape(
                start,
            ).0.cur.index,
            self.scan_escape(start).0 == self.with_cur(self.scan_escape(start).0.cur),
    {
        let letter = self.at(1);
        let s2 = self.with_cur(self.cur.step2(self.input));
        let n = spec_hex_length(letter);
        if spec_simple_escape(letter) is Some {
        } else if n == 0 {
        } else {
            if s2.hex_here(n) {
                s2.cur.lemma_step_n(s2.input, n);
                assert(spec_is_hex(s2.at(n - 1)));
            }
        }
    }

    /// A word is read forwards, inside the input. Where it is empty, a
    /// blank, a line break, the end of the stream or the closing quote
    /// stands at the cursor.
    pub proof fn lemma_quoted_word(self, single: bool, start: Mark, text: Seq<char>)
        requires
            0 <= self.cur.index <= self.input.len(),
        ensures
            self.cur.index <= self.quoted_word(single, start, text).0.cur.index
                <= self.input.len(),
            self.quoted_word(single, start, text).0 == self.with_cur(
                self.quoted_word(single, start, text).0.cur,
            ),
            self.quoted_word(single, start, text).1 is Ok && self.quoted_word(
                single,
                start,
                text,
            ).0.cur.index == self.cur.index ==> spec_is_blankz(self.ch()) || self.ch()
                == quote_of(single),
        decreases self.input.len() - self.cur.index,
    {
        if !(0 <= self.cur.index < self.input.len()) || self.quoted_word_ends(single) {
        } else if single && self.ch() == '\'' {
            self.cur.step(self.input).lemma_step_valid_index(self.input);
            self.with_cur(self.cur.step2(self.input)).lemma_quoted_word(
                single,
                start,
                text.push('\''),
            );
        } else if !single && self.ch() == '\\' {
            if spec_is_break(self.at(1)) {
            } else {
                self.lemma_scan_escape(start);
                let (s2, r) = self.scan_escape(start);
                match r {
                    Err(e) => {},
                    Ok(c) => {
                        s2.lemma_quoted_word(single, start, text.push(c));
                    },
                }
            }
        } else {
            self.with_cur(self.cur.step(self.input)).lemma_quoted_word(
                single,
                start,
                text.push(self.ch()),
            );
        }
    }

    /// Blanks and line breaks are read forwards, at least one where one is
    /// there.
    pub proof fn lemma_quoted_blanks(self, fold: Fold)
        requires
            0 <= self.cur.index <= self.input.len(),
        ensures
            self.cur.index <= self.quoted_blanks(fold).0.cur.index <= self.input.len(),
            self.quoted_blanks(fold).0 == self.with_cur(self.quoted_blanks(fold).0.cur),
            spec_is_blank(self.ch()) || spec_is_break(self.ch()) ==> self.cur.index
                < self.quoted_blanks(fold).0.cur.index,
        decreases self.input.len() - self.cur.index,
    {
        if !(0 <= self.cur.index < self.input.len()) {
        } else if spec_is_blank(self.ch()) {
            self.with_cur(self.cur.step(self.input)).lemma_quoted_blanks(fold.blank(self.ch()));
        } else if spec_is_break(self.ch()) {
            self.with_cur(self.cur.step_line(self.input)).lemma_quoted_blanks(fold.line_break());
        }
    }
}

impl Scanner {
    pub(crate) fn fetch_flow_scalar(&mut self, single: bool) -> (r: ScanResult)
        requires
            old(self).sane(),
            old(self)@.stream_start_produced,
            old(self).buffered() >= 1,
            old(self)@.ch() != '\0',
        ensures
            final(self).sane(),
            (final(self)@, unit_view(r)) == old(self)@.fetch_flow_scalar(single),
            final(self)@.parsed == old(self)@.parsed,
            final(self)@.input == old(self)@.input,
            final(self)@.stream_end_produced == old(self)@.stream_end_produced,
            final(self)@.error == old(self)@.error,
            r is Ok ==> final(self)@.all.len() > old(self)@.all.len(),
            old(self)@.lawful() ==> final(self)@.lawful(),
            document_starts(final(self)@.all) == document_starts(old(self)@.all),
            r is Ok ==> final(self)@.cur.index > old(self)@.cur.index,
    {
        match self.save_simple_key() {
            Err(e) => {
                return Err(e);
            },
            Ok(_) => {},
        }
        self.disallow_simple_key();
        let ghost saved = self@;
        let scanned = self.scan_flow_scalar(single);
        proof {
            if saved.lawful() {
                saved.lemma_lawful_moved(self@);
            }
        }
        let tok = match scanned {
            Err(e) => {
                return Err(e);
            },
            Ok(tok) => tok,
        };
        // To ensure JSON compatibility, if a key inside a flow mapping is JSON-like,
        // YAML allows the following value to be specified adjacent to the ":".
        self.adjacent_value_allowed_at = self.mark.index;
        self.push_token(tok);
        proof {
            if saved.lawful() {
                saved.lemma_lawful_pushed(self@, tok@);
            }
        }
        Ok(())
    }

    /// Read an escape of a double-quoted scalar.
    fn scan_escape(&mut self, start_mark: Marker) -> (r: Result<char, ScanError>)
        requires
            old(self).sane(),
            old(self).buffered() >= 2,
            old(self)@.ch() == '\\',
        ensures
            final(self).sane(),
            final(self)@ == old(self)@.with_cur(final(self)@.cur),
            final(self)@.cur.index >= old(self)@.cur.index,
            r is Ok ==> final(self)@.cur.index > old(self)@.cur.index,
            (final(self)@, result_view(r)) == old(self)@.scan_escape(start_mark@),
    {
        let letter = self.peek(1);
        let code_length = hex_length(letter);
        match simple_escape(letter) {
            Some(c) => {
                self.skip();
                self.skip();
                return Ok(c);
            },
            None => {},
        }
        if code_length == 0 {
            return Err(
                ScanError::new(
                    start_mark,
                    "while parsing a quoted scalar, found unknown escape character",
                ),
            );
        }
        self.skip();
        self.skip();
        // Consume an arbitrary escape code.
        self.lookahead(code_length);
        let ghost s2 = self@;
        let mut value = 0u32;
        let mut i: usize = 0;
        proof {
            assert(s2.input.subrange(s2.cur.index, s2.cur.index + 0) =~= Seq::<char>::empty());
        }
        while i < code_length
            invariant
                self.sane(),
                self@ == s2,
                s2 == old(self)@.with_cur(old(self)@.cur.step2(old(self)@.input)),
                s2.cur.index == old(self)@.cur.index + 2,
                0 <= s2.cur.index + i <= s2.input.len(),
                code_length == spec_hex_length(old(self)@.at(1)),
                spec_simple_escape(old(self)@.at(1)) is None,
                self.buffered() >= code_length,
                i <= code_length <= 8,
                forall|j: int| 0 <= j < i ==> spec_is_hex(#[trigger] s2.at(j)),
                value == hex_value(s2.input.subrange(s2.cur.index, s2.cur.index + i)),
                value < hex_bound(i as int),
            decreases code_length - i,
        {
            if !is_hex(self.peek(i)) {
                return Err(
                    ScanError::new(
                        start_mark,
                        "while parsing a quoted scalar, did not find expected hexadecimal number",
                    ),
                );
            }
            proof {
                let longer = s2.input.subrange(s2.cur.index, s2.cur.index + i + 1);
                assert(longer.drop_last() =~= s2.input.subrange(
                    s2.cur.index,
                    s2.cur.index + i,
                ));
            }
            value = value * 16 + as_hex(self.peek(i));
            i += 1;
        }
        let ch = match char::from_u32(value) {
            None => {
                return Err(
                    ScanError::new(
                        start_mark,
                        "while parsing a quoted scalar, found invalid Unicode character escape code",
                    ),
                );
            },
            Some(ch) => ch,
        };
        let mut k: usize = 0;
        while k < code_length
            invariant
                self.sane(),
                self@ == s2.with_cur(self@.cur),
                s2 == old(self)@.with_cur(old(self)@.cur.step2(old(self)@.input)),
                s2.cur.index == old(self)@.cur.index + 2,
                self.buffered() >= code_length - k,
                k <= code_length,
                s2.hex_here(code_length as nat),
                self@.cur.index == s2.cur.index + k,
                self@.cur.step_n(s2.input, (code_length - k) as nat) == s2.cur.step_n(
                    s2.input,
                    code_length as nat,
                ),
            decreases code_length - k,
        {
            proof {
                assert(spec_is_hex(s2.at(k as int)));
            }
            self.skip();
            k += 1;
        }
        Ok(ch)
    }

    /// Whether a word of a quoted scalar ends at the cursor.
    fn quoted_word_ends(&self, single: bool) -> (r: bool)
        requires
            self.sane(),
            self.buffered() >= 2,
        ensures
            r == self@.quoted_word_ends(single),
    {
        let c = self.ch();
        is_blankz(c) || (single && c == '\'' && self.peek(1) != '\'') || (!single && c == '"')
    }

    /// Read a word of a quoted scalar. Returns whether it ended with an
    /// escaped line break.
    fn scan_quoted_word(&mut self, single: bool, start_mark: Marker, string: &mut String) -> (r:
        Result<bool, ScanError>)
        requires
            old(self).sane(),
        ensures
            final(self).sane(),
            final(self)@ == old(self)@.with_cur(final(self)@.cur),
            final(self)@.cur.index >= old(self)@.cur.index,
            (final(self)@, match r {
                Ok(b) => Ok((final(string)@, b)),
                Err(e) => Err(e@),
            }) == old(self)@.quoted_word(single, start_mark@, old(string)@),
    {
        self.lookahead(2);
        while !self.quoted_word_ends(single)
            invariant
                self.sane(),
                self.buffered() >= 2,
                self@ == old(self)@.with_cur(self@.cur),
                self@.cur.index >= old(self)@.cur.index,
                self@.quoted_word(single, start_mark@, string@) == old(self)@.quoted_word(
                    single,
                    start_mark@,
                    old(string)@,
                ),
            decreases self@.input.len() - self@.cur.index,
        {
            let c = self.ch();
            if single && c == '\'' {
                // An escaped single quote.
                string.push('\'');
                self.skip();
                self.skip();
            } else if !single && c == '\\' {
                if is_break(self.peek(1)) {
                    // An escaped line break.
                    self.lookahead(3);
                    self.skip();
                    self.skip_line();
                    return Ok(true);
                }
                let ghost before = self@;
                match self.scan_escape(start_mark) {
                    Err(e) => {
                        return Err(e);
                    },
                    Ok(ch) => {
                        string.push(ch);
                    },
                }
            } else {
                string.push(c);
                self.skip();
            }
            self.lookahead(2);
        }
        Ok(false)
    }

    /// Read the blanks and line breaks behind a word of a quoted scalar.
    fn scan_quoted_blanks(&mut self, fold: &mut FoldBuf)
        requires
            old(self).sane(),
        ensures
            final(self).sane(),
            final(self)@ == old(self)@.with_cur(final(self)@.cur),
            final(self)@.cur.index >= old(self)@.cur.index,
            (final(self)@, final(fold)@) == old(self)@.quoted_blanks(old(fold)@),
    {
        self.lookahead(1);
        while is_blank(self.ch()) || is_break(self.ch())
            invariant
                self.sane(),
                self.buffered() >= 1,
                self@ == old(self)@.with_cur(self@.cur),
                self@.cur.index >= old(self)@.cur.index,
                self@.quoted_blanks(fold@) == old(self)@.quoted_blanks(old(fold)@),
            decreases self@.input.len() - self@.cur.index,
        {
            if is_blank(self.ch()) {
                // Consume a space or a tab character.
                fold.blank(self.ch());
                self.skip();
            } else {
                self.lookahead(2);
                // Check if it is a first line break.
                if fold.leading_blanks {
                    self.read_break(&mut fold.trailing_breaks);
                } else {
                    fold.whitespaces = String::new();
                    self.read_break(&mut fold.leading_break);
                    fold.leading_blanks = true;
                }
            }
            self.lookahead(1);
        }
    }

    pub(crate) fn scan_flow_scalar(&mut self, single: bool) -> (r: Result<Token, ScanError>)
        requires
            old(self).sane(),
            old(self).buffered() >= 1,
            old(self)@.ch() != '\0',
        ensures
            final(self).sane(),
            final(self)@ == old(self)@.with_cur(final(self)@.cur),
            final(self)@.cur.index > old(self)@.cur.index,
            (final(self)@, result_view(r)) == old(self)@.scan_flow_scalar(single),
            r matches Ok(t) ==> is_content(t@.kind) && old(self)@.cur.index <= t@.mark.index
                <= final(self)@.cur.index,
    {
        let start_mark = self.mark;
        let mut string = String::new();

        /* Eat the left quote. */
        self.skip();
        let ghost first = self@;
        let ghost expected = first.quoted_text(single, start_mark@, Seq::empty());

        loop
            invariant_except_break
                self@.quoted_text(single, start_mark@, string@) == expected,
            invariant
                self.sane(),
                self@ == old(self)@.with_cur(self@.cur),
                self@.cur.index > old(self)@.cur.index,
                first == old(self)@.with_cur(old(self)@.cur.step(old(self)@.input)),
                start_mark@ == old(self)@.cur.mark(),
                expected == first.quoted_text(single, start_mark@, Seq::empty()),
            ensures
                (self@, Ok::<Seq<char>, ErrorInfo>(string@)) == expected,
                self@.ch() == quote_of(single),
                self.buffered() >= 1,
            decreases self@.input.len() - self@.cur.index,
        {
            /* Check for a document indicator. */
            self.lookahead(4);
            if self.at_document_indicator() {
                return Err(
                    ScanError::new(
                        start_mark,
                        "while scanning a quoted scalar, found unexpected document indicator",
                    ),
                );
            }
            if is_z(self.ch()) {
                return Err(
                    ScanError::new(
                        start_mark,
                        "while scanning a quoted scalar, found unexpected end of stream",
                    ),
                );
            }
            let ghost before = self@;
            let ghost text0 = string@;
            let leading_blanks = match self.scan_quoted_word(single, start_mark, &mut string) {
                Err(e) => {
                    return Err(e);
                },
                Ok(b) => b,
            };
            self.lookahead(1);
            if (single && self.ch() == '\'') || (!single && self.ch() == '"') {
                break ;
            }
            // Consume blank characters.
            let mut fold = FoldBuf::new(leading_blanks);
            let ghost s1 = self@;
            self.scan_quoted_blanks(&mut fold);
            // Join the whitespaces or fold line breaks.
            fold.join(&mut string, false);
            proof {
                before.lemma_quoted_word(single, start_mark@, text0);
                s1.lemma_quoted_blanks(Fold { leading_blanks, ..Fold::none() });
            }
        }

        // Eat the right quote.
        self.skip();

        if single {
            Ok(Token(start_mark, TokenType::Scalar(TScalarStyle::SingleQuoted, string)))
        } else {
            Ok(Token(start_mark, TokenType::Scalar(TScalarStyle::DoubleQuoted, string)))
        }
    }
}

} // verus!
