//! Directives: `%YAML`, `%TAG`, and the names that are skipped.

use vstd::prelude::*;
use crate::chars::{is_blankz, is_break, is_breakz, is_digit, spec_is_blankz, spec_is_breakz, spec_is_digit, CharClass};
use crate::nesting::{document_starts, is_content};
use crate::model::{Cursor, State};
use crate::scanner::{result_view, unit_view, ScanResult, Scanner};
use crate::token::{ErrorInfo, Mark, Marker, ScanError, Tok, Token, TokenKind, TokenType};

verus! {

/// The number that a string of decimal digits denotes.
pub open spec fn decimal(s: Seq<char>) -> nat
    decreases s.len(),
{
    if s.len() == 0 {
        0
    } else {
        decimal(s.drop_last()) * 10 + (s.last() as nat - '0' as nat) as nat
    }
}

/// One more than the largest number of `n` digits, for `n` up to 9.
pub open spec fn digits_bound(n: int) -> int {
    if n <= 0 {
        1
    } else if n == 1 {
        10
    } else if n == 2 {
        100
    } else if n == 3 {
        1_000
    } else if n == 4 {
        10_000
    } else if n == 5 {
        100_000
    } else if n == 6 {
        1_000_000
    } else if n == 7 {
        10_000_000
    } else if n == 8 {
        100_000_000
    } else {
        1_000_000_000
    }
}

impl Cursor {
    /// The cursor behind the digits that start here, `max` of them at most.
    pub open spec fn digits(self, input: Seq<char>, max: nat) -> Cursor
        decreases max,
    {
        if max > 0 && spec_is_digit(self.ch(input)) {
            self.step(input).digits(input, (max - 1) as nat)
        } else {
            self
        }
    }
}

/// A step that yields a token: the token joins the queue.
pub open spec fn queue_result(step: (State, Result<Tok, ErrorInfo>)) -> (State, Result<(), ErrorInfo>) {
    match step.1 {
        Ok(t) => (step.0.pushed(t), Ok(())),
        Err(e) => (step.0, Err(e)),
    }
}

impl State {
    /// An error at the given mark.
    pub open spec fn error_at(mark: Mark, info: Seq<char>) -> ErrorInfo {
        ErrorInfo { mark, info }
    }

    /// The name of a directive: a non-empty run of `Alpha` characters that a
    /// blank, a line break or the end of the stream follows.
    pub open spec fn scan_directive_name(self) -> (State, Result<Seq<char>, ErrorInfo>) {
        let end = self.cur.run(self.input, CharClass::Alpha);
        let name = self.cur.text_to(self.input, end);
        let s = self.with_cur(end);
        if name.len() == 0 {
            (
                s,
                Err(
                    State::error_at(
                        self.cur.mark(),
                        "while scanning a directive, could not find expected directive name"@,
                    ),
                ),
            )
        } else if !spec_is_blankz(s.ch()) {
            (
                s,
                Err(
                    State::error_at(
                        self.cur.mark(),
                        "while scanning a directive, found unexpected non-alphabetical character"@,
                    ),
                ),
            )
        } else {
            (s, Ok(name))
        }
    }

    /// One number of a version: one to nine decimal digits.
    pub open spec fn scan_version_directive_number(self, mark: Mark) -> (State, Result<u32, ErrorInfo>) {
        let end = self.cur.digits(self.input, 9);
        let text = self.cur.text_to(self.input, end);
        let s = self.with_cur(end);
        if spec_is_digit(s.ch()) {
            (
                s,
                Err(
                    State::error_at(
                        mark,
                        "while scanning a YAML directive, found extremely long version number"@,
                    ),
                ),
            )
        } else if text.len() == 0 {
            (
                s,
                Err(
                    State::error_at(
                        mark,
                        "while scanning a YAML directive, did not find expected version number"@,
                    ),
                ),
            )
        } else {
            (s, Ok(decimal(text) as u32))
        }
    }

    /// The value of a `%YAML` directive: blanks, then `major.minor`.
    pub open spec fn scan_version_directive_value(self, mark: Mark) -> (State, Result<Tok, ErrorInfo>) {
        let s1 = self.with_cur(self.cur.run(self.input, CharClass::Blank));
        let (s2, major) = s1.scan_version_directive_number(mark);
        match major {
            Err(e) => (s2, Err(e)),
            Ok(major) => {
                if s2.ch() != '.' {
                    (
                        s2,
                        Err(
                            State::error_at(
                                mark,
                                "while scanning a YAML directive, did not find expected digit or '.' character"@,
                            ),
                        ),
                    )
                } else {
                    let (s3, minor) = s2.with_cur(
                        s2.cur.step(s2.input),
                    ).scan_version_directive_number(mark);
                    match minor {
                        Err(e) => (s3, Err(e)),
                        Ok(minor) => (
                            s3,
                            Ok(Tok { mark, kind: TokenKind::VersionDirective(major, minor) }),
                        ),
                    }
                }
            },
        }
    }

    /// The value of a `%TAG` directive: a handle and a prefix, each after
    /// blanks, and a blank or the end of the line behind them.
    pub open spec fn scan_tag_directive_value(self, mark: Mark) -> (State, Result<Tok, ErrorInfo>) {
        let s1 = self.with_cur(self.cur.run(self.input, CharClass::Blank));
        let (s2, handle) = s1.scan_tag_handle(true, mark);
        match handle {
            Err(e) => (s2, Err(e)),
            Ok(handle) => {
                let s3 = s2.with_cur(s2.cur.run(s2.input, CharClass::Blank));
                let (s4, prefix) = s3.scan_tag_uri(Seq::empty(), mark);
                match prefix {
                    Err(e) => (s4, Err(e)),
                    Ok(prefix) => {
                        if spec_is_blankz(s4.ch()) {
                            (s4, Ok(Tok { mark, kind: TokenKind::TagDirective(handle, prefix) }))
                        } else {
                            (
                                s4,
                                Err(
                                    State::error_at(
                                        mark,
                                        "while scanning TAG, did not find expected whitespace or line break"@,
                                    ),
                                ),
                            )
                        }
                    },
                }
            },
        }
    }

    /// What follows the value of a directive: blanks, a comment, and the end
    /// of the line, which is consumed.
    pub open spec fn finish_directive(self, start: Mark, tok: Tok) -> (State, Result<Tok, ErrorInfo>) {
        let s1 = self.with_cur(self.cur.run(self.input, CharClass::Blank));
        let s2 = if s1.ch() == '#' {
            s1.with_cur(s1.cur.run(s1.input, CharClass::Line))
        } else {
            s1
        };
        if !spec_is_breakz(s2.ch()) {
            (
                s2,
                Err(
                    State::error_at(
                        start,
                        "while scanning a directive, did not find expected comment or line break"@,
                    ),
                ),
            )
        } else {
            (s2.with_cur(s2.cur.step_line(s2.input)), Ok(tok))
        }
    }

    /// A directive, from its `%` to the end of its line. A name other than
    /// `YAML` and `TAG` has the rest of its line skipped and yields an empty
    /// tag directive.
    pub open spec fn scan_directive(self) -> (State, Result<Tok, ErrorInfo>) {
        let start = self.cur.mark();
        let (s1, name) = self.with_cur(self.cur.step(self.input)).scan_directive_name();
        match name {
            Err(e) => (s1, Err(e)),
            Ok(name) => {
                let (s2, tok) = if name == "YAML"@ {
                    s1.scan_version_directive_value(start)
                } else if name == "TAG"@ {
                    s1.scan_tag_directive_value(start)
                } else {
                    (
                        s1.with_cur(s1.cur.run(s1.input, CharClass::Line)),
                        Ok(
                            Tok {
                                mark: start,
                                kind: TokenKind::TagDirective(Seq::empty(), Seq::empty()),
                            },
                        ),
                    )
                };
                match tok {
                    Err(e) => (s2, Err(e)),
                    Ok(tok) => s2.finish_directive(start, tok),
                }
            },
        }
    }

    /// A directive closes every open block and ends any simple key.
    pub open spec fn fetch_directive(self) -> (State, Result<(), ErrorInfo>) {
        let (s1, r1) = self.unroll_indent(-1).remove_simple_key();
        if r1 is Err {
            (s1, r1)
        } else {
            queue_result(s1.with_simple_key_allowed(false).scan_directive())
        }
    }
}

impl Scanner {
    pub(crate) fn fetch_directive(&mut self) -> (r: ScanResult)
        requires
            old(self).sane(),
            old(self)@.stream_start_produced,
            old(self).buffered() >= 1,
            old(self)@.ch() == '%',
        ensures
            final(self).sane(),
            (final(self)@, unit_view(r)) == old(self)@.fetch_directive(),
            r is Ok ==> final(self)@.cur.index > old(self)@.cur.index,
            final(self)@.parsed == old(self)@.parsed,
            final(self)@.input == old(self)@.input,
            final(self)@.stream_end_produced == old(self)@.stream_end_produced,
            final(self)@.error == old(self)@.error,
            r is Ok ==> final(self)@.all.len() > old(self)@.all.len(),
            old(self)@.lawful() ==> final(self)@.lawful(),
            document_starts(final(self)@.all) == document_starts(old(self)@.all),
    {
        self.unroll_indent(-1);
        match self.remove_simple_key() {
            Err(e) => {
                return Err(e);
            },
            Ok(_) => {},
        }
        self.disallow_simple_key();
        let ghost saved = self@;
        let scanned = self.scan_directive();
        proof {
            if saved.lawful() {
                saved.lemma_lawful_moved(self@);
            }
        }
        match scanned {
            Err(e) => Err(e),
            Ok(tok) => {
                self.push_token(tok);
                proof {
                    if saved.lawful() {
                        saved.lemma_lawful_pushed(self@, tok@);
                    }
                }
                Ok(())
            },
        }
    }

    pub(crate) fn scan_directive(&mut self) -> (r: Result<Token, ScanError>)
        requires
            old(self).sane(),
            old(self).buffered() >= 1,
            old(self)@.ch() == '%',
        ensures
            final(self).sane(),
            (final(self)@, result_view(r)) == old(self)@.scan_directive(),
            r matches Ok(t) ==> is_content(t@.kind) && old(self)@.cur.index <= t@.mark.index
                <= final(self)@.cur.index,
            final(self)@ == old(self)@.with_cur(final(self)@.cur),
            final(self)@.cur.index > old(self)@.cur.index,
    {
        let start_mark = self.mark;
        self.skip();
        let name = match self.scan_directive_name() {
            Err(e) => {
                return Err(e);
            },
            Ok(name) => name,
        };
        let tok = if name == "YAML".to_owned() {
            match self.scan_version_directive_value(&start_mark) {
                Err(e) => {
                    return Err(e);
                },
                Ok(tok) => tok,
            }
        } else if name == "TAG".to_owned() {
            match self.scan_tag_directive_value(&start_mark) {
                Err(e) => {
                    return Err(e);
                },
                Ok(tok) => tok,
            }
        } else {
            // skip current line
            self.skip_run(CharClass::Line);
            Token(start_mark, TokenType::TagDirective(String::new(), String::new()))
        };
        self.finish_directive(start_mark, tok)
    }

    /// Check that nothing but a comment follows a directive on its line,
    /// and consume the line break.
    pub(crate) fn finish_directive(&mut self, start_mark: Marker, tok: Token) -> (r: Result<
        Token,
        ScanError,
    >)
        requires
            old(self).sane(),
        ensures
            final(self).sane(),
            (final(self)@, result_view(r)) == old(self)@.finish_directive(start_mark@, tok@),
            final(self)@ == old(self)@.with_cur(final(self)@.cur),
            final(self)@.cur.index >= old(self)@.cur.index,
    {
        self.skip_run(CharClass::Blank);
        if self.ch() == '#' {
            self.skip_run(CharClass::Line);
        }
        if !is_breakz(self.ch()) {
            return Err(
                ScanError::new(
                    start_mark,
                    "while scanning a directive, did not find expected comment or line break",
                ),
            );
        }
        // Eat a line break
        if is_break(self.ch()) {
            self.lookahead(2);
            self.skip_line();
        }
        Ok(tok)
    }

    pub(crate) fn scan_version_directive_value(&mut self, mark: &Marker) -> (r: Result<
        Token,
        ScanError,
    >)
        requires
            old(self).sane(),
        ensures
            final(self).sane(),
            (final(self)@, result_view(r)) == old(self)@.scan_version_directive_value(mark@),
            final(self)@ == old(self)@.with_cur(final(self)@.cur),
            final(self)@.cur.index >= old(self)@.cur.index,
    {
        self.skip_run(CharClass::Blank);
        let major = match self.scan_version_directive_number(mark) {
            Err(e) => {
                return Err(e);
            },
            Ok(n) => n,
        };
        if self.ch() != '.' {
            return Err(
                ScanError::new(
                    *mark,
                    "while scanning a YAML directive, did not find expected digit or '.' character",
                ),
            );
        }
        self.skip();
        let minor = match self.scan_version_directive_number(mark) {
            Err(e) => {
                return Err(e);
            },
            Ok(n) => n,
        };
        Ok(Token(*mark, TokenType::VersionDirective(major, minor)))
    }

    pub(crate) fn scan_directive_name(&mut self) -> (r: Result<String, ScanError>)
        requires
            old(self).sane(),
        ensures
            final(self).sane(),
            (final(self)@, result_view(r)) == old(self)@.scan_directive_name(),
            final(self)@ == old(self)@.with_cur(final(self)@.cur),
            final(self)@.cur.index >= old(self)@.cur.index,
            final(self).buffered() >= 1,
    {
        let start_mark = self.mark;
        let mut string = String::new();
        self.read_run(CharClass::Alpha, &mut string);
        proof {
            assert(string@ =~= old(self)@.cur.text_to(self@.input, self@.cur));
        }
        if string.as_str().is_empty() {
            return Err(
                ScanError::new(
                    start_mark,
                    "while scanning a directive, could not find expected directive name",
                ),
            );
        }
        if !is_blankz(self.ch()) {
            return Err(
                ScanError::new(
                    start_mark,
                    "while scanning a directive, found unexpected non-alphabetical character",
                ),
            );
        }
        Ok(string)
    }

    pub(crate) fn scan_version_directive_number(&mut self, mark: &Marker) -> (r: Result<
        u32,
        ScanError,
    >)
        requires
            old(self).sane(),
        ensures
            final(self).sane(),
            (final(self)@, result_view(r)) == old(self)@.scan_version_directive_number(mark@),
            final(self)@ == old(self)@.with_cur(final(self)@.cur),
            final(self)@.cur.index >= old(self)@.cur.index,
            final(self).buffered() >= 1,
    {
        let mut val = 0u32;
        let mut length = 0usize;
        self.lookahead(1);
        proof {
            assert(old(self)@.cur.text_to(self@.input, self@.cur) =~= Seq::<char>::empty());
        }
        while is_digit(self.ch())
            invariant
                self.sane(),
                self.buffered() >= 1,
                self@ == old(self)@.with_cur(self@.cur),
                length <= 9,
                self@.cur.index == old(self)@.cur.index + length,
                self@.cur.digits(self@.input, (9 - length) as nat) == old(self)@.cur.digits(
                    old(self)@.input,
                    9,
                ),
                val == decimal(old(self)@.cur.text_to(self@.input, self@.cur)),
                val < digits_bound(length as int),
            decreases self@.input.len() - self@.cur.index,
        {
            if length + 1 > 9 {
                return Err(
                    ScanError::new(
                        *mark,
                        "while scanning a YAML directive, found extremely long version number",
                    ),
                );
            }
            let ghost before = old(self)@.cur.text_to(self@.input, self@.cur);
            length += 1;
            val = val * 10 + ((self.ch() as u32) - ('0' as u32));
            self.skip();
            self.lookahead(1);
            proof {
                let after = old(self)@.cur.text_to(self@.input, self@.cur);
                assert(after.drop_last() =~= before);
            }
        }
        if length == 0 {
            return Err(
                ScanError::new(
                    *mark,
                    "while scanning a YAML directive, did not find expected version number",
                ),
            );
        }
        Ok(val)
    }

    pub(crate) fn scan_tag_directive_value(&mut self, mark: &Marker) -> (r: Result<Token, ScanError>)
        requires
            old(self).sane(),
        ensures
            final(self).sane(),
            (final(self)@, result_view(r)) == old(self)@.scan_tag_directive_value(mark@),
            final(self)@ == old(self)@.with_cur(final(self)@.cur),
            final(self)@.cur.index >= old(self)@.cur.index,
    {
        proof {
            reveal_strlit("");
            assert(""@ =~= Seq::<char>::empty());
        }
        /* Eat whitespaces. */
        self.skip_run(CharClass::Blank);
        let handle = match self.scan_tag_handle(true, mark) {
            Err(e) => {
                return Err(e);
            },
            Ok(h) => h,
        };
        /* Eat whitespaces. */
        self.skip_run(CharClass::Blank);
        let is_secondary = handle == "!!".to_owned();
        let prefix = match self.scan_tag_uri(true, is_secondary, "", mark) {
            Err(e) => {
                return Err(e);
            },
            Ok(p) => p,
        };
        self.lookahead(1);
        if is_blankz(self.ch()) {
            Ok(Token(*mark, TokenType::TagDirective(handle, prefix)))
        } else {
            Err(
                ScanError::new(
                    *mark,
                    "while scanning TAG, did not find expected whitespace or line break",
                ),
            )
        }
    }
}

} // verus!
