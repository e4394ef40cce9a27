//! Tags: handles, URIs and their escapes.

use vstd::prelude::*;
use vstd::string::{StrSliceExecFns, StringExecFns};
use crate::chars::{as_hex, is_alpha, is_blankz, is_hex, spec_as_hex, spec_is_alpha, spec_is_blankz, spec_is_hex, CharClass};
use crate::directive::queue_result;
use crate::nesting::{document_starts, is_content};
use crate::model::State;
use crate::scanner::{result_view, unit_view, ScanResult, Scanner};
use crate::text::is_scalar_value;
use crate::token::{ErrorInfo, Mark, Marker, ScanError, Tok, Token, TokenKind, TokenType};

verus! {

/// A character that may stand in a tag URI.
pub open spec fn spec_is_uri_char(c: char) -> bool {
    c == ';' || c == '/' || c == '?' || c == ':' || c == '@' || c == '&' || c == '=' || c == '+'
        || c == '$' || c == ',' || c == '.' || c == '!' || c == '~' || c == '*' || c == '\''
        || c == '(' || c == ')' || c == '[' || c == ']' || c == '%' || spec_is_alpha(c)
}

/// Whether the character may stand in a tag URI.
#[verifier::when_used_as_spec(spec_is_uri_char)]
pub fn is_uri_char(c: char) -> (r: bool)
    ensures
        r == spec_is_uri_char(c),
{
    c == ';' || c == '/' || c == '?' || c == ':' || c == '@' || c == '&' || c == '=' || c == '+'
        || c == '$' || c == ',' || c == '.' || c == '!' || c == '~' || c == '*' || c == '\''
        || c == '(' || c == ')' || c == '[' || c == ']' || c == '%' || is_alpha(c)
}

/// How many octets the UTF-8 sequence has that `octet` leads; 0 where it
/// leads none.
pub open spec fn utf8_width(octet: int) -> int {
    if 0 <= octet < 0x80 {
        1
    } else if 0xC0 <= octet < 0xE0 {
        2
    } else if 0xE0 <= octet < 0xF0 {
        3
    } else if 0xF0 <= octet < 0xF8 {
        4
    } else {
        0
    }
}

/// The bits of the code point that the leading octet of a UTF-8 sequence
/// holds: all seven of a single octet, and what follows the marker `110`,
/// `1110` or `11110` of a longer one.
pub open spec fn utf8_lead_bits(octet: int) -> int {
    if 0 <= octet < 0x80 {
        octet
    } else if 0xC0 <= octet < 0xE0 {
        octet - 0xC0
    } else if 0xE0 <= octet < 0xF0 {
        octet - 0xE0
    } else {
        octet - 0xF0
    }
}

impl State {
    /// A `%` and two hexadecimal digits stand at the cursor.
    pub open spec fn escape_here(self) -> bool {
        self.ch() == '%' && spec_is_hex(self.at(1)) && spec_is_hex(self.at(2))
    }

    /// The octet that the escape at the cursor denotes.
    pub open spec fn octet_here(self) -> int {
        spec_as_hex(self.at(1)) * 16 + spec_as_hex(self.at(2))
    }

    /// The trailing octets of an escaped sequence: each is an escape whose
    /// octet has the bits `10xxxxxx`, and gives `code` six bits more.
    pub open spec fn uri_trailing(self, mark: Mark, left: int, code: int) -> (State, Result<int, ErrorInfo>)
        decreases left,
    {
        if left <= 0 {
            (self, Ok(code))
        } else if !self.escape_here() {
            (
                self,
                Err(State::error_at(mark, "while parsing a tag, did not find URI escaped octet"@)),
            )
        } else if !(0x80 <= self.octet_here() < 0xC0) {
            (
                self,
                Err(
                    State::error_at(
                        mark,
                        "while parsing a tag, found an incorrect trailing UTF-8 octet"@,
                    ),
                ),
            )
        } else {
            self.with_cur(self.cur.step3(self.input)).uri_trailing(
                mark,
                left - 1,
                code * 64 + (self.octet_here() - 0x80),
            )
        }
    }

    /// One escaped character of a tag URI: one to four escaped octets, as
    /// many as the first one announces, which are the UTF-8 encoding of the
    /// character: the code is made of the bits of the leading octet and six
    /// bits of each trailing one.
    pub open spec fn scan_uri_escapes(self, mark: Mark) -> (State, Result<char, ErrorInfo>) {
        if !self.escape_here() {
            (
                self,
                Err(State::error_at(mark, "while parsing a tag, did not find URI escaped octet"@)),
            )
        } else if utf8_width(self.octet_here()) == 0 {
            (
                self,
                Err(
                    State::error_at(
                        mark,
                        "while parsing a tag, found an incorrect leading UTF-8 octet"@,
                    ),
                ),
            )
        } else {
            State::finish_escape(
                self.with_cur(self.cur.step3(self.input)).uri_trailing(
                    mark,
                    utf8_width(self.octet_here()) - 1,
                    utf8_lead_bits(self.octet_here()),
                ),
                mark,
            )
        }
    }

    /// The character that escaped octets denote, if their code is that of
    /// a character.
    pub open spec fn finish_escape(step: (State, Result<int, ErrorInfo>), mark: Mark) -> (State, Result<char, ErrorInfo>) {
        match step.1 {
            Err(e) => (step.0, Err(e)),
            Ok(code) => {
                if is_scalar_value(code) {
                    (step.0, Ok(code as char))
                } else {
                    (
                        step.0,
                        Err(
                            State::error_at(
                                mark,
                                "while parsing a tag, found an invalid UTF-8 codepoint"@,
                            ),
                        ),
                    )
                }
            },
        }
    }

    /// The trailing octets are read forwards, and lie inside the input.
    pub proof fn lemma_uri_trailing(self, mark: Mark, left: int, code: int)
        requires
            self.cur.index <= self.input.len(),
        ensures
            self.uri_trailing(mark, left, code).0.cur.index >= self.cur.index,
            self.uri_trailing(mark, left, code).0.cur.index <= self.input.len(),
            self.uri_trailing(mark, left, code).0 == self.with_cur(
                self.uri_trailing(mark, left, code).0.cur,
            ),
        decreases left,
    {
        if left > 0 && self.escape_here() && 0x80 <= self.octet_here() < 0xC0 {
            self.with_cur(self.cur.step3(self.input)).lemma_uri_trailing(
                mark,
                left - 1,
                code * 64 + (self.octet_here() - 0x80),
            );
        }
    }

    /// An escaped character that was read took at least three characters
    /// of the input.
    pub proof fn lemma_scan_uri_escapes(self, mark: Mark)
        requires
            self.cur.index <= self.input.len(),
        ensures
            self.scan_uri_escapes(mark).0.cur.index >= self.cur.index,
            self.scan_uri_escapes(mark).0.cur.index <= self.input.len(),
            self.scan_uri_escapes(mark).1 is Ok ==> self.scan_uri_escapes(mark).0.cur.index
                > self.cur.index,
            self.scan_uri_escapes(mark).0 == self.with_cur(self.scan_uri_escapes(mark).0.cur),
    {
        if self.escape_here() && utf8_width(self.octet_here()) != 0 {
            self.with_cur(self.cur.step3(self.input)).lemma_uri_trailing(
                mark,
                utf8_width(self.octet_here()) - 1,
                utf8_lead_bits(self.octet_here()),
            );
        }
    }

    /// The characters of a URI from the cursor on, appended to `acc`: each
    /// URI character stands for itself, but a `%` starts an escaped character.
    pub open spec fn uri_rest(self, mark: Mark, acc: Seq<char>) -> (State, Result<Seq<char>, ErrorInfo>)
        decreases self.input.len() - self.cur.index,
    {
        if !(0 <= self.cur.index < self.input.len()) || !spec_is_uri_char(self.ch()) {
            (self, Ok(acc))
        } else if self.ch() == '%' {
            let (s2, r) = self.scan_uri_escapes(mark);
            match r {
                Err(e) => (s2, Err(e)),
                Ok(c) => {
                    proof {
                        self.lemma_scan_uri_escapes(mark);
                    }
                    s2.uri_rest(mark, acc.push(c))
                },
            }
        } else {
            self.with_cur(self.cur.step(self.input)).uri_rest(mark, acc.push(self.ch()))
        }
    }

    /// A tag URI: what is left of `head` without its first character, then
    /// the URI characters at the cursor. With an empty head, the URI must
    /// not be empty.
    pub open spec fn scan_tag_uri(self, head: Seq<char>, mark: Mark) -> (State, Result<Seq<char>, ErrorInfo>) {
        let (s2, r) = self.uri_rest(
            mark,
            if head.len() > 1 {
                head.skip(1)
            } else {
                Seq::empty()
            },
        );
        match r {
            Err(e) => (s2, Err(e)),
            Ok(text) => {
                if head.len() == 0 && text.len() == 0 {
                    (
                        s2,
                        Err(
                            State::error_at(
                                mark,
                                "while parsing a tag, did not find expected tag URI"@,
                            ),
                        ),
                    )
                } else {
                    (s2, Ok(text))
                }
            },
        }
    }

    /// A tag handle: `!`, a run of `Alpha` characters, and a closing `!` if
    /// there is one. In a directive, a handle with a name must be closed.
    pub open spec fn scan_tag_handle(self, directive: bool, mark: Mark) -> (State, Result<Seq<char>, ErrorInfo>) {
        if self.ch() != '!' {
            (self, Err(State::error_at(mark, "while scanning a tag, did not find expected '!'"@)))
        } else {
            let c1 = self.cur.step(self.input);
            let c2 = c1.run(self.input, CharClass::Alpha);
            if c2.ch(self.input) == '!' {
                let c3 = c2.step(self.input);
                (self.with_cur(c3), Ok(self.cur.text_to(self.input, c3)))
            } else if directive && c2.index > c1.index {
                (
                    self.with_cur(c2),
                    Err(
                        State::error_at(
                            mark,
                            "while parsing a tag directive, did not find expected '!'"@,
                        ),
                    ),
                )
            } else {
                (self.with_cur(c2), Ok(self.cur.text_to(self.input, c2)))
            }
        }
    }

    /// A tag is complete where a blank, a line break or the end of the
    /// stream follows it.
    pub open spec fn finish_tag(self, start: Mark, handle: Seq<char>, suffix: Seq<char>) -> (State, Result<Tok, ErrorInfo>) {
        if spec_is_blankz(self.ch()) {
            (self, Ok(Tok { mark: start, kind: TokenKind::Tag(handle, suffix) }))
        } else {
            (
                self,
                Err(
                    State::error_at(
                        start,
                        "while scanning a tag, did not find expected whitespace or line break"@,
                    ),
                ),
            )
        }
    }

    /// A tag: the verbatim form `!<uri>`, or a handle and a suffix. What
    /// looks like a handle but is not closed by `!` is the start of the
    /// suffix of the primary handle `!`; alone, it is the tag `!`.
    pub open spec fn scan_tag(self) -> (State, Result<Tok, ErrorInfo>) {
        let start = self.cur.mark();
        if self.at(1) == '<' {
            let (s2, r) = self.with_cur(self.cur.step2(self.input)).scan_tag_uri(
                Seq::empty(),
                start,
            );
            match r {
                Err(e) => (s2, Err(e)),
                Ok(suffix) => {
                    if s2.ch() != '>' {
                        (
                            s2,
                            Err(
                                State::error_at(
                                    start,
                                    "while scanning a tag, did not find the expected '>'"@,
                                ),
                            ),
                        )
                    } else {
                        s2.with_cur(s2.cur.step(s2.input)).finish_tag(start, Seq::empty(), suffix)
                    }
                },
            }
        } else {
            let (s1, r1) = self.scan_tag_handle(false, start);
            match r1 {
                Err(e) => (s1, Err(e)),
                Ok(handle) => {
                    if handle.len() >= 2 && handle.first() == '!' && handle.last() == '!' {
                        let (s2, r2) = s1.scan_tag_uri(Seq::empty(), start);
                        match r2 {
                            Err(e) => (s2, Err(e)),
                            Ok(suffix) => s2.finish_tag(start, handle, suffix),
                        }
                    } else {
                        let (s2, r2) = s1.scan_tag_uri(handle, start);
                        match r2 {
                            Err(e) => (s2, Err(e)),
                            Ok(suffix) => {
                                if suffix.len() == 0 {
                                    s2.finish_tag(start, Seq::empty(), seq!['!'])
                                } else {
                                    s2.finish_tag(start, seq!['!'], suffix)
                                }
                            },
                        }
                    }
                },
            }
        }
    }

    /// A tag may start a simple key, and none may start behind it.
    pub open spec fn fetch_tag(self) -> (State, Result<(), ErrorInfo>) {
        let (s1, r1) = self.save_simple_key();
        if r1 is Err {
            (s1, r1)
        } else {
            queue_result(s1.with_simple_key_allowed(false).scan_tag())
        }
    }
}

impl Scanner {
    pub(crate) fn fetch_tag(&mut self) -> (r: ScanResult)
        requires
            old(self).sane(),
            old(self)@.stream_start_produced,
            old(self)@.ch() == '!',
        ensures
            final(self).sane(),
            (final(self)@, unit_view(r)) == old(self)@.fetch_tag(),
            final(self)@.parsed == old(self)@.parsed,
            final(self)@.input == old(self)@.input,
            final(self)@.stream_end_produced == old(self)@.stream_end_produced,
            final(self)@.error == old(self)@.error,
            r is Ok ==> final(self)@.all.len() > old(self)@.all.len(),
            old(self)@.lawful() ==> final(self)@.lawful(),
            document_starts(final(self)@.all) == document_starts(old(self)@.all),
            r is Ok ==> final(self)@.cur.index > old(self)@.cur.index,
    {
        match self.save_simple_key() {
            Err(e) => {
                return Err(e);
            },
            Ok(_) => {},
        }
        self.disallow_simple_key();
        let ghost saved = self@;
        let scanned = self.scan_tag();
        proof {
            if saved.lawful() {
                saved.lemma_lawful_moved(self@);
            }
        }
        match scanned {
            Err(e) => Err(e),
            Ok(tok) => {
                self.push_token(tok);
                proof {
                    if saved.lawful() {
                        saved.lemma_lawful_pushed(self@, tok@);
                    }
                }
                Ok(())
            },
        }
    }

    pub(crate) fn scan_tag(&mut self) -> (r: Result<Token, ScanError>)
        requires
            old(self).sane(),
            old(self)@.ch() == '!',
        ensures
            final(self).sane(),
            (final(self)@, result_view(r)) == old(self)@.scan_tag(),
            final(self)@.cur.index >= old(self)@.cur.index,
            r matches Ok(t) ==> is_content(t@.kind) && old(self)@.cur.index <= t@.mark.index
                <= final(self)@.cur.index,
            final(self)@ == old(self)@.with_cur(final(self)@.cur),
            r is Ok ==> final(self)@.cur.index > old(self)@.cur.index,
    {
        let start_mark = self.mark;
        let mut handle = String::new();
        let mut suffix;

        // Check if the tag is in the canonical form (verbatim).
        self.lookahead(2);
        proof {
            reveal_strlit("!");
            reveal_strlit("");
            assert(""@ =~= Seq::<char>::empty());
        }

        if self.peek(1) == '<' {
            // Eat '!<'
            self.skip();
            self.skip();
            suffix = match self.scan_tag_uri(false, false, "", &start_mark) {
                Err(e) => {
                    return Err(e);
                },
                Ok(s) => s,
            };
            self.lookahead(1);
            if self.ch() != '>' {
                return Err(
                    ScanError::new(
                        start_mark,
                        "while scanning a tag, did not find the expected '>'",
                    ),
                );
            }
            self.skip();
        } else {
            // The tag has either the '!suffix' or the '!handle!suffix'
            handle = match self.scan_tag_handle(false, &start_mark) {
                Err(e) => {
                    return Err(e);
                },
                Ok(h) => h,
            };
            // Check if it is, indeed, handle.
            let n = handle.as_str().unicode_len();
            if n >= 2 && handle.as_str().get_char(0) == '!' && handle.as_str().get_char(n - 1)
                == '!' {
                // A tag handle starting with "!!" is a secondary tag handle.
                let is_secondary_handle = handle == "!!".to_owned();
                suffix = match self.scan_tag_uri(false, is_secondary_handle, "", &start_mark) {
                    Err(e) => {
                        return Err(e);
                    },
                    Ok(s) => s,
                };
            } else {
                suffix = match self.scan_tag_uri(false, false, handle.as_str(), &start_mark) {
                    Err(e) => {
                        return Err(e);
                    },
                    Ok(s) => s,
                };
                handle = "!".to_owned();
                // A special case: the '!' tag.  Set the handle to '' and the
                // suffix to '!'.
                if suffix.as_str().is_empty() {
                    handle = String::new();
                    suffix = "!".to_owned();
                }
                proof {
                    assert("!"@ =~= seq!['!']);
                }
            }
        }

        if is_blankz(self.look_ch()) {
            Ok(Token(start_mark, TokenType::Tag(handle, suffix)))
        } else {
            Err(
                ScanError::new(
                    start_mark,
                    "while scanning a tag, did not find expected whitespace or line break",
                ),
            )
        }
    }

    pub(crate) fn scan_tag_handle(&mut self, directive: bool, mark: &Marker) -> (r: Result<
        String,
        ScanError,
    >)
        requires
            old(self).sane(),
        ensures
            final(self).sane(),
            (final(self)@, result_view(r)) == old(self)@.scan_tag_handle(directive, mark@),
            final(self)@ == old(self)@.with_cur(final(self)@.cur),
            final(self)@.cur.index >= old(self)@.cur.index,
            r is Ok ==> final(self)@.cur.index > old(self)@.cur.index,
    {
        let mut string = String::new();
        if self.look_ch() != '!' {
            return Err(ScanError::new(*mark, "while scanning a tag, did not find expected '!'"));
        }
        string.push(self.ch_skip());
        let after_bang = self.mark.index;
        self.read_run(CharClass::Alpha, &mut string);
        let ghost s1 = self@;
        proof {
            assert(string@ =~= old(self)@.cur.text_to(self@.input, self@.cur));
        }

        // Check if the trailing character is '!' and copy it.
        if self.ch() == '!' {
            string.push(self.ch_skip());
            proof {
                assert(string@ =~= old(self)@.cur.text_to(self@.input, self@.cur));
            }
        } else if directive && self.mark.index > after_bang {
            // It's either the '!' tag or not really a tag handle.  If it's a %TAG
            // directive, it's an error.  If it's a tag token, it must be a part of
            // URI.
            return Err(
                ScanError::new(*mark, "while parsing a tag directive, did not find expected '!'"),
            );
        }
        Ok(string)
    }

    pub(crate) fn scan_tag_uri(
        &mut self,
        directive: bool,
        _is_secondary: bool,
        head: &str,
        mark: &Marker,
    ) -> (r: Result<String, ScanError>)
        requires
            old(self).sane(),
        ensures
            final(self).sane(),
            (final(self)@, result_view(r)) == old(self)@.scan_tag_uri(head@, mark@),
            final(self)@ == old(self)@.with_cur(final(self)@.cur),
            final(self)@.cur.index >= old(self)@.cur.index,
    {
        let head_len = head.unicode_len();
        let mut string = String::new();

        // Copy the head if needed.
        // Note that we don't copy the leading '!' character.
        if head_len > 1 {
            string.append(head.substring_char(1, head_len));
        }
        proof {
            assert(string@ =~= (if head@.len() > 1 {
                head@.skip(1)
            } else {
                Seq::empty()
            }));
        }
        /*
         * The set of characters that may appear in URI is as follows:
         *
         *      '0'-'9', 'A'-'Z', 'a'-'z', '_', '-', ';', '/', '?', ':', '@', '&',
         *      '=', '+', '$', ',', '.', '!', '~', '*', '\'', '(', ')', '[', ']',
         *      '%'.
         */
        let ghost init = string@;
        while is_uri_char(self.look_ch())
            invariant
                self.sane(),
                self@ == old(self)@.with_cur(self@.cur),
                self@.cur.index >= old(self)@.cur.index,
                self@.uri_rest(mark@, string@) == old(self)@.uri_rest(mark@, init),
                init == (if head@.len() > 1 {
                    head@.skip(1)
                } else {
                    Seq::empty()
                }),
            decreases self@.input.len() - self@.cur.index,
        {
            // Check if it is a URI-escape sequence.
            let ghost before = self@;
            if self.ch() == '%' {
                let c = match self.scan_uri_escapes(directive, mark) {
                    Err(e) => {
                        proof {
                            assert(before.uri_rest(mark@, string@) == (self@, Err::<
                                Seq<char>,
                                ErrorInfo,
                            >(e@)));
                        }
                        return Err(e);
                    },
                    Ok(c) => c,
                };
                string.push(c);
            } else {
                string.push(self.ch());
                self.skip();
            }
        }
        if head_len == 0 && string.as_str().is_empty() {
            return Err(
                ScanError::new(*mark, "while parsing a tag, did not find expected tag URI"),
            );
        }
        Ok(string)
    }

    pub(crate) fn scan_uri_escapes(&mut self, _directive: bool, mark: &Marker) -> (r: Result<
        char,
        ScanError,
    >)
        requires
            old(self).sane(),
        ensures
            final(self).sane(),
            (final(self)@, result_view(r)) == old(self)@.scan_uri_escapes(mark@),
            final(self)@ == old(self)@.with_cur(final(self)@.cur),
            final(self)@.cur.index >= old(self)@.cur.index,
            r is Ok ==> final(self)@.cur.index > old(self)@.cur.index,
    {
        self.lookahead(3);
        if !(self.ch() == '%' && is_hex(self.peek(1)) && is_hex(self.peek(2))) {
            return Err(
                ScanError::new(*mark, "while parsing a tag, did not find URI escaped octet"),
            );
        }
        let octet = as_hex(self.peek(1)) * 16 + as_hex(self.peek(2));
        let width: usize = if octet < 0x80 {
            1
        } else if 0xC0 <= octet && octet < 0xE0 {
            2
        } else if 0xE0 <= octet && octet < 0xF0 {
            3
        } else if 0xF0 <= octet && octet < 0xF8 {
            4
        } else {
            return Err(
                ScanError::new(
                    *mark,
                    "while parsing a tag, found an incorrect leading UTF-8 octet",
                ),
            );
        };
        let mut code: u32 = if width == 1 {
            octet
        } else if width == 2 {
            octet - 0xC0
        } else if width == 3 {
            octet - 0xE0
        } else {
            octet - 0xF0
        };
        self.skip();
        self.skip();
        self.skip();
        let mut left: usize = width - 1;
        while left > 0
            invariant
                self.sane(),
                self@ == old(self)@.with_cur(self@.cur),
                self@.cur.index > old(self)@.cur.index,
                1 <= width <= 4,
                left < width,
                (code as int) < (if width - left == 1 {
                    0x80int
                } else if width - left == 2 {
                    0x2000int
                } else if width - left == 3 {
                    0x8_0000int
                } else {
                    0x200_0000int
                }),
                State::finish_escape(self@.uri_trailing(mark@, left as int, code as int), mark@)
                    == old(self)@.scan_uri_escapes(mark@),
            decreases left,
        {
            self.lookahead(3);
            if !(self.ch() == '%' && is_hex(self.peek(1)) && is_hex(self.peek(2))) {
                return Err(
                    ScanError::new(*mark, "while parsing a tag, did not find URI escaped octet"),
                );
            }
            let octet = as_hex(self.peek(1)) * 16 + as_hex(self.peek(2));
            if !(0x80 <= octet && octet < 0xC0) {
                return Err(
                    ScanError::new(
                        *mark,
                        "while parsing a tag, found an incorrect trailing UTF-8 octet",
                    ),
                );
            }
            code = code * 64 + (octet - 0x80);
            self.skip();
            self.skip();
            self.skip();
            left -= 1;
        }
        match char::from_u32(code) {
            Some(ch) => Ok(ch),
            None => Err(
                ScanError::new(*mark, "while parsing a tag, found an invalid UTF-8 codepoint"),
            ),
        }
    }
}

} // verus!
