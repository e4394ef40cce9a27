//! Plain scalars.

use vstd::prelude::*;
use crate::chars::{is_blank, is_blankz, is_break, is_flow, spec_is_blank, spec_is_blankz, spec_is_break, spec_is_flow};
use crate::directive::queue_result;
use crate::fold::{Fold, FoldBuf};
use crate::nesting::{document_starts, is_content};
use crate::model::State;
use crate::scanner::{result_view, unit_view, ScanResult, Scanner};
use crate::token::{ErrorInfo, Mark, Marker, ScanError, TScalarStyle, Tok, Token, TokenKind, TokenType};

verus! {

impl State {
    /// `---` or `...` at the start of a line, with a blank, a line break or
    /// the end of the stream behind it.
    pub open spec fn document_indicator_here(self) -> bool {
        &&& self.cur.col == 0
        &&& (self.at(0) == '-' && self.at(1) == '-' && self.at(2) == '-') || (self.at(0) == '.'
            && self.at(1) == '.' && self.at(2) == '.')
        &&& spec_is_blankz(self.at(3))
    }

    /// An indicator that ends a plain scalar: a `:` before a blank, a line
    /// break or the end of the stream; inside a flow collection also a `:`
    /// before a flow indicator, and any flow indicator.
    pub open spec fn plain_stop_here(self) -> bool {
        ||| self.ch() == ':' && (spec_is_blankz(self.at(1)) || (self.flow_level > 0
            && spec_is_flow(self.at(1))))
        ||| self.flow_level > 0 && spec_is_flow(self.ch())
    }

    /// A word of a plain scalar: the characters up to a blank, a line
    /// break, the end of the stream or an indicator that ends the scalar.
    /// What was read before the word is joined to the text in front of its
    /// first character.
    pub open spec fn plain_word(self, fold: Fold, text: Seq<char>) -> (State, Fold, Seq<char>)
        decreases self.input.len() - self.cur.index,
    {
        if !(0 <= self.cur.index < self.input.len()) || spec_is_blankz(self.ch())
            || self.plain_stop_here() {
            (self, fold, text)
        } else {
            self.with_cur(self.cur.step(self.input)).plain_word(
                Fold::none(),
                fold.join(text, true).push(self.ch()),
            )
        }
    }

    /// The blanks and line breaks behind a word of a plain scalar. A tab
    /// at the start of a line, left of the column `indent`, is an error.
    pub open spec fn plain_blanks(self, indent: int, start: Mark, fold: Fold) -> (State, Result<Fold, ErrorInfo>)
        decreases self.input.len() - self.cur.index,
    {
        if !(0 <= self.cur.index < self.input.len()) {
            (self, Ok(fold))
        } else if spec_is_blank(self.ch()) {
            if fold.leading_blanks && self.cur.col < indent && self.ch() == '\t' {
                (
                    self,
                    Err(State::error_at(start, "while scanning a plain scalar, found a tab"@)),
                )
            } else {
                self.with_cur(self.cur.step(self.input)).plain_blanks(
                    indent,
                    start,
                    fold.blank(self.ch()),
                )
            }
        } else if spec_is_break(self.ch()) {
            self.with_cur(self.cur.step_line(self.input)).plain_blanks(
                indent,
                start,
                fold.line_break(),
            )
        } else {
            (self, Ok(fold))
        }
    }

    /// The words of a plain scalar from the cursor on. The scalar ends
    /// before a document indicator, before a `#` that starts a word, behind
    /// a word that no blank or line break follows, and, in block context,
    /// where a line starts left of the column `indent`.
    pub open spec fn plain_words(self, indent: int, start: Mark, fold: Fold, text: Seq<char>) -> (State, Result<(Fold, Seq<char>), ErrorInfo>)
        decreases self.input.len() - self.cur.index,
    {
        if self.document_indicator_here() || self.ch() == '#' {
            (self, Ok((fold, text)))
        } else {
            let (s1, fold1, text1) = self.plain_word(fold, text);
            if !(spec_is_blank(s1.ch()) || spec_is_break(s1.ch())) {
                (s1, Ok((fold1, text1)))
            } else {
                let (s2, r) = s1.plain_blanks(indent, start, fold1);
                match r {
                    Err(e) => (s2, Err(e)),
                    Ok(fold2) => {
                        if s2.flow_level == 0 && s2.cur.col < indent {
                            (s2, Ok((fold2, text1)))
                        } else {
                            proof {
                                self.lemma_plain_word(fold, text);
                                s1.lemma_plain_blanks(indent, start, fold1);
                            }
                            s2.plain_words(indent, start, fold2, text1)
                        }
                    },
                }
            }
        }
    }

    /// A plain scalar. Where it ends behind a line break, a simple key may
    /// follow.
    pub open spec fn scan_plain_scalar(self) -> (State, Result<Tok, ErrorInfo>) {
        let (s1, r) = self.plain_words(
            self.indent + 1,
            self.cur.mark(),
            Fold::leading(),
            Seq::empty(),
        );
        match r {
            Err(e) => (s1, Err(e)),
            Ok((fold, text)) => (
                if fold.leading_blanks {
                    s1.with_simple_key_allowed(true)
                } else {
                    s1
                },
                Ok(
                    Tok {
                        mark: self.cur.mark(),
                        kind: TokenKind::Scalar(TScalarStyle::Plain, text),
                    },
                ),
            ),
        }
    }

    /// A plain scalar starts at the cursor: a character that is no blank,
    /// line break, comment or indicator that would end it at once.
    pub open spec fn plain_start_here(self) -> bool {
        &&& !self.document_indicator_here()
        &&& self.ch() != '#'
        &&& !spec_is_blankz(self.ch())
        &&& !self.plain_stop_here()
    }

    /// A plain scalar may start a simple key, and none may start behind it
    /// on its line.
    pub open spec fn fetch_plain_scalar(self) -> (State, Result<(), ErrorInfo>) {
        let (s1, r1) = self.save_simple_key();
        if r1 is Err {
            (s1, r1)
        } else {
            queue_result(s1.with_simple_key_allowed(false).scan_plain_scalar())
        }
    }

    /// A word is read forwards, and changes nothing but the cursor.
    pub proof fn lemma_plain_word(self, fold: Fold, text: Seq<char>)
        requires
            0 <= self.cur.index <= self.input.len(),
        ensures
            self.cur.index <= self.plain_word(fold, text).0.cur.index <= self.input.len(),
            self.plain_word(fold, text).0 == self.with_cur(self.plain_word(fold, text).0.cur),
        decreases self.input.len() - self.cur.index,
    {
        if !(0 <= self.cur.index < self.input.len()) || spec_is_blankz(self.ch())
            || self.plain_stop_here() {
        } else {
            self.with_cur(self.cur.step(self.input)).lemma_plain_word(
                Fold::none(),
                fold.join(text, true).push(self.ch()),
            );
        }
    }

    /// Blanks and line breaks are read forwards, at least one where one is
    /// there, and change nothing but the cursor.
    pub proof fn lemma_plain_blanks(self, indent: int, start: Mark, fold: Fold)
        requires
            0 <= self.cur.index <= self.input.len(),
        ensures
            self.cur.index <= self.plain_blanks(indent, start, fold).0.cur.index
                <= self.input.len(),
            self.plain_blanks(indent, start, fold).0 == self.with_cur(
                self.plain_blanks(indent, start, fold).0.cur,
            ),
            self.plain_blanks(indent, start, fold).1 is Ok && (spec_is_blank(self.ch())
                || spec_is_break(self.ch())) ==> self.cur.index < self.plain_blanks(
                indent,
                start,
                fold,
            ).0.cur.index,
        decreases self.input.len() - self.cur.index,
    {
        if !(0 <= self.cur.index < self.input.len()) {
        } else if spec_is_blank(self.ch()) {
            if fold.leading_blanks && self.cur.col < indent && self.ch() == '\t' {
            } else {
                self.with_cur(self.cur.step(self.input)).lemma_plain_blanks(
                    indent,
                    start,
                    fold.blank(self.ch()),
                );
            }
        } else if spec_is_break(self.ch()) {
            self.with_cur(self.cur.step_line(self.input)).lemma_plain_blanks(
                indent,
                start,
                fold.line_break(),
            );
        }
    }
}

impl Scanner {
    pub(crate) fn fetch_plain_scalar(&mut self) -> (r: ScanResult)
        requires
            old(self).sane(),
            old(self)@.stream_start_produced,
            old(self)@.ch() != '\0',
        ensures
            final(self).sane(),
            (final(self)@, unit_view(r)) == old(self)@.fetch_plain_scalar(),
            r is Ok && old(self)@.plain_start_here() ==> final(self)@.cur.index > old(
                self,
            )@.cur.index,
            final(self)@.parsed == old(self)@.parsed,
            final(self)@.input == old(self)@.input,
            final(self)@.stream_end_produced == old(self)@.stream_end_produced,
            final(self)@.error == old(self)@.error,
            r is Ok ==> final(self)@.all.len() > old(self)@.all.len(),
            old(self)@.lawful() ==> final(self)@.lawful(),
            document_starts(final(self)@.all) == document_starts(old(self)@.all),
    {
        match self.save_simple_key() {
            Err(e) => {
                return Err(e);
            },
            Ok(_) => {},
        }
        self.disallow_simple_key();
        let ghost saved = self@;
        let scanned = self.scan_plain_scalar();
        proof {
            if saved.lawful() {
                saved.lemma_lawful_moved(self@);
            }
        }
        match scanned {
            Err(e) => Err(e),
            Ok(tok) => {
                self.push_token(tok);
                proof {
                    if saved.lawful() {
                        saved.lemma_lawful_pushed(self@, tok@);
                    }
                }
                Ok(())
            },
        }
    }

    /// Whether a document indicator stands at the cursor.
    pub(crate) fn at_document_indicator(&self) -> (r: bool)
        requires
            self.sane(),
            self.buffered() >= 4,
        ensures
            r == self@.document_indicator_here(),
    {
        self.mark.col == 0 && (((self.peek(0) == '-') && (self.peek(1) == '-') && (self.peek(2)
            == '-')) || ((self.peek(0) == '.') && (self.peek(1) == '.') && (self.peek(2) == '.')))
            && is_blankz(self.peek(3))
    }

    /// Whether a word of a plain scalar ends at the cursor.
    fn plain_word_ends(&self) -> (r: bool)
        requires
            self.sane(),
            self.buffered() >= 2,
        ensures
            r == (spec_is_blankz(self@.ch()) || self@.plain_stop_here()),
    {
        let c = self.ch();
        let nc = self.peek(1);
        is_blankz(c) || (c == ':' && (is_blankz(nc) || (self.flow_level > 0 && is_flow(nc))))
            || (self.flow_level > 0 && is_flow(c))
    }

    /// Read a word of a plain scalar.
    fn scan_plain_word(&mut self, string: &mut String, fold: &mut FoldBuf)
        requires
            old(self).sane(),
        ensures
            final(self).sane(),
            final(self)@ == old(self)@.with_cur(final(self)@.cur),
            final(self)@.cur.index >= old(self)@.cur.index,
            !(spec_is_blankz(old(self)@.ch()) || old(self)@.plain_stop_here())
                ==> final(self)@.cur.index > old(self)@.cur.index,
            (final(self)@, final(fold)@, final(string)@) == old(self)@.plain_word(
                old(fold)@,
                old(string)@,
            ),
            final(self).buffered() >= 2,
    {
        self.lookahead(2);
        while !self.plain_word_ends()
            invariant
                self.sane(),
                self.buffered() >= 2,
                self@ == old(self)@.with_cur(self@.cur),
                self@.cur.index >= old(self)@.cur.index,
                self@.cur.index == old(self)@.cur.index ==> self@ == old(self)@,
                self@.plain_word(fold@, string@) == old(self)@.plain_word(
                    old(fold)@,
                    old(string)@,
                ),
            decreases self@.input.len() - self@.cur.index,
        {
            fold.join(string, true);
            string.push(self.ch());
            self.skip();
            self.lookahead(2);
        }
    }

    /// Read the blanks and line breaks behind a word of a plain scalar.
    fn scan_plain_blanks(&mut self, indent: isize, start_mark: Marker, fold: &mut FoldBuf) -> (r:
        Result<(), ScanError>)
        requires
            old(self).sane(),
        ensures
            final(self).sane(),
            final(self)@ == old(self)@.with_cur(final(self)@.cur),
            final(self)@.cur.index >= old(self)@.cur.index,
            r is Ok && (spec_is_blank(old(self)@.ch()) || spec_is_break(old(self)@.ch()))
                ==> final(self)@.cur.index > old(self)@.cur.index,
            (final(self)@, match r {
                Ok(_) => Ok(final(fold)@),
                Err(e) => Err(e@),
            }) == old(self)@.plain_blanks(indent as int, start_mark@, old(fold)@),
    {
        while is_blank(self.look_ch()) || is_break(self.ch())
            invariant
                self.sane(),
                self@ == old(self)@.with_cur(self@.cur),
                self@.cur.index >= old(self)@.cur.index,
                (spec_is_blank(old(self)@.ch()) || spec_is_break(old(self)@.ch()))
                    && self@.cur.index == old(self)@.cur.index ==> (spec_is_blank(self@.ch())
                    || spec_is_break(self@.ch())),
                self@.plain_blanks(indent as int, start_mark@, fold@) == old(self)@.plain_blanks(
                    indent as int,
                    start_mark@,
                    old(fold)@,
                ),
            decreases self@.input.len() - self@.cur.index,
        {
            if is_blank(self.ch()) {
                if fold.leading_blanks && (self.mark.col as isize) < indent && self.ch() == '\t' {
                    return Err(
                        ScanError::new(start_mark, "while scanning a plain scalar, found a tab"),
                    );
                }
                fold.blank(self.ch());
                self.skip();
            } else {
                self.lookahead(2);
                // Check if it is a first line break
                if fold.leading_blanks {
                    self.read_break(&mut fold.trailing_breaks);
                } else {
                    fold.whitespaces = String::new();
                    self.read_break(&mut fold.leading_break);
                    fold.leading_blanks = true;
                }
            }
        }
        Ok(())
    }

    pub(crate) fn scan_plain_scalar(&mut self) -> (r: Result<Token, ScanError>)
        requires
            old(self).sane(),
        ensures
            final(self).sane(),
            (final(self)@, result_view(r)) == old(self)@.scan_plain_scalar(),
            r matches Ok(t) ==> is_content(t@.kind) && old(self)@.cur.index <= t@.mark.index
                <= final(self)@.cur.index,
            final(self)@ == (State {
                cur: final(self)@.cur,
                simple_key_allowed: final(self)@.simple_key_allowed,
                ..old(self)@
            }),
            final(self)@.cur.index >= old(self)@.cur.index,
            r is Ok && old(self)@.plain_start_here() ==> final(self)@.cur.index > old(
                self,
            )@.cur.index,
    {
        let indent = self.indent + 1;
        let start_mark = self.mark;

        let mut string = String::new();
        let mut fold = FoldBuf::new(true);
        let ghost expected = old(self)@.plain_words(
            indent as int,
            start_mark@,
            Fold::leading(),
            Seq::empty(),
        );

        loop
            invariant_except_break
                self@.plain_words(indent as int, start_mark@, fold@, string@) == expected,
            invariant
                self.sane(),
                self@ == old(self)@.with_cur(self@.cur),
                self@.cur.index >= old(self)@.cur.index,
                indent == old(self)@.indent + 1,
                start_mark@ == old(self)@.cur.mark(),
                self@.cur.index == old(self)@.cur.index ==> self@ == old(self)@,
                expected == old(self)@.plain_words(
                    indent as int,
                    start_mark@,
                    Fold::leading(),
                    Seq::empty(),
                ),
            ensures
                (self@, Ok::<(Fold, Seq<char>), ErrorInfo>((fold@, string@))) == expected,
                old(self)@.plain_start_here() ==> self@.cur.index > old(self)@.cur.index,
            decreases self@.input.len() - self@.cur.index,
        {
            /* Check for a document indicator. */
            self.lookahead(4);
            if self.at_document_indicator() {
                break ;
            }
            if self.ch() == '#' {
                break ;
            }
            let ghost before = self@;
            let ghost fold0 = fold@;
            let ghost string0 = string@;
            self.scan_plain_word(&mut string, &mut fold);
            // is the end?
            if !(is_blank(self.ch()) || is_break(self.ch())) {
                break ;
            }
            match self.scan_plain_blanks(indent, start_mark, &mut fold) {
                Err(e) => {
                    return Err(e);
                },
                Ok(_) => {},
            }
            // check indentation level
            if self.flow_level == 0 && (self.mark.col as isize) < indent {
                break ;
            }
            proof {
                before.lemma_plain_word(fold0, string0);
            }
        }

        if fold.leading_blanks {
            self.allow_simple_key();
        }
        Ok(Token(start_mark, TokenType::Scalar(TScalarStyle::Plain, string)))
    }
}

} // verus!
