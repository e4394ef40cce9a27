//! The tokens of the structure: stream and document boundaries, flow
//! collections, entries, keys and values, anchors and aliases.

use vstd::prelude::*;
use crate::chars::{is_blankz, spec_is_blankz, CharClass};
use crate::directive::queue_result;
use crate::model::{Cursor, KeySlot, State};
use crate::nesting::{document_starts, is_content, lemma_document_starts_push};
use crate::scanner::{result_view, unit_view, ScanResult, Scanner, SimpleKey};
use crate::token::{ErrorInfo, Marker, ScanError, TEncoding, Tok, Token, TokenKind, TokenType};

verus! {

/// A character that may follow the name of an anchor or an alias.
pub open spec fn spec_ends_anchor(c: char) -> bool {
    spec_is_blankz(c) || c == '?' || c == ',' || c == ']' || c == '}' || c == '%' || c == '@'
        || c == '`'
}

/// Whether the character may follow the name of an anchor or an alias.
#[verifier::when_used_as_spec(spec_ends_anchor)]
pub fn ends_anchor(c: char) -> (r: bool)
    ensures
        r == spec_ends_anchor(c),
{
    is_blankz(c) || c == '?' || c == ',' || c == ']' || c == '}' || c == '%' || c == '@' || c
        == '`'
}

impl State {
    /// The first token: the start of the stream. It also sets up the
    /// candidate slot of the block level.
    pub open spec fn fetch_stream_start(self) -> State {
        State {
            indent: -1,
            stream_start_produced: true,
            simple_key_allowed: true,
            all: self.all.push(
                Tok { mark: self.cur.mark(), kind: TokenKind::StreamStart(TEncoding::Utf8) },
            ),
            simple_keys: self.simple_keys.push(None),
            ..self
        }
    }

    /// The cursor at the start of the next line, if it is not at the start
    /// of a line.
    pub open spec fn force_new_line(self) -> State {
        if self.cur.col != 0 {
            self.with_cur(Cursor { col: 0, line: self.cur.line + 1, ..self.cur })
        } else {
            self
        }
    }

    /// The end of the stream: every open block is closed first.
    pub open spec fn fetch_stream_end(self) -> (State, Result<(), ErrorInfo>) {
        let s0 = self.force_new_line();
        let (s1, r) = s0.unroll_indent(-1).remove_simple_key();
        if r is Err {
            (s1, r)
        } else {
            (
                s1.with_simple_key_allowed(false).pushed(
                    Tok { mark: s0.cur.mark(), kind: TokenKind::StreamEnd },
                ),
                Ok(()),
            )
        }
    }

    /// One character consumed, and a token for it at the mark where it stood.
    pub open spec fn take_indicator(self, kind: TokenKind) -> State {
        self.with_cur(self.cur.step(self.input)).pushed(Tok { mark: self.cur.mark(), kind })
    }

    /// `[` or `{`: it may start a simple key; the flow level rises, and a
    /// simple key may follow.
    pub open spec fn fetch_flow_collection_start(self, kind: TokenKind) -> (State, Result<(), ErrorInfo>) {
        let (s1, r1) = self.save_simple_key();
        if r1 is Err {
            (s1, r1)
        } else {
            let (s2, r2) = s1.increase_flow_level();
            if r2 is Err {
                (s2, r2)
            } else {
                (s2.with_simple_key_allowed(true).take_indicator(kind), Ok(()))
            }
        }
    }

    /// `]` or `}`: the candidate of the level is given up, the flow level
    /// falls, and no simple key may follow. Inside a flow collection a `:`
    /// may stand right behind it.
    pub open spec fn fetch_flow_collection_end(self, kind: TokenKind) -> (State, Result<(), ErrorInfo>) {
        let (s1, r1) = self.remove_simple_key();
        if r1 is Err {
            (s1, r1)
        } else {
            let s2 = s1.decrease_flow_level().with_simple_key_allowed(false).take_indicator(
                kind,
            );
            (State { adjacent_value_allowed_at: s2.cur.index, ..s2 }, Ok(()))
        }
    }

    /// `,`: the candidate is given up, and a simple key may follow.
    pub open spec fn fetch_flow_entry(self) -> (State, Result<(), ErrorInfo>) {
        let (s1, r1) = self.remove_simple_key();
        if r1 is Err {
            (s1, r1)
        } else {
            (s1.with_simple_key_allowed(true).take_indicator(TokenKind::FlowEntry), Ok(()))
        }
    }

    /// `-`: an entry of a block sequence, which opens the sequence where the
    /// column is deeper than the indent. Not allowed inside a flow
    /// collection, nor where no simple key may start.
    pub open spec fn fetch_block_entry(self) -> (State, Result<(), ErrorInfo>) {
        if self.flow_level > 0 {
            (self, Err(self.error_here("\"-\" is only valid inside a block"@)))
        } else if !self.simple_key_allowed {
            (
                self,
                Err(self.error_here("block sequence entries are not allowed in this context"@)),
            )
        } else {
            let (s1, r1) = self.roll_indent(
                self.cur.col,
                None,
                TokenKind::BlockSequenceStart,
                self.cur.mark(),
            ).remove_simple_key();
            if r1 is Err {
                (s1, r1)
            } else {
                (s1.with_simple_key_allowed(true).take_indicator(TokenKind::BlockEntry), Ok(()))
            }
        }
    }

    /// `---` or `...`: every open block is closed, any candidate given up,
    /// and the three characters make one token. A simple key may follow the
    /// start of a document.
    pub open spec fn fetch_document_indicator(self, kind: TokenKind) -> (State, Result<(), ErrorInfo>) {
        let (s1, r1) = self.unroll_indent(-1).remove_simple_key();
        if r1 is Err {
            (s1, r1)
        } else {
            (
                s1.with_simple_key_allowed(kind is DocumentStart).with_cur(
                    s1.cur.step3(s1.input),
                ).pushed(Tok { mark: s1.cur.mark(), kind }),
                Ok(()),
            )
        }
    }

    /// `?`: an explicit key. In block context it opens a mapping where the
    /// column is deeper than the indent. A simple key may follow.
    pub open spec fn fetch_key(self) -> (State, Result<(), ErrorInfo>) {
        if self.flow_level == 0 && !self.simple_key_allowed {
            (self, Err(self.error_here("mapping keys are not allowed in this context"@)))
        } else {
            let (s1, r1) = self.roll_indent(
                self.cur.col,
                None,
                TokenKind::BlockMappingStart,
                self.cur.mark(),
            ).remove_simple_key();
            if r1 is Err {
                (s1, r1)
            } else {
                (s1.with_simple_key_allowed(true).take_indicator(TokenKind::Key), Ok(()))
            }
        }
    }

    /// The candidate of the current flow level made a key: a `Key` token
    /// goes to its slot, and in block context a mapping is opened at its
    /// column, in front of it, marked where the key starts.
    pub open spec fn key_resolved(self, k: KeySlot) -> State {
        self.inserted(k.slot, Tok { mark: k.mark, kind: TokenKind::Key }).roll_indent(
            k.mark.col,
            Some(k.slot),
            TokenKind::BlockMappingStart,
            k.mark,
        ).with_top_key(None)
    }

    /// `:`: a value. Where the level has a candidate, the candidate becomes
    /// a key: a `Key` token goes to its slot, and in block context a mapping
    /// is opened at its column, in front of it, marked where the key starts.
    /// In block context a key that a tab leads on its line is an error.
    /// Without a candidate the `:` follows a complex key. A simple key may
    /// follow.
    pub open spec fn fetch_value(self) -> (State, Result<(), ErrorInfo>) {
        match self.top_key() {
            Some(k) => {
                if self.flow_level == 0 && k.tabbed {
                    (
                        self,
                        Err(
                            State::error_at(
                                k.mark,
                                "tabs disallowed within this context (block indentation)"@,
                            ),
                        ),
                    )
                } else {
                    (
                        self.key_resolved(k).with_simple_key_allowed(true).take_indicator(
                            TokenKind::Value,
                        ),
                        Ok(()),
                    )
                }
            },
            None => {
                if self.flow_level == 0 && !self.simple_key_allowed {
                    (
                        self,
                        Err(self.error_here("mapping values are not allowed in this context"@)),
                    )
                } else {
                    (
                        self.roll_indent(
                            self.cur.col,
                            None,
                            TokenKind::BlockMappingStart,
                            self.cur.mark(),
                        ).with_simple_key_allowed(true).take_indicator(TokenKind::Value),
                        Ok(()),
                    )
                }
            },
        }
    }

    /// An anchor or an alias: the indicator, a non-empty name of `Anchor`
    /// characters, and behind it a character that may follow a name.
    pub open spec fn scan_anchor(self, alias: bool) -> (State, Result<Tok, ErrorInfo>) {
        let c1 = self.cur.step(self.input);
        let c2 = c1.run(self.input, CharClass::Anchor);
        let name = c1.text_to(self.input, c2);
        let s2 = self.with_cur(c2);
        if name.len() == 0 || !spec_ends_anchor(s2.ch()) {
            (
                s2,
                Err(
                    State::error_at(
                        self.cur.mark(),
                        "while scanning an anchor or alias, did not find expected alphabetic or numeric character"@,
                    ),
                ),
            )
        } else {
            (
                s2,
                Ok(
                    Tok {
                        mark: self.cur.mark(),
                        kind: if alias {
                            TokenKind::Alias(name)
                        } else {
                            TokenKind::Anchor(name)
                        },
                    },
                ),
            )
        }
    }

    /// An anchor or an alias may start a simple key, and none may start
    /// behind it.
    pub open spec fn fetch_anchor(self, alias: bool) -> (State, Result<(), ErrorInfo>) {
        let (s1, r1) = self.save_simple_key();
        if r1 is Err {
            (s1, r1)
        } else {
            queue_result(s1.with_simple_key_allowed(false).scan_anchor(alias))
        }
    }
}

impl Scanner {
    pub(crate) fn fetch_stream_start(&mut self)
        requires
            old(self).sane(),
            !old(self)@.stream_start_produced,
        ensures
            final(self).sane(),
            final(self)@ == old(self)@.fetch_stream_start(),
            final(self)@.parsed == old(self)@.parsed,
            final(self)@.input == old(self)@.input,
            final(self)@.stream_end_produced == old(self)@.stream_end_produced,
            final(self)@.error == old(self)@.error,
            final(self)@.all.len() > old(self)@.all.len(),
            old(self)@.lawful() ==> final(self)@.lawful(),
            document_starts(final(self)@.all) == document_starts(old(self)@.all),
            final(self).buffered() == old(self).buffered(),
    {
        let mark = self.mark;
        self.indent = -1;
        self.stream_start_produced = true;
        self.simple_key_allowed = true;
        self.tokens.push_back(Token(mark, TokenType::StreamStart(TEncoding::Utf8)));
        self.simple_keys.push(SimpleKey::new(Marker::new(0, 0, 0)));
        proof {
            assert(self@.all =~= old(self)@.all.push(
                Tok { mark: mark@, kind: TokenKind::StreamStart(TEncoding::Utf8) },
            ));
            assert(self@.simple_keys =~= old(self)@.simple_keys.push(None));
            lemma_document_starts_push(
                old(self)@.all,
                Tok { mark: mark@, kind: TokenKind::StreamStart(TEncoding::Utf8) },
            );
            if old(self)@.lawful() {
                old(self)@.lemma_lawful_started();
            }
        }
    }

    /// Put the cursor at the start of the next line, unless it is at the
    /// start of a line.
    fn force_new_line(&mut self)
        requires
            old(self).sane(),
        ensures
            final(self).sane(),
            final(self)@ == old(self)@.force_new_line(),
            final(self).buffered() == old(self).buffered(),
            old(self)@.lawful() ==> final(self)@.lawful(),
    {
        if self.mark.col != 0 {
            self.mark.col = 0;
            self.mark.line += 1;
        }
        proof {
            if old(self)@.lawful() {
                old(self)@.lemma_lawful_moved(self@);
            }
        }
    }

    pub(crate) fn fetch_stream_end(&mut self) -> (r: ScanResult)
        requires
            old(self).sane(),
            old(self)@.stream_start_produced,
            old(self)@.ch() == '\0',
        ensures
            final(self).sane(),
            (final(self)@, unit_view(r)) == old(self)@.fetch_stream_end(),
            final(self)@.cur.index == old(self)@.cur.index,
            r is Ok && old(self)@.ch() == '\0' ==> !final(self)@.has_fresh_key(),
            final(self)@.parsed == old(self)@.parsed,
            final(self)@.input == old(self)@.input,
            final(self)@.stream_end_produced == old(self)@.stream_end_produced,
            final(self)@.error == old(self)@.error,
            r is Ok ==> final(self)@.all.len() > old(self)@.all.len(),
            old(self)@.lawful() ==> final(self)@.lawful(),
            document_starts(final(self)@.all) == document_starts(old(self)@.all),
            final(self).buffered() == old(self).buffered(),
    {
        self.force_new_line();
        self.unroll_indent(-1);
        match self.remove_simple_key() {
            Err(e) => {
                return Err(e);
            },
            Ok(_) => {},
        }
        self.disallow_simple_key();
        let ghost before = self@;
        self.push_token(Token(self.mark, TokenType::StreamEnd));
        proof {
            if before.lawful() && old(self)@.ch() == '\0' {
                before.lemma_lawful_pushed(self@, Token(self.mark, TokenType::StreamEnd)@);
            }
        }
        Ok(())
    }

    pub(crate) fn fetch_anchor(&mut self, alias: bool) -> (r: ScanResult)
        requires
            old(self).sane(),
            old(self)@.stream_start_produced,
            old(self).buffered() >= 1,
            old(self)@.ch() != '\0',
        ensures
            final(self).sane(),
            (final(self)@, unit_view(r)) == old(self)@.fetch_anchor(alias),
            final(self)@.parsed == old(self)@.parsed,
            final(self)@.input == old(self)@.input,
            final(self)@.stream_end_produced == old(self)@.stream_end_produced,
            final(self)@.error == old(self)@.error,
            r is Ok ==> final(self)@.all.len() > old(self)@.all.len(),
            old(self)@.lawful() ==> final(self)@.lawful(),
            document_starts(final(self)@.all) == document_starts(old(self)@.all),
            r is Ok ==> final(self)@.cur.index > old(self)@.cur.index,
    {
        match self.save_simple_key() {
            Err(e) => {
                return Err(e);
            },
            Ok(_) => {},
        }
        self.disallow_simple_key();
        let ghost saved = self@;
        let scanned = self.scan_anchor(alias);
        proof {
            if saved.lawful() {
                saved.lemma_lawful_moved(self@);
            }
        }
        match scanned {
            Err(e) => Err(e),
            Ok(tok) => {
                self.push_token(tok);
                proof {
                    if saved.lawful() {
                        saved.lemma_lawful_pushed(self@, tok@);
                    }
                }
                Ok(())
            },
        }
    }

    pub(crate) fn scan_anchor(&mut self, alias: bool) -> (r: Result<Token, ScanError>)
        requires
            old(self).sane(),
            old(self).buffered() >= 1,
            old(self)@.ch() != '\0',
        ensures
            final(self).sane(),
            (final(self)@, result_view(r)) == old(self)@.scan_anchor(alias),
            r matches Ok(t) ==> is_content(t@.kind) && t@.mark == old(self)@.cur.mark(),
            final(self)@ == old(self)@.with_cur(final(self)@.cur),
            final(self)@.cur.index > old(self)@.cur.index,
    {
        let mut string = String::new();
        let start_mark = self.mark;

        self.skip();
        let ghost c1 = self@.cur;
        self.read_run(CharClass::Anchor, &mut string);
        proof {
            assert(string@ =~= c1.text_to(self@.input, self@.cur));
        }
        if string.as_str().is_empty() || !ends_anchor(self.ch()) {
            return Err(
                ScanError::new(
                    start_mark,
                    "while scanning an anchor or alias, did not find expected alphabetic or numeric character",
                ),
            );
        }
        if alias {
            Ok(Token(start_mark, TokenType::Alias(string)))
        } else {
            Ok(Token(start_mark, TokenType::Anchor(string)))
        }
    }

    pub(crate) fn fetch_flow_collection_start(&mut self, tok: TokenType) -> (r: ScanResult)
        requires
            old(self).sane(),
            old(self)@.stream_start_produced,
            tok@ is FlowSequenceStart || tok@ is FlowMappingStart,
            old(self).buffered() >= 1,
            old(self)@.ch() != '\0',
        ensures
            final(self).sane(),
            (final(self)@, unit_view(r)) == old(self)@.fetch_flow_collection_start(tok@),
            final(self)@.parsed == old(self)@.parsed,
            final(self)@.input == old(self)@.input,
            final(self)@.stream_end_produced == old(self)@.stream_end_produced,
            final(self)@.error == old(self)@.error,
            r is Ok ==> final(self)@.all.len() > old(self)@.all.len(),
            old(self)@.lawful() ==> final(self)@.lawful(),
            document_starts(final(self)@.all) == document_starts(old(self)@.all),
            r is Ok ==> final(self)@.cur.index > old(self)@.cur.index,
    {
        // The indicators '[' and '{' may start a simple key.
        match self.save_simple_key() {
            Err(e) => {
                return Err(e);
            },
            Ok(_) => {},
        }
        let ghost before = self@;
        match self.increase_flow_level() {
            Err(e) => {
                return Err(e);
            },
            Ok(_) => {},
        }
        self.simple_key_allowed = true;

        let start_mark = self.mark;
        self.skip();
        self.push_token(Token(start_mark, tok));
        proof {
            if before.lawful() {
                before.lemma_lawful_pushed(self@, Token(start_mark, tok)@);
            }
        }
        Ok(())
    }

    pub(crate) fn fetch_flow_collection_end(&mut self, tok: TokenType) -> (r: ScanResult)
        requires
            old(self).sane(),
            old(self)@.stream_start_produced,
            tok@ is FlowSequenceEnd || tok@ is FlowMappingEnd,
            old(self).buffered() >= 1,
            old(self)@.ch() != '\0',
        ensures
            final(self).sane(),
            (final(self)@, unit_view(r)) == old(self)@.fetch_flow_collection_end(tok@),
            final(self)@.parsed == old(self)@.parsed,
            final(self)@.input == old(self)@.input,
            final(self)@.stream_end_produced == old(self)@.stream_end_produced,
            final(self)@.error == old(self)@.error,
            r is Ok ==> final(self)@.all.len() > old(self)@.all.len(),
            old(self)@.lawful() ==> final(self)@.lawful(),
            document_starts(final(self)@.all) == document_starts(old(self)@.all),
            r is Ok ==> final(self)@.cur.index > old(self)@.cur.index,
    {
        match self.remove_simple_key() {
            Err(e) => {
                return Err(e);
            },
            Ok(_) => {},
        }
        let ghost before = self@;
        self.decrease_flow_level();

        self.simple_key_allowed = false;

        let start_mark = self.mark;
        self.skip();
        self.push_token(Token(start_mark, tok));
        // A closed flow collection is a JSON-like key: the value may be
        // specified adjacent to the ":".
        self.adjacent_value_allowed_at = self.mark.index;
        proof {
            if before.lawful() {
                before.lemma_lawful_pushed(self@, Token(start_mark, tok)@);
            }
        }
        Ok(())
    }

    pub(crate) fn fetch_flow_entry(&mut self) -> (r: ScanResult)
        requires
            old(self).sane(),
            old(self)@.stream_start_produced,
            old(self).buffered() >= 1,
            old(self)@.ch() != '\0',
        ensures
            final(self).sane(),
            (final(self)@, unit_view(r)) == old(self)@.fetch_flow_entry(),
            final(self)@.parsed == old(self)@.parsed,
            final(self)@.input == old(self)@.input,
            final(self)@.stream_end_produced == old(self)@.stream_end_produced,
            final(self)@.error == old(self)@.error,
            r is Ok ==> final(self)@.all.len() > old(self)@.all.len(),
            old(self)@.lawful() ==> final(self)@.lawful(),
            document_starts(final(self)@.all) == document_starts(old(self)@.all),
            r is Ok ==> final(self)@.cur.index > old(self)@.cur.index,
    {
        match self.remove_simple_key() {
            Err(e) => {
                return Err(e);
            },
            Ok(_) => {},
        }
        self.allow_simple_key();

        let start_mark = self.mark;
        let ghost before = self@;
        self.skip();
        self.push_token(Token(start_mark, TokenType::FlowEntry));
        proof {
            if before.lawful() {
                before.lemma_lawful_pushed(self@, Token(start_mark, TokenType::FlowEntry)@);
            }
        }
        Ok(())
    }

    pub(crate) fn fetch_block_entry(&mut self) -> (r: ScanResult)
        requires
            old(self).sane(),
            old(self)@.stream_start_produced,
            old(self).buffered() >= 1,
            old(self)@.ch() != '\0',
        ensures
            final(self).sane(),
            (final(self)@, unit_view(r)) == old(self)@.fetch_block_entry(),
            final(self)@.parsed == old(self)@.parsed,
            final(self)@.input == old(self)@.input,
            final(self)@.stream_end_produced == old(self)@.stream_end_produced,
            final(self)@.error == old(self)@.error,
            r is Ok ==> final(self)@.all.len() > old(self)@.all.len(),
            old(self)@.lawful() ==> final(self)@.lawful(),
            document_starts(final(self)@.all) == document_starts(old(self)@.all),
            r is Ok ==> final(self)@.cur.index > old(self)@.cur.index,
    {
        if self.flow_level == 0 {
            // Check if we are allowed to start a new entry.
            if !self.simple_key_allowed {
                return Err(
                    ScanError::new(
                        self.mark,
                        "block sequence entries are not allowed in this context",
                    ),
                );
            }
            let mark = self.mark;
            // generate BLOCK-SEQUENCE-START if indented
            self.roll_indent(mark.col, None, TokenType::BlockSequenceStart, mark);
        } else {
            // - * only allowed in block
            return Err(ScanError::new(self.mark, "\"-\" is only valid inside a block"));
        }
        match self.remove_simple_key() {
            Err(e) => {
                return Err(e);
            },
            Ok(_) => {},
        }
        self.allow_simple_key();

        let start_mark = self.mark;
        let ghost before = self@;
        self.skip();
        self.push_token(Token(start_mark, TokenType::BlockEntry));
        proof {
            if before.lawful() {
                before.lemma_lawful_pushed(self@, Token(start_mark, TokenType::BlockEntry)@);
            }
        }
        Ok(())
    }

    pub(crate) fn fetch_document_indicator(&mut self, t: TokenType) -> (r: ScanResult)
        requires
            old(self).sane(),
            old(self)@.stream_start_produced,
            t@ is DocumentStart || t@ is DocumentEnd,
            old(self).buffered() >= 3,
            old(self)@.at(0) != '\0',
            old(self)@.at(1) != '\0',
            old(self)@.at(2) != '\0',
        ensures
            final(self).sane(),
            (final(self)@, unit_view(r)) == old(self)@.fetch_document_indicator(t@),
            final(self)@.parsed == old(self)@.parsed,
            final(self)@.input == old(self)@.input,
            final(self)@.stream_end_produced == old(self)@.stream_end_produced,
            final(self)@.error == old(self)@.error,
            r is Ok ==> final(self)@.all.len() > old(self)@.all.len(),
            old(self)@.lawful() ==> final(self)@.lawful(),
            document_starts(final(self)@.all) == document_starts(old(self)@.all) + (if r is Ok
                && t@ is DocumentStart {
                1nat
            } else {
                0nat
            }),
            r is Ok ==> final(self)@.cur.index > old(self)@.cur.index,
    {
        self.unroll_indent(-1);
        match self.remove_simple_key() {
            Err(e) => {
                return Err(e);
            },
            Ok(_) => {},
        }
        match t {
            TokenType::DocumentStart => self.allow_simple_key(),
            _ => self.disallow_simple_key(),
        }

        let mark = self.mark;
        let ghost before = self@;

        self.skip();
        self.skip();
        self.skip();

        self.push_token(Token(mark, t));
        proof {
            if before.lawful() {
                before.lemma_lawful_pushed(self@, Token(mark, t)@);
            }
        }
        Ok(())
    }

    pub(crate) fn fetch_key(&mut self) -> (r: ScanResult)
        requires
            old(self).sane(),
            old(self)@.stream_start_produced,
            old(self).buffered() >= 1,
            old(self)@.ch() != '\0',
        ensures
            final(self).sane(),
            (final(self)@, unit_view(r)) == old(self)@.fetch_key(),
            final(self)@.parsed == old(self)@.parsed,
            final(self)@.input == old(self)@.input,
            final(self)@.stream_end_produced == old(self)@.stream_end_produced,
            final(self)@.error == old(self)@.error,
            r is Ok ==> final(self)@.all.len() > old(self)@.all.len(),
            old(self)@.lawful() ==> final(self)@.lawful(),
            document_starts(final(self)@.all) == document_starts(old(self)@.all),
            r is Ok ==> final(self)@.cur.index > old(self)@.cur.index,
    {
        let start_mark = self.mark;
        if self.flow_level == 0 {
            // Check if we are allowed to start a new key (not necessarily simple).
            if !self.simple_key_allowed {
                return Err(
                    ScanError::new(self.mark, "mapping keys are not allowed in this context"),
                );
            }
            self.roll_indent(start_mark.col, None, TokenType::BlockMappingStart, start_mark);
        }
        match self.remove_simple_key() {
            Err(e) => {
                return Err(e);
            },
            Ok(_) => {},
        }
        self.allow_simple_key();
        let ghost before = self@;
        self.skip();
        self.push_token(Token(start_mark, TokenType::Key));
        proof {
            if before.lawful() {
                before.lemma_lawful_pushed(self@, Token(start_mark, TokenType::Key)@);
            }
        }
        Ok(())
    }

    /// Make the candidate of the current flow level a key.
    fn resolve_simple_key(&mut self, sk: SimpleKey)
        requires
            old(self).sane(),
            old(self)@.stream_start_produced,
            old(self)@.ch() != '\0',
            old(self).simple_keys@.len() > 0,
            old(self).simple_keys@.last() == sk,
            sk.possible,
        ensures
            final(self).sane(),
            old(self)@.top_key() is Some,
            final(self)@ == old(self)@.key_resolved(old(self)@.top_key()->0),
            final(self).buffered() == old(self).buffered(),
            final(self)@.all.len() > old(self)@.all.len(),
            old(self)@.lawful() ==> final(self)@.lawful(),
            document_starts(final(self)@.all) == document_starts(old(self)@.all),
    {
        let n = self.simple_keys.len();
        // insert simple key
        let tok = Token(sk.mark, TokenType::Key);
        let tokens_parsed = self.tokens_parsed;
        self.insert_token(sk.token_number.wrapping_sub(tokens_parsed), tok);
        proof {
            if old(self)@.lawful() {
                old(self)@.lemma_lawful_inserted(self@, Token(sk.mark, TokenType::Key)@);
            }
        }
        // Add the BLOCK-MAPPING-START token if needed.
        self.roll_indent(sk.mark.col, Some(sk.token_number), TokenType::BlockMappingStart, sk.mark);
        let ghost before = self@;
        self.simple_keys.set(n - 1, SimpleKey { possible: false, ..sk });
        proof {
            assert(self@.simple_keys =~= before.simple_keys.update(n - 1, None));
            if before.lawful() {
                before.lemma_lawful_moved(self@);
            }
        }
    }

    pub(crate) fn fetch_value(&mut self) -> (r: ScanResult)
        requires
            old(self).sane(),
            old(self)@.stream_start_produced,
            old(self).buffered() >= 1,
            old(self)@.ch() != '\0',
        ensures
            final(self).sane(),
            (final(self)@, unit_view(r)) == old(self)@.fetch_value(),
            final(self)@.parsed == old(self)@.parsed,
            final(self)@.input == old(self)@.input,
            final(self)@.stream_end_produced == old(self)@.stream_end_produced,
            final(self)@.error == old(self)@.error,
            r is Ok ==> final(self)@.all.len() > old(self)@.all.len(),
            old(self)@.lawful() ==> final(self)@.lawful(),
            document_starts(final(self)@.all) == document_starts(old(self)@.all),
            r is Ok ==> final(self)@.cur.index > old(self)@.cur.index,
    {
        let n = self.simple_keys.len();
        let sk = self.simple_keys[n - 1];
        let start_mark = self.mark;
        if sk.possible {
            if self.flow_level == 0 && sk.tabbed {
                return Err(
                    ScanError::new(
                        sk.mark,
                        "tabs disallowed within this context (block indentation)",
                    ),
                );
            }
            self.resolve_simple_key(sk);
        } else {
            // The ':' indicator follows a complex key.
            if self.flow_level == 0 {
                if !self.simple_key_allowed {
                    return Err(
                        ScanError::new(
                            start_mark,
                            "mapping values are not allowed in this context",
                        ),
                    );
                }
                self.roll_indent(start_mark.col, None, TokenType::BlockMappingStart, start_mark);
            }
        }
        self.allow_simple_key();
        let ghost before = self@;
        self.skip();
        self.push_token(Token(start_mark, TokenType::Value));
        proof {
            if before.lawful() {
                before.lemma_lawful_pushed(self@, Token(start_mark, TokenType::Value)@);
            }
        }
        Ok(())
    }
}

} // verus!
