//! The driver: skipping to the next token, dispatching on its first
//! characters, and handing tokens out.

use vstd::prelude::*;
use crate::chars::{is_blankz, is_flow, is_z, spec_is_blankz, spec_is_break, spec_is_flow, CharClass};
use crate::model::State;
use crate::nesting::document_starts;
use crate::scanner::{unit_view, ScanResult, Scanner};
use crate::token::{ErrorInfo, ScanError, Tok, Token, TokenKind, TokenType};

verus! {

/// What pulling a token returned, as contracts see it.
pub open spec fn pull_view(r: Result<Option<Token>, ScanError>) -> Result<Option<Tok>, ErrorInfo> {
    match r {
        Ok(Some(t)) => Ok(Some(t@)),
        Ok(None) => Ok(None),
        Err(e) => Err(e@),
    }
}

/// A token that was handed out, as contracts see it.
pub open spec fn token_view(t: Option<Token>) -> Option<Tok> {
    match t {
        Some(t) => Some(t@),
        None => None,
    }
}

impl State {
    /// Blanks, line breaks and comments before the next token. In block
    /// context a line break allows a simple key. A tab in the indentation of
    /// a block is an error.
    pub open spec fn skip_to_next_token(self) -> (State, Result<(), ErrorInfo>)
        decreases self.input.len() - self.cur.index,
    {
        let c = self.ch();
        if !self.cur.valid(self.input) {
            (self, Ok(()))
        } else if c == ' ' {
            self.with_cur(self.cur.step(self.input)).skip_to_next_token()
        } else if c == '\t' {
            if self.is_within_block() && self.cur.lead && self.cur.col < self.indent {
                (
                    self,
                    Err(
                        self.error_here(
                            "tabs disallowed within this context (block indentation)"@,
                        ),
                    ),
                )
            } else {
                self.with_cur(self.cur.step(self.input)).skip_to_next_token()
            }
        } else if spec_is_break(c) {
            (State {
                cur: self.cur.step_line(self.input),
                simple_key_allowed: self.simple_key_allowed || self.flow_level == 0,
                ..self
            }).skip_to_next_token()
        } else if c == '#' {
            proof {
                self.cur.lemma_run(self.input, CharClass::Line);
            }
            self.with_cur(self.cur.run(self.input, CharClass::Line)).skip_to_next_token()
        } else {
            (self, Ok(()))
        }
    }

    /// A `:` at the cursor is a value indicator: before a blank, a line
    /// break or the end of the stream; inside a flow collection also before
    /// a flow indicator, and right behind a quoted scalar or the end of a
    /// flow collection.
    pub open spec fn value_here(self) -> bool {
        self.ch() == ':' && (spec_is_blankz(self.at(1)) || (self.flow_level > 0 && (spec_is_flow(
            self.at(1),
        ) || self.cur.index == self.adjacent_value_allowed_at)))
    }

    /// In block context, a block indicator (`-`, `?` or `:` before a blank,
    /// a line break or the end of the stream) stands at the cursor as the
    /// first token of its line, behind blanks with a tab among them. The
    /// column of such an indicator counts as indentation, which no tab may
    /// make.
    pub open spec fn tab_before_block_indicator(self) -> bool {
        &&& self.flow_level == 0
        &&& self.cur.tab
        &&& self.ch() == '-' || self.ch() == '?' || self.ch() == ':'
        &&& spec_is_blankz(self.at(1))
    }

    /// The token that starts at the cursor, by its first characters.
    pub open spec fn dispatch(self) -> (State, Result<(), ErrorInfo>) {
        let c = self.at(0);
        let nc = self.at(1);
        if c == '\0' {
            self.fetch_stream_end()
        } else if self.cur.col == 0 && c == '%' {
            self.fetch_directive()
        } else if self.document_indicator_here() {
            self.fetch_document_indicator(
                if c == '-' {
                    TokenKind::DocumentStart
                } else {
                    TokenKind::DocumentEnd
                },
            )
        } else if c == '[' {
            self.fetch_flow_collection_start(TokenKind::FlowSequenceStart)
        } else if c == '{' {
            self.fetch_flow_collection_start(TokenKind::FlowMappingStart)
        } else if c == ']' {
            self.fetch_flow_collection_end(TokenKind::FlowSequenceEnd)
        } else if c == '}' {
            self.fetch_flow_collection_end(TokenKind::FlowMappingEnd)
        } else if c == ',' {
            self.fetch_flow_entry()
        } else if self.tab_before_block_indicator() {
            (
                self,
                Err(self.error_here("tabs disallowed within this context (block indentation)"@)),
            )
        } else if c == '-' && spec_is_blankz(nc) {
            self.fetch_block_entry()
        } else if c == '?' && spec_is_blankz(nc) {
            self.fetch_key()
        } else if self.value_here() {
            self.fetch_value()
        } else if c == '*' {
            self.fetch_anchor(true)
        } else if c == '&' {
            self.fetch_anchor(false)
        } else if c == '!' {
            self.fetch_tag()
        } else if c == '|' && self.flow_level == 0 {
            self.fetch_block_scalar(true)
        } else if c == '>' && self.flow_level == 0 {
            self.fetch_block_scalar(false)
        } else if c == '\'' {
            self.fetch_flow_scalar(true)
        } else if c == '"' {
            self.fetch_flow_scalar(false)
        } else if c == '%' || c == '@' || c == '`' {
            (self, Err(self.error_here("unexpected character: `"@.push(c).push('\''))))
        } else {
            self.fetch_plain_scalar()
        }
    }

    /// One step of the scanner: the stream start first; after it, what
    /// stands before the next token is skipped, stale candidates are
    /// invalidated, the blocks deeper than the cursor are closed, and the
    /// token at the cursor is fetched.
    pub open spec fn fetch_next_token(self) -> (State, Result<(), ErrorInfo>) {
        if !self.stream_start_produced {
            (self.fetch_stream_start(), Ok(()))
        } else {
            let (s1, r1) = self.skip_to_next_token();
            if r1 is Err {
                (s1, r1)
            } else {
                let (s2, r2) = s1.stale_simple_keys();
                if r2 is Err {
                    (s2, r2)
                } else {
                    s2.unroll_indent(s2.cur.col).dispatch()
                }
            }
        }
    }

    /// Steps until the head of the queue is final: the queue is not empty,
    /// and no candidate could still put a `Key` in front of its head. `None`
    /// where `fuel` steps do not get there.
    pub open spec fn fetch_more_tokens_fuel(self, fuel: nat) -> Option<(State, Result<(), ErrorInfo>)>
        decreases fuel,
    {
        let (s1, r1) = if self.queue().len() == 0 {
            (self, Ok(()))
        } else {
            self.stale_simple_keys()
        };
        if fuel == 0 {
            None
        } else if r1 is Err {
            Some((s1, r1))
        } else if self.queue().len() == 0 || s1.key_pending() {
            let (s2, r2) = s1.fetch_next_token();
            if r2 is Err {
                Some((s2, r2))
            } else {
                s2.fetch_more_tokens_fuel((fuel - 1) as nat)
            }
        } else {
            Some((State { token_available: true, ..s1 }, Ok(())))
        }
    }

    /// The head of the queue handed out.
    pub open spec fn pop_token(self) -> State {
        State {
            parsed: self.parsed + 1,
            token_available: false,
            stream_end_produced: self.stream_end_produced || self.all[self.parsed].kind
                == TokenKind::StreamEnd,
            ..self
        }
    }

    /// The next token: none once the end of the stream was handed out, and
    /// none once an error was met; else the head of the queue, once it is
    /// final. The first error is returned and kept. `None` where `fuel` steps
    /// do not get there.
    pub open spec fn next_token_fuel(self, fuel: nat) -> Option<(State, Result<Option<Tok>, ErrorInfo>)> {
        if self.error is Some || self.stream_end_produced {
            Some((self, Ok(None)))
        } else {
            let more = if self.token_available {
                Some((self, Ok(())))
            } else {
                self.fetch_more_tokens_fuel(fuel)
            };
            match more {
                None => None,
                Some((s1, Err(e))) => Some((State { error: Some(e), ..s1 }, Err(e))),
                Some((s1, Ok(_))) => Some((s1.pop_token(), Ok(Some(s1.all[s1.parsed])))),
            }
        }
    }

    /// The next token as an iterator yields it: the token that pulling
    /// gives, and none where pulling gives none or fails.
    pub open spec fn next_fuel(self, fuel: nat) -> Option<(State, Option<Tok>)> {
        match self.next_token_fuel(fuel) {
            None => None,
            Some((s1, Ok(t))) => Some((s1, t)),
            Some((s1, Err(_))) => Some((s1, None)),
        }
    }
}

impl Scanner {
    /// Fetch the token that starts at the cursor.
    fn dispatch(&mut self) -> (r: ScanResult)
        requires
            old(self).sane(),
            old(self)@.stream_start_produced,
            old(self)@.ch() != ' ',
            old(self)@.ch() != '\t',
            old(self)@.ch() != '#',
            !spec_is_break(old(self)@.ch()),
        ensures
            final(self).sane(),
            (final(self)@, unit_view(r)) == old(self)@.dispatch(),
            old(self)@.lawful() ==> final(self)@.lawful(),
            document_starts(final(self)@.all) == document_starts(old(self)@.all) + (if r is Ok
                && old(self)@.document_indicator_here() && old(self)@.ch() == '-' {
                1nat
            } else {
                0nat
            }),
            final(self)@.parsed == old(self)@.parsed,
            final(self)@.input == old(self)@.input,
            final(self)@.stream_end_produced == old(self)@.stream_end_produced,
            final(self)@.error == old(self)@.error,
            r is Ok ==> final(self)@.cur.index >= old(self)@.cur.index,
            r is Ok ==> final(self)@.all.len() > old(self)@.all.len(),
            r is Ok ==> final(self)@.cur.index > old(self)@.cur.index
                || !final(self)@.has_fresh_key(),
    {
        self.lookahead(4);
        if is_z(self.ch()) {
            return self.fetch_stream_end();
        }
        // Is it a directive?
        if self.mark.col == 0 && self.ch_is('%') {
            return self.fetch_directive();
        }
        if self.at_document_indicator() {
            if self.peek(0) == '-' {
                return self.fetch_document_indicator(TokenType::DocumentStart);
            } else {
                return self.fetch_document_indicator(TokenType::DocumentEnd);
            }
        }
        let c = self.peek(0);
        let nc = self.peek(1);
        if c == '[' {
            self.fetch_flow_collection_start(TokenType::FlowSequenceStart)
        } else if c == '{' {
            self.fetch_flow_collection_start(TokenType::FlowMappingStart)
        } else if c == ']' {
            self.fetch_flow_collection_end(TokenType::FlowSequenceEnd)
        } else if c == '}' {
            self.fetch_flow_collection_end(TokenType::FlowMappingEnd)
        } else if c == ',' {
            self.fetch_flow_entry()
        } else if self.flow_level == 0 && self.leading_tab && (c == '-' || c == '?' || c == ':')
            && is_blankz(nc) {
            // Tabs may not lead a block indicator, whose column is indentation.
            Err(
                ScanError::new(
                    self.mark,
                    "tabs disallowed within this context (block indentation)",
                ),
            )
        } else if c == '-' && is_blankz(nc) {
            self.fetch_block_entry()
        } else if c == '?' && is_blankz(nc) {
            self.fetch_key()
        } else if c == ':' && (is_blankz(nc) || (self.flow_level > 0 && (is_flow(nc)
            || self.mark.index == self.adjacent_value_allowed_at))) {
            self.fetch_value()
        } else if c == '*' {
            // Is it an alias?
            self.fetch_anchor(true)
        } else if c == '&' {
            // Is it an anchor?
            self.fetch_anchor(false)
        } else if c == '!' {
            self.fetch_tag()
        } else if c == '|' && self.flow_level == 0 {
            // Is it a literal scalar?
            self.fetch_block_scalar(true)
        } else if c == '>' && self.flow_level == 0 {
            // Is it a folded scalar?
            self.fetch_block_scalar(false)
        } else if c == '\'' {
            self.fetch_flow_scalar(true)
        } else if c == '"' {
            self.fetch_flow_scalar(false)
        } else if c == '%' || c == '@' || c == '`' {
            let mut info = "unexpected character: `".to_owned();
            info.push(c);
            info.push('\'');
            Err(ScanError::new(self.mark, info.as_str()))
        } else {
            // plain scalar
            self.fetch_plain_scalar()
        }
    }

    /// Produce the next token, or the tokens that come with it.
    pub fn fetch_next_token(&mut self) -> (r: ScanResult)
        requires
            old(self).wf(),
        ensures
            final(self).wf(),
            (final(self)@, unit_view(r)) == old(self)@.fetch_next_token(),
            document_starts(final(self)@.all) == document_starts(old(self)@.all) + (if r is Ok
                && old(self)@.stream_start_produced && old(
                self,
            )@.skip_to_next_token().0.document_indicator_here() && old(
                self,
            )@.skip_to_next_token().0.ch() == '-' {
                1nat
            } else {
                0nat
            }),
            final(self)@.parsed == old(self)@.parsed,
            final(self)@.input == old(self)@.input,
            final(self)@.stream_end_produced == old(self)@.stream_end_produced,
            final(self)@.error == old(self)@.error,
            r is Ok ==> final(self)@.cur.index >= old(self)@.cur.index,
            r is Ok ==> final(self)@.stream_start_produced,
            r is Ok ==> final(self)@.all.len() > old(self)@.all.len(),
            r is Ok ==> final(self)@.cur.index > old(self)@.cur.index
                || !old(self)@.stream_start_produced || !final(self)@.has_fresh_key(),
    {
        self.lookahead(1);
        if !self.stream_start_produced {
            self.fetch_stream_start();
            return Ok(());
        }
        let skipped = self.skip_to_next_token();
        proof {
            old(self)@.lemma_lawful_moved(self@);
        }
        match skipped {
            Err(e) => {
                return Err(e);
            },
            Ok(_) => {},
        }
        match self.stale_simple_keys() {
            Err(e) => {
                return Err(e);
            },
            Ok(_) => {},
        }
        let mark = self.mark;
        self.unroll_indent(mark.col as isize);
        self.dispatch()
    }

    /// Hand out the next token; `None` behind the end of the stream. The
    /// first error is returned and kept: every later call returns `None`
    /// and reads nothing.
    pub fn next_token(&mut self) -> (r: Result<Option<Token>, ScanError>)
        requires
            old(self).wf(),
        ensures
            final(self).wf(),
            exists|fuel: nat|
                old(self)@.next_token_fuel(fuel) == Some((final(self)@, pull_view(r))),
    {
        if self.error.is_some() || self.stream_end_produced {
            proof {
                assert(old(self)@.next_token_fuel(0) == Some((self@, pull_view(Ok(None)))));
            }
            return Ok(None);
        }
        let ghost mut fuel: nat = 0;
        if !self.token_available {
            match self.fetch_more_tokens() {
                Err(e) => {
                    let ghost s1 = self@;
                    self.error = Some(e.clone());
                    proof {
                        let f = choose|f: nat|
                            old(self)@.fetch_more_tokens_fuel(f) == Some(
                                (s1, Err::<(), ErrorInfo>(e@)),
                            );
                        assert(self@ == (State { error: Some(e@), ..s1 }));
                        assert(old(self)@.next_token_fuel(f) == Some(
                            (self@, pull_view(Err(e))),
                        ));
                        s1.lemma_lawful_moved(self@);
                    }
                    return Err(e);
                },
                Ok(_) => {
                    proof {
                        fuel = choose|f: nat|
                            old(self)@.fetch_more_tokens_fuel(f) == Some(
                                (self@, Ok::<(), ErrorInfo>(())),
                            );
                    }
                },
            }
        }
        let ghost s1 = self@;
        let t = self.tokens.pop_front().unwrap();
        self.token_available = false;
        self.tokens_parsed = self.tokens_parsed.wrapping_add(1);
        self.history = Ghost(self.history@.push(t@));
        if let TokenType::StreamEnd = t.1 {
            self.stream_end_produced = true;
        }
        proof {
            assert(self@.all =~= s1.all);
            assert(self@.simple_keys =~= s1.simple_keys);
            assert(s1.all[s1.parsed] == t@);
            assert(self@ == s1.pop_token());
            s1.lemma_lawful_popped();
            assert(old(self)@.next_token_fuel(fuel) == Some((self@, pull_view(Ok(Some(t))))));
        }
        Ok(Some(t))
    }

    /// Hand out the next token as an iterator does; `None` behind the end
    /// of the stream, and from the first error on, which is kept.
    pub fn next(&mut self) -> (r: Option<Token>)
        requires
            old(self).wf(),
        ensures
            final(self).wf(),
            exists|fuel: nat| old(self)@.next_fuel(fuel) == Some((final(self)@, token_view(r))),
    {
        match self.next_token() {
            Ok(tok) => {
                proof {
                    let f = choose|f: nat|
                        old(self)@.next_token_fuel(f) == Some((self@, pull_view(Ok(tok))));
                    assert(old(self)@.next_fuel(f) == Some((self@, token_view(tok))));
                }
                tok
            },
            Err(e) => {
                proof {
                    let f = choose|f: nat|
                        old(self)@.next_token_fuel(f) == Some((self@, pull_view(Err(e))));
                    assert(old(self)@.next_fuel(f) == Some((self@, None::<Tok>)));
                }
                None
            },
        }
    }

    /// Whether a candidate could still put a `Key` in front of the head of
    /// the queue.
    fn key_pending(&self) -> (r: bool)
        requires
            self.sane(),
        ensures
            r == self@.key_pending(),
    {
        let n = self.simple_keys.len();
        let mut i: usize = 0;
        while i < n
            invariant
                self.sane(),
                i <= n,
                n == self.simple_keys@.len(),
                forall|j: int|
                    0 <= j < i ==> !(#[trigger] self@.simple_keys[j] matches Some(k) && k.slot
                        == self@.parsed),
            decreases n - i,
        {
            let sk = self.simple_keys[i];
            if sk.possible && sk.token_number == self.tokens_parsed {
                proof {
                    assert(self@.simple_keys[i as int] matches Some(k) && k.slot == self@.parsed);
                }
                return true;
            }
            i += 1;
        }
        false
    }

    /// Fetch tokens until the head of the queue is final.
    pub fn fetch_more_tokens(&mut self) -> (r: ScanResult)
        requires
            old(self).wf(),
        ensures
            final(self).wf(),
            exists|fuel: nat|
                old(self)@.fetch_more_tokens_fuel(fuel) == Some((final(self)@, unit_view(r))),
            r is Ok ==> final(self)@.token_available,
            final(self)@.stream_end_produced == old(self)@.stream_end_produced,
            final(self)@.error == old(self)@.error,
    {
        let ghost mut n: nat = 0;
        loop
            invariant_except_break
                forall|f: nat| #[trigger]
                    self@.fetch_more_tokens_fuel(f) == old(self)@.fetch_more_tokens_fuel(f + n),
            invariant
                self.wf(),
                self@.stream_end_produced == old(self)@.stream_end_produced,
                self@.error == old(self)@.error,
            ensures
                old(self)@.fetch_more_tokens_fuel(n + 1) == Some(
                    (State { token_available: true, ..self@ }, Ok::<(), ErrorInfo>(())),
                ),
                self@.queue().len() > 0,
                !self@.key_pending(),
            decreases self@.input.len() - self@.cur.index, self@.rank(),
        {
            let ghost head = self@;
            let need_more;
            if self.tokens.len() == 0 {
                need_more = true;
            } else {
                match self.stale_simple_keys() {
                    Err(e) => {
                        proof {
                            assert(head.fetch_more_tokens_fuel(1) == Some(
                                (self@, Err::<(), ErrorInfo>(e@)),
                            ));
                            assert(old(self)@.fetch_more_tokens_fuel(1 + n) == Some(
                                (self@, Err::<(), ErrorInfo>(e@)),
                            ));
                        }
                        return Err(e);
                    },
                    Ok(_) => {},
                }
                need_more = self.key_pending();
            }
            let ghost s1 = self@;
            if !need_more {
                proof {
                    assert(head.fetch_more_tokens_fuel(1) == Some(
                        (State { token_available: true, ..s1 }, Ok::<(), ErrorInfo>(())),
                    ));
                    assert(old(self)@.fetch_more_tokens_fuel(1 + n) == head.fetch_more_tokens_fuel(
                        1,
                    ));
                }
                break ;
            }
            match self.fetch_next_token() {
                Err(e) => {
                    proof {
                        assert(head.fetch_more_tokens_fuel(1) == Some(
                            (self@, Err::<(), ErrorInfo>(e@)),
                        ));
                        assert(old(self)@.fetch_more_tokens_fuel(1 + n) == Some(
                            (self@, Err::<(), ErrorInfo>(e@)),
                        ));
                    }
                    return Err(e);
                },
                Ok(_) => {},
            }
            proof {
                assert forall|f: nat| #[trigger]
                    self@.fetch_more_tokens_fuel(f) == old(self)@.fetch_more_tokens_fuel(
                        f + n + 1,
                    ) by {
                    assert(head.fetch_more_tokens_fuel(f + 1) == self@.fetch_more_tokens_fuel(f));
                    assert(head.fetch_more_tokens_fuel(f + 1) == old(
                        self,
                    )@.fetch_more_tokens_fuel(f + 1 + n));
                }
                n = n + 1;
                if self@.cur.index == head.cur.index && head.stream_start_produced {
                    if head.queue().len() > 0 {
                        let i = choose|i: int|
                            0 <= i < s1.simple_keys.len() && (#[trigger] s1.simple_keys[i] matches Some(
                                k,
                            ) && k.slot == s1.parsed);
                        assert(head.simple_keys[i] matches Some(k) && k.mark.line
                            >= head.cur.line);
                        assert(head.has_fresh_key());
                    }
                    assert(head.rank() > 0);
                    assert(self@.rank() == 0);
                }
            }
        }
        let ghost rested = self@;
        self.token_available = true;
        proof {
            rested.lemma_lawful_moved(self@);
        }
        Ok(())
    }

    /// Skip over all whitespace and comments until the next token.
    ///
    /// # Errors
    /// This function returns an error if a tabulation is encountered where there should not be
    /// one.
    pub(crate) fn skip_to_next_token(&mut self) -> (r: ScanResult)
        requires
            old(self).sane(),
        ensures
            final(self).sane(),
            (final(self)@, unit_view(r)) == old(self)@.skip_to_next_token(),
            final(self)@ == (State {
                cur: final(self)@.cur,
                simple_key_allowed: final(self)@.simple_key_allowed,
                ..old(self)@
            }),
            final(self)@.cur.index >= old(self)@.cur.index,
            r is Ok ==> {
                let c = final(self)@.ch();
                c != ' ' && c != '\t' && c != '#' && !spec_is_break(c)
            },
    {
        loop
            invariant_except_break
                self@.skip_to_next_token() == old(self)@.skip_to_next_token(),
            invariant
                self.sane(),
                self@ == (State {
                    cur: self@.cur,
                    simple_key_allowed: self@.simple_key_allowed,
                    ..old(self)@
                }),
                self@.cur.index >= old(self)@.cur.index,
            ensures
                (self@, Ok::<(), ErrorInfo>(())) == old(self)@.skip_to_next_token(),
                self@.ch() != ' ' && self@.ch() != '\t' && self@.ch() != '#' && !spec_is_break(
                    self@.ch(),
                ),
            decreases self@.input.len() - self@.cur.index,
        {
            let c = self.look_ch();
            if c == ' ' {
                self.skip();
            } else if c == '\t' {
                // Tabs may not be used as indentation.
                // "Indentation" only exists as long as a block is started, but does not exist
                // inside of flow-style constructs. Tabs are allowed as part of leading
                // whitespaces outside of indentation.
                if self.is_within_block() && self.leading_whitespace && (self.mark.col as isize)
                    < self.indent {
                    return Err(
                        ScanError::new(
                            self.mark,
                            "tabs disallowed within this context (block indentation)",
                        ),
                    );
                }
                self.skip();
            } else if c == '\n' || c == '\r' {
                self.lookahead(2);
                self.skip_line();
                if self.flow_level == 0 {
                    self.allow_simple_key();
                }
            } else if c == '#' {
                self.skip_run(CharClass::Line);
            } else {
                break ;
            }
        }
        Ok(())
    }
}

} // verus!
