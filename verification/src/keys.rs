//! Simple-key candidates, the indent stack and the flow level.

use vstd::prelude::*;
use crate::laws::keys_within;
use crate::nesting::document_starts;
use crate::model::{KeySlot, State};
use crate::scanner::{unit_view, ScanResult, Scanner, SimpleKey};
use crate::token::{ErrorInfo, Mark, Marker, ScanError, Tok, Token, TokenKind, TokenType};

verus! {

impl State {
    /// A candidate is stale once the cursor has left its line, or has moved
    /// more than 1024 characters past its start.
    pub open spec fn is_stale(self, k: KeySlot) -> bool {
        k.mark.line < self.cur.line || k.mark.index + 1024 < self.cur.index
    }

    /// An error at the cursor.
    pub open spec fn error_here(self, info: Seq<char>) -> ErrorInfo {
        ErrorInfo { mark: self.cur.mark(), info }
    }

    /// Give up the candidate of the current flow level; an error if it was
    /// required.
    pub open spec fn remove_simple_key(self) -> (State, Result<(), ErrorInfo>) {
        if self.top_key() matches Some(k) && k.required {
            (self, Err(self.error_here("simple key expected"@)))
        } else {
            (self.with_top_key(None), Ok(()))
        }
    }

    /// Where simple keys are allowed, make the cursor the candidate of the
    /// current flow level: its slot is the next token to be produced.
    pub open spec fn save_simple_key(self) -> (State, Result<(), ErrorInfo>) {
        if !self.simple_key_allowed {
            (self, Ok(()))
        } else if self.remove_simple_key().1 is Err {
            self.remove_simple_key()
        } else {
            (
                self.with_top_key(
                    Some(
                        KeySlot {
                            required: self.flow_level > 0 && self.indent == self.cur.col,
                            slot: self.all.len() as int,
                            mark: self.cur.mark(),
                            tabbed: self.cur.tab,
                        },
                    ),
                ),
                Ok(()),
            )
        }
    }

    /// Invalidate the stale candidates from level `i` upwards, stopping with
    /// an error at the first one that was required.
    pub open spec fn stale_from(self, i: int) -> (State, Result<(), ErrorInfo>)
        decreases self.simple_keys.len() - i,
    {
        if i < 0 || i >= self.simple_keys.len() {
            (self, Ok(()))
        } else {
            match self.simple_keys[i] {
                Some(k) if self.is_stale(k) => {
                    if k.required {
                        (self, Err(self.error_here("simple key expected"@)))
                    } else {
                        (State {
                            simple_keys: self.simple_keys.update(i, None),
                            ..self
                        }).stale_from(i + 1)
                    }
                },
                _ => self.stale_from(i + 1),
            }
        }
    }

    /// Invalidate every stale candidate.
    pub open spec fn stale_simple_keys(self) -> (State, Result<(), ErrorInfo>) {
        self.stale_from(0)
    }

    /// In block context, open a block at `col` if it is deeper than the
    /// current indent: the start token goes to `slot`, or to the end of the
    /// queue.
    pub open spec fn roll_indent(self, col: int, slot: Option<int>, kind: TokenKind, mark: Mark) -> State {
        if self.flow_level > 0 || self.indent >= col {
            self
        } else {
            State {
                indents: self.indents.push(self.indent),
                indent: col,
                all: match slot {
                    Some(n) => self.all.insert(n, Tok { mark, kind }),
                    None => self.all.push(Tok { mark, kind }),
                },
                ..self
            }
        }
    }

    /// In block context, close every block that is deeper than `col`, with
    /// one `BlockEnd` each.
    pub open spec fn unroll_indent(self, col: int) -> State
        decreases self.indents.len(),
    {
        if self.flow_level > 0 || self.indent <= col || self.indents.len() == 0 {
            self
        } else {
            (State {
                all: self.all.push(Tok { mark: self.cur.mark(), kind: TokenKind::BlockEnd }),
                indent: self.indents.last(),
                indents: self.indents.drop_last(),
                ..self
            }).unroll_indent(col)
        }
    }

    /// Enter a flow collection: one level deeper, with a fresh candidate
    /// slot; an error past 255 levels.
    pub open spec fn increase_flow_level(self) -> (State, Result<(), ErrorInfo>) {
        if self.flow_level >= 255 {
            (self, Err(self.error_here("recursion limit exceeded"@)))
        } else {
            (
                State {
                    flow_level: self.flow_level + 1,
                    simple_keys: self.simple_keys.push(None),
                    ..self
                },
                Ok(()),
            )
        }
    }

    /// Leave a flow collection, if inside one.
    pub open spec fn decrease_flow_level(self) -> State {
        if self.flow_level > 0 {
            State {
                flow_level: self.flow_level - 1,
                simple_keys: self.simple_keys.drop_last(),
                ..self
            }
        } else {
            self
        }
    }

    /// Whether the scanner is inside a block and outside any flow collection.
    pub open spec fn is_within_block(self) -> bool {
        self.indents.len() > 0 && self.flow_level == 0
    }
}

impl Scanner {
    /// Invalidate the candidates that can no longer become simple keys.
    pub(crate) fn stale_simple_keys(&mut self) -> (r: ScanResult)
        requires
            old(self).sane(),
        ensures
            final(self).sane(),
            (final(self)@, unit_view(r)) == old(self)@.stale_simple_keys(),
            final(self)@ == (State { simple_keys: final(self)@.simple_keys, ..old(self)@ }),
            final(self)@.simple_keys.len() == old(self)@.simple_keys.len(),
            keys_within(final(self)@.simple_keys, old(self)@.simple_keys),
            old(self)@.lawful() ==> final(self)@.lawful(),
            r is Ok ==> forall|i: int|
                0 <= i < final(self)@.simple_keys.len() ==> (
                #[trigger] final(self)@.simple_keys[i] matches Some(k) ==> !old(self)@.is_stale(k)
                    && old(self)@.simple_keys[i] == Some(k)),
            final(self).buffered() == old(self).buffered(),
    {
        let n = self.simple_keys.len();
        let mut i: usize = 0;
        while i < n
            invariant
                self.sane(),
                i <= n,
                n == self.simple_keys@.len(),
                self@.stale_from(i as int) == old(self)@.stale_simple_keys(),
                self@ == (State { simple_keys: self@.simple_keys, ..old(self)@ }),
                self@.simple_keys.len() == old(self)@.simple_keys.len(),
                keys_within(self@.simple_keys, old(self)@.simple_keys),
                old(self)@.lawful() ==> self@.lawful(),
                forall|j: int|
                    0 <= j < self@.simple_keys.len() ==> (#[trigger] self@.simple_keys[j] matches Some(
                        k,
                    ) ==> (j < i ==> !old(self)@.is_stale(k)) && old(self)@.simple_keys[j] == Some(
                        k,
                    )),
                self.buffered() == old(self).buffered(),
            decreases n - i,
        {
            let sk = self.simple_keys[i];
            if sk.possible && (sk.mark.line < self.mark.line || sk.mark.index + 1024
                < self.mark.index) {
                if sk.required {
                    return Err(ScanError::new(self.mark, "simple key expected"));
                }
                let ghost before = self@;
                self.simple_keys.set(i, SimpleKey { possible: false, ..sk });
                proof {
                    assert(self@.simple_keys =~= before.simple_keys.update(i as int, None));
                    if before.lawful() {
                        before.lemma_lawful_moved(self@);
                    }
                }
            }
            i += 1;
        }
        Ok(())
    }

    /// Add an indentation level to the stack with the given block token, if needed.
    ///
    /// An indentation level is added only if:
    ///   - We are not in a flow-style construct (which don't have indentation per-se).
    ///   - The current column is further indented than the last indent we have registered.
    pub(crate) fn roll_indent(
        &mut self,
        col: usize,
        number: Option<usize>,
        tok: TokenType,
        mark: Marker,
    )
        requires
            old(self).sane(),
            old(self)@.stream_start_produced,
            col <= old(self)@.cur.index,
            number matches Some(n) ==> n.wrapping_sub(old(self).tokens_parsed)
                <= old(self)@.queue().len(),
            tok@ is BlockSequenceStart || tok@ is BlockMappingStart,
            number is None ==> mark@ == old(self)@.cur.mark(),
            number matches Some(n) ==> tok@ is BlockMappingStart && (
            old(self)@.top_key() matches Some(k) && k.mark == mark@ && k.slot == old(
                self,
            )@.parsed + n.wrapping_sub(old(self).tokens_parsed)),
        ensures
            final(self).sane(),
            final(self)@ == old(self)@.roll_indent(
                col as int,
                match number {
                    Some(n) => Some(old(self)@.parsed + n.wrapping_sub(old(self).tokens_parsed)),
                    None => None,
                },
                tok@,
                mark@,
            ),
            final(self).buffered() == old(self).buffered(),
            final(self).tokens_parsed == old(self).tokens_parsed,
            old(self)@.lawful() && !old(self)@.at_end() ==> final(self)@.lawful(),
            document_starts(final(self)@.all) == document_starts(old(self)@.all),
    {
        if self.flow_level > 0 {
            return ;
        }
        if self.indent < col as isize {
            let tokens_parsed = self.tokens_parsed;
            match number {
                Some(n) => self.insert_token(n.wrapping_sub(tokens_parsed), Token(mark, tok)),
                None => self.push_token(Token(mark, tok)),
            }
            let ghost before = self@;
            self.indents.push(self.indent);
            self.indent = col as isize;
            proof {
                assert(self@.indents =~= before.indents.push(before.indent));
                if old(self)@.lawful() && !old(self)@.at_end() {
                    match number {
                        Some(n) => {
                            old(self)@.lemma_lawful_inserted(self@, Token(mark, tok)@);
                        },
                        None => {
                            old(self)@.lemma_lawful_pushed(self@, Token(mark, tok)@);
                        },
                    }
                }
            }
        }
    }

    /// Pop indentation levels from the stack as much as needed.
    ///
    /// Indentation levels are popped from the stack while they are further indented than `col`.
    /// If we are in a flow-style construct (which don't have indentation per-se), this function
    /// does nothing.
    pub(crate) fn unroll_indent(&mut self, col: isize)
        requires
            old(self).sane(),
            old(self)@.stream_start_produced,
            col >= -1,
        ensures
            final(self).sane(),
            final(self)@ == old(self)@.unroll_indent(col as int),
            final(self)@ == (State {
                all: final(self)@.all,
                indent: final(self)@.indent,
                indents: final(self)@.indents,
                ..old(self)@
            }),
            final(self)@.all.len() >= old(self)@.all.len(),
            final(self).buffered() == old(self).buffered(),
            old(self)@.flow_level == 0 ==> final(self)@.indent <= col,
            old(self)@.lawful() ==> final(self)@.lawful(),
            document_starts(final(self)@.all) == document_starts(old(self)@.all),
    {
        if self.flow_level > 0 {
            return ;
        }
        while self.indent > col
            invariant
                self.sane(),
                self@.stream_start_produced,
                self@.flow_level == 0,
                col >= -1,
                self@.unroll_indent(col as int) == old(self)@.unroll_indent(col as int),
                self@ == (State {
                    all: self@.all,
                    indent: self@.indent,
                    indents: self@.indents,
                    ..old(self)@
                }),
                self@.all.len() >= old(self)@.all.len(),
                self.buffered() == old(self).buffered(),
                old(self)@.lawful() ==> self@.lawful(),
                document_starts(self@.all) == document_starts(old(self)@.all),
            decreases self.indents@.len(),
        {
            let ghost head = self@;
            self.push_token(Token(self.mark, TokenType::BlockEnd));
            let ghost before = self@;
            self.indent = self.indents.pop().unwrap();
            proof {
                assert(self@.indents =~= before.indents.drop_last());
                if head.lawful() {
                    head.lemma_lawful_pushed(self@, Token(self.mark, TokenType::BlockEnd)@);
                }
            }
        }
    }

    /// Record the cursor as a possible simple key, where one is allowed.
    pub(crate) fn save_simple_key(&mut self) -> (r: ScanResult)
        requires
            old(self).sane(),
            old(self)@.stream_start_produced,
            old(self)@.ch() != '\0',
        ensures
            final(self).sane(),
            (final(self)@, unit_view(r)) == old(self)@.save_simple_key(),
            final(self).buffered() == old(self).buffered(),
            final(self)@.all == old(self)@.all,
            old(self)@.lawful() ==> final(self)@.lawful(),
    {
        let required = self.flow_level > 0 && self.indent == (self.mark.col as isize);
        if self.simple_key_allowed {
            match self.remove_simple_key() {
                Err(e) => {
                    return Err(e);
                },
                Ok(_) => {},
            }
            let mut sk = SimpleKey::new(self.mark);
            sk.possible = true;
            sk.required = required;
            sk.token_number = self.tokens_parsed.wrapping_add(self.tokens.len());
            sk.tabbed = self.leading_tab;
            let ghost before = self@;
            self.simple_keys.pop();
            self.simple_keys.push(sk);
            proof {
                let key = KeySlot {
                    required,
                    slot: before.all.len() as int,
                    mark: before.cur.mark(),
                    tabbed: before.cur.tab,
                };
                assert(self@.simple_keys =~= before.simple_keys.update(
                    before.simple_keys.len() - 1,
                    Some(key),
                ));
                assert(before.simple_keys == old(self)@.simple_keys.update(
                    old(self)@.simple_keys.len() - 1,
                    None,
                ));
                assert(self@.simple_keys =~= old(self)@.simple_keys.update(
                    old(self)@.simple_keys.len() - 1,
                    Some(
                        KeySlot {
                            required,
                            slot: before.all.len() as int,
                            mark: before.cur.mark(),
                            tabbed: before.cur.tab,
                        },
                    ),
                ));
                if old(self)@.lawful() {
                    old(self)@.lemma_lawful_saved(required, before.cur.tab);
                }
            }
        }
        Ok(())
    }

    /// Give up the candidate of the current flow level.
    pub(crate) fn remove_simple_key(&mut self) -> (r: ScanResult)
        requires
            old(self).sane(),
            old(self)@.stream_start_produced,
        ensures
            final(self).sane(),
            (final(self)@, unit_view(r)) == old(self)@.remove_simple_key(),
            final(self).buffered() == old(self).buffered(),
            keys_within(final(self)@.simple_keys, old(self)@.simple_keys),
            old(self)@.lawful() ==> final(self)@.lawful(),
    {
        let n = self.simple_keys.len();
        let last = self.simple_keys[n - 1];
        if last.possible && last.required {
            return Err(ScanError::new(self.mark, "simple key expected"));
        }
        self.simple_keys.set(n - 1, SimpleKey { possible: false, ..last });
        proof {
            assert(self@.simple_keys =~= old(self)@.simple_keys.update(n - 1, None));
            if old(self)@.lawful() {
                old(self)@.lemma_lawful_moved(self@);
            }
        }
        Ok(())
    }

    /// Enter a flow collection.
    pub(crate) fn increase_flow_level(&mut self) -> (r: ScanResult)
        requires
            old(self).sane(),
            old(self)@.stream_start_produced,
        ensures
            final(self).sane(),
            (final(self)@, unit_view(r)) == old(self)@.increase_flow_level(),
            final(self).buffered() == old(self).buffered(),
    {
        match self.flow_level.checked_add(1) {
            None => {
                return Err(ScanError::new(self.mark, "recursion limit exceeded"));
            },
            Some(level) => {
                self.flow_level = level;
            },
        }
        self.simple_keys.push(SimpleKey::new(Marker::new(0, 0, 0)));
        proof {
            assert(self@.simple_keys =~= old(self)@.simple_keys.push(None));
        }
        Ok(())
    }

    /// Leave a flow collection.
    pub(crate) fn decrease_flow_level(&mut self)
        requires
            old(self).sane(),
            old(self)@.stream_start_produced,
        ensures
            final(self).sane(),
            final(self)@ == old(self)@.decrease_flow_level(),
            final(self).buffered() == old(self).buffered(),
    {
        if self.flow_level > 0 {
            self.flow_level -= 1;
            self.simple_keys.pop().unwrap();
            proof {
                assert(self@.simple_keys =~= old(self)@.simple_keys.drop_last());
            }
        }
    }

    /// Return whether the scanner is inside a block but outside of a flow sequence.
    pub(crate) fn is_within_block(&self) -> (r: bool)
        requires
            self.sane(),
        ensures
            r == self@.is_within_block(),
    {
        !self.indents.is_empty() && self.flow_level == 0
    }
}

} // verus!
