//! The scanner: its state, the lookahead buffer and the token queue.

use std::collections::VecDeque;
use vstd::prelude::*;
use crate::chars::{is_break, spec_is_break, CharClass};
use crate::model::{char_at, Cursor, KeySlot, State};
use crate::nesting::{document_starts, lemma_document_starts_insert, lemma_document_starts_push};
use crate::token::{ErrorInfo, Tok};
pub use crate::token::{Marker, ScanError, TEncoding, TScalarStyle, Token, TokenType};

verus! {

/// The result of a scanning step that yields nothing but may fail.
pub type ScanResult = Result<(), ScanError>;

/// A candidate simple key, one per flow level.
#[derive(Clone, Copy, PartialEq, Eq, Debug)]
pub(crate) struct SimpleKey {
    pub(crate) possible: bool,
    pub(crate) required: bool,
    pub(crate) token_number: usize,
    pub(crate) mark: Marker,
    /// Whether a tab leads the line of the key.
    pub(crate) tabbed: bool,
}

impl SimpleKey {
    pub(crate) fn new(mark: Marker) -> (r: SimpleKey)
        ensures
            r == (SimpleKey {
                possible: false,
                required: false,
                token_number: 0,
                mark,
                tabbed: false,
            }),
    {
        SimpleKey { possible: false, required: false, token_number: 0, mark, tabbed: false }
    }
}

/// The tokens of a queue as contracts see them.
pub open spec fn tokens_view(tokens: Seq<Token>) -> Seq<Tok> {
    Seq::new(tokens.len(), |i: int| tokens[i]@)
}

/// A candidate key as contracts see it. Token numbers count modulo the word
/// size; the slot is the candidate's distance from the head of the queue,
/// past the tokens handed out.
pub(crate) open spec fn key_view(k: SimpleKey, parsed: int, tokens_parsed: usize) -> Option<
    KeySlot,
> {
    if k.possible {
        Some(
            KeySlot {
                required: k.required,
                slot: parsed + k.token_number.wrapping_sub(tokens_parsed),
                mark: k.mark@,
                tabbed: k.tabbed,
            },
        )
    } else {
        None
    }
}

/// What a step returned, as contracts see it.
pub open spec fn result_view<T: View>(r: Result<T, ScanError>) -> Result<T::V, ErrorInfo> {
    match r {
        Ok(v) => Ok(v@),
        Err(e) => Err(e@),
    }
}

/// What a step without a value returned, as contracts see it.
pub open spec fn unit_view(r: Result<(), ScanError>) -> Result<(), ErrorInfo> {
    match r {
        Ok(_) => Ok(()),
        Err(e) => Err(e@),
    }
}

/// The YAML tokenizer.
pub struct Scanner {
    /// The character source, and how many characters were pulled from it.
    pub(crate) rdr: Vec<char>,
    pub(crate) rdr_pos: usize,
    pub(crate) mark: Marker,
    pub(crate) tokens: VecDeque<Token>,
    pub(crate) buffer: VecDeque<char>,
    pub(crate) error: Option<ScanError>,
    pub(crate) stream_start_produced: bool,
    pub(crate) stream_end_produced: bool,
    pub(crate) adjacent_value_allowed_at: usize,
    /// Whether a simple key could potentially start at the current position.
    ///
    /// Simple keys are the opposite of complex keys which are keys starting with `?`.
    pub(crate) simple_key_allowed: bool,
    pub(crate) simple_keys: Vec<SimpleKey>,
    pub(crate) indent: isize,
    pub(crate) indents: Vec<isize>,
    pub(crate) flow_level: u8,
    pub(crate) tokens_parsed: usize,
    pub(crate) token_available: bool,
    /// Whether all characters encountered since the last newline were whitespace.
    pub(crate) leading_whitespace: bool,
    /// Whether a tab was among them.
    pub(crate) leading_tab: bool,
    /// The tokens handed out so far.
    pub(crate) history: Ghost<Seq<Tok>>,
}

impl View for Scanner {
    type V = State;

    open(crate) spec fn view(&self) -> State {
        State {
            input: self.rdr@,
            cur: Cursor {
                index: self.mark.index as int,
                line: self.mark.line as int,
                col: self.mark.col as int,
                lead: self.leading_whitespace,
                tab: self.leading_tab,
            },
            all: self.history@ + tokens_view(self.tokens@),
            parsed: self.history@.len() as int,
            error: match self.error {
                Some(e) => Some(e@),
                None => None,
            },
            stream_start_produced: self.stream_start_produced,
            stream_end_produced: self.stream_end_produced,
            adjacent_value_allowed_at: self.adjacent_value_allowed_at as int,
            simple_key_allowed: self.simple_key_allowed,
            simple_keys: Seq::new(
                self.simple_keys@.len(),
                |i: int| key_view(self.simple_keys@[i], self.history@.len() as int, self.tokens_parsed),
            ),
            indent: self.indent as int,
            indents: Seq::new(self.indents@.len(), |i: int| self.indents@[i] as int),
            flow_level: self.flow_level as int,
            token_available: self.token_available,
        }
    }
}

impl Scanner {
    /// How many upcoming characters are in the lookahead buffer.
    pub open(crate) spec fn buffered(&self) -> int {
        self.buffer@.len() as int
    }

    /// The lookahead buffer holds the characters that follow the cursor, and
    /// the source stands right behind them.
    pub open(crate) spec fn buffer_ok(&self) -> bool {
        &&& self.rdr_pos as int == (if self.mark.index + self.buffer@.len() <= self.rdr@.len() {
            self.mark.index + self.buffer@.len()
        } else {
            self.rdr@.len() as int
        })
        &&& forall|i: int|
            0 <= i < self.buffer@.len() ==> #[trigger] self.buffer@[i] == char_at(
                self.rdr@,
                self.mark.index + i,
            )
    }

    /// The scanner is in a state that it can work from.
    pub open(crate) spec fn sane(&self) -> bool {
        &&& self@.inv()
        &&& self.rdr@.len() + 16 <= isize::MAX
        &&& self.buffer_ok()
    }

    /// The scanner is in a state that it can work from, and the laws of the
    /// tokens hold of it.
    pub open(crate) spec fn wf(&self) -> bool {
        &&& self.sane()
        &&& self@.lawful()
    }

    /// The state of a scanner that can work is one that a scanner reaches,
    /// and the laws of the tokens hold of it.
    pub proof fn lemma_wf(&self)
        requires
            self.wf(),
        ensures
            self@.inv(),
            self@.lawful(),
    {
    }

    /// Creates the YAML tokenizer over the characters of `rdr`.
    pub fn new(rdr: Vec<char>) -> (r: Scanner)
        requires
            rdr@.len() + 16 <= isize::MAX,
        ensures
            r.wf(),
            r@ == State::initial(rdr@),
    {
        let r = Scanner {
            rdr,
            rdr_pos: 0,
            buffer: VecDeque::new(),
            mark: Marker::new(0, 1, 0),
            tokens: VecDeque::new(),
            error: None,
            stream_start_produced: false,
            stream_end_produced: false,
            adjacent_value_allowed_at: 0,
            simple_key_allowed: true,
            simple_keys: Vec::new(),
            indent: -1,
            indents: Vec::new(),
            flow_level: 0,
            tokens_parsed: 0,
            token_available: false,
            leading_whitespace: true,
            leading_tab: false,
            history: Ghost(Seq::empty()),
        };
        proof {
            assert(r@.all =~= Seq::<Tok>::empty());
            assert(r@.simple_keys =~= Seq::<Option<KeySlot>>::empty());
            assert(r@.indents =~= Seq::<int>::empty());
            State::lemma_lawful_initial(rdr@);
        }
        r
    }

    /// The error that stopped the scanner, if any.
    pub fn get_error(&self) -> (r: Option<ScanError>)
        ensures
            r is Some == self@.error is Some,
            r matches Some(e) ==> Some(e@) == self@.error,
    {
        match &self.error {
            Some(e) => Some(e.clone()),
            None => None,
        }
    }

    /// Whether the start of the stream was produced.
    pub fn stream_started(&self) -> (r: bool)
        ensures
            r == self@.stream_start_produced,
    {
        self.stream_start_produced
    }

    /// Whether the end of the stream was handed out.
    pub fn stream_ended(&self) -> (r: bool)
        ensures
            r == self@.stream_end_produced,
    {
        self.stream_end_produced
    }

    /// The position that the scanner reads next.
    pub fn mark(&self) -> (r: Marker)
        ensures
            r@ == self@.cur.mark(),
    {
        self.mark
    }

    /// Pull the next character from the source; NUL once it is exhausted.
    fn pull(&mut self) -> (c: char)
        ensures
            c == char_at(old(self).rdr@, old(self).rdr_pos as int),
            final(self).rdr_pos as int == (if old(self).rdr_pos < old(self).rdr@.len() {
                old(self).rdr_pos + 1
            } else {
                old(self).rdr_pos as int
            }),
            *final(self) == (Scanner { rdr_pos: final(self).rdr_pos, ..*old(self) }),
    {
        if self.rdr_pos < self.rdr.len() {
            let c = self.rdr[self.rdr_pos];
            self.rdr_pos += 1;
            c
        } else {
            '\0'
        }
    }

    /// Fill `self.buffer` with at least `count` characters.
    ///
    /// The characters that are extracted this way are not consumed but only placed in the buffer.
    pub(crate) fn lookahead(&mut self, count: usize)
        requires
            old(self).sane(),
        ensures
            final(self).sane(),
            final(self)@ == old(self)@,
            final(self).buffered() >= count,
            final(self).buffered() >= old(self).buffered(),
    {
        if self.buffer.len() >= count {
            return ;
        }
        let n = count - self.buffer.len();
        let mut i: usize = 0;
        while i < n
            invariant
                self.sane(),
                self@ == old(self)@,
                self.buffered() == old(self).buffered() + i,
                n == count - old(self).buffered(),
                i <= n,
            decreases n - i,
        {
            let c = self.pull();
            self.buffer.push_back(c);
            i += 1;
        }
    }

    /// Consume the next character. Remove from buffer and update mark.
    pub(crate) fn skip(&mut self)
        requires
            old(self).sane(),
            old(self).buffered() >= 1,
            old(self)@.ch() != '\0',
        ensures
            final(self).sane(),
            final(self)@ == old(self)@.with_cur(old(self)@.cur.step(old(self)@.input)),
            final(self).buffered() == old(self).buffered() - 1,
    {
        let c = self.buffer.pop_front().unwrap();
        self.mark.index += 1;
        if c == '\n' {
            self.leading_whitespace = true;
            self.leading_tab = false;
            self.mark.line += 1;
            self.mark.col = 0;
        } else {
            if self.leading_whitespace && !(c == ' ' || c == '\t') {
                self.leading_whitespace = false;
            }
            self.leading_tab = self.leading_whitespace && (self.leading_tab || c == '\t');
            self.mark.col += 1;
        }
        proof {
            old(self)@.lemma_inv_step();
        }
    }

    /// Consume a linebreak (either CR, LF or CRLF), if any. Do nothing if there's none.
    pub(crate) fn skip_line(&mut self)
        requires
            old(self).sane(),
            old(self).buffered() >= 2,
        ensures
            final(self).sane(),
            final(self)@ == old(self)@.with_cur(old(self)@.cur.step_line(old(self)@.input)),
            final(self).buffered() >= old(self).buffered() - 2,
            final(self)@.cur.index >= old(self)@.cur.index,
            spec_is_break(old(self)@.ch()) ==> final(self)@.cur.index > old(self)@.cur.index,
    {
        if self.buffer[0] == '\r' && self.buffer[1] == '\n' {
            self.skip();
            self.skip();
        } else if is_break(self.buffer[0]) {
            self.skip();
        }
    }

    /// Return the next character in the buffer.
    ///
    /// The character is not consumed.
    pub(crate) fn ch(&self) -> (c: char)
        requires
            self.sane(),
            self.buffered() >= 1,
        ensures
            c == self@.ch(),
    {
        self.buffer[0]
    }

    /// Return the `k`-th upcoming character in the buffer.
    pub(crate) fn peek(&self, k: usize) -> (c: char)
        requires
            self.sane(),
            self.buffered() > k,
        ensures
            c == self@.at(k as int),
    {
        self.buffer[k]
    }

    /// Look for the next character and return it.
    ///
    /// The character is not consumed.
    /// Equivalent to calling [`Self::lookahead`] and [`Self::ch`].
    pub(crate) fn look_ch(&mut self) -> (c: char)
        requires
            old(self).sane(),
        ensures
            final(self).sane(),
            final(self)@ == old(self)@,
            final(self).buffered() >= 1,
            final(self).buffered() >= old(self).buffered(),
            c == old(self)@.ch(),
    {
        self.lookahead(1);
        self.ch()
    }

    /// Consume and return the next character.
    ///
    /// Equivalent to calling [`Self::ch`] and [`Self::skip`].
    pub(crate) fn ch_skip(&mut self) -> (c: char)
        requires
            old(self).sane(),
            old(self).buffered() >= 1,
            old(self)@.ch() != '\0',
        ensures
            final(self).sane(),
            final(self)@ == old(self)@.with_cur(old(self)@.cur.step(old(self)@.input)),
            final(self).buffered() == old(self).buffered() - 1,
            c == old(self)@.ch(),
    {
        let ret = self.ch();
        self.skip();
        ret
    }

    /// Return whether the next character is `c`.
    pub(crate) fn ch_is(&self, c: char) -> (r: bool)
        requires
            self.sane(),
            self.buffered() >= 1,
        ensures
            r == (self@.ch() == c),
    {
        self.buffer[0] == c
    }

    /// Return whether the next character is the end of the stream.
    pub(crate) fn eof(&self) -> (r: bool)
        requires
            self.sane(),
            self.buffered() >= 1,
        ensures
            r == (self@.ch() == '\0'),
    {
        self.ch_is('\0')
    }

    /// Read and consume a line break (either `\r`, `\n` or `\r\n`).
    ///
    /// A `\n` is pushed into `s`.
    pub(crate) fn read_break(&mut self, s: &mut String)
        requires
            old(self).sane(),
            old(self).buffered() >= 2,
            spec_is_break(old(self)@.ch()),
        ensures
            final(self).sane(),
            final(self)@ == old(self)@.with_cur(old(self)@.cur.step_line(old(self)@.input)),
            final(self).buffered() >= old(self).buffered() - 2,
            final(self)@.cur.index > old(self)@.cur.index,
            final(s)@ == old(s)@.push('\n'),
    {
        if self.buffer[0] == '\r' && self.buffer[1] == '\n' {
            s.push('\n');
            self.skip();
            self.skip();
        } else {
            s.push('\n');
            self.skip();
        }
    }

    /// Append a token to the queue.
    pub(crate) fn push_token(&mut self, tok: Token)
        requires
            old(self).sane(),
            old(self)@.stream_start_produced,
        ensures
            final(self).sane(),
            final(self)@ == old(self)@.pushed(tok@),
            final(self).buffered() == old(self).buffered(),
            final(self).tokens_parsed == old(self).tokens_parsed,
            document_starts(final(self)@.all) == document_starts(old(self)@.all) + (if tok@.kind is DocumentStart {
                1nat
            } else {
                0nat
            }),
    {
        self.tokens.push_back(tok);
        proof {
            assert(self@.all =~= old(self)@.all.push(tok@));
            lemma_document_starts_push(old(self)@.all, tok@);
        }
    }

    /// Insert a token at the given position of the queue.
    pub(crate) fn insert_token(&mut self, pos: usize, tok: Token)
        requires
            old(self).sane(),
            old(self)@.stream_start_produced,
            pos <= old(self)@.queue().len(),
        ensures
            final(self).sane(),
            final(self)@ == old(self)@.inserted(old(self)@.parsed + pos, tok@),
            final(self).buffered() == old(self).buffered(),
            final(self).tokens_parsed == old(self).tokens_parsed,
            document_starts(final(self)@.all) == document_starts(old(self)@.all) + (if tok@.kind is DocumentStart {
                1nat
            } else {
                0nat
            }),
    {
        self.tokens.insert(pos, tok);
        proof {
            assert(self@.all =~= old(self)@.all.insert(old(self)@.parsed + pos, tok@));
            lemma_document_starts_insert(old(self)@.all, old(self)@.parsed + pos, tok@);
        }
    }

    pub(crate) fn allow_simple_key(&mut self)
        requires
            old(self).sane(),
        ensures
            final(self).sane(),
            final(self)@ == old(self)@.with_simple_key_allowed(true),
            final(self).buffered() == old(self).buffered(),
            old(self)@.lawful() ==> final(self)@.lawful(),
    {
        self.simple_key_allowed = true;
        proof {
            if old(self)@.lawful() {
                old(self)@.lemma_lawful_moved(self@);
            }
        }
    }

    pub(crate) fn disallow_simple_key(&mut self)
        requires
            old(self).sane(),
        ensures
            final(self).sane(),
            final(self)@ == old(self)@.with_simple_key_allowed(false),
            final(self).buffered() == old(self).buffered(),
            old(self)@.lawful() ==> final(self)@.lawful(),
    {
        self.simple_key_allowed = false;
        proof {
            if old(self)@.lawful() {
                old(self)@.lemma_lawful_moved(self@);
            }
        }
    }

    /// Consume the longest run of characters of `class`.
    pub(crate) fn skip_run(&mut self, class: CharClass)
        requires
            old(self).sane(),
        ensures
            final(self).sane(),
            final(self)@ == old(self)@.with_cur(old(self)@.cur.run(old(self)@.input, class)),
            final(self).buffered() >= 1,
            final(self)@.cur.index >= old(self)@.cur.index,
            !class.spec_has(final(self)@.ch()),
    {
        self.lookahead(1);
        while class.has(self.ch())
            invariant
                self.sane(),
                self.buffered() >= 1,
                self@ == old(self)@.with_cur(self@.cur),
                self@.cur.index >= old(self)@.cur.index,
                self@.cur.run(self@.input, class) == old(self)@.cur.run(old(self)@.input, class),
            decreases self@.input.len() - self@.cur.index,
        {
            self.skip();
            self.lookahead(1);
        }
    }

    /// Consume the longest run of characters of `class`, appending it to `s`.
    pub(crate) fn read_run(&mut self, class: CharClass, s: &mut String)
        requires
            old(self).sane(),
        ensures
            final(self).sane(),
            final(self)@ == old(self)@.with_cur(old(self)@.cur.run(old(self)@.input, class)),
            final(self).buffered() >= 1,
            final(self)@.cur.index >= old(self)@.cur.index,
            !class.spec_has(final(self)@.ch()),
            final(s)@ == old(s)@ + old(self)@.cur.text_to(old(self)@.input, final(self)@.cur),
    {
        self.lookahead(1);
        proof {
            assert(s@ =~= old(s)@ + self@.cur.text_to(self@.input, self@.cur));
        }
        while class.has(self.ch())
            invariant
                self.sane(),
                self.buffered() >= 1,
                self@ == old(self)@.with_cur(self@.cur),
                self@.cur.index >= old(self)@.cur.index,
                self@.cur.run(self@.input, class) == old(self)@.cur.run(old(self)@.input, class),
                s@ == old(s)@ + old(self)@.cur.text_to(self@.input, self@.cur),
            decreases self@.input.len() - self@.cur.index,
        {
            let ghost before = s@;
            s.push(self.ch());
            self.skip();
            self.lookahead(1);
            proof {
                assert(s@ =~= old(s)@ + old(self)@.cur.text_to(self@.input, self@.cur));
            }
        }
    }
}

} // verus!
