//! The mathematical state of the scanner: the input, a cursor into it, the
//! tokens produced so far, and the bookkeeping for indentation and simple keys.

use vstd::prelude::*;
use crate::chars::{spec_is_blank, spec_is_break, CharClass};
use crate::token::{ErrorInfo, Mark, Tok};

verus! {

/// The character at position `i` of the input; past its end, the sentinel NUL.
pub open spec fn char_at(input: Seq<char>, i: int) -> char {
    if 0 <= i < input.len() {
        input[i]
    } else {
        '\0'
    }
}

/// A reading position: the marker, whether everything since the last
/// newline was a blank, and whether a tab was among those blanks.
pub struct Cursor {
    pub index: int,
    pub line: int,
    pub col: int,
    pub lead: bool,
    /// Whether a tab stands among the blanks that lead the line, with
    /// nothing but blanks read on the line so far.
    pub tab: bool,
}

impl Cursor {
    pub open spec fn mark(self) -> Mark {
        Mark { index: self.index, line: self.line, col: self.col }
    }

    /// The `k`-th upcoming character.
    pub open spec fn at(self, input: Seq<char>, k: int) -> char {
        char_at(input, self.index + k)
    }

    /// The next character.
    pub open spec fn ch(self, input: Seq<char>) -> char {
        char_at(input, self.index)
    }

    /// A cursor that the scanner can be at: inside the input or at its end,
    /// with line and column no further than the characters consumed allow.
    pub open spec fn valid(self, input: Seq<char>) -> bool {
        &&& 0 <= self.index <= input.len()
        &&& 0 <= self.col <= self.index
        &&& 1 <= self.line
        &&& self.line + (if self.col > 0 { 1int } else { 0 }) <= self.index + 2
    }

    /// Consume one character: a `\n` starts a new line, anything else
    /// advances the column.
    pub open spec fn step(self, input: Seq<char>) -> Cursor {
        let c = self.ch(input);
        if c == '\n' {
            Cursor { index: self.index + 1, line: self.line + 1, col: 0, lead: true, tab: false }
        } else {
            Cursor {
                index: self.index + 1,
                line: self.line,
                col: self.col + 1,
                lead: self.lead && spec_is_blank(c),
                tab: self.lead && spec_is_blank(c) && (self.tab || c == '\t'),
            }
        }
    }

    /// Consume two characters.
    pub open spec fn step2(self, input: Seq<char>) -> Cursor {
        self.step(input).step(input)
    }

    /// Consume three characters.
    pub open spec fn step3(self, input: Seq<char>) -> Cursor {
        self.step(input).step(input).step(input)
    }

    /// Consume `n` characters.
    pub open spec fn step_n(self, input: Seq<char>, n: nat) -> Cursor
        decreases n,
    {
        if n == 0 {
            self
        } else {
            self.step(input).step_n(input, (n - 1) as nat)
        }
    }

    /// Consume one line break (`\r\n`, `\r` or `\n`), if there is one.
    pub open spec fn step_line(self, input: Seq<char>) -> Cursor {
        if self.at(input, 0) == '\r' && self.at(input, 1) == '\n' {
            self.step(input).step(input)
        } else if spec_is_break(self.ch(input)) {
            self.step(input)
        } else {
            self
        }
    }

    /// The text between this cursor and a later one.
    pub open spec fn text_to(self, input: Seq<char>, end: Cursor) -> Seq<char> {
        input.subrange(self.index, end.index)
    }

    /// The cursor behind the longest run of characters of `class` that
    /// starts here.
    pub open spec fn run(self, input: Seq<char>, class: CharClass) -> Cursor
        decreases input.len() - self.index,
    {
        if 0 <= self.index < input.len() && class.spec_has(self.ch(input)) {
            self.step(input).run(input, class)
        } else {
            self
        }
    }

    /// A run ends at or behind its start, inside the input, before a
    /// character that is not of the class; all that it passes is of the class.
    pub proof fn lemma_run(self, input: Seq<char>, class: CharClass)
        requires
            self.valid(input),
        ensures
            self.run(input, class).valid(input),
            self.index <= self.run(input, class).index,
            !class.spec_has(self.run(input, class).ch(input)),
            class.spec_has(self.ch(input)) ==> self.index < self.run(input, class).index,
            forall|i: int|
                self.index <= i < self.run(input, class).index ==> class.spec_has(
                    #[trigger] input[i],
                ),
        decreases input.len() - self.index,
    {
        if 0 <= self.index < input.len() && class.spec_has(self.ch(input)) {
            self.step(input).lemma_run(input, class);
        }
    }

    /// A step from a character of the input stays inside the input.
    pub proof fn lemma_step_valid_index(self, input: Seq<char>)
        ensures
            self.step(input).index == self.index + 1,
    {
    }
}

/// A candidate simple key: the absolute index of the token slot that its
/// `Key` token would take, and where the candidate starts.
pub struct KeySlot {
    pub required: bool,
    pub slot: int,
    pub mark: Mark,
    /// Whether the candidate is the first token of its line, behind blanks
    /// with a tab among them.
    pub tabbed: bool,
}

/// The state of a scanner.
pub struct State {
    /// The whole input.
    pub input: Seq<char>,
    /// Where the scanner reads next.
    pub cur: Cursor,
    /// Every token produced so far, in the order of emission.
    pub all: Seq<Tok>,
    /// How many of them were handed to the caller.
    pub parsed: int,
    /// The latched error.
    pub error: Option<ErrorInfo>,
    pub stream_start_produced: bool,
    pub stream_end_produced: bool,
    /// The index right behind the last quoted scalar or closed flow
    /// collection, where a `:` is a value indicator inside a flow collection.
    pub adjacent_value_allowed_at: int,
    pub simple_key_allowed: bool,
    /// One candidate per flow level; `None` where no simple key is possible.
    pub simple_keys: Seq<Option<KeySlot>>,
    /// The column of the innermost open block, or -1.
    pub indent: int,
    /// The indents of the enclosing blocks.
    pub indents: Seq<int>,
    pub flow_level: int,
    pub token_available: bool,
}

impl State {
    /// The tokens produced and not yet handed out.
    pub open spec fn queue(self) -> Seq<Tok> {
        self.all.skip(self.parsed)
    }

    /// The tokens handed out so far.
    pub open spec fn emitted(self) -> Seq<Tok> {
        self.all.take(self.parsed)
    }

    pub open spec fn ch(self) -> char {
        self.cur.ch(self.input)
    }

    pub open spec fn at(self, k: int) -> char {
        self.cur.at(self.input, k)
    }

    pub open spec fn with_cur(self, cur: Cursor) -> State {
        State { cur, ..self }
    }

    /// The candidate of the current flow level.
    pub open spec fn top_key(self) -> Option<KeySlot> {
        self.simple_keys.last()
    }

    pub open spec fn with_top_key(self, k: Option<KeySlot>) -> State {
        State { simple_keys: self.simple_keys.update(self.simple_keys.len() - 1, k), ..self }
    }

    pub open spec fn with_simple_key_allowed(self, allowed: bool) -> State {
        State { simple_key_allowed: allowed, ..self }
    }

    /// A token appended to the queue.
    pub open spec fn pushed(self, t: Tok) -> State {
        State { all: self.all.push(t), ..self }
    }

    /// A token inserted at an absolute slot.
    pub open spec fn inserted(self, slot: int, t: Tok) -> State {
        State { all: self.all.insert(slot, t), ..self }
    }

    /// The state of a scanner that has read nothing of `input` yet.
    pub open spec fn initial(input: Seq<char>) -> State {
        State {
            input,
            cur: Cursor { index: 0, line: 1, col: 0, lead: true, tab: false },
            all: Seq::empty(),
            parsed: 0,
            error: None,
            stream_start_produced: false,
            stream_end_produced: false,
            adjacent_value_allowed_at: 0,
            simple_key_allowed: true,
            simple_keys: Seq::empty(),
            indent: -1,
            indents: Seq::empty(),
            flow_level: 0,
            token_available: false,
        }
    }

    /// A candidate on the line of the cursor.
    pub open spec fn has_fresh_key(self) -> bool {
        exists|i: int|
            0 <= i < self.simple_keys.len() && (#[trigger] self.simple_keys[i] matches Some(k)
                && k.mark.line >= self.cur.line)
    }

    /// A candidate whose slot is the next token to hand out.
    pub open spec fn key_pending(self) -> bool {
        exists|i: int|
            0 <= i < self.simple_keys.len() && (#[trigger] self.simple_keys[i] matches Some(k)
                && k.slot == self.parsed)
    }

    /// What is left to do before the scanner comes to rest at the end of
    /// the stream: the stream start, a first token, the staling of the
    /// candidates.
    pub open spec fn rank(self) -> nat {
        ((if self.stream_start_produced {
            0nat
        } else {
            4nat
        }) + (if self.queue().len() == 0 {
            2nat
        } else {
            0nat
        }) + (if self.has_fresh_key() {
            1nat
        } else {
            0nat
        })) as nat
    }

    /// The indent stack is well formed: the outermost saved indent is the
    /// sentinel -1, every other one is a column, and the stack is empty
    /// exactly outside any block.
    pub open spec fn indents_inv(self) -> bool {
        &&& -1 <= self.indent <= self.cur.index
        &&& (self.indent == -1 <==> self.indents.len() == 0)
        &&& forall|i: int|
            0 <= i < self.indents.len() ==> {
                &&& (i == 0 ==> #[trigger] self.indents[i] == -1)
                &&& (i > 0 ==> 0 <= self.indents[i])
                &&& self.indents[i] <= self.cur.index
            }
    }

    /// Every candidate key points into the queue and starts no later than
    /// the cursor: on an earlier line, or on this line as many columns back
    /// as characters. A candidate that starts at the cursor itself stands
    /// before a character, not at the end of the stream.
    pub open spec fn keys_inv(self) -> bool {
        forall|i: int|
            0 <= i < self.simple_keys.len() ==> (#[trigger] self.simple_keys[i] matches Some(k) ==> {
                &&& self.parsed <= k.slot <= self.all.len()
                &&& 1 <= k.slot
                &&& 0 <= k.mark.col <= k.mark.index <= self.cur.index
                &&& 0 <= k.mark.line <= self.cur.line
                &&& (k.mark.line == self.cur.line ==> self.cur.col - k.mark.col == self.cur.index
                    - k.mark.index)
                &&& (k.mark.index == self.cur.index ==> self.ch() != '\0')
                &&& (self.token_available ==> self.parsed < k.slot)
            })
    }

    /// What holds of every state that a scanner reaches.
    pub open spec fn inv(self) -> bool {
        &&& self.cur.valid(self.input)
        &&& self.indents_inv()
        &&& self.keys_inv()
        &&& 0 <= self.flow_level <= 255
        &&& self.simple_keys.len() == (if self.stream_start_produced {
            self.flow_level + 1
        } else {
            0
        })
        &&& 0 <= self.parsed <= self.all.len()
        &&& (self.token_available ==> self.parsed < self.all.len())
        &&& (!self.stream_start_produced ==> self.all.len() == 0 && self.indent == -1
            && self.flow_level == 0)
        &&& (self.stream_start_produced ==> self.all.len() >= 1)
        &&& 0 <= self.adjacent_value_allowed_at
    }

    /// Consuming a character keeps the invariant.
    pub proof fn lemma_inv_step(self)
        requires
            self.inv(),
            self.ch() != '\0',
        ensures
            self.with_cur(self.cur.step(self.input)).inv(),
    {
        let s2 = self.with_cur(self.cur.step(self.input));
        assert forall|i: int| 0 <= i < s2.simple_keys.len() implies (
        #[trigger] s2.simple_keys[i] matches Some(k) ==> {
            &&& s2.parsed <= k.slot <= s2.all.len()
            &&& 1 <= k.slot
            &&& 0 <= k.mark.col <= k.mark.index <= s2.cur.index
            &&& 0 <= k.mark.line <= s2.cur.line
            &&& (k.mark.line == s2.cur.line ==> s2.cur.col - k.mark.col == s2.cur.index
                - k.mark.index)
            &&& (k.mark.index == s2.cur.index ==> s2.ch() != '\0')
            &&& (s2.token_available ==> s2.parsed < k.slot)
        }) by {
            assert(self.simple_keys[i] == s2.simple_keys[i]);
        }
    }
}

} // verus!
