//! What holds of the tokens of every scanner, whatever the input: the
//! stream is framed by its start and its end, blocks are closed in the order
//! in which they were opened, the flow level is the depth of flow nesting,
//! and marks follow the input.

use vstd::prelude::*;
use crate::flow_scalar::{hex_value, spec_hex_length};
use crate::model::{KeySlot, State};
use crate::tag::{utf8_lead_bits, utf8_width};
use crate::text::is_scalar_value;
use crate::nesting::{block_delta, block_depth, flow_depth, flow_step, is_block_only, is_flow_bracket, lemma_block_depth_insert, lemma_block_depth_push, lemma_flow_depth_insert, lemma_flow_depth_push, lemma_insert, lemma_push};
use crate::token::{TEncoding, Tok, TokenKind};

verus! {

/// The stream start is the first token and stands nowhere else; of the
/// tokens handed out, only the last can be the stream end, and it is
/// exactly when the end of the stream was produced.
pub open spec fn stream_law(all: Seq<Tok>, parsed: int, end_produced: bool) -> bool {
    &&& all.len() > 0 ==> all[0].kind == TokenKind::StreamStart(TEncoding::Utf8)
    &&& forall|i: int| 1 <= i < all.len() ==> !((#[trigger] all[i]).kind is StreamStart)
    &&& end_produced == (parsed > 0 && all[parsed - 1].kind is StreamEnd)
    &&& forall|i: int| 0 <= i < parsed - 1 ==> !((#[trigger] all[i]).kind is StreamEnd)
}

/// No token is the stream end.
pub open spec fn no_end(all: Seq<Tok>) -> bool {
    forall|i: int| 0 <= i < all.len() ==> !((#[trigger] all[i]).kind is StreamEnd)
}

/// Behind a stream end stand only stream ends; and once one was produced,
/// the scanner rests at the end of the input, every block closed.
pub open spec fn end_law(all: Seq<Tok>, at_end: bool, closed: bool) -> bool {
    &&& forall|i: int, j: int|
        0 <= i <= j < all.len() && (#[trigger] all[i]).kind is StreamEnd ==> (
        #[trigger] all[j]).kind is StreamEnd
    &&& !no_end(all) ==> at_end && closed
}

/// As many blocks are open as the tokens say, and no block was closed
/// before it was opened.
pub open spec fn block_law(all: Seq<Tok>, open: int) -> bool {
    &&& block_depth(all) == open
    &&& forall|k: int| 0 <= k <= all.len() ==> block_depth(#[trigger] all.take(k)) >= 0
}

/// Candidates of deeper flow levels have later slots and later marks.
pub open spec fn key_order(keys: Seq<Option<KeySlot>>) -> bool {
    forall|i: int, j: int|
        0 <= i < j < keys.len() ==> ((#[trigger] keys[i]) matches Some(a) ==> ((
        #[trigger] keys[j]) matches Some(b) ==> a.slot <= b.slot && a.mark.index
            <= b.mark.index))
}

/// The flow level is the depth of flow nesting behind the tokens; tokens
/// of block structure stand outside any flow collection; and the slot of
/// each candidate stands at the depth of the candidate's level.
pub open spec fn flow_law(all: Seq<Tok>, level: int, keys: Seq<Option<KeySlot>>) -> bool {
    &&& flow_depth(all) == level
    &&& forall|i: int|
        0 <= i < all.len() && is_block_only((#[trigger] all[i]).kind) ==> flow_depth(all.take(i))
            == 0
    &&& forall|j: int|
        0 <= j < keys.len() ==> ((#[trigger] keys[j]) matches Some(k) ==> 0 <= k.slot
            <= all.len() && flow_depth(all.take(k.slot)) == j)
}

/// No token is marked behind the cursor; tokens are marked in the order
/// of the input; and each candidate is marked between the tokens before
/// its slot and those from its slot on.
pub open spec fn mark_law(all: Seq<Tok>, index: int, keys: Seq<Option<KeySlot>>) -> bool {
    &&& forall|i: int| 0 <= i < all.len() ==> (#[trigger] all[i]).mark.index <= index
    &&& forall|i: int, j: int|
        0 <= i <= j < all.len() ==> (#[trigger] all[i]).mark.index <= (#[trigger] all[j]).mark.index
    &&& forall|j: int, i: int|
        0 <= j < keys.len() && 0 <= i < all.len() ==> ((#[trigger] keys[j]) matches Some(k) ==> (i
        < k.slot ==> (#[trigger] all[i]).mark.index <= k.mark.index) && (
        k.slot <= i ==> k.mark.index <= all[i].mark.index))
}

/// Every candidate of `later` is a candidate of `keys`, at the same level.
pub open spec fn keys_within(later: Seq<Option<KeySlot>>, keys: Seq<Option<KeySlot>>) -> bool {
    forall|j: int|
        0 <= j < later.len() ==> ((#[trigger] later[j]) is Some ==> j < keys.len() && keys[j]
            == later[j])
}

impl State {
    /// The scanner stands at the end of the input.
    pub open spec fn at_end(self) -> bool {
        self.ch() == '\0'
    }

    /// Outside flow collections, no block is open.
    pub open spec fn closed(self) -> bool {
        self.flow_level == 0 ==> self.indents.len() == 0
    }

    /// What holds of the tokens of every scanner.
    #[verifier::opaque]
    pub open spec fn lawful(self) -> bool {
        &&& stream_law(self.all, self.parsed, self.stream_end_produced)
        &&& end_law(self.all, self.at_end(), self.closed())
        &&& block_law(self.all, self.indents.len() as int)
        &&& key_order(self.simple_keys)
        &&& flow_law(self.all, self.flow_level, self.simple_keys)
        &&& mark_law(self.all, self.cur.index, self.simple_keys)
    }
}

/// Fewer candidates keep the laws of the candidates.
pub proof fn lemma_keys_within(
    all: Seq<Tok>,
    level: int,
    index: int,
    keys: Seq<Option<KeySlot>>,
    later: Seq<Option<KeySlot>>,
)
    requires
        key_order(keys),
        flow_law(all, level, keys),
        mark_law(all, index, keys),
        keys_within(later, keys),
    ensures
        key_order(later),
        flow_law(all, level, later),
        mark_law(all, index, later),
{
    assert forall|i: int, j: int| 0 <= i < j < later.len() implies ((
    #[trigger] later[i]) matches Some(a) ==> ((#[trigger] later[j]) matches Some(b) ==> a.slot
        <= b.slot && a.mark.index <= b.mark.index)) by {
        if later[i] is Some && later[j] is Some {
            assert(keys[i] == later[i]);
            assert(keys[j] == later[j]);
        }
    }
    assert forall|j: int| 0 <= j < later.len() implies ((#[trigger] later[j]) matches Some(k)
        ==> 0 <= k.slot <= all.len() && flow_depth(all.take(k.slot)) == j) by {
        if later[j] is Some {
            assert(keys[j] == later[j]);
        }
    }
    assert forall|j: int, i: int| 0 <= j < later.len() && 0 <= i < all.len() implies ((
    #[trigger] later[j]) matches Some(k) ==> (i
        < k.slot ==> (#[trigger] all[i]).mark.index <= k.mark.index) && (k.slot <= i ==> k.mark.index
        <= all[i].mark.index)) by {
        if later[j] is Some {
            assert(keys[j] == later[j]);
        }
    }
}

/// A token appended keeps the stream law, unless it is a stream start.
pub proof fn lemma_stream_law_push(all: Seq<Tok>, parsed: int, end_produced: bool, t: Tok)
    requires
        stream_law(all, parsed, end_produced),
        0 <= parsed <= all.len(),
        all.len() > 0,
        !(t.kind is StreamStart),
    ensures
        stream_law(all.push(t), parsed, end_produced),
{
}

/// A token inserted behind the tokens handed out keeps the stream law,
/// unless it is a stream start.
pub proof fn lemma_stream_law_insert(all: Seq<Tok>, parsed: int, end_produced: bool, p: int, t: Tok)
    requires
        stream_law(all, parsed, end_produced),
        0 <= parsed <= p <= all.len(),
        1 <= p,
        !(t.kind is StreamStart),
    ensures
        stream_law(all.insert(p, t), parsed, end_produced),
{
    lemma_insert(all, p, t);
}

/// A token appended keeps the block law, unless it closes a block where
/// none is open.
pub proof fn lemma_block_law_push(all: Seq<Tok>, open: int, t: Tok)
    requires
        block_law(all, open),
        open + block_delta(t.kind) >= 0,
    ensures
        block_law(all.push(t), open + block_delta(t.kind)),
{
    lemma_push(all, t);
    lemma_block_depth_push(all, t);
    assert forall|k: int| 0 <= k <= all.push(t).len() implies block_depth(
        #[trigger] all.push(t).take(k),
    ) >= 0 by {
        if k <= all.len() {
            assert(all.push(t).take(k) == all.take(k));
        }
    }
}

/// A token inserted keeps the block law, unless it closes a block.
pub proof fn lemma_block_law_insert(all: Seq<Tok>, open: int, p: int, t: Tok)
    requires
        block_law(all, open),
        0 <= p <= all.len(),
        block_delta(t.kind) >= 0,
    ensures
        block_law(all.insert(p, t), open + block_delta(t.kind)),
{
    lemma_insert(all, p, t);
    lemma_block_depth_insert(all, p, t);
    assert forall|k: int| 0 <= k <= all.insert(p, t).len() implies block_depth(
        #[trigger] all.insert(p, t).take(k),
    ) >= 0 by {
        if k <= p {
            assert(all.insert(p, t).take(k) == all.take(k));
        } else {
            assert(all.insert(p, t).take(k) == all.take(k - 1).insert(p, t));
            lemma_block_depth_insert(all.take(k - 1), p, t);
        }
    }
}

/// A token appended keeps the flow law: the level follows a flow bracket,
/// and a token of block structure must stand outside any flow collection.
pub proof fn lemma_flow_law_push(all: Seq<Tok>, level: int, keys: Seq<Option<KeySlot>>, t: Tok)
    requires
        flow_law(all, level, keys),
        is_block_only(t.kind) ==> level == 0,
    ensures
        flow_law(all.push(t), flow_step(level, t.kind), keys),
{
    lemma_push(all, t);
    lemma_flow_depth_push(all, t);
    assert forall|i: int|
        0 <= i < all.push(t).len() && is_block_only((#[trigger] all.push(t)[i]).kind) implies flow_depth(
        all.push(t).take(i),
    ) == 0 by {
        assert(all.push(t).take(i) == all.take(i));
        if i < all.len() {
            assert(all.push(t)[i] == all[i]);
        }
    }
    assert forall|j: int| 0 <= j < keys.len() implies ((#[trigger] keys[j]) matches Some(k)
        ==> 0 <= k.slot <= all.push(t).len() && flow_depth(all.push(t).take(k.slot)) == j) by {
        if keys[j] is Some {
            let k = keys[j]->0;
            assert(all.push(t).take(k.slot) == all.take(k.slot));
        }
    }
}

/// A token that is no flow bracket, inserted at or behind the slot of
/// every candidate, keeps the flow law; a token of block structure must be
/// inserted outside any flow collection.
pub proof fn lemma_flow_law_insert(
    all: Seq<Tok>,
    level: int,
    keys: Seq<Option<KeySlot>>,
    p: int,
    t: Tok,
)
    requires
        flow_law(all, level, keys),
        0 <= p <= all.len(),
        !is_flow_bracket(t.kind),
        is_block_only(t.kind) ==> flow_depth(all.take(p)) == 0,
        forall|j: int| 0 <= j < keys.len() ==> ((#[trigger] keys[j]) matches Some(k) ==> k.slot <= p),
    ensures
        flow_law(all.insert(p, t), level, keys),
{
    let later = all.insert(p, t);
    lemma_insert(all, p, t);
    lemma_flow_depth_insert(all, p, t);
    assert forall|i: int|
        0 <= i < later.len() && is_block_only((#[trigger] later[i]).kind) implies flow_depth(
        later.take(i),
    ) == 0 by {
        if i <= p {
            assert(later.take(i) == all.take(i));
            if i < p {
                assert(later[i] == all[i]);
            }
        } else {
            assert(later[i] == all[i - 1]);
            assert(later.take(i) == all.take(i - 1).insert(p, t));
            lemma_flow_depth_insert(all.take(i - 1), p, t);
        }
    }
    assert forall|j: int| 0 <= j < keys.len() implies ((#[trigger] keys[j]) matches Some(k)
        ==> 0 <= k.slot <= later.len() && flow_depth(later.take(k.slot)) == j) by {
        if keys[j] is Some {
            let k = keys[j]->0;
            assert(later.take(k.slot) == all.take(k.slot));
        }
    }
}

/// A token appended keeps the mark law where it is marked behind every
/// token and every candidate, and not behind the cursor.
pub proof fn lemma_mark_law_push(
    all: Seq<Tok>,
    index: int,
    keys: Seq<Option<KeySlot>>,
    t: Tok,
    later: int,
)
    requires
        mark_law(all, index, keys),
        forall|i: int| 0 <= i < all.len() ==> (#[trigger] all[i]).mark.index <= t.mark.index,
        forall|j: int|
            0 <= j < keys.len() ==> ((#[trigger] keys[j]) matches Some(k) ==> k.slot
                <= all.len() && k.mark.index <= t.mark.index),
        t.mark.index <= later,
        index <= later,
    ensures
        mark_law(all.push(t), later, keys),
{
    let s = all.push(t);
    assert forall|i: int, j: int|
        0 <= i <= j < s.len() implies (#[trigger] s[i]).mark.index <= (#[trigger] s[j]).mark.index by {
        if j < all.len() {
            assert(s[i] == all[i]);
            assert(s[j] == all[j]);
        } else if i < all.len() {
            assert(s[i] == all[i]);
        }
    }
    assert forall|j: int, i: int| 0 <= j < keys.len() && 0 <= i < s.len() implies ((
    #[trigger] keys[j]) matches Some(k) ==> (i
        < k.slot ==> (#[trigger] s[i]).mark.index <= k.mark.index) && (k.slot <= i ==> k.mark.index
        <= s[i].mark.index)) by {
        if i < all.len() {
            assert(s[i] == all[i]);
        }
    }
}

/// A token inserted at the slot of a candidate keeps the mark law where
/// no candidate has a later slot and the token is marked as the candidate
/// is, behind every other candidate.
pub proof fn lemma_mark_law_insert(
    all: Seq<Tok>,
    index: int,
    keys: Seq<Option<KeySlot>>,
    top: int,
    t: Tok,
)
    requires
        mark_law(all, index, keys),
        0 <= top < keys.len(),
        keys[top] is Some,
        0 <= keys[top]->0.slot <= all.len(),
        t.mark.index <= index,
        forall|j: int|
            0 <= j < keys.len() ==> ((#[trigger] keys[j]) matches Some(k) ==> k.slot
                <= keys[top]->0.slot && k.mark.index <= t.mark.index),
        t.mark.index == keys[top]->0.mark.index,
    ensures
        mark_law(all.insert(keys[top]->0.slot, t), index, keys),
{
    let p = keys[top]->0.slot;
    let s = all.insert(p, t);
    lemma_insert(all, p, t);
    assert forall|i: int| 0 <= i < s.len() implies (#[trigger] s[i]).mark.index <= index by {
        if i < p {
            assert(s[i] == all[i]);
        } else if i > p {
            assert(s[i] == all[i - 1]);
        }
    }
    assert forall|i: int, j: int|
        0 <= i <= j < s.len() implies (#[trigger] s[i]).mark.index <= (#[trigger] s[j]).mark.index by {
        let a = if i < p {
            i
        } else {
            i - 1
        };
        let b = if j < p {
            j
        } else {
            j - 1
        };
        if i != p {
            assert(s[i] == all[a]);
        }
        if j != p {
            assert(s[j] == all[b]);
        }
        if i == p && j > p {
            assert(keys[top] is Some);
            assert(keys[top]->0.mark.index <= all[b].mark.index);
        }
        if j == p && i < p {
            assert(keys[top] is Some);
            assert(all[a].mark.index <= keys[top]->0.mark.index);
        }
    }
    assert forall|j: int, i: int| 0 <= j < keys.len() && 0 <= i < s.len() implies ((
    #[trigger] keys[j]) matches Some(k) ==> (i
        < k.slot ==> (#[trigger] s[i]).mark.index <= k.mark.index) && (k.slot <= i ==> k.mark.index
        <= s[i].mark.index)) by {
        if keys[j] is Some {
            if i < p {
                assert(s[i] == all[i]);
            } else if i > p {
                assert(s[i] == all[i - 1]);
            }
        }
    }
}

impl State {
    /// The laws hold of the state of a scanner that has read nothing.
    pub proof fn lemma_lawful_initial(input: Seq<char>)
        ensures
            State::initial(input).lawful(),
    {
        reveal(State::lawful);
        let s = State::initial(input);
        assert(no_end(s.all));
    }

    /// A state with the same tokens, blocks and flow level, with none but
    /// candidates of the earlier state, and with the cursor no further
    /// back, keeps the laws. Once a stream end was produced, the cursor
    /// must stay at the end of the input.
    pub proof fn lemma_lawful_moved(self, later: State)
        requires
            self.lawful(),
            later.all == self.all,
            later.parsed == self.parsed,
            later.stream_end_produced == self.stream_end_produced,
            later.indents.len() == self.indents.len(),
            later.flow_level == self.flow_level,
            keys_within(later.simple_keys, self.simple_keys),
            later.cur.index >= self.cur.index,
            self.at_end() ==> later.at_end(),
        ensures
            later.lawful(),
    {
        reveal(State::lawful);
        lemma_keys_within(
            self.all,
            self.flow_level,
            self.cur.index,
            self.simple_keys,
            later.simple_keys,
        );
    }

    /// The cursor saved as the candidate of the current flow level keeps the
    /// laws.
    pub proof fn lemma_lawful_saved(self, required: bool, tabbed: bool)
        requires
            self.inv(),
            self.lawful(),
            self.stream_start_produced,
        ensures
            self.with_top_key(
                Some(KeySlot { required, slot: self.all.len() as int, mark: self.cur.mark(), tabbed }),
            ).lawful(),
    {
        reveal(State::lawful);
        let key = KeySlot { required, slot: self.all.len() as int, mark: self.cur.mark(), tabbed };
        let top = self.simple_keys.len() - 1;
        let keys = self.simple_keys.update(top, Some(key));
        lemma_push(self.all, self.all[0]);
        assert forall|i: int, j: int| 0 <= i < j < keys.len() implies ((
        #[trigger] keys[i]) matches Some(a) ==> ((#[trigger] keys[j]) matches Some(b) ==> a.slot
            <= b.slot && a.mark.index <= b.mark.index)) by {
            assert(keys[i] == self.simple_keys[i]);
            if j < top {
                assert(keys[j] == self.simple_keys[j]);
            }
        }
        assert forall|j: int| 0 <= j < keys.len() implies ((#[trigger] keys[j]) matches Some(k)
            ==> 0 <= k.slot <= self.all.len() && flow_depth(self.all.take(k.slot)) == j) by {
            if j < top {
                assert(keys[j] == self.simple_keys[j]);
            }
        }
        assert forall|j: int, i: int| 0 <= j < keys.len() && 0 <= i < self.all.len() implies ((
        #[trigger] keys[j]) matches Some(k) ==> (i
        < k.slot ==> (#[trigger] self.all[i]).mark.index <= k.mark.index) && (k.slot <= i ==> k.mark.index
            <= self.all[i].mark.index)) by {
            if j < top {
                assert(keys[j] == self.simple_keys[j]);
            }
        }
    }

    /// A token appended keeps the laws where it is marked at the cursor or
    /// behind it; where the flow level follows it, if it is
    /// a flow bracket; where a block is opened or closed with it, if it is a
    /// block start or a block end; where it stands outside any flow
    /// collection, if it is a token of block structure; and where the
    /// scanner rests at the end of the input, every block closed, if it is
    /// the stream end. Behind a stream end only a stream end is appended.
    pub proof fn lemma_lawful_pushed(self, later: State, t: Tok)
        requires
            self.inv(),
            self.lawful(),
            self.stream_start_produced,
            later.all == self.all.push(t),
            later.parsed == self.parsed,
            later.stream_end_produced == self.stream_end_produced,
            later.flow_level == flow_step(self.flow_level, t.kind),
            later.indents.len() == self.indents.len() + block_delta(t.kind),
            keys_within(later.simple_keys, self.simple_keys),
            later.cur.index >= self.cur.index,
            !(t.kind is StreamStart),
            t.kind is StreamEnd ==> later.at_end() && later.closed(),
            !(t.kind is StreamEnd) ==> !self.at_end() || !self.closed(),
            is_block_only(t.kind) ==> self.flow_level == 0,
            self.cur.index <= t.mark.index <= later.cur.index,
        ensures
            later.lawful(),
    {
        reveal(State::lawful);
        lemma_stream_law_push(self.all, self.parsed, self.stream_end_produced, t);
        lemma_block_law_push(self.all, self.indents.len() as int, t);
        lemma_flow_law_push(self.all, self.flow_level, self.simple_keys, t);
        lemma_mark_law_push(self.all, self.cur.index, self.simple_keys, t, later.cur.index);
        lemma_keys_within(
            later.all,
            later.flow_level,
            later.cur.index,
            self.simple_keys,
            later.simple_keys,
        );
        if t.kind is StreamEnd {
            assert(!no_end(later.all)) by {
                assert(later.all[self.all.len() as int].kind is StreamEnd);
            }
        } else {
            assert(no_end(later.all));
        }
    }

    /// Two tokens may be inserted at the slot of the candidate of the
    /// current flow level, before the end of the input, each marked where
    /// the candidate starts: a `Key`; and, in block context, a block mapping
    /// start, with which a block is opened.
    pub proof fn lemma_lawful_inserted(self, later: State, t: Tok)
        requires
            self.inv(),
            self.lawful(),
            self.stream_start_produced,
            self.top_key() is Some,
            later.all == self.all.insert(self.top_key()->0.slot, t),
            later.parsed == self.parsed,
            later.stream_end_produced == self.stream_end_produced,
            later.flow_level == self.flow_level,
            later.indents.len() == self.indents.len() + block_delta(t.kind),
            later.simple_keys == self.simple_keys,
            later.cur.index == self.cur.index,
            later.input == self.input,
            !self.at_end(),
            t.kind is Key || (t.kind is BlockMappingStart && self.flow_level == 0),
            t.mark == self.top_key()->0.mark,
        ensures
            later.lawful(),
    {
        reveal(State::lawful);
        let top = self.simple_keys.len() - 1;
        assert forall|j: int| 0 <= j < self.simple_keys.len() implies ((
        #[trigger] self.simple_keys[j]) matches Some(k) ==> k.mark.index <= t.mark.index) by {
            if j < top && self.simple_keys[j] is Some {
                assert(self.simple_keys[top] is Some);
            }
        }
        let p = self.simple_keys[top]->0.slot;
        lemma_insert(self.all, p, t);
        lemma_stream_law_insert(self.all, self.parsed, self.stream_end_produced, p, t);
        lemma_block_law_insert(self.all, self.indents.len() as int, p, t);
        assert forall|j: int| 0 <= j < self.simple_keys.len() implies ((
        #[trigger] self.simple_keys[j]) matches Some(k) ==> k.slot <= p) by {
            if j < top && self.simple_keys[j] is Some {
                assert(self.simple_keys[top] is Some);
            }
        }
        lemma_flow_law_insert(self.all, self.flow_level, self.simple_keys, p, t);
        lemma_mark_law_insert(self.all, self.cur.index, self.simple_keys, top, t);
        assert(no_end(later.all)) by {
            assert forall|i: int| 0 <= i < later.all.len() implies !((
            #[trigger] later.all[i]).kind is StreamEnd) by {
                if i < p {
                    assert(later.all[i] == self.all[i]);
                } else if i > p {
                    assert(later.all[i] == self.all[i - 1]);
                }
            }
        }
    }

    /// The stream start keeps the laws.
    pub proof fn lemma_lawful_started(self)
        requires
            self.inv(),
            self.lawful(),
            !self.stream_start_produced,
        ensures
            self.fetch_stream_start().lawful(),
    {
        reveal(State::lawful);
        let later = self.fetch_stream_start();
        assert(self.all =~= Seq::<Tok>::empty());
        assert(self.simple_keys =~= Seq::<Option<KeySlot>>::empty());
        assert(later.all =~= seq![later.all[0]]);
        assert(no_end(later.all));
        assert(block_depth(later.all.drop_last()) == 0);
        assert(flow_depth(later.all.drop_last()) == 0);
        assert forall|k: int| 0 <= k <= later.all.len() implies block_depth(
            #[trigger] later.all.take(k),
        ) >= 0 by {
            if k == 0 {
                assert(later.all.take(0).len() == 0);
            } else {
                assert(later.all.take(k) =~= later.all);
            }
        }
    }

    /// Handing out the head of the queue keeps the laws.
    pub proof fn lemma_lawful_popped(self)
        requires
            self.inv(),
            self.lawful(),
            !self.stream_end_produced,
            self.parsed < self.all.len(),
        ensures
            self.pop_token().lawful(),
    {
        reveal(State::lawful);
    }
}

/// Stream ends at the end of a sequence of tokens do not change its block
/// depth.
proof fn lemma_block_depth_tail(all: Seq<Tok>, k: int)
    requires
        0 <= k <= all.len(),
        forall|i: int| k <= i < all.len() ==> (#[trigger] all[i]).kind is StreamEnd,
    ensures
        block_depth(all.take(k)) == block_depth(all),
    decreases all.len() - k,
{
    if k == all.len() {
        assert(all.take(k) =~= all);
    } else {
        let shorter = all.drop_last();
        assert(all.last().kind is StreamEnd);
        assert forall|i: int| k <= i < shorter.len() implies (#[trigger] shorter[i]).kind is StreamEnd by {
            assert(shorter[i] == all[i]);
        }
        lemma_block_depth_tail(shorter, k);
        assert(shorter.take(k) =~= all.take(k));
    }
}

/// The tokens handed out begin with the stream start, which stands nowhere
/// else among them. The stream end is handed out at most once, as the last
/// token, and exactly then the scanner reports the end of the stream.
pub proof fn law_stream_framed(s: State)
    requires
        s.inv(),
        s.lawful(),
    ensures
        s.emitted().len() > 0 ==> s.emitted()[0].kind == TokenKind::StreamStart(TEncoding::Utf8),
        forall|i: int| 1 <= i < s.emitted().len() ==> !((#[trigger] s.emitted()[i]).kind is StreamStart),
        forall|i: int|
            0 <= i < s.emitted().len() && (#[trigger] s.emitted()[i]).kind is StreamEnd ==> i
                == s.emitted().len() - 1,
        s.stream_end_produced <==> s.emitted().len() > 0 && s.emitted().last().kind is StreamEnd,
{
    reveal(State::lawful);
    assert forall|i: int| 0 <= i < s.emitted().len() implies #[trigger] s.emitted()[i]
        == s.all[i] by {}
}

/// Behind the stream end no token follows: pulling returns nothing, and
/// changes nothing. And pulling returns nothing without an error only
/// behind the stream end, or behind an earlier error.
pub proof fn law_nothing_follows_the_end(s: State, fuel: nat)
    ensures
        s.stream_end_produced ==> s.next_token_fuel(fuel) == Some(
            (s, Ok::<Option<Tok>, crate::token::ErrorInfo>(None)),
        ),
        s.next_token_fuel(fuel) matches Some((_, Ok(None))) ==> s.stream_end_produced
            || s.error is Some,
{
}

/// The first error is latched: the pull that fails keeps its error, and
/// every pull behind it returns nothing, reads nothing and leaves the error
/// in place.
pub proof fn law_error_is_latched(s: State, fuel: nat)
    ensures
        s.next_token_fuel(fuel) matches Some((later, Err(e))) ==> later.error == Some(e)
            && s.error is None,
        s.error is Some ==> s.next_token_fuel(fuel) == Some(
            (s, Ok::<Option<Tok>, crate::token::ErrorInfo>(None)),
        ),
        s.error is Some ==> s.next_fuel(fuel) == Some((s, None::<Tok>)),
{
}

/// Among the tokens handed out, no block is closed before it was opened:
/// each `BlockEnd` closes the block that was opened last and is still open.
/// Once the stream end was handed out, as many blocks are unclosed as the
/// indent stack still holds: none outside flow collections.
pub proof fn law_blocks_nested(s: State)
    requires
        s.inv(),
        s.lawful(),
    ensures
        forall|k: int|
            0 <= k <= s.emitted().len() ==> block_depth(#[trigger] s.emitted().take(k)) >= 0,
        s.stream_end_produced ==> block_depth(s.emitted()) == s.indents.len(),
        s.stream_end_produced && s.flow_level == 0 ==> block_depth(s.emitted()) == 0,
{
    reveal(State::lawful);
    assert forall|k: int| 0 <= k <= s.emitted().len() implies block_depth(
        #[trigger] s.emitted().take(k),
    ) >= 0 by {
        assert(s.emitted().take(k) =~= s.all.take(k));
    }
    if s.stream_end_produced {
        assert(s.all[s.parsed - 1].kind is StreamEnd);
        assert(!no_end(s.all));
        assert forall|i: int| s.parsed <= i < s.all.len() implies (#[trigger] s.all[i]).kind is StreamEnd by {
            assert(s.all[s.parsed - 1].kind is StreamEnd);
        }
        lemma_block_depth_tail(s.all, s.parsed);
    }
}

/// The flow level is the depth of flow nesting behind the tokens produced:
/// each flow start opens a level, each flow end closes the level opened
/// last, if one is open. Tokens of block structure are produced outside
/// any flow collection only.
pub proof fn law_flow_nested(s: State)
    requires
        s.inv(),
        s.lawful(),
    ensures
        flow_depth(s.all) == s.flow_level,
        forall|i: int|
            0 <= i < s.all.len() && is_block_only((#[trigger] s.all[i]).kind) ==> flow_depth(
                s.all.take(i),
            ) == 0,
        forall|i: int|
            0 <= i < s.emitted().len() && is_block_only((#[trigger] s.emitted()[i]).kind)
                ==> flow_depth(s.emitted().take(i)) == 0,
{
    reveal(State::lawful);
    assert forall|i: int|
        0 <= i < s.emitted().len() && is_block_only(
            (#[trigger] s.emitted()[i]).kind,
        ) implies flow_depth(s.emitted().take(i)) == 0 by {
        assert(s.emitted()[i] == s.all[i]);
        assert(s.emitted().take(i) =~= s.all.take(i));
    }
}

/// The tokens handed out are marked in the order of the input: no token
/// is marked before one that was handed out earlier, nor behind the cursor.
pub proof fn law_marks_ordered(s: State)
    requires
        s.inv(),
        s.lawful(),
    ensures
        forall|i: int, j: int|
            0 <= i <= j < s.emitted().len() ==> (#[trigger] s.emitted()[i]).mark.index <= (#[trigger] s.emitted()[j]).mark.index,
        forall|i: int| 0 <= i < s.emitted().len() ==> (#[trigger] s.emitted()[i]).mark.index
            <= s.cur.index,
{
    reveal(State::lawful);
    assert forall|i: int| 0 <= i < s.emitted().len() implies #[trigger] s.emitted()[i]
        == s.all[i] by {}
}

/// What fetching yields does not depend on the fuel, once there is enough
/// of it: the tokens are a function of the state, and so of the input.
pub proof fn law_fetching_is_a_function(s: State, fuel: nat, more: nat)
    requires
        s.fetch_more_tokens_fuel(fuel) is Some,
        more >= fuel,
    ensures
        s.fetch_more_tokens_fuel(more) == s.fetch_more_tokens_fuel(fuel),
    decreases fuel,
{
    let (s1, r1) = if s.queue().len() == 0 {
        (s, Ok(()))
    } else {
        s.stale_simple_keys()
    };
    if r1 is Ok && (s.queue().len() == 0 || s1.key_pending()) {
        let (s2, r2) = s1.fetch_next_token();
        if r2 is Ok {
            law_fetching_is_a_function(s2, (fuel - 1) as nat, (more - 1) as nat);
        }
    }
}

/// Pulling a token from two scanners in the same state gives the same
/// token, or the same error, and leaves them in the same state.
pub proof fn law_pulling_is_a_function(s: State, fuel: nat, more: nat)
    requires
        s.next_token_fuel(fuel) is Some,
        s.next_token_fuel(more) is Some,
    ensures
        s.next_token_fuel(more) == s.next_token_fuel(fuel),
        s.next_fuel(more) == s.next_fuel(fuel),
{
    if s.error is None && !s.stream_end_produced && !s.token_available {
        if fuel <= more {
            law_fetching_is_a_function(s, fuel, more);
        } else {
            law_fetching_is_a_function(s, more, fuel);
        }
    }
}

/// A candidate that starts more than 1024 characters before the cursor
/// does not outlast the staling of the candidates.
pub proof fn law_simple_key_window(s: State, level: int)
    requires
        0 <= level < s.simple_keys.len(),
        s.simple_keys[level] matches Some(k) && k.mark.index + 1024 < s.cur.index,
    ensures
        s.stale_simple_keys().1 is Err || s.stale_simple_keys().0.simple_keys[level] is None,
{
    lemma_stale_from(s, 0, level);
}

/// Staling from a level on invalidates every stale candidate from there on,
/// or ends with an error; below it, it changes nothing.
proof fn lemma_stale_from(s: State, from: int, level: int)
    requires
        0 <= from,
        0 <= level < s.simple_keys.len(),
        from <= level ==> (s.simple_keys[level] matches Some(k) && s.is_stale(k)),
        from > level ==> s.simple_keys[level] is None,
    ensures
        s.stale_from(from).1 is Err || s.stale_from(from).0.simple_keys[level] is None,
    decreases s.simple_keys.len() - from,
{
    if from < s.simple_keys.len() {
        match s.simple_keys[from] {
            Some(k) if s.is_stale(k) => {
                if !k.required {
                    let s2 = State { simple_keys: s.simple_keys.update(from, None), ..s };
                    lemma_stale_from(s2, from + 1, level);
                }
            },
            _ => {
                lemma_stale_from(s, from + 1, level);
            },
        }
    }
}

/// A hexadecimal escape of a double-quoted scalar (`\x`, `\u`, `\U`)
/// yields a character exactly when its 2, 4 or 8 digits are there and their
/// value is a Unicode scalar value, and then the character with that code.
/// So no escape yields a code of the surrogate range, nor one beyond
/// U+10FFFF: each is an error, as a missing digit is.
pub proof fn law_hex_escapes_are_characters(s: State, start: crate::token::Mark)
    requires
        spec_hex_length(s.at(1)) > 0,
    ensures
        ({
            let n = spec_hex_length(s.at(1));
            let s2 = s.with_cur(s.cur.step2(s.input));
            let value = hex_value(s2.input.subrange(s2.cur.index, s2.cur.index + n));
            &&& s.scan_escape(start).1 is Ok <==> s2.hex_here(n) && is_scalar_value(value as int)
            &&& s.scan_escape(start).1 matches Ok(c) ==> c as int == value && !(0xD800 <= value
                <= 0xDFFF) && value <= 0x10FFFF
            &&& !s2.hex_here(n) ==> s.scan_escape(start).1 == Err::<char, crate::token::ErrorInfo>(
                State::error_at(
                    start,
                    "while parsing a quoted scalar, did not find expected hexadecimal number"@,
                ),
            )
            &&& s2.hex_here(n) && !is_scalar_value(value as int) ==> s.scan_escape(start).1
                == Err::<char, crate::token::ErrorInfo>(
                State::error_at(
                    start,
                    "while parsing a quoted scalar, found invalid Unicode character escape code"@,
                ),
            )
        }),
{
}

/// An escaped character of a tag URI is the character that its octets
/// encode in UTF-8: it is yielded exactly when the trailing octets are all
/// there and the code that the octets give is a Unicode scalar value, and
/// then the character has that code. One octet gives its own value; two
/// octets give the five bits of the first before the six of the second.
pub proof fn law_uri_escapes_are_characters(s: State, mark: crate::token::Mark)
    requires
        s.escape_here(),
        utf8_width(s.octet_here()) != 0,
    ensures
        ({
            let second = s.with_cur(s.cur.step3(s.input));
            let rest = second.uri_trailing(
                mark,
                utf8_width(s.octet_here()) - 1,
                utf8_lead_bits(s.octet_here()),
            );
            &&& s.scan_uri_escapes(mark).1 is Ok <==> (rest.1 matches Ok(code) && is_scalar_value(
                code,
            ))
            &&& s.scan_uri_escapes(mark).1 matches Ok(c) ==> rest.1 == Ok::<
                int,
                crate::token::ErrorInfo,
            >(c as int)
            &&& utf8_width(s.octet_here()) == 1 ==> rest.1 == Ok::<int, crate::token::ErrorInfo>(
                s.octet_here(),
            )
            &&& utf8_width(s.octet_here()) == 2 && second.escape_here() && 0x80
                <= second.octet_here() < 0xC0 ==> rest.1 == Ok::<int, crate::token::ErrorInfo>(
                (s.octet_here() - 0xC0) * 64 + (second.octet_here() - 0x80),
            )
        }),
{
    let first = s.with_cur(s.cur.step3(s.input));
    if utf8_width(s.octet_here()) == 2 {
        // One trailing octet is read, and then none is left.
        assert(first.with_cur(first.cur.step3(first.input)).uri_trailing(
            mark,
            0,
            utf8_lead_bits(s.octet_here()) * 64 + (first.octet_here() - 0x80),
        ).0 == first.with_cur(first.cur.step3(first.input)));
    }
}

} // verus!
