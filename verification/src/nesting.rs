//! The nesting of tokens: how deep a sequence of tokens stands in block
//! collections and in flow collections.

use vstd::prelude::*;
use crate::token::{Tok, TokenKind};

verus! {

/// What a token does to the depth of block nesting.
pub open spec fn block_delta(kind: TokenKind) -> int {
    match kind {
        TokenKind::BlockSequenceStart => 1,
        TokenKind::BlockMappingStart => 1,
        TokenKind::BlockEnd => -1,
        _ => 0,
    }
}

/// Block starts less block ends.
pub open spec fn block_depth(s: Seq<Tok>) -> int
    decreases s.len(),
{
    if s.len() == 0 {
        0
    } else {
        block_depth(s.drop_last()) + block_delta(s.last().kind)
    }
}

/// The depth of flow nesting behind a token: a start opens a level, an end
/// closes one if one is open.
pub open spec fn flow_step(depth: int, kind: TokenKind) -> int {
    match kind {
        TokenKind::FlowSequenceStart => depth + 1,
        TokenKind::FlowMappingStart => depth + 1,
        TokenKind::FlowSequenceEnd => if depth > 0 {
            depth - 1
        } else {
            0
        },
        TokenKind::FlowMappingEnd => if depth > 0 {
            depth - 1
        } else {
            0
        },
        _ => depth,
    }
}

/// The depth of flow nesting behind a sequence of tokens.
pub open spec fn flow_depth(s: Seq<Tok>) -> int
    decreases s.len(),
{
    if s.len() == 0 {
        0
    } else {
        flow_step(flow_depth(s.drop_last()), s.last().kind)
    }
}

/// A token that opens or closes a flow collection.
pub open spec fn is_flow_bracket(kind: TokenKind) -> bool {
    kind is FlowSequenceStart || kind is FlowMappingStart || kind is FlowSequenceEnd
        || kind is FlowMappingEnd
}

/// A token of block structure.
pub open spec fn is_block_only(kind: TokenKind) -> bool {
    kind is BlockEntry || kind is BlockSequenceStart || kind is BlockMappingStart
        || kind is BlockEnd
}

/// A token of content or of a directive: it neither frames the stream nor
/// belongs to the structure of blocks and flow collections.
pub open spec fn is_content(kind: TokenKind) -> bool {
    kind is Scalar || kind is Alias || kind is Anchor || kind is Tag || kind is VersionDirective
        || kind is TagDirective
}

/// What stands at each index of a sequence with one more element inserted.
pub proof fn lemma_insert<A>(s: Seq<A>, p: int, t: A)
    requires
        0 <= p <= s.len(),
    ensures
        s.insert(p, t).len() == s.len() + 1,
        forall|i: int| 0 <= i < p ==> #[trigger] s.insert(p, t)[i] == s[i],
        s.insert(p, t)[p] == t,
        forall|i: int| p < i <= s.len() ==> #[trigger] s.insert(p, t)[i] == s[i - 1],
        forall|k: int| 0 <= k <= p ==> #[trigger] s.insert(p, t).take(k) == s.take(k),
        forall|k: int|
            p < k <= s.len() + 1 ==> #[trigger] s.insert(p, t).take(k) == s.take(k - 1).insert(
                p,
                t,
            ),
        s.insert(p, t) == s.take(p).push(t) + s.skip(p),
{
    assert forall|k: int| 0 <= k <= p implies #[trigger] s.insert(p, t).take(k) == s.take(k) by {
        assert(s.insert(p, t).take(k) =~= s.take(k));
    }
    assert forall|k: int| p < k <= s.len() + 1 implies #[trigger] s.insert(p, t).take(k)
        == s.take(k - 1).insert(p, t) by {
        assert(s.insert(p, t).take(k) =~= s.take(k - 1).insert(p, t));
    }
    assert(s.insert(p, t) =~= s.take(p).push(t) + s.skip(p));
}

/// The prefixes of a sequence with one more element appended.
pub proof fn lemma_push<A>(s: Seq<A>, t: A)
    ensures
        forall|k: int| 0 <= k <= s.len() ==> #[trigger] s.push(t).take(k) == s.take(k),
        s.push(t).take(s.len() as int + 1) == s.push(t),
        s.push(t).drop_last() == s,
        s.take(s.len() as int) == s,
{
    assert forall|k: int| 0 <= k <= s.len() implies #[trigger] s.push(t).take(k) == s.take(k) by {
        assert(s.push(t).take(k) =~= s.take(k));
    }
    assert(s.push(t).take(s.len() as int + 1) =~= s.push(t));
    assert(s.push(t).drop_last() =~= s);
    assert(s.take(s.len() as int) =~= s);
}

/// The block depth of two sequences in a row is the sum of their depths.
pub proof fn lemma_block_depth_concat(a: Seq<Tok>, b: Seq<Tok>)
    ensures
        block_depth(a + b) == block_depth(a) + block_depth(b),
    decreases b.len(),
{
    if b.len() == 0 {
        assert(a + b =~= a);
    } else {
        lemma_block_depth_concat(a, b.drop_last());
        assert((a + b).drop_last() =~= a + b.drop_last());
    }
}

/// A token appended adds its delta to the block depth.
pub proof fn lemma_block_depth_push(s: Seq<Tok>, t: Tok)
    ensures
        block_depth(s.push(t)) == block_depth(s) + block_delta(t.kind),
{
    lemma_push(s, t);
}

/// A token inserted adds its delta to the block depth.
pub proof fn lemma_block_depth_insert(s: Seq<Tok>, p: int, t: Tok)
    requires
        0 <= p <= s.len(),
    ensures
        block_depth(s.insert(p, t)) == block_depth(s) + block_delta(t.kind),
{
    lemma_insert(s, p, t);
    lemma_block_depth_concat(s.take(p).push(t), s.skip(p));
    lemma_block_depth_concat(s.take(p), s.skip(p));
    lemma_block_depth_push(s.take(p), t);
    assert(s.take(p) + s.skip(p) =~= s);
}

/// A token that is no flow bracket, put in front of a sequence, does not
/// change the flow depth behind the sequence.
pub proof fn lemma_flow_depth_skip(a: Seq<Tok>, t: Tok, b: Seq<Tok>)
    requires
        !is_flow_bracket(t.kind),
    ensures
        flow_depth(a.push(t) + b) == flow_depth(a + b),
    decreases b.len(),
{
    if b.len() == 0 {
        assert(a.push(t) + b =~= a.push(t));
        assert(a + b =~= a);
        lemma_push(a, t);
    } else {
        lemma_flow_depth_skip(a, t, b.drop_last());
        assert((a.push(t) + b).drop_last() =~= a.push(t) + b.drop_last());
        assert((a + b).drop_last() =~= a + b.drop_last());
    }
}

/// A token that is no flow bracket, inserted into a sequence, does not
/// change its flow depth.
pub proof fn lemma_flow_depth_insert(s: Seq<Tok>, p: int, t: Tok)
    requires
        0 <= p <= s.len(),
        !is_flow_bracket(t.kind),
    ensures
        flow_depth(s.insert(p, t)) == flow_depth(s),
{
    lemma_insert(s, p, t);
    lemma_flow_depth_skip(s.take(p), t, s.skip(p));
    assert(s.take(p) + s.skip(p) =~= s);
}

/// A token appended changes the flow depth by its step.
pub proof fn lemma_flow_depth_push(s: Seq<Tok>, t: Tok)
    ensures
        flow_depth(s.push(t)) == flow_step(flow_depth(s), t.kind),
{
    lemma_push(s, t);
}

/// How many of the tokens are document starts.
pub open spec fn document_starts(s: Seq<Tok>) -> nat
    decreases s.len(),
{
    if s.len() == 0 {
        0
    } else {
        document_starts(s.drop_last()) + (if s.last().kind is DocumentStart {
            1nat
        } else {
            0nat
        })
    }
}

/// A token appended counts if it is a document start.
pub proof fn lemma_document_starts_push(s: Seq<Tok>, t: Tok)
    ensures
        document_starts(s.push(t)) == document_starts(s) + (if t.kind is DocumentStart {
            1nat
        } else {
            0nat
        }),
{
    lemma_push(s, t);
}

/// The document starts of two sequences in a row.
pub proof fn lemma_document_starts_concat(a: Seq<Tok>, b: Seq<Tok>)
    ensures
        document_starts(a + b) == document_starts(a) + document_starts(b),
    decreases b.len(),
{
    if b.len() == 0 {
        assert(a + b =~= a);
    } else {
        lemma_document_starts_concat(a, b.drop_last());
        assert((a + b).drop_last() =~= a + b.drop_last());
    }
}

/// A token inserted counts if it is a document start.
pub proof fn lemma_document_starts_insert(s: Seq<Tok>, p: int, t: Tok)
    requires
        0 <= p <= s.len(),
    ensures
        document_starts(s.insert(p, t)) == document_starts(s) + (if t.kind is DocumentStart {
            1nat
        } else {
            0nat
        }),
{
    lemma_insert(s, p, t);
    lemma_document_starts_concat(s.take(p).push(t), s.skip(p));
    lemma_document_starts_concat(s.take(p), s.skip(p));
    lemma_document_starts_push(s.take(p), t);
    assert(s.take(p) + s.skip(p) =~= s);
}

} // verus!
