//! YAML serialization: the events that a document is written with.

use vstd::prelude::*;

verus! {

/// `std::fmt::Error`, the error of the standard library's formatting: a
/// value without parts, which is only carried through.
#[verifier::external_type_specification]
#[verifier::external_body]
pub struct ExFmtError(std::fmt::Error);

/// An error when emitting YAML.
#[derive(Copy, Clone, Debug)]
pub enum EmitError {
    /// A formatting error.
    FmtError(std::fmt::Error),
}

impl From<std::fmt::Error> for EmitError {
    fn from(f: std::fmt::Error) -> (r: EmitError)
        ensures
            r == EmitError::FmtError(f),
    {
        EmitError::FmtError(f)
    }
}

impl vstd::std_specs::convert::FromSpecImpl<std::fmt::Error> for EmitError {
    open spec fn obeys_from_spec() -> bool {
        true
    }

    open spec fn from_spec(f: std::fmt::Error) -> EmitError {
        EmitError::FmtError(f)
    }
}

/// A YAML document, or a part of one.
#[derive(Debug)]
pub enum Yaml {
    /// A number with a fraction or an exponent, as it is written.
    Real(String),
    Integer(i64),
    String(String),
    Boolean(bool),
    Array(Vec<Yaml>),
    /// A mapping: its pairs of key and value, in their order.
    Hash(Vec<(Yaml, Yaml)>),
    /// An alias, by the number of its anchor.
    Alias(usize),
    Null,
    /// What a failed access yields.
    BadValue,
}

/// A scalar as it is handed to a writer.
#[derive(Clone, PartialEq, Eq, Debug)]
pub enum ScalarValue {
    String(String),
    Boolean(bool),
    Integer(i64),
    Real(String),
    Null,
}

/// A scalar as contracts see it.
pub enum Scalar {
    String(Seq<char>),
    Boolean(bool),
    Integer(i64),
    Real(Seq<char>),
    Null,
}

impl View for ScalarValue {
    type V = Scalar;

    open spec fn view(&self) -> Scalar {
        match *self {
            ScalarValue::String(s) => Scalar::String(s@),
            ScalarValue::Boolean(b) => Scalar::Boolean(b),
            ScalarValue::Integer(i) => Scalar::Integer(i),
            ScalarValue::Real(s) => Scalar::Real(s@),
            ScalarValue::Null => Scalar::Null,
        }
    }
}

/// One step of writing a document.
#[derive(Clone, PartialEq, Eq, Debug)]
pub enum WriteEvent {
    DocumentStart,
    DocumentEnd,
    SequenceStart,
    SequenceEnd,
    MappingStart,
    MappingEnd,
    Scalar(ScalarValue),
}

/// One step of writing a document, as contracts see it.
pub enum Event {
    DocumentStart,
    DocumentEnd,
    SequenceStart,
    SequenceEnd,
    MappingStart,
    MappingEnd,
    Scalar(Scalar),
}

impl View for WriteEvent {
    type V = Event;

    open spec fn view(&self) -> Event {
        match *self {
            WriteEvent::DocumentStart => Event::DocumentStart,
            WriteEvent::DocumentEnd => Event::DocumentEnd,
            WriteEvent::SequenceStart => Event::SequenceStart,
            WriteEvent::SequenceEnd => Event::SequenceEnd,
            WriteEvent::MappingStart => Event::MappingStart,
            WriteEvent::MappingEnd => Event::MappingEnd,
            WriteEvent::Scalar(s) => Event::Scalar(s@),
        }
    }
}

/// The events of a list as contracts see them.
pub open spec fn events_view(events: Seq<WriteEvent>) -> Seq<Event> {
    Seq::new(events.len(), |i: int| events[i]@)
}

/// The events that a node is written with: a scalar is one event; a
/// sequence is framed by its start and its end, with its items between
/// them; a mapping likewise, each key before its value. A bad value is
/// written as null, and an alias is not written.
pub open spec fn node_events(node: Yaml) -> Seq<Event>
    decreases node,
{
    match node {
        Yaml::Array(v) => seq![Event::SequenceStart] + items_events(v@, v@.len() as int)
            + seq![Event::SequenceEnd],
        Yaml::Hash(h) => seq![Event::MappingStart] + pairs_events(h@, h@.len() as int)
            + seq![Event::MappingEnd],
        Yaml::String(s) => seq![Event::Scalar(Scalar::String(s@))],
        Yaml::Boolean(b) => seq![Event::Scalar(Scalar::Boolean(b))],
        Yaml::Integer(i) => seq![Event::Scalar(Scalar::Integer(i))],
        Yaml::Real(s) => seq![Event::Scalar(Scalar::Real(s@))],
        Yaml::Null => seq![Event::Scalar(Scalar::Null)],
        Yaml::BadValue => seq![Event::Scalar(Scalar::Null)],
        Yaml::Alias(_) => Seq::empty(),
    }
}

/// The events of the first `n` items of a sequence.
pub open spec fn items_events(items: Seq<Yaml>, n: int) -> Seq<Event>
    decreases items, n,
{
    if n <= 0 || n > items.len() {
        Seq::empty()
    } else {
        items_events(items, n - 1) + node_events(items[n - 1])
    }
}

/// The events of the first `n` pairs of a mapping.
pub open spec fn pairs_events(pairs: Seq<(Yaml, Yaml)>, n: int) -> Seq<Event>
    decreases pairs, n,
{
    if n <= 0 || n > pairs.len() {
        Seq::empty()
    } else {
        pairs_events(pairs, n - 1) + node_events(pairs[n - 1].0) + node_events(pairs[n - 1].1)
    }
}

/// The events that a document is written with: its node, framed by the
/// start and the end of the document.
pub open spec fn document_events(doc: Yaml) -> Seq<Event> {
    seq![Event::DocumentStart] + node_events(doc) + seq![Event::DocumentEnd]
}

/// The events that a document is written with.
pub fn dump(doc: &Yaml) -> (events: Vec<WriteEvent>)
    ensures
        events_view(events@) == document_events(*doc),
{
    let mut events: Vec<WriteEvent> = Vec::new();
    events.push(WriteEvent::DocumentStart);
    proof {
        assert(events_view(events@) =~= seq![Event::DocumentStart]);
    }
    emit_node(doc, &mut events);
    let ghost before = events@;
    events.push(WriteEvent::DocumentEnd);
    proof {
        assert(events_view(events@) =~= events_view(before) + seq![Event::DocumentEnd]);
    }
    events
}

/// Append the events that a node is written with.
pub fn emit_node(node: &Yaml, events: &mut Vec<WriteEvent>)
    ensures
        events_view(final(events)@) == events_view(old(events)@) + node_events(*node),
    decreases node,
{
    match node {
        Yaml::Array(v) => emit_array(v, events),
        Yaml::Hash(h) => emit_hash(h, events),
        Yaml::String(v) => {
            events.push(WriteEvent::Scalar(ScalarValue::String(v.clone())));
        },
        Yaml::Boolean(v) => {
            events.push(WriteEvent::Scalar(ScalarValue::Boolean(*v)));
        },
        Yaml::Integer(v) => {
            events.push(WriteEvent::Scalar(ScalarValue::Integer(*v)));
        },
        Yaml::Real(v) => {
            events.push(WriteEvent::Scalar(ScalarValue::Real(v.clone())));
        },
        Yaml::Null | Yaml::BadValue => {
            events.push(WriteEvent::Scalar(ScalarValue::Null));
        },
        Yaml::Alias(_) => {},
    }
    proof {
        assert(events_view(events@) =~= events_view(old(events)@) + node_events(*node));
    }
}

/// Append the events that a sequence is written with.
pub fn emit_array(v: &Vec<Yaml>, events: &mut Vec<WriteEvent>)
    ensures
        events_view(final(events)@) == events_view(old(events)@) + seq![Event::SequenceStart]
            + items_events(v@, v@.len() as int) + seq![Event::SequenceEnd],
    decreases v,
{
    events.push(WriteEvent::SequenceStart);
    let ghost first = events_view(events@);
    proof {
        assert(first =~= events_view(old(events)@) + seq![Event::SequenceStart]);
        assert(events_view(events@) =~= first + items_events(v@, 0));
    }
    let mut i: usize = 0;
    while i < v.len()
        invariant
            i <= v.len(),
            events_view(events@) == first + items_events(v@, i as int),
        decreases v.len() - i,
    {
        let ghost before = events_view(events@);
        emit_node(&v[i], events);
        i += 1;
        proof {
            assert(events_view(events@) =~= first + items_events(v@, i as int));
        }
    }
    let ghost before = events_view(events@);
    events.push(WriteEvent::SequenceEnd);
    proof {
        assert(events_view(events@) =~= before + seq![Event::SequenceEnd]);
    }
}

/// Append the events that a mapping is written with.
pub fn emit_hash(h: &Vec<(Yaml, Yaml)>, events: &mut Vec<WriteEvent>)
    ensures
        events_view(final(events)@) == events_view(old(events)@) + seq![Event::MappingStart]
            + pairs_events(h@, h@.len() as int) + seq![Event::MappingEnd],
    decreases h,
{
    events.push(WriteEvent::MappingStart);
    let ghost first = events_view(events@);
    proof {
        assert(first =~= events_view(old(events)@) + seq![Event::MappingStart]);
        assert(events_view(events@) =~= first + pairs_events(h@, 0));
    }
    let mut i: usize = 0;
    while i < h.len()
        invariant
            i <= h.len(),
            events_view(events@) == first + pairs_events(h@, i as int),
        decreases h.len() - i,
    {
        emit_node(&h[i].0, events);
        emit_node(&h[i].1, events);
        i += 1;
        proof {
            assert(events_view(events@) =~= first + pairs_events(h@, i as int));
        }
    }
    let ghost before = events_view(events@);
    events.push(WriteEvent::MappingEnd);
    proof {
        assert(events_view(events@) =~= before + seq![Event::MappingEnd]);
    }
}

} // verus!
