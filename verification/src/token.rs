//! Positions, tokens and errors, each with the mathematical value that
//! contracts speak of.

use vstd::prelude::*;
use vstd::string::StringExecFns;
use crate::text::{decimal_text, push_decimal};

verus! {

/// The encoding of the stream.
#[derive(Clone, Copy, PartialEq, Eq, Debug, Structural)]
pub enum TEncoding {
    Utf8,
}

/// The presentation style of a scalar.
#[derive(Clone, Copy, PartialEq, Eq, Debug, Structural)]
pub enum TScalarStyle {
    Plain,
    SingleQuoted,
    DoubleQuoted,
    Literal,
    Folded,
}

/// A position as contracts see it: characters consumed, 1-based line,
/// 0-based column.
pub struct Mark {
    pub index: int,
    pub line: int,
    pub col: int,
}

/// A location in a yaml document.
#[derive(Clone, Copy, PartialEq, Eq, Debug, Structural)]
pub struct Marker {
    pub(crate) index: usize,
    pub(crate) line: usize,
    pub(crate) col: usize,
}

impl View for Marker {
    type V = Mark;

    open(crate) spec fn view(&self) -> Mark {
        Mark { index: self.index as int, line: self.line as int, col: self.col as int }
    }
}

impl Marker {
    pub(crate) fn new(index: usize, line: usize, col: usize) -> (r: Marker)
        ensures
            r@ == (Mark { index: index as int, line: line as int, col: col as int }),
    {
        Marker { index, line, col }
    }

    /// Return the index (in characters) of the marker in the source.
    #[must_use]
    pub fn index(&self) -> (r: usize)
        ensures
            r == self@.index,
    {
        self.index
    }

    /// Return the line of the marker in the source.
    #[must_use]
    pub fn line(&self) -> (r: usize)
        ensures
            r == self@.line,
    {
        self.line
    }

    /// Return the column of the marker in the source.
    #[must_use]
    pub fn col(&self) -> (r: usize)
        ensures
            r == self@.col,
    {
        self.col
    }
}

/// An error as contracts see it.
pub struct ErrorInfo {
    pub mark: Mark,
    pub info: Seq<char>,
}

/// An error that occured while scanning.
#[derive(PartialEq, Eq, Debug)]
pub struct ScanError {
    mark: Marker,
    info: String,
}

impl Clone for ScanError {
    fn clone(&self) -> (r: ScanError)
        ensures
            r@ == self@,
    {
        ScanError { mark: self.mark, info: self.info.clone() }
    }
}

impl View for ScanError {
    type V = ErrorInfo;

    closed spec fn view(&self) -> ErrorInfo {
        ErrorInfo { mark: self.mark@, info: self.info@ }
    }
}

impl ScanError {
    /// Create a new error from a location and an error string.
    #[must_use]
    pub fn new(loc: Marker, info: &str) -> (r: ScanError)
        ensures
            r@ == (ErrorInfo { mark: loc@, info: info@ }),
    {
        ScanError { mark: loc, info: info.to_owned() }
    }

    /// Return the marker pointing to the error in the source.
    #[must_use]
    pub fn marker(&self) -> (r: &Marker)
        ensures
            r@ == self@.mark,
    {
        &self.mark
    }

    /// Return the information string describing the error that happened.
    #[must_use]
    pub fn info(&self) -> (r: &str)
        ensures
            r@ == self@.info,
    {
        self.info.as_str()
    }

    /// The error as it is shown to a user: the information string, the
    /// line, and the column counted from 1.
    #[must_use]
    pub fn to_string(&self) -> (r: String)
        ensures
            r@ == self@.display(),
    {
        let mut text = self.info.clone();
        text.append(" at line ");
        push_decimal(&mut text, self.mark.line as u128);
        text.append(" column ");
        push_decimal(&mut text, self.mark.col as u128 + 1);
        text
    }
}

impl ErrorInfo {
    /// The error as it is shown to a user: `<info> at line <line> column
    /// <col + 1>`.
    pub open spec fn display(self) -> Seq<char> {
        self.info + " at line "@ + decimal_text(self.mark.line as nat) + " column "@
            + decimal_text((self.mark.col + 1) as nat)
    }
}

/// What a token is, as contracts see it: strings are sequences of characters.
pub enum TokenKind {
    StreamStart(TEncoding),
    StreamEnd,
    VersionDirective(u32, u32),
    TagDirective(Seq<char>, Seq<char>),
    DocumentStart,
    DocumentEnd,
    BlockSequenceStart,
    BlockMappingStart,
    BlockEnd,
    FlowSequenceStart,
    FlowSequenceEnd,
    FlowMappingStart,
    FlowMappingEnd,
    BlockEntry,
    FlowEntry,
    Key,
    Value,
    Alias(Seq<char>),
    Anchor(Seq<char>),
    Tag(Seq<char>, Seq<char>),
    Scalar(TScalarStyle, Seq<char>),
}

/// The contents of a token.
#[derive(Clone, PartialEq, Eq, Debug)]
pub enum TokenType {
    /// The start of the stream. Sent first, before even `DocumentStart`.
    StreamStart(TEncoding),
    /// The end of the stream, EOF.
    StreamEnd,
    /// A `%YAML` directive: major, minor.
    VersionDirective(u32, u32),
    /// A `%TAG` directive: handle, prefix.
    TagDirective(String, String),
    /// The start of a YAML document (`---`).
    DocumentStart,
    /// The end of a YAML document (`...`).
    DocumentEnd,
    /// The start of a sequence block.
    BlockSequenceStart,
    /// The start of a mapping block.
    BlockMappingStart,
    /// End of the corresponding `BlockSequenceStart` or `BlockMappingStart`.
    BlockEnd,
    /// Start of an inline array (`[ a, b ]`).
    FlowSequenceStart,
    /// End of an inline array.
    FlowSequenceEnd,
    /// Start of an inline mapping (`{ a: b, c: d }`).
    FlowMappingStart,
    /// End of an inline mapping.
    FlowMappingEnd,
    BlockEntry,
    FlowEntry,
    Key,
    Value,
    Alias(String),
    /// A YAML anchor (`&`/`*`).
    Anchor(String),
    /// handle, suffix
    Tag(String, String),
    Scalar(TScalarStyle, String),
}

impl View for TokenType {
    type V = TokenKind;

    open spec fn view(&self) -> TokenKind {
        match *self {
            TokenType::StreamStart(e) => TokenKind::StreamStart(e),
            TokenType::StreamEnd => TokenKind::StreamEnd,
            TokenType::VersionDirective(major, minor) => TokenKind::VersionDirective(major, minor),
            TokenType::TagDirective(handle, prefix) => TokenKind::TagDirective(handle@, prefix@),
            TokenType::DocumentStart => TokenKind::DocumentStart,
            TokenType::DocumentEnd => TokenKind::DocumentEnd,
            TokenType::BlockSequenceStart => TokenKind::BlockSequenceStart,
            TokenType::BlockMappingStart => TokenKind::BlockMappingStart,
            TokenType::BlockEnd => TokenKind::BlockEnd,
            TokenType::FlowSequenceStart => TokenKind::FlowSequenceStart,
            TokenType::FlowSequenceEnd => TokenKind::FlowSequenceEnd,
            TokenType::FlowMappingStart => TokenKind::FlowMappingStart,
            TokenType::FlowMappingEnd => TokenKind::FlowMappingEnd,
            TokenType::BlockEntry => TokenKind::BlockEntry,
            TokenType::FlowEntry => TokenKind::FlowEntry,
            TokenType::Key => TokenKind::Key,
            TokenType::Value => TokenKind::Value,
            TokenType::Alias(name) => TokenKind::Alias(name@),
            TokenType::Anchor(name) => TokenKind::Anchor(name@),
            TokenType::Tag(handle, suffix) => TokenKind::Tag(handle@, suffix@),
            TokenType::Scalar(style, value) => TokenKind::Scalar(style, value@),
        }
    }
}

/// A token as contracts see it.
pub struct Tok {
    pub mark: Mark,
    pub kind: TokenKind,
}

/// A token: where it starts, and what it is.
#[derive(Clone, PartialEq, Eq, Debug)]
pub struct Token(pub Marker, pub TokenType);

impl View for Token {
    type V = Tok;

    open spec fn view(&self) -> Tok {
        Tok { mark: self.0@, kind: self.1@ }
    }
}

} // verus!
