//! Block scalars: literal (`|`) and folded (`>`).

use vstd::prelude::*;
use vstd::string::StringExecFns;
use crate::chars::{is_blank, is_break, is_breakz, is_digit, is_z, spec_is_blank, spec_is_break, spec_is_breakz, spec_is_digit, CharClass};
use crate::directive::queue_result;
use crate::nesting::{document_starts, is_content};
use crate::model::{Cursor, State};
use crate::scanner::{result_view, unit_view, ScanResult, Scanner};
use crate::token::{ErrorInfo, Mark, Marker, ScanError, TScalarStyle, Tok, Token, TokenKind, TokenType};

verus! {

/// What a chomping indicator asks for: 1 to keep every trailing line break
/// (`+`), -1 to strip them all (`-`), 0 to keep one.
pub open spec fn chomping_of(c: char) -> int {
    if c == '+' {
        1
    } else if c == '-' {
        -1
    } else {
        0
    }
}

/// The indicators in the header of a block scalar.
pub struct BlockHeader {
    pub chomping: int,
    /// The indentation indicator, 1 to 9, or 0 where there is none.
    pub increment: int,
}

/// The text of a block scalar while it is read.
pub struct BlockText {
    /// The text up to the end of the last line.
    pub text: Seq<char>,
    /// The line break of the last line, as `\n`.
    pub leading_break: Seq<char>,
    /// The empty lines behind it, each as `\n`.
    pub trailing_breaks: Seq<char>,
    /// Whether the last line started with a blank.
    pub leading_blank: bool,
}

impl BlockText {
    /// The text with the line that starts with `first` joined on. In a
    /// folded scalar the break between two lines that do not start with a
    /// blank becomes a space, or nothing where empty lines follow it. Any
    /// other break, and every empty line, stays as `\n`.
    pub open spec fn joined(self, literal: bool, first: char) -> Seq<char> {
        (if !literal && self.leading_break.len() > 0 && !self.leading_blank && !spec_is_blank(
            first,
        ) {
            if self.trailing_breaks.len() == 0 {
                self.text.push(' ')
            } else {
                self.text
            }
        } else {
            self.text + self.leading_break
        }) + self.trailing_breaks
    }

    /// The text with its trailing line breaks chomped.
    pub open spec fn chomped(self, chomping: int) -> Seq<char> {
        self.text + (if chomping != -1 {
            self.leading_break
        } else {
            Seq::empty()
        }) + (if chomping == 1 {
            self.trailing_breaks
        } else {
            Seq::empty()
        })
    }
}

/// The larger of two numbers.
pub open spec fn larger(a: int, b: int) -> int {
    if a >= b {
        a
    } else {
        b
    }
}

impl Cursor {
    /// The cursor behind the spaces that stand here, left of the column
    /// `indent`.
    pub open spec fn spaces_to(self, input: Seq<char>, indent: int) -> Cursor
        decreases input.len() - self.index,
    {
        if 0 <= self.index < input.len() && self.col < indent && self.ch(input) == ' ' {
            self.step(input).spaces_to(input, indent)
        } else {
            self
        }
    }

    /// Spaces are skipped forwards, inside the input.
    pub proof fn lemma_spaces_to(self, input: Seq<char>, indent: int)
        requires
            0 <= self.index <= input.len(),
        ensures
            self.index <= self.spaces_to(input, indent).index <= input.len(),
        decreases input.len() - self.index,
    {
        if 0 <= self.index < input.len() && self.col < indent && self.ch(input) == ' ' {
            self.step(input).lemma_spaces_to(input, indent);
        }
    }

    /// A line break is skipped forwards, inside the input.
    pub proof fn lemma_step_line(self, input: Seq<char>)
        requires
            0 <= self.index <= input.len(),
        ensures
            self.index <= self.step_line(input).index <= input.len(),
            spec_is_break(self.ch(input)) ==> self.index < self.step_line(input).index,
    {
    }
}

impl State {
    /// The indentation of a block scalar and the empty lines in it: spaces
    /// up to the column `indent`, and every line that ends there, each
    /// appended to `breaks` as `\n`.
    pub open spec fn skip_block_scalar_indent(self, indent: int, breaks: Seq<char>) -> (State, Seq<char>)
        decreases self.input.len() - self.cur.index,
    {
        let c1 = self.cur.spaces_to(self.input, indent);
        if 0 <= self.cur.index <= self.input.len() && spec_is_break(c1.ch(self.input)) {
            proof {
                self.cur.lemma_spaces_to(self.input, indent);
                c1.lemma_step_line(self.input);
            }
            self.with_cur(c1.step_line(self.input)).skip_block_scalar_indent(
                indent,
                breaks.push('\n'),
            )
        } else {
            (self.with_cur(c1), breaks)
        }
    }

    /// The lines before the first line of content: all spaces and empty
    /// lines, the longest run of spaces noted.
    pub open spec fn first_line_indent(self, max_indent: int, breaks: Seq<char>) -> (State, int, Seq<char>)
        decreases self.input.len() - self.cur.index,
    {
        let c1 = self.cur.run(self.input, CharClass::Space);
        let m = larger(max_indent, c1.col);
        if self.cur.valid(self.input) && spec_is_break(c1.ch(self.input)) {
            proof {
                self.cur.lemma_run(self.input, CharClass::Space);
                c1.lemma_step_line(self.input);
            }
            self.with_cur(c1.step_line(self.input)).first_line_indent(m, breaks.push('\n'))
        } else {
            (self.with_cur(c1), m, breaks)
        }
    }

    /// The indentation of a block scalar without an indentation indicator:
    /// the longest run of spaces before the first line of content, but at
    /// least one more than the indent of the enclosing block, and at least 1.
    pub open spec fn skip_block_scalar_first_line_indent(self, breaks: Seq<char>) -> (State, int, Seq<char>) {
        let (s1, m, b) = self.first_line_indent(0, breaks);
        (s1, larger(larger(m, self.indent + 1), 1), b)
    }

    /// The indicators behind `|` or `>`: a chomping indicator and an
    /// indentation indicator, in either order, each at most once. The
    /// indentation indicator 0 is an error.
    pub open spec fn block_indicators(self, start: Mark) -> (State, Result<BlockHeader, ErrorInfo>) {
        let zero = State::error_at(
            start,
            "while scanning a block scalar, found an indentation indicator equal to 0"@,
        );
        let c = self.ch();
        let s1 = self.with_cur(self.cur.step(self.input));
        let d = s1.ch();
        if c == '+' || c == '-' {
            if !spec_is_digit(d) {
                (s1, Ok(BlockHeader { chomping: chomping_of(c), increment: 0 }))
            } else if d == '0' {
                (s1, Err(zero))
            } else {
                (
                    s1.with_cur(s1.cur.step(s1.input)),
                    Ok(BlockHeader { chomping: chomping_of(c), increment: d as int - '0' as int }),
                )
            }
        } else if spec_is_digit(c) {
            if c == '0' {
                (self, Err(zero))
            } else if d == '+' || d == '-' {
                (
                    s1.with_cur(s1.cur.step(s1.input)),
                    Ok(BlockHeader { chomping: chomping_of(d), increment: c as int - '0' as int }),
                )
            } else {
                (s1, Ok(BlockHeader { chomping: 0, increment: c as int - '0' as int }))
            }
        } else {
            (self, Ok(BlockHeader { chomping: 0, increment: 0 }))
        }
    }

    /// The rest of the header line of a block scalar: blanks, a comment,
    /// and the line break, which is consumed. A tab at the start of the
    /// next line is an error.
    pub open spec fn block_header_end(self, start: Mark) -> (State, Result<(), ErrorInfo>) {
        let s1 = self.with_cur(self.cur.run(self.input, CharClass::Blank));
        let s2 = if s1.ch() == '#' {
            s1.with_cur(s1.cur.run(s1.input, CharClass::Line))
        } else {
            s1
        };
        let s3 = s2.with_cur(s2.cur.step_line(s2.input));
        if !spec_is_breakz(s2.ch()) {
            (
                s2,
                Err(
                    State::error_at(
                        start,
                        "while scanning a block scalar, did not find expected comment or line break"@,
                    ),
                ),
            )
        } else if s3.ch() == '\t' {
            (
                s3,
                Err(State::error_at(start, "a block scalar content cannot start with a tab"@)),
            )
        } else {
            (s3, Ok(()))
        }
    }

    /// The lines of a block scalar from the cursor on: each line that
    /// starts at the column `indent` is joined to the text, up to its line
    /// break; the empty lines behind it are passed.
    pub open spec fn block_lines(self, indent: int, literal: bool, acc: BlockText) -> (State, BlockText)
        decreases self.input.len() - self.cur.index,
    {
        if !self.cur.valid(self.input) || self.cur.col != indent || self.ch() == '\0' {
            (self, acc)
        } else {
            let c1 = self.cur.run(self.input, CharClass::Line);
            let text = acc.joined(literal, self.ch()) + self.cur.text_to(self.input, c1);
            if c1.ch(self.input) == '\0' {
                (
                    self.with_cur(c1),
                    BlockText {
                        text,
                        leading_break: Seq::empty(),
                        trailing_breaks: Seq::empty(),
                        leading_blank: spec_is_blank(self.ch()),
                    },
                )
            } else {
                let (s2, breaks) = self.with_cur(
                    c1.step_line(self.input),
                ).skip_block_scalar_indent(indent, Seq::empty());
                proof {
                    self.cur.lemma_run(self.input, CharClass::Line);
                    c1.lemma_step_line(self.input);
                    self.with_cur(c1.step_line(self.input)).lemma_skip_block_scalar_indent(
                        indent,
                        Seq::empty(),
                    );
                }
                s2.block_lines(
                    indent,
                    literal,
                    BlockText {
                        text,
                        leading_break: seq!['\n'],
                        trailing_breaks: breaks,
                        leading_blank: spec_is_blank(self.ch()),
                    },
                )
            }
        }
    }

    /// The column at which the content of a block scalar starts, where its
    /// header gives one: the indentation indicator, counted from the indent
    /// of the enclosing block. 0 where the header gives none.
    pub open spec fn block_indent(self, increment: int) -> int {
        if increment > 0 {
            if self.indent >= 0 {
                self.indent + increment
            } else {
                increment
            }
        } else {
            0
        }
    }

    /// The content of a block scalar, behind its header: the token starts
    /// where the first line of content starts.
    pub open spec fn block_content(self, literal: bool, header: BlockHeader) -> (State, Tok) {
        let given = self.block_indent(header.increment);
        let (s3, indent, breaks) = if given == 0 {
            self.skip_block_scalar_first_line_indent(Seq::empty())
        } else {
            let (s, b) = self.skip_block_scalar_indent(given, Seq::empty());
            (s, given, b)
        };
        let (s4, acc) = s3.block_lines(
            indent,
            literal,
            BlockText {
                text: Seq::empty(),
                leading_break: Seq::empty(),
                trailing_breaks: breaks,
                leading_blank: false,
            },
        );
        (
            s4,
            Tok {
                mark: s3.cur.mark(),
                kind: TokenKind::Scalar(
                    if literal {
                        TScalarStyle::Literal
                    } else {
                        TScalarStyle::Folded
                    },
                    acc.chomped(header.chomping),
                ),
            },
        )
    }

    /// A block scalar, from its `|` or `>`.
    pub open spec fn scan_block_scalar(self, literal: bool) -> (State, Result<Tok, ErrorInfo>) {
        let start = self.cur.mark();
        let (s1, r1) = self.with_cur(self.cur.step(self.input)).block_indicators(start);
        match r1 {
            Err(e) => (s1, Err(e)),
            Ok(header) => {
                let (s2, r2) = s1.block_header_end(start);
                match r2 {
                    Err(e) => (s2, Err(e)),
                    Ok(_) => {
                        let (s3, tok) = s2.block_content(literal, header);
                        (s3, Ok(tok))
                    },
                }
            },
        }
    }

    /// A block scalar may start a simple key, and one may start behind it.
    pub open spec fn fetch_block_scalar(self, literal: bool) -> (State, Result<(), ErrorInfo>) {
        let (s1, r1) = self.save_simple_key();
        if r1 is Err {
            (s1, r1)
        } else {
            queue_result(s1.with_simple_key_allowed(true).scan_block_scalar(literal))
        }
    }

    /// Indentation and empty lines are skipped forwards, inside the input.
    pub proof fn lemma_skip_block_scalar_indent(self, indent: int, breaks: Seq<char>)
        requires
            0 <= self.cur.index <= self.input.len(),
        ensures
            self.cur.index <= self.skip_block_scalar_indent(indent, breaks).0.cur.index
                <= self.input.len(),
            self.skip_block_scalar_indent(indent, breaks).0 == self.with_cur(
                self.skip_block_scalar_indent(indent, breaks).0.cur,
            ),
        decreases self.input.len() - self.cur.index,
    {
        let c1 = self.cur.spaces_to(self.input, indent);
        self.cur.lemma_spaces_to(self.input, indent);
        c1.lemma_step_line(self.input);
        if spec_is_break(c1.ch(self.input)) {
            self.with_cur(c1.step_line(self.input)).lemma_skip_block_scalar_indent(
                indent,
                breaks.push('\n'),
            );
        }
    }
}

impl Scanner {
    pub(crate) fn fetch_block_scalar(&mut self, literal: bool) -> (r: ScanResult)
        requires
            old(self).sane(),
            old(self)@.stream_start_produced,
            old(self).buffered() >= 1,
            old(self)@.ch() != '\0',
        ensures
            final(self).sane(),
            (final(self)@, unit_view(r)) == old(self)@.fetch_block_scalar(literal),
            final(self)@.parsed == old(self)@.parsed,
            final(self)@.input == old(self)@.input,
            final(self)@.stream_end_produced == old(self)@.stream_end_produced,
            final(self)@.error == old(self)@.error,
            r is Ok ==> final(self)@.all.len() > old(self)@.all.len(),
            old(self)@.lawful() ==> final(self)@.lawful(),
            document_starts(final(self)@.all) == document_starts(old(self)@.all),
            r is Ok ==> final(self)@.cur.index > old(self)@.cur.index,
    {
        match self.save_simple_key() {
            Err(e) => {
                return Err(e);
            },
            Ok(_) => {},
        }
        self.allow_simple_key();
        let ghost saved = self@;
        let scanned = self.scan_block_scalar(literal);
        proof {
            if saved.lawful() {
                saved.lemma_lawful_moved(self@);
            }
        }
        match scanned {
            Err(e) => Err(e),
            Ok(tok) => {
                self.push_token(tok);
                proof {
                    if saved.lawful() {
                        saved.lemma_lawful_pushed(self@, tok@);
                    }
                }
                Ok(())
            },
        }
    }

    /// Read the chomping and indentation indicators of a block scalar.
    /// Returns the chomping and the increment.
    fn scan_block_indicators(&mut self, start_mark: Marker) -> (r: Result<(i32, usize), ScanError>)
        requires
            old(self).sane(),
        ensures
            final(self).sane(),
            final(self)@ == old(self)@.with_cur(final(self)@.cur),
            final(self)@.cur.index >= old(self)@.cur.index,
            (final(self)@, match r {
                Ok((chomping, increment)) => Ok(
                    BlockHeader { chomping: chomping as int, increment: increment as int },
                ),
                Err(e) => Err(e@),
            }) == old(self)@.block_indicators(start_mark@),
            r matches Ok((chomping, increment)) ==> increment <= 9,
    {
        let mut chomping: i32 = 0;
        let mut increment: usize = 0;
        self.lookahead(1);
        if self.ch() == '+' || self.ch() == '-' {
            if self.ch() == '+' {
                chomping = 1;
            } else {
                chomping = -1;
            }
            self.skip();
            self.lookahead(1);
            if is_digit(self.ch()) {
                if self.ch() == '0' {
                    return Err(
                        ScanError::new(
                            start_mark,
                            "while scanning a block scalar, found an indentation indicator equal to 0",
                        ),
                    );
                }
                increment = (self.ch() as usize) - ('0' as usize);
                self.skip();
            }
        } else if is_digit(self.ch()) {
            if self.ch() == '0' {
                return Err(
                    ScanError::new(
                        start_mark,
                        "while scanning a block scalar, found an indentation indicator equal to 0",
                    ),
                );
            }
            increment = (self.ch() as usize) - ('0' as usize);
            self.skip();
            self.lookahead(1);
            if self.ch() == '+' || self.ch() == '-' {
                if self.ch() == '+' {
                    chomping = 1;
                } else {
                    chomping = -1;
                }
                self.skip();
            }
        }
        Ok((chomping, increment))
    }

    /// Read the rest of the header line of a block scalar.
    fn scan_block_header_end(&mut self, start_mark: Marker) -> (r: Result<(), ScanError>)
        requires
            old(self).sane(),
        ensures
            final(self).sane(),
            final(self)@ == old(self)@.with_cur(final(self)@.cur),
            final(self)@.cur.index >= old(self)@.cur.index,
            (final(self)@, unit_view(r)) == old(self)@.block_header_end(start_mark@),
    {
        self.skip_run(CharClass::Blank);
        if self.ch() == '#' {
            self.skip_run(CharClass::Line);
        }
        // Check if we are at the end of the line.
        if !is_breakz(self.ch()) {
            return Err(
                ScanError::new(
                    start_mark,
                    "while scanning a block scalar, did not find expected comment or line break",
                ),
            );
        }
        if is_break(self.ch()) {
            self.lookahead(2);
            self.skip_line();
        }
        if self.look_ch() == '\t' {
            return Err(
                ScanError::new(start_mark, "a block scalar content cannot start with a tab"),
            );
        }
        Ok(())
    }

    pub(crate) fn scan_block_scalar(&mut self, literal: bool) -> (r: Result<Token, ScanError>)
        requires
            old(self).sane(),
            old(self).buffered() >= 1,
            old(self)@.ch() != '\0',
        ensures
            final(self).sane(),
            final(self)@ == old(self)@.with_cur(final(self)@.cur),
            final(self)@.cur.index > old(self)@.cur.index,
            (final(self)@, result_view(r)) == old(self)@.scan_block_scalar(literal),
            r matches Ok(t) ==> is_content(t@.kind) && old(self)@.cur.index <= t@.mark.index
                <= final(self)@.cur.index,
    {
        let start_mark = self.mark;
        let mut indent: usize = 0;

        let mut string = String::new();
        let mut leading_break = String::new();
        let mut trailing_breaks = String::new();
        let mut leading_blank: bool = false;

        // skip '|' or '>'
        self.skip();
        let (chomping, increment) = match self.scan_block_indicators(start_mark) {
            Err(e) => {
                return Err(e);
            },
            Ok(header) => header,
        };
        match self.scan_block_header_end(start_mark) {
            Err(e) => {
                return Err(e);
            },
            Ok(_) => {},
        }
        let ghost header = BlockHeader { chomping: chomping as int, increment: increment as int };
        let ghost s2 = self@;

        if increment > 0 {
            indent = if self.indent >= 0 {
                (self.indent + increment as isize) as usize
            } else {
                increment
            }
        }
        // Scan the leading line breaks and determine the indentation level if needed.
        if indent == 0 {
            self.skip_block_scalar_first_line_indent(&mut indent, &mut trailing_breaks);
        } else {
            self.skip_block_scalar_indent(indent, &mut trailing_breaks);
        }
        self.lookahead(1);

        let start_mark = self.mark;
        let ghost s3 = self@;
        let ghost expected = s3.block_lines(
            indent as int,
            literal,
            BlockText {
                text: Seq::empty(),
                leading_break: Seq::empty(),
                trailing_breaks: trailing_breaks@,
                leading_blank: false,
            },
        );

        loop
            invariant_except_break
                self@.block_lines(
                    indent as int,
                    literal,
                    BlockText {
                        text: string@,
                        leading_break: leading_break@,
                        trailing_breaks: trailing_breaks@,
                        leading_blank,
                    },
                ) == expected,
            invariant
                self.sane(),
                self.buffered() >= 1,
                self@ == old(self)@.with_cur(self@.cur),
                self@.cur.index > old(self)@.cur.index,
                old(self)@.cur.index <= start_mark@.index <= self@.cur.index,
            ensures
                (
                    self@,
                    BlockText {
                        text: string@,
                        leading_break: leading_break@,
                        trailing_breaks: trailing_breaks@,
                        leading_blank,
                    },
                ) == expected,
            decreases self@.input.len() - self@.cur.index,
        {
            if !(self.mark.col == indent && !is_z(self.ch())) {
                break ;
            }
            // We are at the beginning of a non-empty line.
            let ghost acc = BlockText {
                text: string@,
                leading_break: leading_break@,
                trailing_breaks: trailing_breaks@,
                leading_blank,
            };
            let ghost line = self@;
            let trailing_blank = is_blank(self.ch());
            if !literal && !leading_break.as_str().is_empty() && !leading_blank
                && !trailing_blank {
                if trailing_breaks.as_str().is_empty() {
                    string.push(' ');
                }
                leading_break = String::new();
            } else {
                string.append(leading_break.as_str());
                leading_break = String::new();
            }
            string.append(trailing_breaks.as_str());
            trailing_breaks = String::new();
            proof {
                assert(string@ =~= acc.joined(literal, line.ch()));
            }

            leading_blank = is_blank(self.ch());

            self.read_run(CharClass::Line, &mut string);
            // break on EOF
            if is_z(self.ch()) {
                break ;
            }
            self.lookahead(2);
            self.read_break(&mut leading_break);
            proof {
                assert(leading_break@ =~= seq!['\n']);
            }

            // Eat the following indentation spaces and line breaks.
            self.skip_block_scalar_indent(indent, &mut trailing_breaks);
            self.lookahead(1);
        }

        // Chomp the tail.
        if chomping != -1 {
            string.append(leading_break.as_str());
        }
        if chomping == 1 {
            string.append(trailing_breaks.as_str());
        }
        if literal {
            Ok(Token(start_mark, TokenType::Scalar(TScalarStyle::Literal, string)))
        } else {
            Ok(Token(start_mark, TokenType::Scalar(TScalarStyle::Folded, string)))
        }
    }

    /// Consume the spaces that stand left of the column `indent`.
    fn skip_spaces_to(&mut self, indent: usize)
        requires
            old(self).sane(),
        ensures
            final(self).sane(),
            final(self)@ == old(self)@.with_cur(
                old(self)@.cur.spaces_to(old(self)@.input, indent as int),
            ),
            final(self)@.cur.index >= old(self)@.cur.index,
            final(self)@.cur.spaces_to(final(self)@.input, indent as int) == final(self)@.cur,
    {
        while self.mark.col < indent && self.look_ch() == ' '
            invariant
                self.sane(),
                self@ == old(self)@.with_cur(self@.cur),
                self@.cur.index >= old(self)@.cur.index,
                self@.cur.spaces_to(self@.input, indent as int) == old(self)@.cur.spaces_to(
                    old(self)@.input,
                    indent as int,
                ),
            decreases self@.input.len() - self@.cur.index,
        {
            self.skip();
        }
    }

    /// Skip the block scalar indentation and empty lines.
    pub(crate) fn skip_block_scalar_indent(&mut self, indent: usize, breaks: &mut String)
        requires
            old(self).sane(),
        ensures
            final(self).sane(),
            final(self)@ == old(self)@.with_cur(final(self)@.cur),
            final(self)@.cur.index >= old(self)@.cur.index,
            (final(self)@, final(breaks)@) == old(self)@.skip_block_scalar_indent(
                indent as int,
                old(breaks)@,
            ),
    {
        // Consume all spaces. Tabs cannot be used as indentation.
        self.skip_spaces_to(indent);
        // If our current line is empty, skip over the break and continue looping.
        while is_break(self.look_ch())
            invariant
                self.sane(),
                self@ == old(self)@.with_cur(self@.cur),
                self@.cur.index >= old(self)@.cur.index,
                self@.cur.spaces_to(self@.input, indent as int) == self@.cur,
                self@.skip_block_scalar_indent(indent as int, breaks@)
                    == old(self)@.skip_block_scalar_indent(indent as int, old(breaks)@),
            decreases self@.input.len() - self@.cur.index,
        {
            self.lookahead(2);
            self.read_break(breaks);
            let ghost behind = self@;
            self.skip_spaces_to(indent);
            proof {
                assert(behind.skip_block_scalar_indent(indent as int, breaks@)
                    == self@.skip_block_scalar_indent(indent as int, breaks@));
            }
        }
        // Otherwise, we have a content line. Return control.
    }

    /// Determine the indentation level for a block scalar from the first line of its contents.
    ///
    /// The function skips over whitespace-only lines and sets `indent` to the the longest
    /// whitespace line that was encountered.
    pub(crate) fn skip_block_scalar_first_line_indent(
        &mut self,
        indent: &mut usize,
        breaks: &mut String,
    )
        requires
            old(self).sane(),
        ensures
            final(self).sane(),
            final(self)@ == old(self)@.with_cur(final(self)@.cur),
            final(self)@.cur.index >= old(self)@.cur.index,
            (final(self)@, *final(indent) as int, final(breaks)@)
                == old(self)@.skip_block_scalar_first_line_indent(old(breaks)@),
    {
        let mut max_indent: usize = 0;
        // Consume all spaces. Tabs cannot be used as indentation.
        self.skip_run(CharClass::Space);
        if self.mark.col > max_indent {
            max_indent = self.mark.col;
        }
        while is_break(self.look_ch())
            invariant
                self.sane(),
                self@ == old(self)@.with_cur(self@.cur),
                self@.cur.index >= old(self)@.cur.index,
                self@.cur.run(self@.input, CharClass::Space) == self@.cur,
                max_indent >= self@.cur.col,
                max_indent <= self@.cur.index,
                self@.first_line_indent(max_indent as int, breaks@) == old(
                    self,
                )@.first_line_indent(0, old(breaks)@),
            decreases self@.input.len() - self@.cur.index,
        {
            // If our current line is empty, skip over the break and continue looping.
            self.lookahead(2);
            self.read_break(breaks);
            let ghost behind = self@;
            let ghost before = max_indent;
            self.skip_run(CharClass::Space);
            if self.mark.col > max_indent {
                max_indent = self.mark.col;
            }
            proof {
                assert(self@.cur.run(self@.input, CharClass::Space) == self@.cur);
                assert(behind.first_line_indent(before as int, breaks@)
                    == self@.first_line_indent(max_indent as int, breaks@));
            }
        }
        // Otherwise, we have a content line. Return control.
        let floor = (self.indent + 1) as usize;
        let mut result = max_indent;
        if floor > result {
            result = floor;
        }
        if result < 1 {
            result = 1;
        }
        *indent = result;
    }
}

} // verus!
