//! Line folding: what the blanks and line breaks between two words of a
//! flow scalar become.

use vstd::prelude::*;
use vstd::string::StringExecFns;

verus! {

/// The blanks and line breaks read since the last word.
pub struct Fold {
    /// Whether a line break was passed, so that blanks lead the line.
    pub leading_blanks: bool,
    /// The first line break, as `\n`.
    pub leading_break: Seq<char>,
    /// The line breaks after the first, each as `\n`.
    pub trailing_breaks: Seq<char>,
    /// The blanks on the line of the last word.
    pub whitespaces: Seq<char>,
}

impl Fold {
    /// Nothing read, on the line of the last word.
    pub open spec fn none() -> Fold {
        Fold {
            leading_blanks: false,
            leading_break: Seq::empty(),
            trailing_breaks: Seq::empty(),
            whitespaces: Seq::empty(),
        }
    }

    /// Nothing read, at the start of a line.
    pub open spec fn leading() -> Fold {
        Fold { leading_blanks: true, ..Fold::none() }
    }

    /// A blank was read: it is kept while on the line of the last word.
    pub open spec fn blank(self, c: char) -> Fold {
        if self.leading_blanks {
            self
        } else {
            Fold { whitespaces: self.whitespaces.push(c), ..self }
        }
    }

    /// A line break was read: the first one drops the blanks before it.
    pub open spec fn line_break(self) -> Fold {
        if self.leading_blanks {
            Fold { trailing_breaks: self.trailing_breaks.push('\n'), ..self }
        } else {
            Fold {
                leading_blanks: true,
                leading_break: self.leading_break.push('\n'),
                whitespaces: Seq::empty(),
                ..self
            }
        }
    }

    /// The text with what was read appended, as the next word finds it.
    /// One line break becomes a space, and further ones stay, each as `\n`.
    /// Breaks without a first one (behind an escaped line break) stay too.
    /// Blanks on the line of the last word stay as they are, or become one
    /// space where `collapse` is set.
    pub open spec fn join(self, text: Seq<char>, collapse: bool) -> Seq<char> {
        if self.leading_blanks {
            if self.leading_break.len() == 0 {
                text + self.leading_break + self.trailing_breaks
            } else if self.trailing_breaks.len() == 0 {
                text.push(' ')
            } else {
                text + self.trailing_breaks
            }
        } else if collapse {
            if self.whitespaces.len() == 0 {
                text
            } else {
                text.push(' ')
            }
        } else {
            text + self.whitespaces
        }
    }
}

/// The blanks and line breaks read since the last word.
pub(crate) struct FoldBuf {
    pub(crate) leading_blanks: bool,
    pub(crate) leading_break: String,
    pub(crate) trailing_breaks: String,
    pub(crate) whitespaces: String,
}

impl View for FoldBuf {
    type V = Fold;

    open(crate) spec fn view(&self) -> Fold {
        Fold {
            leading_blanks: self.leading_blanks,
            leading_break: self.leading_break@,
            trailing_breaks: self.trailing_breaks@,
            whitespaces: self.whitespaces@,
        }
    }
}

impl FoldBuf {
    pub(crate) fn new(leading_blanks: bool) -> (r: FoldBuf)
        ensures
            r@ == (Fold { leading_blanks, ..Fold::none() }),
    {
        FoldBuf {
            leading_blanks,
            leading_break: String::new(),
            trailing_breaks: String::new(),
            whitespaces: String::new(),
        }
    }

    /// Keep a blank, while on the line of the last word.
    pub(crate) fn blank(&mut self, c: char)
        ensures
            final(self)@ == old(self)@.blank(c),
    {
        if !self.leading_blanks {
            self.whitespaces.push(c);
        }
    }

    /// Append what was read to `string`, and start over on the line of a word.
    pub(crate) fn join(&mut self, string: &mut String, collapse: bool)
        ensures
            final(string)@ == old(self)@.join(old(string)@, collapse),
            final(self)@ == Fold::none(),
    {
        if self.leading_blanks {
            if self.leading_break.as_str().is_empty() {
                string.append(self.leading_break.as_str());
                string.append(self.trailing_breaks.as_str());
            } else {
                if self.trailing_breaks.as_str().is_empty() {
                    string.push(' ');
                } else {
                    string.append(self.trailing_breaks.as_str());
                }
            }
            self.leading_blanks = false;
        } else if collapse {
            if !self.whitespaces.as_str().is_empty() {
                string.push(' ');
            }
        } else {
            string.append(self.whitespaces.as_str());
        }
        self.leading_break = String::new();
        self.trailing_breaks = String::new();
        self.whitespaces = String::new();
    }
}

} // verus!
