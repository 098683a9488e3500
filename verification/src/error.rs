//! The ways in which scanning a token can fail.

use crate::decimal::{decimal, push_decimal};
use vstd::prelude::*;
use vstd::string::StringExecFns;

verus! {

/// A failure to read one token. The scan of the text as a whole is not
/// over: the caller decides whether to go on behind the offending place.
#[derive(Debug, Clone, PartialEq, Eq)]
pub enum LexError {
    /// A character that starts no token, or a lone `&` or `|`, with its offset.
    UnexpectedCharacter(char, usize),
    /// A digit run, with the offset it starts at, whose value no `isize` holds.
    IntegerLiteralError(usize, String),
}

/// What an error stands for: the digit run by its characters.
pub ghost enum LexErrorView {
    UnexpectedCharacter(char, usize),
    IntegerLiteralError(usize, Seq<char>),
}

impl View for LexError {
    type V = LexErrorView;

    open spec fn view(&self) -> LexErrorView {
        match self {
            LexError::UnexpectedCharacter(ch, offset) => LexErrorView::UnexpectedCharacter(
                *ch,
                *offset,
            ),
            LexError::IntegerLiteralError(offset, digits) => LexErrorView::IntegerLiteralError(
                *offset,
                digits@,
            ),
        }
    }
}

impl LexError {
    /// The message of the error: what was met, between quotes, and the
    /// offset in decimal.
    pub open spec fn text(&self) -> Seq<char> {
        match self {
            LexError::UnexpectedCharacter(ch, offset) => "Unexpected character: '"@ + seq![*ch]
                + "' at position: "@ + decimal(*offset as nat),
            LexError::IntegerLiteralError(offset, digits) => "Integer literal out of range: '"@
                + digits@ + "' at position: "@ + decimal(*offset as nat),
        }
    }

    /// Renders the error as its message.
    pub fn to_string(&self) -> (s: String)
        ensures
            s@ == self.text(),
    {
        match self {
            LexError::UnexpectedCharacter(ch, offset) => {
                let mut s = "Unexpected character: '".to_owned();
                s.push(*ch);
                s.append("' at position: ");
                push_decimal(&mut s, *offset);
                assert(s@ =~= self.text());
                s
            },
            LexError::IntegerLiteralError(offset, digits) => {
                let mut s = "Integer literal out of range: '".to_owned();
                s.append(digits.as_str());
                s.append("' at position: ");
                push_decimal(&mut s, *offset);
                assert(s@ =~= self.text());
                s
            },
        }
    }
}

} // verus!
