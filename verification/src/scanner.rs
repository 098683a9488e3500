//! The scanner: a source text and a cursor that only moves forward.

use crate::chars::{
    digit_to_value, is_alphabetic, is_decimal_digit, is_whitespace, is_word_character,
};
use crate::decimal::decimal_value;
use crate::error::{LexError, LexErrorView};
use crate::grammar::{
    char_at, digits_end, followed_by, line_end, scan, scan_all, skip_trivia, word_end,
};
use crate::grammar::{lemma_digits_end, lemma_line_end, lemma_scan_cursor, lemma_token_text};
use crate::span::Span;
use crate::tokens::{Token, TokenKind, TokenView};
use vstd::prelude::*;

verus! {

/// A scanner over one source text. `position` is the cursor: the offset, in
/// characters, of the next character to read.
pub struct Lexer {
    pub input: Vec<char>,
    pub position: usize,
}

/// What the result of a scan stands for: the view of the token or of the error.
pub open spec fn outcome(result: Result<Token, LexError>) -> Result<TokenView, LexErrorView> {
    match result {
        Ok(token) => Ok(token@),
        Err(error) => Err(error@),
    }
}

/// What a run of tokens stands for: the view of each, in order.
pub open spec fn views(tokens: Seq<Token>) -> Seq<TokenView> {
    tokens.map_values(|token: Token| token@)
}

/// What the result of a scan of a whole text stands for.
pub open spec fn outcome_all(result: Result<Vec<Token>, LexError>) -> Result<
    Seq<TokenView>,
    LexErrorView,
> {
    match result {
        Ok(tokens) => Ok(views(tokens@)),
        Err(error) => Err(error@),
    }
}

impl Lexer {
    /// The source text, character by character.
    pub open spec fn text(&self) -> Seq<char> {
        self.input@
    }

    /// The cursor never lies behind the end of the text.
    pub open spec fn wf(&self) -> bool {
        self.position <= self.input.len()
    }

    /// A scanner at the start of `input`.
    pub fn new(input: String) -> (lexer: Self)
        ensures
            lexer.text() == input@,
            lexer.position == 0,
            lexer.wf(),
            input@.len() <= usize::MAX,
    {
        let mut chars: Vec<char> = Vec::new();
        for ch in it: input.as_str().chars()
            invariant
                chars@ == it.history(),
        {
            chars.push(ch);
        }
        assert(chars@.len() == chars.len());
        Lexer { input: chars, position: 0 }
    }

    /// Peek at a character in the input without advancing the position.
    /// Takes an `offset` from the current position.
    /// Returns `None` if the end of the input is reached.
    pub fn peek(&self, offset: usize) -> (ch: Option<char>)
        ensures
            ch == char_at(self.text(), self.position + offset),
    {
        let len = self.input.len();
        if self.position < len && offset < len - self.position {
            Some(self.input[self.position + offset])
        } else {
            None
        }
    }

    /// Advance the position in the input by `count` characters, but not
    /// past the end of the input.
    pub fn advance(&mut self, count: usize)
        requires
            old(self).wf(),
            count > 0,
        ensures
            final(self).input == old(self).input,
            final(self).position == if old(self).position + count <= old(self).input.len() {
                old(self).position + count
            } else {
                old(self).input.len() as int
            },
            final(self).wf(),
    {
        let len = self.input.len();
        if count < len - self.position {
            self.position += count;
        } else {
            self.position = len;
        }
    }

    /// Get the current character in the input, and step over it.
    /// Returns `None` if the end of the input is reached.
    pub fn next(&mut self) -> (ch: Option<char>)
        requires
            old(self).wf(),
        ensures
            final(self).input == old(self).input,
            ch == char_at(old(self).text(), old(self).position as int),
            final(self).position == if ch is Some {
                old(self).position + 1
            } else {
                old(self).position as int
            },
            final(self).wf(),
    {
        let ch = self.peek(0);
        self.advance(1);
        ch
    }

    /// Consumes `count` characters and returns a token of the specified
    /// kind that spans them.
    pub fn consume(&mut self, kind: TokenKind, count: usize) -> (token: Token)
        requires
            old(self).wf(),
            count > 0,
            old(self).position + count <= old(self).input.len(),
        ensures
            final(self).input == old(self).input,
            final(self).position == old(self).position + count,
            final(self).wf(),
            token.kind == kind,
            token.pos == (Span { start: old(self).position, end: final(self).position }),
    {
        let start = self.position;
        self.advance(count);
        Token::new(kind, start, count)
    }

    /// The characters at the offsets `start..end`, as a string.
    fn lexeme(&self, start: usize, end: usize) -> (s: String)
        requires
            start <= end <= self.input.len(),
        ensures
            s@ == self.text().subrange(start as int, end as int),
    {
        let mut s = String::new();
        let mut i: usize = start;
        while i < end
            invariant
                start <= i <= end <= self.input.len(),
                s@ == self.text().subrange(start as int, i as int),
            decreases end - i,
        {
            s.push(self.input[i]);
            i += 1;
            assert(s@ =~= self.text().subrange(start as int, i as int));
        }
        s
    }

    /// Whether the characters at the offsets `start..end` spell `word`.
    fn spells(&self, start: usize, end: usize, word: &str) -> (b: bool)
        requires
            start <= end <= self.input.len(),
        ensures
            b == (self.text().subrange(start as int, end as int) == word@),
    {
        let n = word.unicode_len();
        if end - start != n {
            return false;
        }
        let mut i: usize = 0;
        while i < n
            invariant
                start + n == end <= self.input.len(),
                n == word@.len(),
                i <= n,
                forall|j: int| 0 <= j < i ==> self.text()[start + j] == word@[j],
            decreases n - i,
        {
            if self.input[start + i] != word.get_char(i) {
                assert(self.text().subrange(start as int, end as int)[i as int] != word@[i as int]);
                return false;
            }
            i += 1;
        }
        assert(self.text().subrange(start as int, end as int) =~= word@);
        true
    }

    /// Reads a word from the input: the longest run of letters, digits and
    /// underscores that starts at the cursor, which comes to rest behind it.
    pub fn read_keyword(&mut self) -> (word: String)
        requires
            old(self).wf(),
        ensures
            final(self).input == old(self).input,
            final(self).position == word_end(old(self).text(), old(self).position as int),
            final(self).wf(),
            word@ == old(self).text().subrange(
                old(self).position as int,
                final(self).position as int,
            ),
    {
        let start = self.position;
        loop
            invariant
                self.input == old(self).input,
                start == old(self).position,
                start <= self.position <= self.input.len(),
                word_end(self.text(), self.position as int) == word_end(
                    self.text(),
                    start as int,
                ),
            ensures
                self.position == word_end(self.text(), start as int),
            decreases self.input.len() - self.position,
        {
            match self.peek(0) {
                Some(ch) if is_word_character(ch) => {
                    self.advance(1);
                },
                _ => {
                    break ;
                },
            }
        }
        self.lexeme(start, self.position)
    }

    /// Reads an integer literal from the input: the longest run of digits
    /// that starts at the cursor, which comes to rest behind it. The result is
    /// the value of the run; a run that is empty, or worth more than an
    /// `isize` holds, is handed back in the error, with its offset.
    pub fn read_integer(&mut self) -> (result: Result<isize, LexError>)
        requires
            old(self).wf(),
        ensures
            final(self).input == old(self).input,
            final(self).position == digits_end(old(self).text(), old(self).position as int),
            final(self).wf(),
            ({
                let digits = old(self).text().subrange(
                    old(self).position as int,
                    final(self).position as int,
                );
                match result {
                    Ok(value) => digits.len() > 0 && value == decimal_value(digits),
                    Err(error) => (digits.len() == 0 || decimal_value(digits) > isize::MAX)
                        && error@ == LexErrorView::IntegerLiteralError(
                        old(self).position,
                        digits,
                    ),
                }
            }),
    {
        let start = self.position;
        let mut value: isize = 0;
        let mut fits = true;
        loop
            invariant
                self.input == old(self).input,
                start == old(self).position,
                start <= self.position <= self.input.len(),
                digits_end(self.text(), self.position as int) == digits_end(
                    self.text(),
                    start as int,
                ),
                fits ==> value == decimal_value(
                    self.text().subrange(start as int, self.position as int),
                ),
                !fits ==> decimal_value(self.text().subrange(start as int, self.position as int))
                    > isize::MAX,
            ensures
                self.position == digits_end(self.text(), start as int),
            decreases self.input.len() - self.position,
        {
            match self.peek(0) {
                Some(ch) if is_decimal_digit(ch) => {
                    let ghost before = self.text().subrange(start as int, self.position as int);
                    let ghost after = self.text().subrange(
                        start as int,
                        self.position as int + 1,
                    );
                    assert(after.drop_last() =~= before);
                    assert(after.last() == ch);
                    if fits {
                        let digit = digit_to_value(ch) as isize;
                        match value.checked_mul(10) {
                            Some(tens) => match tens.checked_add(digit) {
                                Some(sum) => {
                                    value = sum;
                                },
                                None => {
                                    fits = false;
                                },
                            },
                            None => {
                                fits = false;
                            },
                        }
                    }
                    self.advance(1);
                },
                _ => {
                    break ;
                },
            }
        }
        if fits && self.position > start {
            Ok(value)
        } else {
            Err(LexError::IntegerLiteralError(start, self.lexeme(start, self.position)))
        }
    }

    /// Skips the line comment that starts at the cursor: the cursor comes to
    /// rest on the newline that ends it, or at the end of the input.
    fn skip_comment(&mut self)
        requires
            old(self).wf(),
        ensures
            final(self).input == old(self).input,
            final(self).position == line_end(old(self).text(), old(self).position as int),
            final(self).wf(),
    {
        loop
            invariant
                self.input == old(self).input,
                self.position <= self.input.len(),
                line_end(self.text(), self.position as int) == line_end(
                    self.text(),
                    old(self).position as int,
                ),
            ensures
                self.position == line_end(self.text(), old(self).position as int),
            decreases self.input.len() - self.position,
        {
            match self.peek(0) {
                Some(ch) if ch != '\n' => {
                    self.advance(1);
                },
                _ => {
                    break ;
                },
            }
        }
    }

    /// Reads the next token: passes over white space and line comments, then
    /// reads the token that follows, and leaves the cursor behind it. At the
    /// end of the input it returns the end marker, on every call.
    ///
    /// Where no token can be read the call fails. A character that starts
    /// none is left under the cursor; a literal too large for an `isize` is
    /// passed over.
    pub fn next_token(&mut self) -> (result: Result<Token, LexError>)
        requires
            old(self).wf(),
        ensures
            final(self).input == old(self).input,
            final(self).wf(),
            outcome(result) == scan(old(self).text(), old(self).position as int).result,
            final(self).position == scan(old(self).text(), old(self).position as int).cursor,
            old(self).position <= final(self).position,
            result matches Ok(token) ==> {
                let lexeme = old(self).text().subrange(
                    token.pos.start as int,
                    token.pos.end as int,
                );
                &&& token.pos.wf()
                &&& old(self).position <= token.pos.start
                &&& token.pos.end == final(self).position
                &&& lexeme.len() == token.pos.spec_len()
                &&& token.kind.is_fixed() ==> token.kind.text() == lexeme
                &&& token.kind matches TokenKind::Identifier(name) ==> name@ == lexeme
            },
    {
        proof {
            lemma_scan_cursor(self.text(), self.position as int);
            lemma_token_text(self.text(), self.position as int);
        }
        loop
            invariant
                self.input == old(self).input,
                self.position <= self.input.len(),
                skip_trivia(self.text(), self.position as int) == skip_trivia(
                    self.text(),
                    old(self).position as int,
                ),
            ensures
                self.input == old(self).input,
                self.position <= self.input.len(),
                self.position == skip_trivia(self.text(), old(self).position as int),
            decreases self.input.len() - self.position,
        {
            match self.peek(0) {
                Some(ch) if is_whitespace(ch) => {
                    self.advance(1);
                },
                Some('/') => {
                    match self.peek(1) {
                        Some('/') => {
                            proof {
                                lemma_line_end(self.text(), self.position as int + 1);
                            }
                            self.skip_comment();
                        },
                        _ => {
                            break ;
                        },
                    }
                },
                _ => {
                    break ;
                },
            }
        }
        let start = self.position;
        let Some(ch) = self.peek(0) else {
            return Ok(Token::new(TokenKind::Eof, start, 0));
        };
        let follows = self.peek(1);
        if ch == '(' {
            Ok(self.consume(TokenKind::LParen, 1))
        } else if ch == ')' {
            Ok(self.consume(TokenKind::RParen, 1))
        } else if ch == '[' {
            Ok(self.consume(TokenKind::LBracket, 1))
        } else if ch == ']' {
            Ok(self.consume(TokenKind::RBracket, 1))
        } else if ch == '{' {
            Ok(self.consume(TokenKind::LBrace, 1))
        } else if ch == '}' {
            Ok(self.consume(TokenKind::RBrace, 1))
        } else if ch == ',' {
            Ok(self.consume(TokenKind::Comma, 1))
        } else if ch == ':' {
            Ok(self.consume(TokenKind::Colon, 1))
        } else if ch == '=' {
            match follows {
                Some('=') => Ok(self.consume(TokenKind::Equals, 2)),
                _ => Ok(self.consume(TokenKind::Assign, 1)),
            }
        } else if ch == '+' {
            Ok(self.consume(TokenKind::Plus, 1))
        } else if ch == '-' {
            Ok(self.consume(TokenKind::Minus, 1))
        } else if ch == '*' {
            Ok(self.consume(TokenKind::Multiply, 1))
        } else if ch == '/' {
            Ok(self.consume(TokenKind::Divide, 1))
        } else if ch == '%' {
            Ok(self.consume(TokenKind::Modulus, 1))
        } else if ch == '<' {
            match follows {
                Some('=') => Ok(self.consume(TokenKind::LessThanOrEqual, 2)),
                _ => Ok(self.consume(TokenKind::LessThan, 1)),
            }
        } else if ch == '>' {
            match follows {
                Some('=') => Ok(self.consume(TokenKind::GreaterThanOrEqual, 2)),
                _ => Ok(self.consume(TokenKind::GreaterThan, 1)),
            }
        } else if ch == '&' {
            match follows {
                Some('&') => Ok(self.consume(TokenKind::And, 2)),
                _ => Err(LexError::UnexpectedCharacter(ch, start)),
            }
        } else if ch == '|' {
            match follows {
                Some('|') => Ok(self.consume(TokenKind::Or, 2)),
                _ => Err(LexError::UnexpectedCharacter(ch, start)),
            }
        } else if ch == '!' {
            match follows {
                Some('=') => Ok(self.consume(TokenKind::NotEquals, 2)),
                _ => Ok(self.consume(TokenKind::Not, 1)),
            }
        } else if is_alphabetic(ch) {
            let word = self.read_keyword();
            let end = self.position;
            let kind = if self.spells(start, end, "val") {
                TokenKind::Val
            } else if self.spells(start, end, "var") {
                TokenKind::Var
            } else if self.spells(start, end, "fn") {
                TokenKind::Fn
            } else {
                TokenKind::Identifier(word)
            };
            Ok(Token::new(kind, start, end - start))
        } else if is_decimal_digit(ch) {
            let read = self.read_integer();
            proof {
                lemma_digits_end(self.text(), start as int);
            }
            match read {
                Ok(value) => Ok(
                    Token::new(TokenKind::IntLiteral(value), start, self.position - start),
                ),
                Err(error) => Err(error),
            }
        } else {
            Err(LexError::UnexpectedCharacter(ch, start))
        }
    }
}

/// Scans the whole of `input`: the tokens in the order of the text, the
/// end marker last, or the first error that a scan meets.
pub fn tokenize(input: String) -> (result: Result<Vec<Token>, LexError>)
    ensures
        input@.len() <= usize::MAX,
        outcome_all(result) == scan_all(input@, 0),
        result matches Ok(tokens) ==> tokens@.len() > 0 && tokens@.last().kind == TokenKind::Eof,
{
    let mut lexer = Lexer::new(input);
    let mut tokens: Vec<Token> = Vec::new();
    loop
        invariant
            lexer.wf(),
            lexer.text() == input@,
            scan_all(input@, 0) == followed_by(
                views(tokens@),
                scan_all(input@, lexer.position as int),
            ),
        decreases lexer.input.len() - lexer.position,
    {
        let ghost at = lexer.position as int;
        let ghost before = tokens@;
        proof {
            lemma_scan_cursor(input@, at);
        }
        match lexer.next_token() {
            Ok(token) => {
                let done = matches!(token.kind, TokenKind::Eof);
                let ghost view = token@;
                tokens.push(token);
                proof {
                    assert(views(tokens@) =~= views(before) + seq![view]);
                    if let Ok(more) = scan_all(input@, lexer.position as int) {
                        assert(views(before) + (seq![view] + more) =~= views(tokens@) + more);
                    }
                }
                if done {
                    return Ok(tokens);
                }
            },
            Err(error) => {
                return Err(error);
            },
        }
    }
}

} // verus!
