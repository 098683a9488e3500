//! The lexical grammar, as functions of a text and an offset into it.

use crate::chars::{is_digit, is_letter, is_space, is_word_char};
use crate::decimal::decimal_value;
use crate::error::LexErrorView;
use crate::span::Span;
use crate::tokens::{KindView, TokenKind, TokenView};
use vstd::prelude::*;

verus! {

/// The character at offset `at`, if the text reaches that far.
pub open spec fn char_at(text: Seq<char>, at: int) -> Option<char> {
    if 0 <= at < text.len() {
        Some(text[at])
    } else {
        None
    }
}

/// The first offset from `at` on that holds a newline, or the length of the
/// text where none follows.
pub open spec fn line_end(text: Seq<char>, at: int) -> int
    decreases text.len() - at,
{
    if 0 <= at < text.len() && text[at] != '\n' {
        line_end(text, at + 1)
    } else {
        at
    }
}

/// The first offset from `at` on that holds no word character, or the
/// length of the text.
pub open spec fn word_end(text: Seq<char>, at: int) -> int
    decreases text.len() - at,
{
    if 0 <= at < text.len() && is_word_char(text[at]) {
        word_end(text, at + 1)
    } else {
        at
    }
}

/// The first offset from `at` on that holds no digit, or the length of the
/// text.
pub open spec fn digits_end(text: Seq<char>, at: int) -> int
    decreases text.len() - at,
{
    if 0 <= at < text.len() && is_digit(text[at]) {
        digits_end(text, at + 1)
    } else {
        at
    }
}

/// Whether a line comment starts at `at`: two slashes in a row.
pub open spec fn comment_at(text: Seq<char>, at: int) -> bool {
    char_at(text, at) == Some('/') && char_at(text, at + 1) == Some('/')
}

/// The first offset from `at` on that lies neither in white space nor in a
/// line comment, or the length of the text. A comment runs up to the next
/// newline, which is white space itself.
pub open spec fn skip_trivia(text: Seq<char>, at: int) -> int
    decreases text.len() - at,
    via skip_trivia_decreases
{
    if 0 <= at < text.len() && is_space(text[at]) {
        skip_trivia(text, at + 1)
    } else if comment_at(text, at) {
        skip_trivia(text, line_end(text, at))
    } else {
        at
    }
}

#[via_fn]
proof fn skip_trivia_decreases(text: Seq<char>, at: int) {
    if comment_at(text, at) {
        lemma_line_end(text, at + 1);
    }
}

/// The punctuation mark or operator that starts at `at`, with its width in
/// characters; `None` where none starts there. Of two operators that start
/// alike the longer one wins.
pub open spec fn symbol_at(text: Seq<char>, at: int) -> Option<(TokenKind, int)> {
    let next = char_at(text, at + 1);
    match char_at(text, at) {
        Some('(') => Some((TokenKind::LParen, 1)),
        Some(')') => Some((TokenKind::RParen, 1)),
        Some('[') => Some((TokenKind::LBracket, 1)),
        Some(']') => Some((TokenKind::RBracket, 1)),
        Some('{') => Some((TokenKind::LBrace, 1)),
        Some('}') => Some((TokenKind::RBrace, 1)),
        Some(',') => Some((TokenKind::Comma, 1)),
        Some(':') => Some((TokenKind::Colon, 1)),
        Some('+') => Some((TokenKind::Plus, 1)),
        Some('-') => Some((TokenKind::Minus, 1)),
        Some('*') => Some((TokenKind::Multiply, 1)),
        Some('/') => Some((TokenKind::Divide, 1)),
        Some('%') => Some((TokenKind::Modulus, 1)),
        Some('=') => if next == Some('=') {
            Some((TokenKind::Equals, 2))
        } else {
            Some((TokenKind::Assign, 1))
        },
        Some('<') => if next == Some('=') {
            Some((TokenKind::LessThanOrEqual, 2))
        } else {
            Some((TokenKind::LessThan, 1))
        },
        Some('>') => if next == Some('=') {
            Some((TokenKind::GreaterThanOrEqual, 2))
        } else {
            Some((TokenKind::GreaterThan, 1))
        },
        Some('!') => if next == Some('=') {
            Some((TokenKind::NotEquals, 2))
        } else {
            Some((TokenKind::Not, 1))
        },
        Some('&') => if next == Some('&') {
            Some((TokenKind::And, 2))
        } else {
            None
        },
        Some('|') => if next == Some('|') {
            Some((TokenKind::Or, 2))
        } else {
            None
        },
        _ => None,
    }
}

/// The kind of a word: a keyword where the word is one, else an identifier
/// of that name.
pub open spec fn word_kind(word: Seq<char>) -> KindView {
    if word == "val"@ {
        KindView::Symbol(TokenKind::Val)
    } else if word == "var"@ {
        KindView::Symbol(TokenKind::Var)
    } else if word == "fn"@ {
        KindView::Symbol(TokenKind::Fn)
    } else {
        KindView::Identifier(word)
    }
}

/// The outcome of one scan: the token or the error, and the offset at which
/// the cursor comes to rest.
pub ghost struct Scan {
    pub result: Result<TokenView, LexErrorView>,
    pub cursor: int,
}

/// A token of kind `kind` over the offsets `start..end`, with the cursor
/// left at its end.
pub open spec fn token(kind: KindView, start: int, end: int) -> Scan {
    Scan {
        result: Ok(TokenView { kind, pos: Span { start: start as usize, end: end as usize } }),
        cursor: end,
    }
}

/// The token that starts at `start`, an offset that `skip_trivia` leaves
/// unchanged.
///
/// At the end of the text stands the end marker, of width zero. A symbol is
/// read as `symbol_at` says. A letter starts a word, which runs as far as
/// word characters follow. A digit starts a literal, which runs as far as
/// digits follow; where its value fits no `isize` the scan fails behind the
/// run. Any other character fails the scan where it stands.
pub open spec fn token_at(text: Seq<char>, start: int) -> Scan {
    if !(0 <= start < text.len()) {
        token(KindView::Symbol(TokenKind::Eof), start, start)
    } else if let Some((kind, width)) = symbol_at(text, start) {
        token(KindView::Symbol(kind), start, start + width)
    } else if is_letter(text[start]) {
        let end = word_end(text, start);
        token(word_kind(text.subrange(start, end)), start, end)
    } else if is_digit(text[start]) {
        let end = digits_end(text, start);
        let digits = text.subrange(start, end);
        if decimal_value(digits) <= isize::MAX {
            token(KindView::IntLiteral(decimal_value(digits) as int), start, end)
        } else {
            Scan {
                result: Err(LexErrorView::IntegerLiteralError(start as usize, digits)),
                cursor: end,
            }
        }
    } else {
        Scan {
            result: Err(LexErrorView::UnexpectedCharacter(text[start], start as usize)),
            cursor: start,
        }
    }
}

/// The scan that starts with the cursor at `at`: white space and comments
/// are passed over, and the token behind them is read.
pub open spec fn scan(text: Seq<char>, at: int) -> Scan {
    token_at(text, skip_trivia(text, at))
}

/// A run of tokens with the outcome of the scans that follow it: the run
/// and then their tokens, or their error.
pub open spec fn followed_by(
    tokens: Seq<TokenView>,
    rest: Result<Seq<TokenView>, LexErrorView>,
) -> Result<Seq<TokenView>, LexErrorView> {
    match rest {
        Ok(more) => Ok(tokens + more),
        Err(error) => Err(error),
    }
}

/// The scan of the whole text from `at` on: the tokens in the order of the
/// text, the end marker last and only there, or the first error met.
pub open spec fn scan_all(text: Seq<char>, at: int) -> Result<Seq<TokenView>, LexErrorView>
    decreases text.len() - at,
    when 0 <= at <= text.len() <= usize::MAX
    via scan_all_decreases
{
    match scan(text, at).result {
        Ok(tok) => if tok.kind == KindView::Symbol(TokenKind::Eof) {
            Ok(seq![tok])
        } else {
            followed_by(seq![tok], scan_all(text, scan(text, at).cursor))
        },
        Err(error) => Err(error),
    }
}

#[via_fn]
proof fn scan_all_decreases(text: Seq<char>, at: int) {
    lemma_scan_cursor(text, at);
}

/// `line_end` stays within the text and stops only at a newline or the end;
/// nothing before it is a newline.
pub proof fn lemma_line_end(text: Seq<char>, at: int)
    requires
        0 <= at <= text.len(),
    ensures
        at <= line_end(text, at) <= text.len(),
        char_at(text, line_end(text, at)) == Some('\n') || line_end(text, at) == text.len(),
        forall|i: int| at <= i < line_end(text, at) ==> text[i] != '\n',
    decreases text.len() - at,
{
    if at < text.len() && text[at] != '\n' {
        lemma_line_end(text, at + 1);
    }
}

/// `word_end` stays within the text; up to it stand word characters only,
/// and at it stands none.
pub proof fn lemma_word_end(text: Seq<char>, at: int)
    requires
        0 <= at <= text.len(),
    ensures
        at <= word_end(text, at) <= text.len(),
        forall|i: int| at <= i < word_end(text, at) ==> is_word_char(text[i]),
        word_end(text, at) < text.len() ==> !is_word_char(text[word_end(text, at)]),
    decreases text.len() - at,
{
    if at < text.len() && is_word_char(text[at]) {
        lemma_word_end(text, at + 1);
    }
}

/// `digits_end` stays within the text; up to it stand digits only, and at
/// it stands none.
pub proof fn lemma_digits_end(text: Seq<char>, at: int)
    requires
        0 <= at <= text.len(),
    ensures
        at <= digits_end(text, at) <= text.len(),
        forall|i: int| at <= i < digits_end(text, at) ==> is_digit(text[i]),
        digits_end(text, at) < text.len() ==> !is_digit(text[digits_end(text, at)]),
    decreases text.len() - at,
{
    if at < text.len() && is_digit(text[at]) {
        lemma_digits_end(text, at + 1);
    }
}

/// `skip_trivia` stays within the text, and what it stops at is neither
/// white space nor the start of a comment.
pub proof fn lemma_skip_trivia(text: Seq<char>, at: int)
    requires
        0 <= at <= text.len(),
    ensures
        at <= skip_trivia(text, at) <= text.len(),
        skip_trivia(text, at) < text.len() ==> !is_space(text[skip_trivia(text, at)]),
        !comment_at(text, skip_trivia(text, at)),
        skip_trivia(text, skip_trivia(text, at)) == skip_trivia(text, at),
    decreases text.len() - at,
{
    if at < text.len() && is_space(text[at]) {
        lemma_skip_trivia(text, at + 1);
    } else if comment_at(text, at) {
        lemma_line_end(text, at + 1);
        lemma_skip_trivia(text, line_end(text, at));
    }
}

/// Where a scan comes to rest. It never moves the cursor back nor past the
/// end of the text. A token starts where the white space and comments before
/// it end, and the cursor is left at its end; the end marker is empty and
/// stands at the end of the text; every other token holds a character at
/// least, so the cursor has moved.
pub proof fn lemma_scan_cursor(text: Seq<char>, at: int)
    requires
        0 <= at <= text.len() <= usize::MAX,
    ensures
        at <= scan(text, at).cursor <= text.len(),
        scan(text, at).result matches Ok(tok) ==> {
            &&& at <= tok.pos.start == skip_trivia(text, at)
            &&& tok.pos.end == scan(text, at).cursor
            &&& tok.kind == KindView::Symbol(TokenKind::Eof) ==> tok.pos.start == text.len()
            &&& tok.kind != KindView::Symbol(TokenKind::Eof) ==> tok.pos.start < tok.pos.end
        },
{
    let start = skip_trivia(text, at);
    lemma_skip_trivia(text, at);
    lemma_word_end(text, start);
    lemma_digits_end(text, start);
}

/// A scan depends on nothing but the text and the offset it starts at:
/// wherever two texts are the same, two scans from the same offset read the
/// same token or meet the same error, leave the cursor at the same place, and
/// so do the scans of the whole text.
pub proof fn lemma_scan_deterministic(first: Seq<char>, second: Seq<char>, at: int)
    requires
        first =~= second,
    ensures
        scan(first, at) == scan(second, at),
        scan_all(first, at) == scan_all(second, at),
{
}

/// An empty text holds the end marker over `0..0` and nothing else.
pub proof fn lemma_scan_empty(text: Seq<char>)
    requires
        text.len() == 0,
    ensures
        scan(text, 0) == token(KindView::Symbol(TokenKind::Eof), 0, 0),
        scan_all(text, 0) == Ok::<Seq<TokenView>, LexErrorView>(
            seq![
                TokenView {
                    kind: KindView::Symbol(TokenKind::Eof),
                    pos: Span { start: 0, end: 0 },
                },
            ],
        ),
{
}

/// Once the end marker has been read, every further scan reads it again
/// and leaves the cursor where it is.
pub proof fn lemma_scan_end_repeats(text: Seq<char>, at: int)
    requires
        0 <= at <= text.len() <= usize::MAX,
        scan(text, at).result matches Ok(tok) && tok.kind == KindView::Symbol(TokenKind::Eof),
    ensures
        scan(text, at).cursor == text.len(),
        scan(text, scan(text, at).cursor) == scan(text, at),
{
    lemma_scan_cursor(text, at);
    lemma_skip_trivia(text, at);
}

/// The shape of a whole scan that succeeds. The end marker comes last,
/// empty and at the end of the text, and nowhere before. Every token lies
/// within the text, from `at` on, and each starts where the one before it
/// has ended or later.
pub proof fn lemma_scan_all_in_order(text: Seq<char>, at: int)
    requires
        0 <= at <= text.len() <= usize::MAX,
    ensures
        scan_all(text, at) matches Ok(tokens) ==> {
            &&& tokens.len() > 0
            &&& tokens.last().kind == KindView::Symbol(TokenKind::Eof)
            &&& tokens.last().pos.start == text.len()
            &&& forall|i: int|
                0 <= i < tokens.len() - 1 ==> (#[trigger] tokens[i]).kind != KindView::Symbol(
                    TokenKind::Eof,
                )
            &&& forall|i: int|
                0 <= i < tokens.len() ==> at <= (#[trigger] tokens[i]).pos.start
                    <= tokens[i].pos.end <= text.len()
            &&& forall|i: int, j: int|
                0 <= i < j < tokens.len() ==> (#[trigger] tokens[i]).pos.end
                    <= (#[trigger] tokens[j]).pos.start
        },
    decreases text.len() - at,
{
    lemma_scan_cursor(text, at);
    if let Ok(tok) = scan(text, at).result {
        if tok.kind != KindView::Symbol(TokenKind::Eof) {
            let cursor = scan(text, at).cursor;
            lemma_scan_all_in_order(text, cursor);
            if let Ok(rest) = scan_all(text, cursor) {
                let tokens = seq![tok] + rest;
                assert(scan_all(text, at) == Ok::<Seq<TokenView>, LexErrorView>(tokens));
                assert(tokens[0] == tok);
                assert forall|i: int| 1 <= i < tokens.len() implies #[trigger] tokens[i] == rest[i
                    - 1] by {}
                assert(tokens.last() == rest.last());
            }
        }
    }
}

/// A token reads back as the text it was read from. The canonical text of
/// a keyword, a punctuation mark or an operator is the very text that its
/// span covers, and so is the name of an identifier; the value of a literal
/// is that of the digits that its span covers.
pub proof fn lemma_token_text(text: Seq<char>, at: int)
    requires
        0 <= at <= text.len() <= usize::MAX,
    ensures
        scan(text, at).result matches Ok(tok) ==> {
            let lexeme = text.subrange(tok.pos.start as int, tok.pos.end as int);
            &&& lexeme.len() == tok.pos.spec_len()
            &&& match tok.kind {
                KindView::Symbol(kind) => kind.is_fixed() ==> kind.text() == lexeme,
                KindView::Identifier(name) => name == lexeme,
                KindView::IntLiteral(value) => value == decimal_value(lexeme),
            }
        },
{
    let start = skip_trivia(text, at);
    lemma_skip_trivia(text, at);
    lemma_scan_cursor(text, at);
    if start < text.len() {
        if let Some((kind, width)) = symbol_at(text, start) {
            let lexeme = text.subrange(start, start + width);
            assert(lexeme.len() == width);
            assert(lexeme[0] == text[start]);
            assert(width == 2 ==> lexeme[1] == text[start + 1]);
            reveal_strlit("(");
            reveal_strlit(")");
            reveal_strlit("[");
            reveal_strlit("]");
            reveal_strlit("{");
            reveal_strlit("}");
            reveal_strlit(",");
            reveal_strlit(":");
            reveal_strlit("=");
            reveal_strlit("+");
            reveal_strlit("-");
            reveal_strlit("*");
            reveal_strlit("/");
            reveal_strlit("%");
            reveal_strlit("==");
            reveal_strlit("!=");
            reveal_strlit("<");
            reveal_strlit(">");
            reveal_strlit("<=");
            reveal_strlit(">=");
            reveal_strlit("&&");
            reveal_strlit("||");
            reveal_strlit("!");
            assert(kind.text() =~= lexeme);
        }
    }
}

} // verus!
