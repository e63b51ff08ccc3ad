//! The mathematical model of scanning: character classes, the extent of
//! trivia runs and identifiers, line/column bookkeeping, the outcome of one
//! recognition step, and the token sequence of a whole source text.

use crate::token::{Position, Token, TokenKind, UnrecognizedCharacter};
use vstd::prelude::*;

verus! {

/// ASCII code of the horizontal tab.
pub const CHAR_TAB: u8 = 9;

/// ASCII code of the newline.
pub const CHAR_NEWLINE: u8 = 10;

/// ASCII code of the carriage return.
pub const CHAR_CARRIAGE_RETURN: u8 = 13;

/// ASCII code of the space.
pub const CHAR_SPACE: u8 = 32;

/// ASCII code of `(`.
pub const CHAR_PAREN_OPEN: u8 = 40;

/// ASCII code of `)`.
pub const CHAR_PAREN_CLOSE: u8 = 41;

/// ASCII code of `*`.
pub const CHAR_STAR: u8 = 42;

/// ASCII code of `+`.
pub const CHAR_PLUS: u8 = 43;

/// ASCII code of `-`.
pub const CHAR_MINUS: u8 = 45;

/// ASCII code of `/`.
pub const CHAR_SLASH: u8 = 47;

/// ASCII code of `0`, the first digit.
pub const CHAR_DIGIT_ZERO: u8 = 48;

/// ASCII code of `9`, the last digit.
pub const CHAR_DIGIT_NINE: u8 = 57;

/// ASCII code of `:`.
pub const CHAR_COLON: u8 = 58;

/// ASCII code of `=`.
pub const CHAR_EQUAL: u8 = 61;

/// ASCII code of `A`, the first upper-case letter.
pub const CHAR_UPPER_A: u8 = 65;

/// ASCII code of `Z`, the last upper-case letter.
pub const CHAR_UPPER_Z: u8 = 90;

/// ASCII code of `a`, the first lower-case letter.
pub const CHAR_LOWER_A: u8 = 97;

/// ASCII code of `z`, the last lower-case letter.
pub const CHAR_LOWER_Z: u8 = 122;

/// ASCII code of `{`.
pub const CHAR_BRACE_OPEN: u8 = 123;

/// ASCII code of `}`.
pub const CHAR_BRACE_CLOSE: u8 = 125;

/// Trivia: whitespace consumed between tokens (space, tab, newline,
/// carriage return).
pub open spec fn is_trivia(c: u8) -> bool {
    c == CHAR_SPACE || c == CHAR_TAB || c == CHAR_NEWLINE || c == CHAR_CARRIAGE_RETURN
}

/// An ASCII letter, the only character an identifier may start with.
pub open spec fn is_letter(c: u8) -> bool {
    (CHAR_UPPER_A <= c && c <= CHAR_UPPER_Z) || (CHAR_LOWER_A <= c && c <= CHAR_LOWER_Z)
}

/// An ASCII digit.
pub open spec fn is_digit(c: u8) -> bool {
    CHAR_DIGIT_ZERO <= c && c <= CHAR_DIGIT_NINE
}

/// A character that may continue an identifier: a letter or a digit.
pub open spec fn is_identifier_char(c: u8) -> bool {
    is_letter(c) || is_digit(c)
}

/// The token kind of a single-character symbol, or `None` for any other
/// character.
pub open spec fn symbol_kind(c: u8) -> Option<TokenKind> {
    if c == CHAR_PAREN_OPEN {
        Some(TokenKind::ParenOpen)
    } else if c == CHAR_PAREN_CLOSE {
        Some(TokenKind::ParenClose)
    } else if c == CHAR_BRACE_OPEN {
        Some(TokenKind::BraceOpen)
    } else if c == CHAR_BRACE_CLOSE {
        Some(TokenKind::BraceClose)
    } else if c == CHAR_COLON {
        Some(TokenKind::Colon)
    } else if c == CHAR_EQUAL {
        Some(TokenKind::Equal)
    } else if c == CHAR_PLUS {
        Some(TokenKind::Plus)
    } else if c == CHAR_MINUS {
        Some(TokenKind::Minus)
    } else if c == CHAR_STAR {
        Some(TokenKind::Star)
    } else if c == CHAR_SLASH {
        Some(TokenKind::Slash)
    } else {
        None
    }
}

/// The first index at or after `i` that holds no trivia (or the end of the
/// text): the cursor position after skipping whitespace.
pub open spec fn trivia_end(src: Seq<u8>, i: int) -> int
    decreases src.len() - i,
{
    if 0 <= i < src.len() && is_trivia(src[i]) {
        trivia_end(src, i + 1)
    } else {
        i
    }
}

/// The first index at or after `i` that holds no identifier character (or
/// the end of the text): the greedy extent of an identifier starting at `i`.
pub open spec fn identifier_end(src: Seq<u8>, i: int) -> int
    decreases src.len() - i,
{
    if 0 <= i < src.len() && is_identifier_char(src[i]) {
        identifier_end(src, i + 1)
    } else {
        i
    }
}

/// The one-based line of offset `i`: one more than the number of newlines
/// before `i`.
pub open spec fn line_at(src: Seq<u8>, i: int) -> int
    decreases i,
{
    if i <= 0 {
        1
    } else if src[i - 1] == CHAR_NEWLINE {
        line_at(src, i - 1) + 1
    } else {
        line_at(src, i - 1)
    }
}

/// The one-based column of offset `i`: one more than the number of
/// characters between the last newline before `i` and `i` itself.
pub open spec fn column_at(src: Seq<u8>, i: int) -> int
    decreases i,
{
    if i <= 0 {
        1
    } else if src[i - 1] == CHAR_NEWLINE {
        1
    } else {
        column_at(src, i - 1) + 1
    }
}

/// The position of a token (or error character) of the given length
/// starting at offset `i`.
pub open spec fn position_at(src: Seq<u8>, i: int, length: int) -> Position {
    Position { line: line_at(src, i) as usize, column: column_at(src, i) as usize, length: length as usize }
}

/// Whether some recognizer matches at offset `j`: a symbol character or a
/// letter opening an identifier. Symbols are tried first; the two classes
/// are disjoint, so the order settles nothing.
pub open spec fn starts_token(src: Seq<u8>, j: int) -> bool {
    symbol_kind(src[j]) is Some || is_letter(src[j])
}

/// The kind of the token recognized at offset `j`, assuming one matches.
pub open spec fn token_kind_at(src: Seq<u8>, j: int) -> TokenKind {
    match symbol_kind(src[j]) {
        Some(kind) => kind,
        None => TokenKind::Identifier,
    }
}

/// The first index past the token recognized at offset `j`, assuming one
/// matches: one character for a symbol, the greedy identifier extent
/// otherwise.
pub open spec fn token_end(src: Seq<u8>, j: int) -> int {
    if symbol_kind(src[j]) is Some {
        j + 1
    } else {
        identifier_end(src, j)
    }
}

/// The outcome of one recognition step at cursor offset `i`: skip trivia,
/// then either the end of the text (`Ok(None)`), one recognized token
/// (`Ok(Some(_))`), or an unrecognized character (`Err(_)`).
pub open spec fn spec_step(src: Seq<u8>, i: int) -> Result<Option<Token>, UnrecognizedCharacter> {
    let j = trivia_end(src, i);
    if j >= src.len() {
        Ok(None)
    } else if starts_token(src, j) {
        Ok(
            Some(
                Token {
                    kind: token_kind_at(src, j),
                    position: position_at(src, j, token_end(src, j) - j),
                    start: j as usize,
                },
            ),
        )
    } else {
        Err(UnrecognizedCharacter { character: src[j], position: position_at(src, j, 1) })
    }
}

/// The cursor offset after one recognition step at offset `i`: past the
/// trivia and the recognized token, or at the offending character when the
/// step fails (the scanner does not skip past it).
pub open spec fn cursor_after(src: Seq<u8>, i: int) -> int {
    let j = trivia_end(src, i);
    if j >= src.len() {
        j
    } else if starts_token(src, j) {
        token_end(src, j)
    } else {
        j
    }
}

/// Skipping trivia never moves the cursor backwards or past the end.
pub proof fn lemma_trivia_end_bounds(src: Seq<u8>, i: int)
    requires
        0 <= i <= src.len(),
    ensures
        i <= trivia_end(src, i) <= src.len(),
    decreases src.len() - i,
{
    if i < src.len() && is_trivia(src[i]) {
        lemma_trivia_end_bounds(src, i + 1);
    }
}

/// When the whole rest of the text is trivia, skipping it reaches the end.
pub proof fn lemma_trivia_end_all(src: Seq<u8>, i: int)
    requires
        0 <= i <= src.len(),
        forall|k: int| i <= k < src.len() ==> is_trivia(src[k]),
    ensures
        trivia_end(src, i) == src.len(),
    decreases src.len() - i,
{
    if i < src.len() {
        assert(is_trivia(src[i]));
        lemma_trivia_end_all(src, i + 1);
    }
}

/// An identifier's extent never moves the cursor backwards or past the end.
pub proof fn lemma_identifier_end_bounds(src: Seq<u8>, i: int)
    requires
        0 <= i <= src.len(),
    ensures
        i <= identifier_end(src, i) <= src.len(),
    decreases src.len() - i,
{
    if i < src.len() && is_identifier_char(src[i]) {
        lemma_identifier_end_bounds(src, i + 1);
    }
}

/// Everything up to an identifier's extent is an identifier character, and
/// the character at the extent (if any) is not: the extent is greedy.
pub proof fn lemma_identifier_end_chars(src: Seq<u8>, i: int)
    requires
        0 <= i <= src.len(),
    ensures
        forall|k: int| i <= k < identifier_end(src, i) ==> is_identifier_char(#[trigger] src[k]),
        identifier_end(src, i) < src.len() ==> !is_identifier_char(src[identifier_end(src, i)]),
    decreases src.len() - i,
{
    if i < src.len() && is_identifier_char(src[i]) {
        lemma_identifier_end_chars(src, i + 1);
    }
}

/// Line and column stay within one of the offset itself, which keeps the
/// counters within `usize` for any text shorter than `usize::MAX`.
pub proof fn lemma_position_bounds(src: Seq<u8>, i: int)
    requires
        0 <= i,
    ensures
        1 <= line_at(src, i) <= i + 1,
        1 <= column_at(src, i) <= i + 1,
    decreases i,
{
    if i > 0 {
        lemma_position_bounds(src, i - 1);
    }
}

/// Crossing a run free of newlines keeps the line and advances the column
/// by exactly the run's length.
pub proof fn lemma_position_across_run(src: Seq<u8>, i: int, j: int)
    requires
        0 <= i <= j <= src.len(),
        forall|k: int| i <= k < j ==> #[trigger] src[k] != CHAR_NEWLINE,
    ensures
        line_at(src, j) == line_at(src, i),
        column_at(src, j) == column_at(src, i) + (j - i),
    decreases j - i,
{
    if i < j {
        lemma_position_across_run(src, i, j - 1);
    }
}

/// A recognition step never moves the cursor backwards or past the end of
/// the text, and a step that recognizes a token moves it strictly forward.
pub proof fn lemma_step_advances(src: Seq<u8>, i: int)
    requires
        0 <= i <= src.len(),
    ensures
        i <= cursor_after(src, i) <= src.len(),
        spec_step(src, i) == Ok::<Option<Token>, UnrecognizedCharacter>(None) ==> cursor_after(
            src,
            i,
        ) == src.len(),
        (spec_step(src, i) is Ok && spec_step(src, i)->Ok_0 is Some) ==> i < cursor_after(src, i),
{
    lemma_trivia_end_bounds(src, i);
    let j = trivia_end(src, i);
    if j < src.len() && starts_token(src, j) {
        if symbol_kind(src[j]) is Some {
        } else {
            lemma_identifier_end_bounds(src, j + 1);
            assert(identifier_end(src, j) == identifier_end(src, j + 1));
        }
    }
}

/// The token sequence of the text from offset `i` on: one recognized token
/// after another, cut off at the end of the text. The sequence is only
/// spoken of where the whole scan succeeds; see `spec_scan`.
pub open spec fn spec_scan(src: Seq<u8>, i: int) -> Result<Seq<Token>, UnrecognizedCharacter>
    decreases src.len() - i,
        when 0 <= i <= src.len()
{
    match spec_step(src, i) {
        Ok(None) => Ok(Seq::empty()),
        Ok(Some(t)) => {
            proof {
                lemma_step_advances(src, i);
            }
            match spec_scan(src, cursor_after(src, i)) {
                Ok(rest) => Ok(seq![t] + rest),
                Err(e) => Err(e),
            }
        },
        Err(e) => Err(e),
    }
}

/// A well-formed token is exactly what the grammar recognizes at its start
/// offset: some recognizer matches there, the token reaches that
/// recognizer's greedy extent (at least one character) without leaving the
/// text, it carries the line and column of its start offset, and its kind
/// is the one the dispatch gives its first character.
pub open spec fn token_wf(src: Seq<u8>, t: Token) -> bool {
    &&& starts_token(src, t.start as int)
    &&& t.start + t.position.length <= src.len()
    &&& t.position.length == token_end(src, t.start as int) - t.start
    &&& t.position.length >= 1
    &&& t.position.line == line_at(src, t.start as int)
    &&& t.position.column == column_at(src, t.start as int)
    &&& t.kind == token_kind_at(src, t.start as int)
}

/// A successful scan prefixed with already-recognized tokens; an error
/// swallows the prefix, as a failed scan yields no tokens at all.
pub open spec fn prepend_tokens(
    front: Seq<Token>,
    rest: Result<Seq<Token>, UnrecognizedCharacter>,
) -> Result<Seq<Token>, UnrecognizedCharacter> {
    match rest {
        Ok(tokens) => Ok(front + tokens),
        Err(e) => Err(e),
    }
}

} // verus!
