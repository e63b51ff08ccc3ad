//! The executable scanner: a cursor over borrowed source text, the
//! recognition of one token per pull, and a drain of the whole text.

use crate::model::{
    column_at, cursor_after, identifier_end, is_identifier_char, is_letter, is_trivia,
    lemma_identifier_end_bounds, lemma_identifier_end_chars, lemma_position_across_run,
    lemma_position_bounds, lemma_step_advances, line_at, prepend_tokens, spec_scan, spec_step,
    symbol_kind, trivia_end, CHAR_BRACE_CLOSE, CHAR_BRACE_OPEN, CHAR_CARRIAGE_RETURN, CHAR_COLON,
    CHAR_DIGIT_NINE, CHAR_DIGIT_ZERO, CHAR_EQUAL, CHAR_LOWER_A, CHAR_LOWER_Z, CHAR_MINUS,
    CHAR_NEWLINE, CHAR_PAREN_CLOSE, CHAR_PAREN_OPEN, CHAR_PLUS, CHAR_SLASH, CHAR_SPACE, CHAR_STAR,
    CHAR_TAB, CHAR_UPPER_A, CHAR_UPPER_Z,
};
use crate::token::{Position, Token, TokenKind, UnrecognizedCharacter};
use vstd::prelude::*;

verus! {

/// The scanner's read position: a byte offset into the source text together
/// with the one-based line and column of that offset.
#[derive(Clone, Copy, Debug, PartialEq, Eq, Structural)]
pub struct Cursor {
    /// Byte offset of the next unconsumed character.
    pub offset: usize,
    /// One-based line of that offset.
    pub line: usize,
    /// One-based column of that offset.
    pub column: usize,
}

impl Cursor {
    /// A well-formed cursor points into (or just past) the text and its
    /// line and column agree with counting newlines and intervening
    /// characters from the start of the text. The text is kept shorter than
    /// `usize::MAX` so that the counters cannot overflow.
    pub open spec fn wf(self, src: Seq<u8>) -> bool {
        &&& src.len() < usize::MAX
        &&& self.offset <= src.len()
        &&& self.line == line_at(src, self.offset as int)
        &&& self.column == column_at(src, self.offset as int)
    }

    /// The cursor at the start of the text: offset 0, line 1, column 1.
    pub fn start() -> (c: Cursor)
        ensures
            c == (Cursor { offset: 0, line: 1, column: 1 }),
    {
        Cursor { offset: 0, line: 1, column: 1 }
    }
}

/// Whether `c` is trivia (whitespace skipped between tokens).
pub fn is_trivia_byte(c: u8) -> (r: bool)
    ensures
        r == is_trivia(c),
{
    c == CHAR_SPACE || c == CHAR_TAB || c == CHAR_NEWLINE || c == CHAR_CARRIAGE_RETURN
}

/// Whether `c` is an ASCII letter.
pub fn is_letter_byte(c: u8) -> (r: bool)
    ensures
        r == is_letter(c),
{
    (CHAR_UPPER_A <= c && c <= CHAR_UPPER_Z) || (CHAR_LOWER_A <= c && c <= CHAR_LOWER_Z)
}

/// Whether `c` may continue an identifier: a letter or a digit.
pub fn is_identifier_byte(c: u8) -> (r: bool)
    ensures
        r == is_identifier_char(c),
{
    is_letter_byte(c) || (CHAR_DIGIT_ZERO <= c && c <= CHAR_DIGIT_NINE)
}

/// The token kind of a single-character symbol, or `None`.
pub fn symbol_token_kind(c: u8) -> (r: Option<TokenKind>)
    ensures
        r == symbol_kind(c),
{
    if c == CHAR_PAREN_OPEN {
        Some(TokenKind::ParenOpen)
    } else if c == CHAR_PAREN_CLOSE {
        Some(TokenKind::ParenClose)
    } else if c == CHAR_BRACE_OPEN {
        Some(TokenKind::BraceOpen)
    } else if c == CHAR_BRACE_CLOSE {
        Some(TokenKind::BraceClose)
    } else if c == CHAR_COLON {
        Some(TokenKind::Colon)
    } else if c == CHAR_EQUAL {
        Some(TokenKind::Equal)
    } else if c == CHAR_PLUS {
        Some(TokenKind::Plus)
    } else if c == CHAR_MINUS {
        Some(TokenKind::Minus)
    } else if c == CHAR_STAR {
        Some(TokenKind::Star)
    } else if c == CHAR_SLASH {
        Some(TokenKind::Slash)
    } else {
        None
    }
}

/// Consumes the trivia run at the cursor, keeping line and column in step:
/// a newline moves to the next line's first column, any other whitespace
/// advances the column.
fn skip_trivia(source: &[u8], cursor: Cursor) -> (r: Cursor)
    requires
        cursor.wf(source@),
    ensures
        r.wf(source@),
        r.offset as int == trivia_end(source@, cursor.offset as int),
{
    let mut cur = cursor;
    let ghost start: int = cursor.offset as int;
    while cur.offset < source.len() && is_trivia_byte(source[cur.offset])
        invariant
            cur.wf(source@),
            trivia_end(source@, start) == trivia_end(source@, cur.offset as int),
        decreases source@.len() - cur.offset,
    {
        proof {
            lemma_position_bounds(source@, cur.offset as int);
        }
        let c = source[cur.offset];
        if c == CHAR_NEWLINE {
            cur = Cursor { offset: cur.offset + 1, line: cur.line + 1, column: 1 };
        } else {
            cur = Cursor { offset: cur.offset + 1, line: cur.line, column: cur.column + 1 };
        }
    }
    cur
}

/// The greedy extent of the identifier whose first character stands at
/// `start`: the first index at or past `start` holding neither letter nor
/// digit.
fn identifier_extent(source: &[u8], start: usize) -> (end: usize)
    requires
        start <= source@.len(),
    ensures
        end as int == identifier_end(source@, start as int),
        start <= end <= source@.len(),
{
    let mut end = start;
    while end < source.len() && is_identifier_byte(source[end])
        invariant
            start <= end <= source@.len(),
            identifier_end(source@, start as int) == identifier_end(source@, end as int),
        decreases source@.len() - end,
    {
        end = end + 1;
    }
    end
}

/// Recognizes the token at the cursor, after skipping trivia: `Ok(None)` at
/// the end of the text, `Ok(Some(token))` when a recognizer matches, and
/// `Err(_)` when the character at the cursor begins no token. The returned
/// cursor stands past what was consumed; on an error it stands at the
/// offending character, which is never absorbed or skipped.
pub fn next_token(source: &[u8], cursor: Cursor) -> (r: (
    Cursor,
    Result<Option<Token>, UnrecognizedCharacter>,
))
    requires
        cursor.wf(source@),
    ensures
        r.0.wf(source@),
        r.0.offset as int == cursor_after(source@, cursor.offset as int),
        r.1 == spec_step(source@, cursor.offset as int),
{
    let cur = skip_trivia(source, cursor);
    if cur.offset == source.len() {
        return (cur, Ok(None));
    }
    let c = source[cur.offset];
    let start = cur.offset;
    let position = Position { line: cur.line, column: cur.column, length: 1 };
    proof {
        lemma_position_bounds(source@, start as int);
    }
    match symbol_token_kind(c) {
        Some(kind) => {
            let token = Token { kind, position, start };
            let after = Cursor { offset: start + 1, line: cur.line, column: cur.column + 1 };
            (after, Ok(Some(token)))
        },
        None => {
            if is_letter_byte(c) {
                let end = identifier_extent(source, start);
                proof {
                    lemma_identifier_end_bounds(source@, start as int + 1);
                    assert(identifier_end(source@, start as int) == identifier_end(
                        source@,
                        start as int + 1,
                    ));
                    lemma_identifier_end_chars(source@, start as int);
                    lemma_position_across_run(source@, start as int, end as int);
                }
                let length = end - start;
                let token = Token {
                    kind: TokenKind::Identifier,
                    position: Position { line: cur.line, column: cur.column, length },
                    start,
                };
                let after = Cursor { offset: end, line: cur.line, column: cur.column + length };
                (after, Ok(Some(token)))
            } else {
                (cur, Err(UnrecognizedCharacter { character: c, position }))
            }
        },
    }
}

/// A single-pass scanner over borrowed source text. Each call of [`next`]
/// recognizes one token and advances the cursor; once the text is drained
/// the scanner permanently yields nothing. A fresh scanner over the same
/// text scans it again from the start.
///
/// [`next`]: Scanner::next
pub struct Scanner<'a> {
    source: &'a [u8],
    cursor: Cursor,
}

impl<'a> Scanner<'a> {
    /// The source text the scanner reads, as a sequence of bytes.
    pub closed spec fn src(self) -> Seq<u8> {
        self.source@
    }

    /// The byte offset of the next unconsumed character.
    pub closed spec fn offset(self) -> int {
        self.cursor.offset as int
    }

    /// The scanner's cursor points into its text and carries the line and
    /// column that belong to its offset.
    pub closed spec fn wf(self) -> bool {
        self.cursor.wf(self.source@)
    }

    /// A scanner positioned at the start of `source` (line 1, column 1).
    /// The text must be shorter than `usize::MAX` so that line and column
    /// counters fit in a `usize`.
    pub fn new(source: &'a [u8]) -> (s: Scanner<'a>)
        requires
            source@.len() < usize::MAX,
        ensures
            s.wf(),
            s.src() == source@,
            s.offset() == 0,
    {
        Scanner { source, cursor: Cursor::start() }
    }

    /// Produces the next token: `Ok(Some(_))` for a recognized token,
    /// `Ok(None)` when the remaining text (after trivia) is empty, and
    /// `Err(_)` for a character that begins no token. After an error the
    /// cursor stays at the offending character; the scanner neither skips
    /// nor absorbs it, so a drained or failed scanner never fabricates a
    /// token.
    pub fn next(&mut self) -> (r: Result<Option<Token>, UnrecognizedCharacter>)
        requires
            old(self).wf(),
        ensures
            final(self).wf(),
            final(self).src() == old(self).src(),
            r == spec_step(old(self).src(), old(self).offset()),
            final(self).offset() == cursor_after(old(self).src(), old(self).offset()),
    {
        let (cur, r) = next_token(self.source, self.cursor);
        self.cursor = cur;
        r
    }
}

/// Drains a fresh scanner over `source`: the whole token sequence of the
/// text, or the first unrecognized character. The result is exactly
/// `spec_scan(source@, 0)`, a function of the text alone.
pub fn scan(source: &[u8]) -> (r: Result<Vec<Token>, UnrecognizedCharacter>)
    requires
        source@.len() < usize::MAX,
    ensures
        ({
            let s = spec_scan(source@, 0);
            match r {
                Ok(tokens) => s is Ok && tokens@ == s->Ok_0,
                Err(e) => s is Err && e == s->Err_0,
            }
        }),
{
    let mut scanner = Scanner::new(source);
    let mut tokens: Vec<Token> = Vec::new();
    proof {
        assert(Seq::<Token>::empty() + spec_scan(source@, 0)->Ok_0 =~= spec_scan(
            source@,
            0,
        )->Ok_0);
    }
    loop
        invariant
            scanner.wf(),
            scanner.src() == source@,
            0 <= scanner.offset() <= source@.len(),
            spec_scan(source@, 0) == prepend_tokens(tokens@, spec_scan(source@, scanner.offset())),
        decreases source@.len() - scanner.offset(),
    {
        let ghost at: int = scanner.offset();
        let step = scanner.next();
        proof {
            lemma_step_advances(source@, at);
        }
        match step {
            Ok(None) => {
                proof {
                    assert(spec_scan(source@, at) == Ok::<Seq<Token>, UnrecognizedCharacter>(
                        Seq::empty(),
                    ));
                    assert(tokens@ + Seq::<Token>::empty() =~= tokens@);
                }
                return Ok(tokens);
            },
            Ok(Some(token)) => {
                proof {
                    let rest = spec_scan(source@, cursor_after(source@, at));
                    if rest is Ok {
                        assert(tokens@ + (seq![token] + rest->Ok_0) =~= tokens@.push(token)
                            + rest->Ok_0);
                    }
                }
                tokens.push(token);
            },
            Err(e) => {
                return Err(e);
            },
        }
    }
}

} // verus!
