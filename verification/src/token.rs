//! The token vocabulary of the scanner: token kinds, source positions,
//! tokens, and the error raised for a character that begins no token.

use vstd::prelude::*;

verus! {

/// The closed set of token kinds the scanner recognizes.
#[derive(Clone, Copy, Debug, PartialEq, Eq, Structural)]
pub enum TokenKind {
    /// An ASCII letter followed greedily by letters and digits.
    Identifier,
    /// The single character `(`.
    ParenOpen,
    /// The single character `)`.
    ParenClose,
    /// The single character `{`.
    BraceOpen,
    /// The single character `}`.
    BraceClose,
    /// The single character `:`.
    Colon,
    /// The single character `=`.
    Equal,
    /// The single character `+`.
    Plus,
    /// The single character `-`.
    Minus,
    /// The single character `*`.
    Star,
    /// The single character `/`.
    Slash,
}

/// The source position of a token: the one-based line and column of its
/// first character, and its extent in characters. Every emitted token has
/// `length >= 1`.
#[derive(Clone, Copy, Debug, PartialEq, Eq, Structural)]
pub struct Position {
    /// One-based line of the token's first character.
    pub line: usize,
    /// One-based column of the token's first character.
    pub column: usize,
    /// Number of characters the token covers.
    pub length: usize,
}

/// One recognized token. Its text is not copied: `start` and
/// `position.length` delimit the token's slice of the source text.
#[derive(Clone, Copy, Debug, PartialEq, Eq, Structural)]
pub struct Token {
    /// What kind of token was recognized.
    pub kind: TokenKind,
    /// Where in the source it stands and how far it extends.
    pub position: Position,
    /// Byte offset of the token's first character in the source text.
    pub start: usize,
}

/// The scanner's only error: the character at the cursor, after trivia was
/// skipped, begins no token. It carries the offending character and its
/// position (of length 1).
#[derive(Clone, Copy, Debug, PartialEq, Eq, Structural)]
pub struct UnrecognizedCharacter {
    /// The character that no recognizer matched.
    pub character: u8,
    /// Line and column of that character.
    pub position: Position,
}

impl Token {
    /// The token's text: the slice of the source text it was recognized in.
    pub fn text<'a>(&self, source: &'a [u8]) -> (r: &'a [u8])
        requires
            self.start + self.position.length <= source@.len(),
        ensures
            r@ == source@.subrange(
                self.start as int,
                self.start + self.position.length,
            ),
    {
        let n = source.len();
        assert(self.start + self.position.length <= n);
        vstd::slice::slice_subrange(source, self.start, self.start + self.position.length)
    }
}

} // verus!
