//! A lexical scanner for a small expression-oriented language.
//!
//! The scanner turns raw source text (a byte slice of ASCII source) into an
//! ordered, lazily produced sequence of typed tokens, each carrying its
//! one-based line and column and its extent in characters. Whitespace is
//! consumed as trivia between tokens; a character that begins no token stops
//! the scan with an [`UnrecognizedCharacter`] error at that character.

mod laws;
mod model;
mod scanner;
mod token;

pub use laws::{
    lemma_newline_advances_line, lemma_scan_deterministic, lemma_single_letter_is_identifier,
    lemma_tokens_are_well_formed, lemma_trivia_only_yields_no_tokens,
    lemma_unrecognized_character_is_an_error,
};
pub use model::{
    column_at, cursor_after, identifier_end, is_digit, is_identifier_char, is_letter, is_trivia,
    CHAR_BRACE_CLOSE, CHAR_BRACE_OPEN, CHAR_CARRIAGE_RETURN, CHAR_COLON, CHAR_DIGIT_NINE,
    CHAR_DIGIT_ZERO, CHAR_EQUAL, CHAR_LOWER_A, CHAR_LOWER_Z, CHAR_MINUS, CHAR_NEWLINE,
    CHAR_PAREN_CLOSE, CHAR_PAREN_OPEN, CHAR_PLUS, CHAR_SLASH, CHAR_SPACE, CHAR_STAR, CHAR_TAB,
    CHAR_UPPER_A, CHAR_UPPER_Z,
    lemma_identifier_end_bounds, lemma_identifier_end_chars, lemma_position_across_run,
    lemma_position_bounds, lemma_step_advances, lemma_trivia_end_all, lemma_trivia_end_bounds,
    line_at, position_at,
    prepend_tokens, spec_scan, spec_step, starts_token, symbol_kind, token_end, token_kind_at,
    token_wf, trivia_end,
};
pub use scanner::{
    is_identifier_byte, is_letter_byte, is_trivia_byte, next_token, scan, symbol_token_kind,
    Cursor, Scanner,
};
pub use token::{Position, Token, TokenKind, UnrecognizedCharacter};
