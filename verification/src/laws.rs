//! The guarantees the scanner gives as a whole, proved once and for all
//! over the model that the executable functions' contracts speak of.

use crate::model::{
    column_at, cursor_after, identifier_end, is_letter, is_trivia, lemma_identifier_end_bounds,
    lemma_position_bounds, lemma_step_advances, lemma_trivia_end_all, line_at, position_at,
    spec_scan, spec_step, starts_token, symbol_kind, token_wf, trivia_end, CHAR_NEWLINE,
};
use crate::token::{Position, Token, TokenKind, UnrecognizedCharacter};
use vstd::prelude::*;

verus! {

/// Scanning text that holds nothing but trivia (spaces, tabs, newlines and
/// carriage returns in any combination, including the empty text) yields no
/// tokens: the very first step reports the end of the text.
pub proof fn lemma_trivia_only_yields_no_tokens(src: Seq<u8>)
    requires
        forall|k: int| 0 <= k < src.len() ==> is_trivia(#[trigger] src[k]),
    ensures
        spec_step(src, 0) == Ok::<Option<Token>, UnrecognizedCharacter>(None),
        spec_scan(src, 0) == Ok::<Seq<Token>, UnrecognizedCharacter>(Seq::empty()),
{
    lemma_trivia_end_all(src, 0);
}

/// A text that is one single ASCII letter scans to exactly one
/// `Identifier` token of length 1 at line 1, column 1.
pub proof fn lemma_single_letter_is_identifier(src: Seq<u8>)
    requires
        src.len() == 1,
        is_letter(src[0]),
    ensures
        ({
            let token = Token {
                kind: TokenKind::Identifier,
                position: Position { line: 1, column: 1, length: 1 },
                start: 0,
            };
            spec_scan(src, 0) == Ok::<Seq<Token>, UnrecognizedCharacter>(seq![token])
        }),
{
    assert(trivia_end(src, 0) == 0);
    assert(identifier_end(src, 1) == 1);
    assert(identifier_end(src, 0) == 1);
    assert(trivia_end(src, 1) == 1);
    assert(spec_scan(src, 1) == Ok::<Seq<Token>, UnrecognizedCharacter>(Seq::empty()));
    let token = Token {
        kind: TokenKind::Identifier,
        position: Position { line: 1, column: 1, length: 1 },
        start: 0,
    };
    assert(spec_step(src, 0) == Ok::<Option<Token>, UnrecognizedCharacter>(Some(token)));
    assert(seq![token] + Seq::<Token>::empty() =~= seq![token]);
}

/// Consuming a newline moves the position to the start of the next line:
/// the line count grows by one and the column resets to 1.
pub proof fn lemma_newline_advances_line(src: Seq<u8>, i: int)
    requires
        0 <= i < src.len(),
        src[i] == CHAR_NEWLINE,
    ensures
        line_at(src, i + 1) == line_at(src, i) + 1,
        column_at(src, i + 1) == 1,
{
}

/// Scanning is deterministic: the outcome is a function of the source text
/// alone, so two scans of the same text — two fresh scanners over it —
/// agree token for token, position for position.
pub proof fn lemma_scan_deterministic(
    src: Seq<u8>,
    first: Result<Seq<Token>, UnrecognizedCharacter>,
    second: Result<Seq<Token>, UnrecognizedCharacter>,
)
    requires
        first == spec_scan(src, 0),
        second == spec_scan(src, 0),
    ensures
        first == second,
{
}

/// Every token a scan yields is well formed: it is exactly the token the
/// grammar recognizes at its start offset — at least one character long,
/// contained in the text, carrying that offset's line and column, and of
/// the kind its first character dispatches to. In particular the scanner
/// never produces a zero-length or otherwise malformed token.
pub proof fn lemma_tokens_are_well_formed(src: Seq<u8>, i: int, tokens: Seq<Token>)
    requires
        src.len() < usize::MAX,
        0 <= i <= src.len(),
        spec_scan(src, i) == Ok::<Seq<Token>, UnrecognizedCharacter>(tokens),
    ensures
        forall|k: int| 0 <= k < tokens.len() ==> token_wf(src, #[trigger] tokens[k]),
    decreases src.len() - i,
{
    lemma_step_advances(src, i);
    match spec_step(src, i) {
        Ok(None) => {
        },
        Ok(Some(token)) => {
            let j = trivia_end(src, i);
            assert(token_wf(src, token)) by {
                lemma_position_bounds(src, j);
                if symbol_kind(src[j]) is None {
                    lemma_identifier_end_bounds(src, j + 1);
                    assert(identifier_end(src, j) == identifier_end(src, j + 1));
                }
            }
            let rest = spec_scan(src, cursor_after(src, i));
            assert(rest is Ok && tokens == seq![token] + rest->Ok_0);
            lemma_tokens_are_well_formed(src, cursor_after(src, i), rest->Ok_0);
            assert forall|k: int| 0 <= k < tokens.len() implies token_wf(
                src,
                #[trigger] tokens[k],
            ) by {
                if k > 0 {
                    assert(tokens[k] == rest->Ok_0[k - 1]);
                }
            }
        },
        Err(_) => {
        },
    }
}

/// A character that begins no token — a digit in leading position, an
/// unlisted symbol, any character outside the enumerated classes — makes
/// the scan fail with `UnrecognizedCharacter` carrying that character and
/// its position, rather than absorbing it or yielding a malformed token.
pub proof fn lemma_unrecognized_character_is_an_error(src: Seq<u8>, i: int)
    requires
        0 <= i <= src.len(),
        trivia_end(src, i) < src.len(),
        !starts_token(src, trivia_end(src, i)),
    ensures
        ({
            let j = trivia_end(src, i);
            let e = UnrecognizedCharacter { character: src[j], position: position_at(src, j, 1) };
            spec_step(src, i) == Err::<Option<Token>, UnrecognizedCharacter>(e) && spec_scan(src, i)
                == Err::<Seq<Token>, UnrecognizedCharacter>(e)
        }),
{
}

} // verus!
