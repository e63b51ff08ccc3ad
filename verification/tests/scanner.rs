use yuri_lexer::{scan, Cursor, Position, Scanner, Token, TokenKind, UnrecognizedCharacter};

fn token(kind: TokenKind, line: usize, column: usize, length: usize, start: usize) -> Token {
    Token { kind, position: Position { line, column, length }, start }
}

#[test]
fn empty_input_yields_no_tokens() {
    assert_eq!(scan(b""), Ok(vec![]));
    let mut scanner = Scanner::new(b"");
    assert_eq!(scanner.next(), Ok(None));
}

#[test]
fn whitespace_only_yields_no_tokens() {
    assert_eq!(scan(b" "), Ok(vec![]));
    assert_eq!(scan(b"\t"), Ok(vec![]));
    assert_eq!(scan(b"\n"), Ok(vec![]));
    assert_eq!(scan(b"\r"), Ok(vec![]));
    assert_eq!(scan(b" \t\r\n \t \r\n\n  "), Ok(vec![]));
    let mut scanner = Scanner::new(b" \t\r\n \t \r\n\n  ");
    assert_eq!(scanner.next(), Ok(None));
}

#[test]
fn single_letter_is_an_identifier() {
    assert_eq!(
        scan(b"q"),
        Ok(vec![token(TokenKind::Identifier, 1, 1, 1, 0)])
    );
    assert_eq!(
        scan(b"Z"),
        Ok(vec![token(TokenKind::Identifier, 1, 1, 1, 0)])
    );
}

#[test]
fn expression_scans_to_the_expected_sequence() {
    let source = b"abc123 + (x)";
    assert_eq!(
        scan(source),
        Ok(vec![
            token(TokenKind::Identifier, 1, 1, 6, 0),
            token(TokenKind::Plus, 1, 8, 1, 7),
            token(TokenKind::ParenOpen, 1, 10, 1, 9),
            token(TokenKind::Identifier, 1, 11, 1, 10),
            token(TokenKind::ParenClose, 1, 12, 1, 11),
        ])
    );
}

#[test]
fn token_text_is_the_recognized_slice() {
    let source = b"abc123 + (x)";
    let tokens = scan(source).unwrap();
    assert_eq!(tokens[0].text(source), b"abc123");
    assert_eq!(tokens[1].text(source), b"+");
    assert_eq!(tokens[2].text(source), b"(");
    assert_eq!(tokens[3].text(source), b"x");
    assert_eq!(tokens[4].text(source), b")");
}

#[test]
fn newline_increments_line_and_resets_column() {
    assert_eq!(
        scan(b"a\nb"),
        Ok(vec![
            token(TokenKind::Identifier, 1, 1, 1, 0),
            token(TokenKind::Identifier, 2, 1, 1, 2),
        ])
    );
}

#[test]
fn carriage_return_counts_as_a_column() {
    assert_eq!(
        scan(b"a\r\nb"),
        Ok(vec![
            token(TokenKind::Identifier, 1, 1, 1, 0),
            token(TokenKind::Identifier, 2, 1, 1, 3),
        ])
    );
}

#[test]
fn lines_and_columns_track_across_several_lines() {
    assert_eq!(
        scan(b"{\n  x\n}"),
        Ok(vec![
            token(TokenKind::BraceOpen, 1, 1, 1, 0),
            token(TokenKind::Identifier, 2, 3, 1, 4),
            token(TokenKind::BraceClose, 3, 1, 1, 6),
        ])
    );
}

#[test]
fn every_symbol_is_recognized() {
    let kinds = [
        TokenKind::ParenOpen,
        TokenKind::ParenClose,
        TokenKind::BraceOpen,
        TokenKind::BraceClose,
        TokenKind::Colon,
        TokenKind::Equal,
        TokenKind::Plus,
        TokenKind::Minus,
        TokenKind::Star,
        TokenKind::Slash,
    ];
    let tokens = scan(b"(){}:=+-*/").unwrap();
    assert_eq!(tokens.len(), 10);
    for (i, t) in tokens.iter().enumerate() {
        assert_eq!(t.kind, kinds[i]);
        assert_eq!(t.position, Position { line: 1, column: i + 1, length: 1 });
        assert_eq!(t.start, i);
    }
}

#[test]
fn leading_digit_is_unrecognized() {
    assert_eq!(
        scan(b"1abc"),
        Err(UnrecognizedCharacter {
            character: b'1',
            position: Position { line: 1, column: 1, length: 1 },
        })
    );
}

#[test]
fn unlisted_characters_are_unrecognized() {
    for &c in &[b';', b'#', b'.', b'"', b'7', 0x80u8] {
        assert_eq!(
            scan(&[c]),
            Err(UnrecognizedCharacter {
                character: c,
                position: Position { line: 1, column: 1, length: 1 },
            })
        );
    }
}

#[test]
fn error_carries_the_position_of_the_offending_character() {
    assert_eq!(
        scan(b"ab ;"),
        Err(UnrecognizedCharacter {
            character: b';',
            position: Position { line: 1, column: 4, length: 1 },
        })
    );
    assert_eq!(
        scan(b"a\n 5"),
        Err(UnrecognizedCharacter {
            character: b'5',
            position: Position { line: 2, column: 2, length: 1 },
        })
    );
}

#[test]
fn trivia_around_a_token_is_skipped() {
    assert_eq!(
        scan(b"  x  "),
        Ok(vec![token(TokenKind::Identifier, 1, 3, 1, 2)])
    );
}

#[test]
fn identifier_extends_to_the_end_of_input() {
    assert_eq!(
        scan(b"ab"),
        Ok(vec![token(TokenKind::Identifier, 1, 1, 2, 0)])
    );
}

#[test]
fn identifier_stops_before_a_symbol() {
    assert_eq!(
        scan(b"ab+cd"),
        Ok(vec![
            token(TokenKind::Identifier, 1, 1, 2, 0),
            token(TokenKind::Plus, 1, 3, 1, 2),
            token(TokenKind::Identifier, 1, 4, 2, 3),
        ])
    );
}

#[test]
fn scanning_twice_gives_identical_sequences() {
    let source = b"let x = (a1 + b2) * c3 / d4 - e5\n{ y : z }";
    let first = scan(source);
    let second = scan(source);
    assert_eq!(first, second);
    assert!(first.is_ok());
}

#[test]
fn pulling_tokens_one_by_one_matches_a_full_scan() {
    let source = b"abc123 + (x)\n{ y : z } - * /";
    let expected = scan(source).unwrap();
    let mut scanner = Scanner::new(source);
    let mut pulled = Vec::new();
    loop {
        match scanner.next() {
            Ok(Some(t)) => pulled.push(t),
            Ok(None) => break,
            Err(e) => panic!("unexpected scan error: {:?}", e),
        }
    }
    assert_eq!(pulled, expected);
}

#[test]
fn a_drained_scanner_stays_drained() {
    let mut scanner = Scanner::new(b"x");
    assert_eq!(scanner.next(), Ok(Some(token(TokenKind::Identifier, 1, 1, 1, 0))));
    assert_eq!(scanner.next(), Ok(None));
    assert_eq!(scanner.next(), Ok(None));
}

#[test]
fn next_token_steps_a_cursor_through_the_text() {
    let source = b" a=";
    let cursor = Cursor::start();
    assert_eq!(cursor, Cursor { offset: 0, line: 1, column: 1 });

    let (cursor, first) = yuri_lexer::next_token(source, cursor);
    assert_eq!(first, Ok(Some(token(TokenKind::Identifier, 1, 2, 1, 1))));
    assert_eq!(cursor, Cursor { offset: 2, line: 1, column: 3 });

    let (cursor, second) = yuri_lexer::next_token(source, cursor);
    assert_eq!(second, Ok(Some(token(TokenKind::Equal, 1, 3, 1, 2))));
    assert_eq!(cursor, Cursor { offset: 3, line: 1, column: 4 });

    let (cursor, third) = yuri_lexer::next_token(source, cursor);
    assert_eq!(third, Ok(None));
    assert_eq!(cursor.offset, 3);
}

#[test]
fn an_error_leaves_the_cursor_at_the_offending_character() {
    let source = b"x ?";
    let cursor = Cursor::start();
    let (cursor, first) = yuri_lexer::next_token(source, cursor);
    assert_eq!(first, Ok(Some(token(TokenKind::Identifier, 1, 1, 1, 0))));
    let (cursor, second) = yuri_lexer::next_token(source, cursor);
    assert_eq!(
        second,
        Err(UnrecognizedCharacter {
            character: b'?',
            position: Position { line: 1, column: 3, length: 1 },
        })
    );
    assert_eq!(cursor, Cursor { offset: 2, line: 1, column: 3 });
}

#[test]
fn character_classifiers_match_their_classes() {
    assert!(yuri_lexer::is_trivia_byte(b' '));
    assert!(yuri_lexer::is_trivia_byte(b'\t'));
    assert!(yuri_lexer::is_trivia_byte(b'\n'));
    assert!(yuri_lexer::is_trivia_byte(b'\r'));
    assert!(!yuri_lexer::is_trivia_byte(b'a'));
    assert!(yuri_lexer::is_letter_byte(b'A'));
    assert!(yuri_lexer::is_letter_byte(b'z'));
    assert!(!yuri_lexer::is_letter_byte(b'0'));
    assert!(yuri_lexer::is_identifier_byte(b'5'));
    assert!(!yuri_lexer::is_identifier_byte(b'+'));
    assert_eq!(yuri_lexer::symbol_token_kind(b'('), Some(TokenKind::ParenOpen));
    assert_eq!(yuri_lexer::symbol_token_kind(b'/'), Some(TokenKind::Slash));
    assert_eq!(yuri_lexer::symbol_token_kind(b'a'), None);
    assert_eq!(yuri_lexer::symbol_token_kind(b';'), None);
}
