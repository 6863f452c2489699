use srzs_lang::frontend::scanner::scan_piece;
use srzs_lang::frontend::text::slice;
use srzs_lang::types::tokens::TokenType;

#[test]
fn scan_piece_takes_the_longest_token() {
    assert_eq!(scan_piece(b"let x", 0), (Some(TokenType::KwLet), 3));
    assert_eq!(scan_piece(b"let x", 3), (Some(TokenType::Space), 4));
    assert_eq!(scan_piece(b"let x", 4), (Some(TokenType::Identifier), 5));
    assert_eq!(scan_piece(b"lets", 0), (Some(TokenType::Identifier), 4));
    assert_eq!(scan_piece(b"x->y", 1), (Some(TokenType::OpSetOrAcess), 3));
    assert_eq!(scan_piece(b"x-y", 1), (Some(TokenType::OpMinus), 2));
    assert_eq!(scan_piece(b"123abc", 0), (Some(TokenType::Number), 3));
    assert_eq!(scan_piece(b"\"a\\\"b\" c", 0), (Some(TokenType::StringLiteral), 6));
    assert_eq!(scan_piece(b"\"a", 0), (Some(TokenType::DoubleQuotes), 1));
    assert_eq!(scan_piece(b"'a' 'b' \" 'c'", 0), (Some(TokenType::CharLiteral), 7));
    assert_eq!(scan_piece(b"'", 0), (Some(TokenType::SingleQuote), 1));
}

#[test]
fn scan_piece_sets_one_character_aside() {
    assert_eq!(scan_piece(b"@@", 0), (None, 1));
    assert_eq!(scan_piece("é@".as_bytes(), 0), (None, 2));
    assert_eq!(scan_piece("€".as_bytes(), 0), (None, 3));
    assert_eq!(scan_piece("a😀b".as_bytes(), 1), (None, 5));
}

#[test]
fn slice_cuts_between_characters() {
    assert_eq!(slice("héllo", 0, 1), "h");
    assert_eq!(slice("héllo", 1, 3), "é");
    assert_eq!(slice("héllo", 3, 6), "llo");
    assert_eq!(slice("héllo", 6, 6), "");
    assert_eq!(slice("héllo", 0, 6), "héllo");
}
