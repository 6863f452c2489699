use srzs_lang::frontend::lexer::{new_line_callback, word_callback, Cursor, Lexer};
use srzs_lang::handlers::error_handler::{Error, ErrorCode};
use srzs_lang::handlers::message_handler::Issuer;
use srzs_lang::types::others::Position;
use srzs_lang::types::tokens::{Token, TokenType};

fn lex(input: &str) -> Lexer {
    let mut lexer = Lexer::new();
    lexer.lex(input);
    lexer
}

fn kinds(lexer: &Lexer) -> Vec<TokenType> {
    lexer.tokens.iter().map(|token| token.token_type).collect()
}

fn texts(lexer: &Lexer) -> Vec<String> {
    lexer.tokens.iter().map(|token| token.token_value.clone()).collect()
}

fn places(lexer: &Lexer) -> Vec<(usize, usize)> {
    lexer.tokens.iter().map(|token| (token.position.line, token.position.column)).collect()
}

fn script_error(error: &Error) -> (String, Issuer, ErrorCode, Position) {
    match error {
        Error::ScriptError(script) => (
            script.base().message().content().to_string(),
            script.base().message().from(),
            script.base().code(),
            script.position(),
        ),
        Error::Error(_) => panic!("an error without a position"),
    }
}

#[test]
fn let_mut_x_gives_four_tokens() {
    let lexer = lex("let mut x");
    assert_eq!(
        kinds(&lexer),
        vec![TokenType::KwLet, TokenType::KwMut, TokenType::Identifier, TokenType::Eof]
    );
    assert_eq!(texts(&lexer), vec!["let", "mut", "x", "EOF"]);
    assert_eq!(places(&lexer), vec![(0, 0), (0, 4), (0, 8), (0, 8)]);
    assert!(lexer.errors.is_empty());
}

#[test]
fn one_unrecognized_character_gives_one_error() {
    let lexer = lex("@");
    assert_eq!(lexer.errors.len(), 1);
    let (content, from, code, position) = script_error(&lexer.errors[0]);
    assert_eq!(content, "\"@\" -> non existent token.");
    assert_eq!(from, Issuer::Lexer);
    assert_eq!(code, ErrorCode::E001);
    assert_eq!(position, Position { line: 0, column: 0 });
    assert_eq!(kinds(&lexer), vec![TokenType::Eof]);
    assert_eq!(places(&lexer), vec![(0, 0)]);
}

#[test]
fn error_stands_at_its_line_and_column() {
    let lexer = lex("let a\n  @ b");
    assert_eq!(lexer.errors.len(), 1);
    let (content, _, _, position) = script_error(&lexer.errors[0]);
    assert_eq!(content, "\"@\" -> non existent token.");
    assert_eq!(position, Position { line: 1, column: 2 });
    assert_eq!(
        kinds(&lexer),
        vec![TokenType::KwLet, TokenType::Identifier, TokenType::Identifier, TokenType::Eof]
    );
    assert_eq!(places(&lexer), vec![(0, 0), (0, 4), (1, 4), (1, 4)]);
}

#[test]
fn scanning_goes_on_after_an_error() {
    let lexer = lex("@@x$");
    assert_eq!(lexer.errors.len(), 3);
    assert_eq!(script_error(&lexer.errors[0]).3, Position { line: 0, column: 0 });
    assert_eq!(script_error(&lexer.errors[1]).3, Position { line: 0, column: 1 });
    assert_eq!(script_error(&lexer.errors[2]).3, Position { line: 0, column: 3 });
    assert_eq!(script_error(&lexer.errors[2]).0, "\"$\" -> non existent token.");
    assert_eq!(kinds(&lexer), vec![TokenType::Identifier, TokenType::Eof]);
}

#[test]
fn error_message_quotes_and_escapes_the_text() {
    let lexer = lex("\\");
    assert_eq!(lexer.errors.len(), 1);
    assert_eq!(script_error(&lexer.errors[0]).0, "\"\\\\\" -> non existent token.");
}

#[test]
fn a_character_of_several_bytes_is_one_error() {
    let lexer = lex("a é b");
    assert_eq!(lexer.errors.len(), 1);
    let (content, _, _, position) = script_error(&lexer.errors[0]);
    assert_eq!(content, "\"é\" -> non existent token.");
    assert_eq!(position, Position { line: 0, column: 2 });
    assert_eq!(
        kinds(&lexer),
        vec![TokenType::Identifier, TokenType::Identifier, TokenType::Eof]
    );
    // The column counts bytes, and the character before `b` takes two.
    assert_eq!(places(&lexer), vec![(0, 0), (0, 5), (0, 5)]);
}

#[test]
fn empty_text_gives_the_end_token_alone() {
    let lexer = lex("");
    assert_eq!(kinds(&lexer), vec![TokenType::Eof]);
    assert_eq!(texts(&lexer), vec!["EOF"]);
    assert_eq!(places(&lexer), vec![(0, 0)]);
    assert!(lexer.errors.is_empty());
}

#[test]
fn end_token_stands_at_the_last_token_read() {
    assert_eq!(places(&lex("x ")), vec![(0, 0), (0, 1)]);
    assert_eq!(places(&lex("x\n")), vec![(0, 0), (1, 0)]);
    assert_eq!(places(&lex("x\n\n  ")), vec![(0, 0), (2, 1)]);
    assert_eq!(places(&lex("x @")), vec![(0, 0), (0, 1)]);
}

#[test]
fn spaces_and_new_lines_are_left_out() {
    let lexer = lex(" \t\nfn\n\t x ");
    assert_eq!(kinds(&lexer), vec![TokenType::KwFn, TokenType::Identifier, TokenType::Eof]);
    assert_eq!(places(&lexer), vec![(1, 0), (2, 2), (2, 3)]);
}

#[test]
fn keywords_are_told_from_identifiers() {
    let lexer = lex("let letter le _ _a a_ lets fn fnx");
    assert_eq!(
        kinds(&lexer),
        vec![
            TokenType::KwLet,
            TokenType::Identifier,
            TokenType::Identifier,
            TokenType::SomehingElse,
            TokenType::Identifier,
            TokenType::Identifier,
            TokenType::Identifier,
            TokenType::KwFn,
            TokenType::Identifier,
            TokenType::Eof,
        ]
    );
}

#[test]
fn every_keyword_has_its_kind() {
    let lexer = lex(
        "ns use let const mut struct fn if else elif is return null int float bool char str \
         void any not and or true false",
    );
    assert_eq!(
        kinds(&lexer),
        vec![
            TokenType::KwNs,
            TokenType::KwUse,
            TokenType::KwLet,
            TokenType::KwConst,
            TokenType::KwMut,
            TokenType::KwStruct,
            TokenType::KwFn,
            TokenType::KwIf,
            TokenType::KwElse,
            TokenType::KwElif,
            TokenType::KwIs,
            TokenType::KwReturn,
            TokenType::TypeNull,
            TokenType::TypeInt,
            TokenType::TypeFloat,
            TokenType::TypeBool,
            TokenType::TypeChar,
            TokenType::TypeStr,
            TokenType::TypeVoid,
            TokenType::TypeAny,
            TokenType::OpNot,
            TokenType::OpAnd,
            TokenType::OpOr,
            TokenType::True,
            TokenType::False,
            TokenType::Eof,
        ]
    );
}

#[test]
fn every_symbol_has_its_kind() {
    let lexer = lex(". , : ; ( ) [ ] { } + - * / % ! & | < > =");
    assert_eq!(
        kinds(&lexer),
        vec![
            TokenType::Dot,
            TokenType::Comma,
            TokenType::Colon,
            TokenType::SemiColon,
            TokenType::LParen,
            TokenType::RParen,
            TokenType::LBrace,
            TokenType::RBrace,
            TokenType::LBracket,
            TokenType::RBracket,
            TokenType::OpPlus,
            TokenType::OpMinus,
            TokenType::OpMultiply,
            TokenType::OpDivision,
            TokenType::OpRest,
            TokenType::OpNot,
            TokenType::OpAnd,
            TokenType::OpOr,
            TokenType::OpSmallerThan,
            TokenType::OpGreaterThan,
            TokenType::OpAssign,
            TokenType::Eof,
        ]
    );
    assert!(lexer.errors.is_empty());
}

#[test]
fn the_longest_symbol_is_taken() {
    let lexer = lex("-# #- >= <= == != += -= *= /= %= -> :: :=");
    assert_eq!(
        kinds(&lexer),
        vec![
            TokenType::OpenComment,
            TokenType::CloseComment,
            TokenType::OpSmallerOrEqualsThan,
            TokenType::OpGreaterOrEqualsThan,
            TokenType::OpEquals,
            TokenType::OpNotEquals,
            TokenType::OpAssignPlus,
            TokenType::OpAssignMinus,
            TokenType::OpAssignMultiply,
            TokenType::OpAssignDivision,
            TokenType::OpAssignRest,
            TokenType::OpSetOrAcess,
            TokenType::OpAcess,
            TokenType::OpInferredTypeAssing,
            TokenType::Eof,
        ]
    );
    let lexer = lex("===:::=->-");
    assert_eq!(
        kinds(&lexer),
        vec![
            TokenType::OpEquals,
            TokenType::OpAssign,
            TokenType::OpAcess,
            TokenType::OpInferredTypeAssing,
            TokenType::OpSetOrAcess,
            TokenType::OpMinus,
            TokenType::Eof,
        ]
    );
    assert_eq!(texts(&lexer), vec!["==", "=", "::", ":=", "->", "-", "EOF"]);
}

#[test]
fn a_lone_hash_is_no_token() {
    let lexer = lex("#x");
    assert_eq!(lexer.errors.len(), 1);
    assert_eq!(script_error(&lexer.errors[0]).0, "\"#\" -> non existent token.");
    assert_eq!(kinds(&lexer), vec![TokenType::Identifier, TokenType::Eof]);
}

#[test]
fn numbers_and_words() {
    let lexer = lex("12 007 3x x3");
    assert_eq!(
        kinds(&lexer),
        vec![
            TokenType::Number,
            TokenType::Number,
            TokenType::Number,
            TokenType::Identifier,
            TokenType::Identifier,
            TokenType::Eof,
        ]
    );
    assert_eq!(texts(&lexer), vec!["12", "007", "3", "x", "x3", "EOF"]);
}

#[test]
fn string_literals() {
    let lexer = lex("\"hello\" \"\" \"a\\\"b\\n\" \"é u00e9\"");
    assert_eq!(
        kinds(&lexer),
        vec![
            TokenType::StringLiteral,
            TokenType::StringLiteral,
            TokenType::StringLiteral,
            TokenType::StringLiteral,
            TokenType::Eof,
        ]
    );
    assert_eq!(
        texts(&lexer),
        vec!["\"hello\"", "\"\"", "\"a\\\"b\\n\"", "\"é u00e9\"", "EOF"]
    );
    assert!(lexer.errors.is_empty());
}

#[test]
fn a_string_without_its_end_is_a_quote() {
    let lexer = lex("\"abc");
    assert_eq!(kinds(&lexer), vec![TokenType::DoubleQuotes, TokenType::Identifier, TokenType::Eof]);
    assert!(lexer.errors.is_empty());
}

#[test]
fn a_bad_escape_ends_the_literal() {
    let lexer = lex("\"a\\qb\"");
    assert_eq!(
        kinds(&lexer),
        vec![
            TokenType::DoubleQuotes,
            TokenType::Identifier,
            TokenType::Identifier,
            TokenType::DoubleQuotes,
            TokenType::Eof,
        ]
    );
    assert_eq!(lexer.errors.len(), 1);
    assert_eq!(script_error(&lexer.errors[0]).3, Position { line: 0, column: 2 });
}

#[test]
fn a_new_line_inside_a_string_counts_no_line() {
    let lexer = lex("\"a\nb\" x");
    assert_eq!(kinds(&lexer), vec![TokenType::StringLiteral, TokenType::Identifier, TokenType::Eof]);
    assert_eq!(places(&lexer), vec![(0, 0), (0, 6), (0, 6)]);
}

#[test]
fn character_literals() {
    let lexer = lex("'a'");
    assert_eq!(kinds(&lexer), vec![TokenType::CharLiteral, TokenType::Eof]);
    assert_eq!(texts(&lexer), vec!["'a'", "EOF"]);
    // A quote may stand inside the literal, so the longest literal is taken.
    let lexer = lex("'a' 'b' c");
    assert_eq!(kinds(&lexer), vec![TokenType::CharLiteral, TokenType::Identifier, TokenType::Eof]);
    assert_eq!(texts(&lexer), vec!["'a' 'b'", "c", "EOF"]);
    let lexer = lex("'a\" 'b'");
    assert_eq!(
        kinds(&lexer),
        vec![
            TokenType::SingleQuote,
            TokenType::Identifier,
            TokenType::DoubleQuotes,
            TokenType::CharLiteral,
            TokenType::Eof,
        ]
    );
    let lexer = lex("'x");
    assert_eq!(kinds(&lexer), vec![TokenType::SingleQuote, TokenType::Identifier, TokenType::Eof]);
}

#[test]
fn a_zero_byte_is_an_end_token() {
    let lexer = lex("a\0b");
    assert_eq!(
        kinds(&lexer),
        vec![TokenType::Identifier, TokenType::Eof, TokenType::Identifier, TokenType::Eof]
    );
    assert_eq!(texts(&lexer), vec!["a", "\0", "b", "EOF"]);
}

#[test]
fn tokenizing_twice_gives_the_same() {
    let first = lex("fn f(a: int) -> int { }\n@ let x;");
    let second = lex("fn f(a: int) -> int { }\n@ let x;");
    assert_eq!(kinds(&first), kinds(&second));
    assert_eq!(texts(&first), texts(&second));
    assert_eq!(places(&first), places(&second));
    assert_eq!(first.errors.len(), second.errors.len());
    assert_eq!(script_error(&first.errors[0]), script_error(&second.errors[0]));
}

#[test]
fn a_second_text_is_added_to_the_first() {
    let mut lexer = Lexer::new();
    lexer.lex("a @");
    lexer.lex("b $");
    assert_eq!(
        kinds(&lexer),
        vec![TokenType::Identifier, TokenType::Eof, TokenType::Identifier, TokenType::Eof]
    );
    assert_eq!(lexer.errors.len(), 2);
}

#[test]
fn trimming_keeps_the_other_tokens_in_order() {
    let mut lexer = Lexer::new();
    lexer.tokens.push(Token::new(TokenType::Space, " ", 0, 0));
    lexer.tokens.push(Token::new(TokenType::KwLet, "let", 0, 1));
    lexer.tokens.push(Token::new(TokenType::NewLine, "\n", 1, 0));
    lexer.tokens.push(Token::new(TokenType::Identifier, "x", 1, 0));
    lexer.lex_trim_result();
    assert_eq!(kinds(&lexer), vec![TokenType::KwLet, TokenType::Identifier]);
    assert_eq!(places(&lexer), vec![(0, 1), (1, 0)]);
}

#[test]
fn callbacks_count_lines_and_columns() {
    let mut cursor = Cursor { line: 2, line_start: 10, start: 14, end: 15 };
    assert_eq!(word_callback(&cursor), Position { line: 2, column: 4 });
    new_line_callback(&mut cursor);
    assert_eq!(cursor, Cursor { line: 3, line_start: 15, start: 14, end: 15 });
}

#[test]
fn token_new_keeps_its_parts() {
    let token = Token::new(TokenType::Number, "42", 3, 7);
    assert_eq!(token.token_type, TokenType::Number);
    assert_eq!(token.token_value, "42");
    assert_eq!(token.position, Position::new(3, 7));
}

#[test]
fn unicode_escapes_take_four_hexadecimal_digits() {
    let lexer = lex("\"x\\u0041\" '\\u00e9' \"\\uBeeF\"");
    assert_eq!(
        kinds(&lexer),
        vec![
            TokenType::StringLiteral,
            TokenType::CharLiteral,
            TokenType::StringLiteral,
            TokenType::Eof,
        ]
    );
    assert_eq!(texts(&lexer), vec!["\"x\\u0041\"", "'\\u00e9'", "\"\\uBeeF\"", "EOF"]);
    assert!(lexer.errors.is_empty());

    let lexer = lex("\"\\u12\"");
    assert_eq!(
        kinds(&lexer),
        vec![
            TokenType::DoubleQuotes,
            TokenType::Identifier,
            TokenType::DoubleQuotes,
            TokenType::Eof,
        ]
    );
    assert_eq!(texts(&lexer), vec!["\"", "u12", "\"", "EOF"]);
    assert_eq!(lexer.errors.len(), 1);
    assert_eq!(script_error(&lexer.errors[0]).0, "\"\\\\\" -> non existent token.");
}

#[test]
fn non_existent_token_builds_the_error() {
    let error = srzs_lang::frontend::lexer::non_existent_token("\"@\"", 3, 1);
    let (content, from, code, position) = script_error(&error);
    assert_eq!(content, "\"@\" -> non existent token.");
    assert_eq!(from, Issuer::Lexer);
    assert_eq!(code, ErrorCode::E001);
    assert_eq!(position, Position { line: 3, column: 1 });
}

#[test]
fn a_copy_of_a_lexer_holds_the_same() {
    let lexer = lex("let @ x");
    let copy = lexer.clone();
    assert_eq!(kinds(&copy), kinds(&lexer));
    assert_eq!(texts(&copy), texts(&lexer));
    assert_eq!(places(&copy), places(&lexer));
    assert_eq!(script_error(&copy.errors[0]), script_error(&lexer.errors[0]));
}
