use srzs_lang::frontend::lexer::Lexer;
use srzs_lang::frontend::parser::Parser;
use srzs_lang::handlers::error_handler::{Error, ErrorCode};
use srzs_lang::handlers::message_handler::{Issuer, Message};
use srzs_lang::types::built_in_types::BuiltInTypes;
use srzs_lang::types::others::Position;
use srzs_lang::types::parse_nodes::{Statement, VarDeclarationKind};
use srzs_lang::types::tokens::{Token, TokenType};

fn parse(input: &str) -> Parser {
    let mut lexer = Lexer::new();
    lexer.lex(input);
    let mut parser = Parser::new(lexer.tokens);
    parser.parse_tokens();
    parser
}

fn body(parser: &Parser) -> &Vec<Statement> {
    match parser.ast() {
        Statement::Module { body, .. } => body,
        _ => panic!("the tree is no module"),
    }
}

fn only_error(parser: &Parser) -> (String, Position) {
    assert_eq!(parser.errors().len(), 1);
    match &parser.errors()[0] {
        Error::ScriptError(script) => {
            assert_eq!(script.base().code(), ErrorCode::E002);
            assert_eq!(script.base().message().from(), Issuer::Parser);
            (script.base().message().content().to_string(), script.position())
        }
        Error::Error(_) => panic!("an error without a position"),
    }
}

fn params_of(statement: &Statement) -> Vec<(String, BuiltInTypes)> {
    match statement {
        Statement::FunctionDeclaration { params, .. } => {
            params.iter().map(|param| (param.name.clone(), param.param_type)).collect()
        }
        _ => panic!("no function declaration"),
    }
}

fn return_type_of(statement: &Statement) -> BuiltInTypes {
    match statement {
        Statement::FunctionDeclaration { return_type, .. } => *return_type,
        _ => panic!("no function declaration"),
    }
}

#[test]
fn function_with_parameters_and_return_type() {
    let parser = parse("fn f(a: int, b: float) -> int { }");
    assert!(parser.errors().is_empty());
    assert_eq!(body(&parser).len(), 1);
    let function = &body(&parser)[0];
    assert_eq!(
        params_of(function),
        vec![("a".to_string(), BuiltInTypes::Int), ("b".to_string(), BuiltInTypes::Float)]
    );
    assert_eq!(return_type_of(function), BuiltInTypes::Int);
    match function {
        Statement::FunctionDeclaration { start, name, body, .. } => {
            assert_eq!(*start, Position { line: 0, column: 0 });
            assert_eq!(name, "f");
            assert!(body.is_empty());
        }
        _ => panic!("no function declaration"),
    }
}

#[test]
fn function_without_arrow_returns_any() {
    let parser = parse("fn f() { }");
    assert!(parser.errors().is_empty());
    assert_eq!(body(&parser).len(), 1);
    assert_eq!(return_type_of(&body(&parser)[0]), BuiltInTypes::Any);
    assert!(params_of(&body(&parser)[0]).is_empty());
}

#[test]
fn new_parser_holds_an_empty_module() {
    let mut lexer = Lexer::new();
    lexer.lex("");
    let parser = Parser::new(lexer.tokens);
    assert!(parser.errors().is_empty());
    match parser.ast() {
        Statement::Module { start, body } => {
            assert_eq!(*start, Position { line: 0, column: 0 });
            assert!(body.is_empty());
        }
        _ => panic!("the tree is no module"),
    }
}

#[test]
fn empty_program_has_no_statement() {
    let parser = parse("  \n ");
    assert!(parser.errors().is_empty());
    assert!(body(&parser).is_empty());
}

#[test]
fn let_without_type_is_any() {
    let parser = parse("let x;");
    assert!(parser.errors().is_empty());
    match &body(&parser)[0] {
        Statement::VariableDeclaration { start, name, kind, declared_type, value } => {
            assert_eq!(*start, Position { line: 0, column: 0 });
            assert_eq!(name, "x");
            assert_eq!(*kind, VarDeclarationKind::Immutable);
            assert_eq!(*declared_type, BuiltInTypes::Any);
            assert!(value.is_none());
        }
        _ => panic!("no variable declaration"),
    }
}

#[test]
fn let_mut_with_type() {
    let parser = parse("\n  let mut total: float;");
    assert!(parser.errors().is_empty());
    match &body(&parser)[0] {
        Statement::VariableDeclaration { start, name, kind, declared_type, value } => {
            assert_eq!(*start, Position { line: 1, column: 2 });
            assert_eq!(name, "total");
            assert_eq!(*kind, VarDeclarationKind::Mutable);
            assert_eq!(*declared_type, BuiltInTypes::Float);
            assert!(value.is_none());
        }
        _ => panic!("no variable declaration"),
    }
}

#[test]
fn every_type_name_is_read() {
    let parser = parse(
        "let a: null; let b: int; let c: float; let d: bool; let e: char; let f: str; \
         let g: void; let h: any;",
    );
    assert!(parser.errors().is_empty());
    let types: Vec<BuiltInTypes> = body(&parser)
        .iter()
        .map(|statement| match statement {
            Statement::VariableDeclaration { declared_type, .. } => *declared_type,
            _ => panic!("no variable declaration"),
        })
        .collect();
    assert_eq!(
        types,
        vec![
            BuiltInTypes::Null,
            BuiltInTypes::Int,
            BuiltInTypes::Float,
            BuiltInTypes::Bool,
            BuiltInTypes::Char,
            BuiltInTypes::Str,
            BuiltInTypes::Void,
            BuiltInTypes::Any,
        ]
    );
}

#[test]
fn statements_keep_the_order_of_the_source() {
    let parser = parse("let a;\nfn f() { }\nlet mut b: int;");
    assert!(parser.errors().is_empty());
    let names: Vec<String> = body(&parser)
        .iter()
        .map(|statement| match statement {
            Statement::VariableDeclaration { name, .. } => name.clone(),
            Statement::FunctionDeclaration { name, .. } => name.clone(),
            _ => panic!("an unexpected statement"),
        })
        .collect();
    assert_eq!(names, vec!["a", "f", "b"]);
}

#[test]
fn a_block_holds_its_statements() {
    let parser = parse("fn outer() -> void { let a; fn inner(x: str) { let mut b: int; } let c; }");
    assert!(parser.errors().is_empty());
    assert_eq!(body(&parser).len(), 1);
    match &body(&parser)[0] {
        Statement::FunctionDeclaration { name, return_type, body, .. } => {
            assert_eq!(name, "outer");
            assert_eq!(*return_type, BuiltInTypes::Void);
            assert_eq!(body.len(), 3);
            match &body[1] {
                Statement::FunctionDeclaration { name, params, body, return_type, .. } => {
                    assert_eq!(name, "inner");
                    assert_eq!(params.len(), 1);
                    assert_eq!(params[0].name, "x");
                    assert_eq!(params[0].param_type, BuiltInTypes::Str);
                    assert_eq!(*return_type, BuiltInTypes::Any);
                    assert_eq!(body.len(), 1);
                }
                _ => panic!("no function declaration"),
            }
            match &body[2] {
                Statement::VariableDeclaration { name, .. } => assert_eq!(name, "c"),
                _ => panic!("no variable declaration"),
            }
        }
        _ => panic!("no function declaration"),
    }
}

#[test]
fn the_first_error_stops_the_parse() {
    let parser = parse("let a; let ; let b; let ;");
    assert_eq!(body(&parser).len(), 1);
    let (content, position) = only_error(&parser);
    assert_eq!(content, "expected \"mut\" or a identifier but found \";\".");
    assert_eq!(position, Position { line: 0, column: 11 });
}

#[test]
fn a_token_that_starts_no_statement() {
    let parser = parse("let a; x");
    assert_eq!(body(&parser).len(), 1);
    let (content, position) = only_error(&parser);
    assert_eq!(content, "expected a statement but found \"x\".");
    assert_eq!(position, Position { line: 0, column: 7 });
}

#[test]
fn let_errors() {
    assert_eq!(
        only_error(&parse("let mut 1;")).0,
        "expected a identifier but found \"1\"."
    );
    assert_eq!(
        only_error(&parse("let x = 1;")).0,
        "expected a explicity type or the end of let statement but found \"=\"."
    );
    assert_eq!(only_error(&parse("let x: y;")).0, "expected a type but found \"y\".");
    assert_eq!(
        only_error(&parse("let x: int = 1;")).0,
        "expected a explicity type or the end of let statement but found \"=\"."
    );
    assert_eq!(
        only_error(&parse("let x")).0,
        "expected a explicity type or the end of let statement but found \"EOF\"."
    );
    assert_eq!(
        only_error(&parse("let")).0,
        "expected \"mut\" or a identifier but found \"EOF\"."
    );
}

#[test]
fn function_errors() {
    assert_eq!(only_error(&parse("fn (")).0, "expected a identifier but found \"(\".");
    assert_eq!(only_error(&parse("fn f {")).0, "expected '(' but found \"{\".");
    assert_eq!(only_error(&parse("fn f() x")).0, "expected '->' or '{' but found \"x\".");
    assert_eq!(only_error(&parse("fn f() -> x {}")).0, "expected a type but found \"x\".");
    assert_eq!(only_error(&parse("fn f() -> int x")).0, "expected '{' but found \"x\".");
}

#[test]
fn parameter_errors() {
    assert_eq!(only_error(&parse("fn f(1) {}")).0, "expected a identifier but found \"1\".");
    assert_eq!(only_error(&parse("fn f(a int) {}")).0, "expected Colon but found \"int\".");
    assert_eq!(only_error(&parse("fn f(a: b) {}")).0, "expected a type but found \"b\".");
    assert_eq!(only_error(&parse("fn f(a: int b) {}")).0, "expected ',' or ')' but found \"b\".");
    assert_eq!(only_error(&parse("fn f(a: int,) {}")).0, "expected a identifier but found \")\".");
    assert_eq!(only_error(&parse("fn f(a: int")).0, "expected ',' or ')' but found \"EOF\".");
    assert_eq!(only_error(&parse("fn f(a")).0, "expected Colon but found \"EOF\".");
}

#[test]
fn block_errors() {
    assert_eq!(
        only_error(&parse("fn f() {")).0,
        "expected end of block statement but found \"EOF\"."
    );
    assert_eq!(
        only_error(&parse("fn f() { x }")).0,
        "expected end of code block statement but found \"x\"."
    );
    assert_eq!(
        only_error(&parse("fn f() { let a; let }")).0,
        "expected \"mut\" or a identifier but found \"}\"."
    );
    let parser = parse("fn f() { let a; let }");
    assert!(body(&parser).is_empty());
}

#[test]
fn expected_error_names_what_was_found() {
    let found = Token::new(TokenType::Number, "12", 4, 9);
    match Error::expected_error("a name", &found, Issuer::Parser) {
        Error::ScriptError(script) => {
            assert_eq!(script.base().message().content(), "expected a name but found \"12\".");
            assert_eq!(script.base().message().from(), Issuer::Parser);
            assert_eq!(script.base().code(), ErrorCode::E002);
            assert_eq!(script.position(), Position { line: 4, column: 9 });
        }
        Error::Error(_) => panic!("an error without a position"),
    }
}

#[test]
fn expected_or_error_tests_the_kind() {
    let found = Token::new(TokenType::Number, "12", 4, 9);
    match Error::expected_or_error("a number", &TokenType::Number, &found, Issuer::Parser) {
        Ok(token) => {
            assert_eq!(token.token_type, TokenType::Number);
            assert_eq!(token.token_value, "12");
            assert_eq!(token.position, Position { line: 4, column: 9 });
        }
        Err(_) => panic!("the kind was the expected one"),
    }
    match Error::expected_or_error("a name", &TokenType::Identifier, &found, Issuer::Lexer) {
        Ok(_) => panic!("the kind was not the expected one"),
        Err(Error::ScriptError(script)) => {
            assert_eq!(script.base().message().content(), "expected a name but found \"12\".");
            assert_eq!(script.base().message().from(), Issuer::Lexer);
        }
        Err(Error::Error(_)) => panic!("an error without a position"),
    }
}

#[test]
fn message_keeps_its_parts() {
    let message = Message::new("text", Issuer::Lexer);
    assert_eq!(message.content(), "text");
    assert_eq!(message.from(), Issuer::Lexer);
    let copy = message.clone();
    assert_eq!(copy.content(), "text");
}

#[test]
fn parse_source_tokenizes_and_parses() {
    let (lexical_errors, parser) = srzs_lang::parse_source("let a;\n@ fn f() -> bool { }\nlet");
    assert_eq!(lexical_errors.len(), 1);
    match &lexical_errors[0] {
        Error::ScriptError(script) => {
            assert_eq!(script.base().code(), ErrorCode::E001);
            assert_eq!(script.position(), Position { line: 1, column: 0 });
        }
        Error::Error(_) => panic!("an error without a position"),
    }
    assert_eq!(body(&parser).len(), 2);
    assert_eq!(return_type_of(&body(&parser)[1]), BuiltInTypes::Bool);
    let (content, position) = only_error(&parser);
    assert_eq!(content, "expected \"mut\" or a identifier but found \"EOF\".");
    assert_eq!(position, Position { line: 2, column: 0 });
}

#[test]
fn a_copy_of_a_parser_holds_the_same() {
    let parser = parse("fn f(a: int) { let b; }\nlet");
    let copy = parser.clone();
    assert_eq!(body(&copy).len(), 1);
    assert_eq!(params_of(&body(&copy)[0]), vec![("a".to_string(), BuiltInTypes::Int)]);
    assert_eq!(only_error(&copy), only_error(&parser));
    let statement = body(&parser)[0].clone();
    match statement {
        Statement::FunctionDeclaration { name, body, .. } => {
            assert_eq!(name, "f");
            assert_eq!(body.len(), 1);
        }
        _ => panic!("no function declaration"),
    }
}
