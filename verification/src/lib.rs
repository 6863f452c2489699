//! Front end and execution core of a small statically typed scripting
//! language: a tokenizer, a recursive-descent parser that builds a syntax
//! tree, a bytecode instruction set and a stack machine that runs it.

pub mod backend;
pub mod frontend;
pub mod handlers;
pub mod runtime;
pub mod types;

use crate::frontend::lexer::{lexed, Lexer};
use crate::frontend::parser::{with_error, with_statements, Parser};
use crate::frontend::syntax::program_from;
use crate::handlers::error_handler::{error_views, Error, ErrorView};
use crate::types::others::Position;
use crate::types::parse_nodes::{StatementView};
use vstd::prelude::*;
use vstd::string::*;

verus! {

/// Tokenizes and parses `text`. The result holds the lexical errors, and the
/// parser after its run: with the tokens of the text, the tree of the
/// statements that it read and the syntax error that stopped it, if one did.
pub fn parse_source(text: &str) -> (result: (Vec<Error>, Parser))
    ensures
        ({
            let tokens = lexed(text.spec_bytes()).tokens;
            let program = program_from(tokens, 0, Seq::empty());
            let parser = result.1;
            &&& error_views(result.0@) == lexed(text.spec_bytes()).errors
            &&& parser.wf()
            &&& parser.tokens() == tokens
            &&& parser.tree() == with_statements(
                StatementView::Module {
                    start: Position { line: 0, column: 0 },
                    body: Seq::empty(),
                },
                program.statements,
            )
            &&& parser.diagnostics() == with_error(Seq::<ErrorView>::empty(), program.error)
            &&& parser.cursor() == program.end
        }),
{
    let mut lexer = Lexer::new();
    lexer.lex(text);
    let mut parser = Parser::new(lexer.tokens);
    parser.parse_tokens();
    (lexer.errors, parser)
}

} // verus!
