//! The grammar, as functions from a token sequence and an index to what
//! stands there. The parser is proved to compute exactly these.
//!
//! A construct is read with one token of lookahead and without going back.
//! The first token that does not fit ends the parse with one error, which
//! names what was expected and the token that was found.

use crate::handlers::error_handler::{expected_error_view, ErrorView};
use crate::handlers::message_handler::Issuer;
use crate::types::built_in_types::BuiltInTypes;
use crate::types::parse_nodes::{FuncParamView, StatementView, VarDeclarationKind};
use crate::types::tokens::{TokenType, TokenView};
use vstd::prelude::*;

verus! {

/// What reading a construct gives.
pub enum Outcome<T> {
    /// The construct, and the index of its last token.
    Parsed { value: T, end: int },
    /// The error, and the index of the token that did not fit.
    Failed { error: ErrorView, at: int },
}

/// A token sequence that the parser accepts: it ends with the end-of-stream
/// token.
pub open spec fn terminated(tokens: Seq<TokenView>) -> bool {
    tokens.len() > 0 && tokens.last().token_type == TokenType::Eof
}

/// The index after `i`. The end-of-stream token is never passed.
pub open spec fn next_index(tokens: Seq<TokenView>, i: int) -> int {
    if tokens[i].token_type == TokenType::Eof {
        i
    } else {
        i + 1
    }
}

/// The type that a token names, if it names one.
pub open spec fn type_of_token(token_type: TokenType) -> Option<BuiltInTypes> {
    match token_type {
        TokenType::TypeNull => Some(BuiltInTypes::Null),
        TokenType::TypeInt => Some(BuiltInTypes::Int),
        TokenType::TypeFloat => Some(BuiltInTypes::Float),
        TokenType::TypeBool => Some(BuiltInTypes::Bool),
        TokenType::TypeChar => Some(BuiltInTypes::Char),
        TokenType::TypeStr => Some(BuiltInTypes::Str),
        TokenType::TypeVoid => Some(BuiltInTypes::Void),
        TokenType::TypeAny => Some(BuiltInTypes::Any),
        _ => None,
    }
}

/// The failure that reports the token at `at` where `expected` was awaited.
pub open spec fn unexpected<T>(tokens: Seq<TokenView>, expected: Seq<char>, at: int) -> Outcome<T> {
    Outcome::Failed { error: expected_error_view(expected, tokens[at], Issuer::Parser), at }
}

/// A variable declaration that starts at `i`:
/// `let` [`mut`] identifier (`:` type)? `;`.
/// It ends at the `;`. Without a type the variable has the type `Any`.
pub open spec fn let_statement(tokens: Seq<TokenView>, i: int) -> Outcome<StatementView> {
    let first = next_index(tokens, i);
    let mutable = tokens[first].token_type == TokenType::KwMut;
    let name = if mutable {
        next_index(tokens, first)
    } else {
        first
    };
    let kind = if mutable {
        VarDeclarationKind::Mutable
    } else {
        VarDeclarationKind::Immutable
    };
    let after_name = next_index(tokens, name);
    if !mutable && tokens[first].token_type != TokenType::Identifier {
        unexpected(tokens, "\"mut\" or a identifier"@, first)
    } else if tokens[name].token_type != TokenType::Identifier {
        unexpected(tokens, "a identifier"@, name)
    } else if tokens[after_name].token_type == TokenType::SemiColon {
        Outcome::Parsed {
            value: StatementView::VariableDeclaration {
                start: tokens[i].position,
                name: tokens[name].token_value,
                kind,
                declared_type: BuiltInTypes::Any,
                value: None,
            },
            end: after_name,
        }
    } else if tokens[after_name].token_type != TokenType::Colon {
        unexpected(tokens, "a explicity type or the end of let statement"@, after_name)
    } else {
        let type_at = next_index(tokens, after_name);
        let after_type = next_index(tokens, type_at);
        match type_of_token(tokens[type_at].token_type) {
            None => unexpected(tokens, "a type"@, type_at),
            Some(declared_type) => if tokens[after_type].token_type == TokenType::SemiColon {
                Outcome::Parsed {
                    value: StatementView::VariableDeclaration {
                        start: tokens[i].position,
                        name: tokens[name].token_value,
                        kind,
                        declared_type,
                        value: None,
                    },
                    end: after_type,
                }
            } else {
                unexpected(
                    tokens,
                    "a explicity type or the end of let statement"@,
                    after_type,
                )
            },
        }
    }
}

/// The parameters from `i` on, where `i` is the index of a parameter's name
/// and `read` holds the parameters before it: identifier `:` type, then `)`
/// or `,` and a further parameter. It ends at the `)`.
///
/// The test `after < tokens.len()` never fails on a terminated token
/// sequence (`lemma_next_index_in_range`); it is there to show that the
/// definition terminates.
pub open spec fn params_from(tokens: Seq<TokenView>, i: int, read: Seq<FuncParamView>) -> Outcome<
    Seq<FuncParamView>,
>
    decreases tokens.len() - i,
{
    let colon = next_index(tokens, i);
    let type_at = next_index(tokens, colon);
    let after = next_index(tokens, type_at);
    if tokens[i].token_type != TokenType::Identifier {
        unexpected(tokens, "a identifier"@, i)
    } else if tokens[colon].token_type != TokenType::Colon {
        unexpected(tokens, "Colon"@, colon)
    } else {
        match type_of_token(tokens[type_at].token_type) {
            None => unexpected(tokens, "a type"@, type_at),
            Some(param_type) => {
                let all = read.push(FuncParamView { name: tokens[i].token_value, param_type });
                if tokens[after].token_type == TokenType::RParen {
                    Outcome::Parsed { value: all, end: after }
                } else if tokens[after].token_type == TokenType::Comma && after < tokens.len() {
                    params_from(tokens, after + 1, all)
                } else {
                    unexpected(tokens, "',' or ')'"@, after)
                }
            },
        }
    }
}

/// A parameter list that starts at `i`, the index of its `(`:
/// `(` (identifier `:` type (`,` identifier `:` type)*)? `)`.
/// It ends at the `)`.
pub open spec fn params_statement(tokens: Seq<TokenView>, i: int) -> Outcome<Seq<FuncParamView>> {
    let first = next_index(tokens, i);
    if tokens[first].token_type == TokenType::RParen {
        Outcome::Parsed { value: Seq::empty(), end: first }
    } else {
        params_from(tokens, first, Seq::empty())
    }
}

/// The statement that starts at `i`, chosen by its first token: `fn` begins a
/// function declaration and `let` a variable declaration. Any other token is
/// no statement.
pub open spec fn statement_at(tokens: Seq<TokenView>, i: int) -> Option<Outcome<StatementView>>
    decreases tokens.len() - i, 2int,
{
    if tokens[i].token_type == TokenType::KwFn {
        Some(function_statement(tokens, i))
    } else if tokens[i].token_type == TokenType::KwLet {
        Some(let_statement(tokens, i))
    } else {
        None
    }
}

/// The statements of a block from `i` on, where `read` holds the statements
/// of the block before `i`. The block ends at its `}`.
///
/// A statement ends at a token after the one it starts with, so the test
/// `i <= end < tokens.len()` never fails on a terminated token sequence
/// (`lemma_statement_ends_later`); it is there to show that the definition
/// terminates.
pub open spec fn block_from(tokens: Seq<TokenView>, i: int, read: Seq<StatementView>) -> Outcome<
    Seq<StatementView>,
>
    decreases tokens.len() - i, 3int,
{
    if tokens[i].token_type == TokenType::RBracket {
        Outcome::Parsed { value: read, end: i }
    } else if tokens[i].token_type == TokenType::Eof {
        unexpected(tokens, "end of block statement"@, i)
    } else {
        match statement_at(tokens, i) {
            None => unexpected(tokens, "end of code block statement"@, i),
            Some(Outcome::Failed { error, at }) => Outcome::Failed { error, at },
            Some(Outcome::Parsed { value, end }) => if i <= end < tokens.len() {
                block_from(tokens, end + 1, read.push(value))
            } else {
                Outcome::Parsed { value: read, end: i }
            },
        }
    }
}

/// The function declaration whose parameter list ended at `close`, from
/// there on: (`->` type)? block. Without the arrow the function returns
/// `Any`.
pub open spec fn function_after_params(
    tokens: Seq<TokenView>,
    i: int,
    name: int,
    params: Seq<FuncParamView>,
    close: int,
) -> Outcome<StatementView>
    decreases tokens.len() - i, 0int,
{
    let after = next_index(tokens, close);
    let arrow = tokens[after].token_type == TokenType::OpSetOrAcess;
    let type_at = next_index(tokens, after);
    let open = if arrow {
        next_index(tokens, type_at)
    } else {
        after
    };
    let return_type = if arrow {
        type_of_token(tokens[type_at].token_type)
    } else {
        Some(BuiltInTypes::Any)
    };
    if !arrow && tokens[after].token_type != TokenType::LBracket {
        unexpected(tokens, "'->' or '{'"@, after)
    } else if return_type is None {
        unexpected(tokens, "a type"@, type_at)
    } else if tokens[open].token_type != TokenType::LBracket || !(i < open < tokens.len()) {
        unexpected(tokens, "'{'"@, open)
    } else {
        match block_from(tokens, open + 1, Seq::empty()) {
            Outcome::Failed { error, at } => Outcome::Failed { error, at },
            Outcome::Parsed { value, end } => Outcome::Parsed {
                value: StatementView::FunctionDeclaration {
                    start: tokens[i].position,
                    name: tokens[name].token_value,
                    return_type: return_type->Some_0,
                    params,
                    body: value,
                },
                end,
            },
        }
    }
}

/// A function declaration that starts at `i`:
/// `fn` identifier `(` parameters `)` (`->` type)? `{` block `}`.
/// It ends at the `}` of its block.
///
/// The block opens after the `fn`, so the test `i < open < tokens.len()` in
/// `function_after_params` never fails on a terminated token sequence where
/// a `{` stands at `open`; it is there to show that the definition
/// terminates.
pub open spec fn function_statement(tokens: Seq<TokenView>, i: int) -> Outcome<StatementView>
    decreases tokens.len() - i, 1int,
{
    let name = next_index(tokens, i);
    let open = next_index(tokens, name);
    if tokens[name].token_type != TokenType::Identifier {
        unexpected(tokens, "a identifier"@, name)
    } else if tokens[open].token_type != TokenType::LParen {
        unexpected(tokens, "'('"@, open)
    } else {
        match params_statement(tokens, open) {
            Outcome::Failed { error, at } => Outcome::Failed { error, at },
            Outcome::Parsed { value, end } => function_after_params(tokens, i, name, value, end),
        }
    }
}

/// A block that starts at `i`, the index of its `{`: `{` statement* `}`.
/// It ends at the `}`.
pub open spec fn block_statement(tokens: Seq<TokenView>, i: int) -> Outcome<Seq<StatementView>> {
    block_from(tokens, next_index(tokens, i), Seq::empty())
}

/// What parsing a whole program gives.
pub struct Program {
    /// The statements that were read, in the order of the source.
    pub statements: Seq<StatementView>,
    /// The error that stopped the parse, if one did.
    pub error: Option<ErrorView>,
    /// The index at which the parse stopped.
    pub end: int,
}

/// The program from `i` on, where `read` holds the statements before `i`:
/// statements up to the end-of-stream token. The first error stops the parse
/// and is the only one reported; the statements read before it are kept.
pub open spec fn program_from(tokens: Seq<TokenView>, i: int, read: Seq<StatementView>) -> Program
    decreases tokens.len() - i,
{
    if tokens[i].token_type == TokenType::Eof {
        Program { statements: read, error: None, end: i }
    } else {
        match statement_at(tokens, i) {
            None => Program {
                statements: read,
                error: Some(expected_error_view("a statement"@, tokens[i], Issuer::Parser)),
                end: i,
            },
            Some(Outcome::Failed { error, at }) => Program {
                statements: read,
                error: Some(error),
                end: at,
            },
            Some(Outcome::Parsed { value, end }) => if i <= end < tokens.len() {
                program_from(tokens, end + 1, read.push(value))
            } else {
                Program { statements: read, error: None, end: i }
            },
        }
    }
}

/// On a terminated token sequence the index after one of its indices is one
/// of its indices too.
pub proof fn lemma_next_index_in_range(tokens: Seq<TokenView>, i: int)
    requires
        terminated(tokens),
        0 <= i < tokens.len(),
    ensures
        i <= next_index(tokens, i) < tokens.len(),
{
}

/// A variable declaration without a type has the type `Any`.
pub proof fn lemma_let_without_type(tokens: Seq<TokenView>, i: int)
    requires
        terminated(tokens),
        0 <= i < tokens.len(),
    ensures
        ({
            let first = next_index(tokens, i);
            let name = if tokens[first].token_type == TokenType::KwMut {
                next_index(tokens, first)
            } else {
                first
            };
            match let_statement(tokens, i) {
                Outcome::Parsed { value, end } => tokens[next_index(tokens, name)].token_type
                    == TokenType::SemiColon ==> value->VariableDeclaration_declared_type
                    == BuiltInTypes::Any,
                Outcome::Failed { error, at } => true,
            }
        }),
{
}

/// A function declaration has the parameters of its list, in their order.
/// Without an arrow after the list its result has the type `Any`.
pub proof fn lemma_function_without_arrow(tokens: Seq<TokenView>, i: int)
    requires
        terminated(tokens),
        0 <= i < tokens.len(),
    ensures
        ({
            let open = next_index(tokens, next_index(tokens, i));
            match (function_statement(tokens, i), params_statement(tokens, open)) {
                (
                    Outcome::Parsed { value, end },
                    Outcome::Parsed { value: params, end: close },
                ) => {
                    &&& value is FunctionDeclaration
                    &&& value->params == params
                    &&& tokens[next_index(tokens, close)].token_type != TokenType::OpSetOrAcess
                        ==> value->return_type == BuiltInTypes::Any
                },
                _ => true,
            }
        }),
{
}

/// A variable declaration ends at a `;` after its first token.
pub proof fn lemma_let_ends_later(tokens: Seq<TokenView>, i: int)
    requires
        terminated(tokens),
        0 <= i < tokens.len(),
    ensures
        let_statement(tokens, i) matches Outcome::Parsed { value, end } ==> i < end < tokens.len()
            && tokens[end].token_type == TokenType::SemiColon,
{
}

/// A parameter list ends at a `)` after the token it is read from.
pub proof fn lemma_params_end_later(tokens: Seq<TokenView>, i: int, read: Seq<FuncParamView>)
    requires
        terminated(tokens),
        0 <= i < tokens.len(),
    ensures
        params_from(tokens, i, read) matches Outcome::Parsed { value, end } ==> i < end
            < tokens.len() && tokens[end].token_type == TokenType::RParen,
    decreases tokens.len() - i,
{
    let colon = next_index(tokens, i);
    let type_at = next_index(tokens, colon);
    let after = next_index(tokens, type_at);
    if tokens[i].token_type == TokenType::Identifier && tokens[colon].token_type
        == TokenType::Colon {
        match type_of_token(tokens[type_at].token_type) {
            None => {},
            Some(param_type) => {
                if tokens[after].token_type == TokenType::Comma {
                    lemma_params_end_later(
                        tokens,
                        after + 1,
                        read.push(FuncParamView { name: tokens[i].token_value, param_type }),
                    );
                }
            },
        }
    }
}

/// A block ends at a `}` at or after the token it is read from.
pub proof fn lemma_block_ends_later(tokens: Seq<TokenView>, i: int, read: Seq<StatementView>)
    requires
        terminated(tokens),
        0 <= i < tokens.len(),
    ensures
        block_from(tokens, i, read) matches Outcome::Parsed { value, end } ==> i <= end
            < tokens.len() && tokens[end].token_type == TokenType::RBracket,
    decreases tokens.len() - i, 3int,
{
    if tokens[i].token_type != TokenType::RBracket && tokens[i].token_type != TokenType::Eof {
        lemma_statement_ends_later(tokens, i);
        match statement_at(tokens, i) {
            Some(Outcome::Parsed { value, end }) => {
                lemma_block_ends_later(tokens, end + 1, read.push(value));
            },
            _ => {},
        }
    }
}

/// A function declaration ends at a `}` after its first token.
pub proof fn lemma_function_ends_later(tokens: Seq<TokenView>, i: int)
    requires
        terminated(tokens),
        0 <= i < tokens.len(),
    ensures
        function_statement(tokens, i) matches Outcome::Parsed { value, end } ==> i < end
            < tokens.len() && tokens[end].token_type == TokenType::RBracket,
    decreases tokens.len() - i, 1int,
{
    let name = next_index(tokens, i);
    let open = next_index(tokens, name);
    if tokens[name].token_type == TokenType::Identifier && tokens[open].token_type
        == TokenType::LParen {
        let first = next_index(tokens, open);
        if tokens[first].token_type != TokenType::RParen {
            lemma_params_end_later(tokens, first, Seq::empty());
        }
        match params_statement(tokens, open) {
            Outcome::Failed { error, at } => {},
            Outcome::Parsed { value, end } => {
                let close = end;
                let after = next_index(tokens, close);
                let arrow = tokens[after].token_type == TokenType::OpSetOrAcess;
                let type_at = next_index(tokens, after);
                let brace = if arrow {
                    next_index(tokens, type_at)
                } else {
                    after
                };
                if tokens[brace].token_type == TokenType::LBracket && i < brace < tokens.len() {
                    lemma_block_ends_later(tokens, brace + 1, Seq::empty());
                }
            },
        }
    }
}

/// A statement ends after its first token, at a token that is not the end of
/// the stream. So the tests on `end` in `block_from` and `program_from` hold
/// whenever a statement was read.
pub proof fn lemma_statement_ends_later(tokens: Seq<TokenView>, i: int)
    requires
        terminated(tokens),
        0 <= i < tokens.len(),
    ensures
        statement_at(tokens, i) matches Some(Outcome::Parsed { value, end }) ==> i < end
            < tokens.len() && tokens[end].token_type != TokenType::Eof,
    decreases tokens.len() - i, 2int,
{
    if tokens[i].token_type == TokenType::KwFn {
        lemma_function_ends_later(tokens, i);
    } else if tokens[i].token_type == TokenType::KwLet {
        lemma_let_ends_later(tokens, i);
    }
}

} // verus!
