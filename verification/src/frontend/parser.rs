//! The parser: recursive descent over a token buffer with one token of
//! lookahead. It builds one module node and stops at the first error.

use crate::frontend::syntax::{
    block_from, block_statement, function_statement, lemma_params_end_later,
    lemma_statement_ends_later, let_statement,
    next_index, params_from, params_statement, program_from, terminated,
    type_of_token, unexpected, Outcome,
};
use crate::handlers::error_handler::{
    copy_errors, error_views, expected_error_view, Error, ErrorView,
};
use crate::handlers::message_handler::Issuer;
use crate::types::built_in_types::BuiltInTypes;
use crate::types::others::Position;
use crate::types::parse_nodes::{
    param_views, statement_views, FuncParam, Loop, Statement, StatementView, VarDeclarationKind,
};
use crate::types::tokens::{copy_tokens, token_views, Token, TokenType, TokenView};
use vstd::prelude::*;

verus! {

/// A parser: the tokens that it reads, the place where it stands, and what
/// it has built and found so far.
#[derive(Debug)]
pub struct Parser {
    tokens: Vec<Token>,
    position: usize,
    errors: Vec<Error>,
    ast: Statement,
}

/// The tree `ast` with `statements` added at the end of its body, where it is
/// a module. Any other node is left as it is.
pub open spec fn with_statements(ast: StatementView, statements: Seq<StatementView>) -> StatementView {
    match ast {
        StatementView::Module { start, body } => StatementView::Module {
            start,
            body: body + statements,
        },
        other => other,
    }
}

/// The errors `errors` with `error` added at the end, if there is one.
pub open spec fn with_error(errors: Seq<ErrorView>, error: Option<ErrorView>) -> Seq<ErrorView> {
    match error {
        Some(error) => errors.push(error),
        None => errors,
    }
}

proof fn lemma_error_views_push(errors: Seq<Error>, error: Error)
    ensures
        error_views(errors.push(error)) == error_views(errors).push(error@),
{
    assert(error_views(errors.push(error)) =~= error_views(errors).push(error@));
}

proof fn lemma_statement_views_push(before: Vec<Statement>, after: Vec<Statement>, statement: Statement)
    requires
        after@ == before@.push(statement),
    ensures
        statement_views(after) == statement_views(before).push(statement@),
{
    assert(statement_views(after) =~= statement_views(before).push(statement@));
}

proof fn lemma_param_views_push(params: Seq<FuncParam>, param: FuncParam)
    ensures
        param_views(params.push(param)) == param_views(params).push(param@),
{
    assert(param_views(params.push(param)) =~= param_views(params).push(param@));
}

impl Parser {
    /// The tokens that the parser reads.
    pub closed spec fn tokens(&self) -> Seq<TokenView> {
        token_views(self.tokens@)
    }

    /// The index of the current token.
    pub closed spec fn cursor(&self) -> int {
        self.position as int
    }

    /// The errors found so far, in the order in which they were found.
    pub closed spec fn diagnostics(&self) -> Seq<ErrorView> {
        error_views(self.errors@)
    }

    /// The tree built so far.
    pub closed spec fn tree(&self) -> StatementView {
        self.ast@
    }

    /// The parser's invariant: the tokens end with the end-of-stream token,
    /// and the cursor stands at one of them.
    pub open spec fn wf(&self) -> bool {
        &&& terminated(self.tokens())
        &&& 0 <= self.cursor() < self.tokens().len()
    }

    /// How reading a construct changes the parser: the cursor stops at the
    /// construct's last token, or at the token that did not fit, in which
    /// case the error is added to the parser's errors. The tree is not
    /// touched.
    pub open spec fn reads<T>(before: Parser, after: Parser, outcome: Outcome<T>) -> bool {
        &&& after.wf()
        &&& after.tokens() == before.tokens()
        &&& after.tree() == before.tree()
        &&& match outcome {
            Outcome::Parsed { value, end } => {
                &&& after.cursor() == end
                &&& after.diagnostics() == before.diagnostics()
            },
            Outcome::Failed { error, at } => {
                &&& after.cursor() == at
                &&& after.diagnostics() == before.diagnostics().push(error)
            },
        }
    }

    /// A parser that stands at the first token of `input`, with an empty
    /// module and no errors.
    pub fn new(input: Vec<Token>) -> (parser: Self)
        requires
            terminated(token_views(input@)),
        ensures
            parser.wf(),
            parser.tokens() == token_views(input@),
            parser.cursor() == 0,
            parser.diagnostics() == Seq::<ErrorView>::empty(),
            parser.tree() == (StatementView::Module {
                start: Position { line: 0, column: 0 },
                body: Seq::empty(),
            }),
    {
        let parser = Parser {
            tokens: input,
            position: 0,
            errors: Vec::new(),
            ast: Statement::Module { start: Position::new(0, 0), body: Box::new(Vec::new()) },
        };
        assert(parser.ast@->Module_body =~= Seq::empty());
        assert(parser.diagnostics() =~= Seq::empty());
        parser
    }

    /// The errors found so far, in the order in which they were found.
    pub fn errors(&self) -> (errors: &Vec<Error>)
        ensures
            error_views(errors@) == self.diagnostics(),
    {
        &self.errors
    }

    /// The tree built so far.
    pub fn ast(&self) -> (ast: &Statement)
        ensures
            ast@ == self.tree(),
    {
        &self.ast
    }

    /// Adds `statement` at the end of the module's body.
    fn push_statement(&mut self, statement: Statement)
        ensures
            old(self).wf() ==> final(self).wf(),
            final(self).tree() == with_statements(old(self).tree(), seq![statement@]),
            final(self).tokens() == old(self).tokens(),
            final(self).cursor() == old(self).cursor(),
            final(self).diagnostics() == old(self).diagnostics(),
    {
        match &mut self.ast {
            Statement::Module { body, .. } => {
                let ghost before = **body;
                body.push(statement);
                proof {
                    lemma_statement_views_push(before, **body, statement);
                    assert(statement_views(before).push(statement@) =~= statement_views(before)
                        + seq![statement@]);
                }
            },
            _ => {},
        }
    }

    /// The current token.
    fn current(&self) -> (token: &Token)
        requires
            self.wf(),
        ensures
            token@ == self.tokens()[self.cursor()],
    {
        &self.tokens[self.position]
    }

    /// The kind of the current token.
    fn current_type(&self) -> (token_type: &TokenType)
        requires
            self.wf(),
        ensures
            *token_type == self.tokens()[self.cursor()].token_type,
    {
        &self.current().token_type
    }

    /// Whether the current token is of the kind `expected`.
    fn peek_expect(&self, expected: &TokenType) -> (found: bool)
        requires
            self.wf(),
        ensures
            found == (self.tokens()[self.cursor()].token_type == *expected),
    {
        *self.current_type() == *expected
    }

    /// The type that the current token names, or the error that reports the
    /// token where a type was awaited.
    fn get_type(&self) -> (result: Result<BuiltInTypes, Error>)
        requires
            self.wf(),
        ensures
            match type_of_token(self.tokens()[self.cursor()].token_type) {
                Some(named) => result == Ok::<BuiltInTypes, Error>(named),
                None => result is Err && result->Err_0@ == expected_error_view(
                    "a type"@,
                    self.tokens()[self.cursor()],
                    Issuer::Parser,
                ),
            },
    {
        match self.current_type() {
            TokenType::TypeNull => Ok(BuiltInTypes::Null),
            TokenType::TypeInt => Ok(BuiltInTypes::Int),
            TokenType::TypeFloat => Ok(BuiltInTypes::Float),
            TokenType::TypeBool => Ok(BuiltInTypes::Bool),
            TokenType::TypeChar => Ok(BuiltInTypes::Char),
            TokenType::TypeStr => Ok(BuiltInTypes::Str),
            TokenType::TypeVoid => Ok(BuiltInTypes::Void),
            TokenType::TypeAny => Ok(BuiltInTypes::Any),
            _ => Err(Error::expected_error("a type", self.current(), Issuer::Parser)),
        }
    }

    /// Moves to the next token. The end-of-stream token is never passed.
    fn advance(&mut self)
        requires
            old(self).wf(),
        ensures
            final(self).wf(),
            final(self).tokens() == old(self).tokens(),
            final(self).cursor() == next_index(old(self).tokens(), old(self).cursor()),
            final(self).diagnostics() == old(self).diagnostics(),
            final(self).tree() == old(self).tree(),
    {
        match self.current().token_type {
            TokenType::Eof => {},
            _ => {
                assert(self.position < self.tokens.len());
                self.position = self.position + 1;
            },
        }
    }

    /// Adds to the errors the one that reports the current token where
    /// `expected` was awaited.
    fn reject(&mut self, expected: &str)
        requires
            old(self).wf(),
        ensures
            Self::reads::<()>(
                *old(self),
                *final(self),
                unexpected(old(self).tokens(), expected@, old(self).cursor()),
            ),
    {
        let error = Error::expected_error(expected, self.current(), Issuer::Parser);
        proof {
            lemma_error_views_push(self.errors@, error);
        }
        self.errors.push(error);
    }

    /// Adds `error` to the errors.
    fn record(&mut self, error: Error)
        requires
            old(self).wf(),
        ensures
            final(self).wf(),
            final(self).tokens() == old(self).tokens(),
            final(self).cursor() == old(self).cursor(),
            final(self).tree() == old(self).tree(),
            final(self).diagnostics() == old(self).diagnostics().push(error@),
    {
        proof {
            lemma_error_views_push(self.errors@, error);
        }
        self.errors.push(error);
    }

    /// Reads a variable declaration, whose `let` is the current token.
    fn parse_let_statement(&mut self) -> (statement: Option<Statement>)
        requires
            old(self).wf(),
        ensures
            Self::reads(
                *old(self),
                *final(self),
                let_statement(old(self).tokens(), old(self).cursor()),
            ),
            match let_statement(old(self).tokens(), old(self).cursor()) {
                Outcome::Parsed { value, end } => statement is Some && statement->Some_0@ == value,
                Outcome::Failed { error, at } => statement is None,
            },
    {
        let start = self.current().position;
        self.advance();

        let mut kind = VarDeclarationKind::Immutable;
        match self.current().token_type {
            TokenType::KwMut => {
                kind = VarDeclarationKind::Mutable;
                self.advance();
            },
            TokenType::Identifier => {},
            _ => {
                self.reject("\"mut\" or a identifier");
                return None;
            },
        }

        let name = match Error::expected_or_error(
            "a identifier",
            &TokenType::Identifier,
            self.current(),
            Issuer::Parser,
        ) {
            Ok(name) => name.token_value,
            Err(error) => {
                self.record(error);
                return None;
            },
        };

        self.advance();

        match self.current().token_type {
            TokenType::Colon => {
                self.advance();
            },
            TokenType::SemiColon => {
                return Some(
                    Statement::VariableDeclaration {
                        start,
                        name,
                        kind,
                        declared_type: BuiltInTypes::Any,
                        value: None,
                    },
                );
            },
            _ => {
                self.reject("a explicity type or the end of let statement");
                return None;
            },
        }

        let declared_type = match self.get_type() {
            Ok(declared_type) => declared_type,
            Err(error) => {
                self.record(error);
                return None;
            },
        };

        self.advance();

        match self.current().token_type {
            TokenType::SemiColon => {
                Some(
                    Statement::VariableDeclaration {
                        start,
                        name,
                        kind,
                        declared_type,
                        value: None,
                    },
                )
            },
            _ => {
                self.reject("a explicity type or the end of let statement");
                None
            },
        }
    }

    /// Reads a parameter list, whose `(` is the current token.
    fn parse_params_statement(&mut self) -> (params: Option<Vec<FuncParam>>)
        requires
            old(self).wf(),
        ensures
            Self::reads(
                *old(self),
                *final(self),
                params_statement(old(self).tokens(), old(self).cursor()),
            ),
            match params_statement(old(self).tokens(), old(self).cursor()) {
                Outcome::Parsed { value, end } => params is Some && param_views(params->Some_0@)
                    == value,
                Outcome::Failed { error, at } => params is None,
            },
    {
        self.advance();

        let mut params: Vec<FuncParam> = Vec::new();
        assert(param_views(params@) =~= Seq::empty());

        if self.peek_expect(&TokenType::RParen) {
            return Some(params);
        }
        loop
            invariant
                self.wf(),
                self.tokens() == old(self).tokens(),
                self.tree() == old(self).tree(),
                self.diagnostics() == old(self).diagnostics(),
                params_from(self.tokens(), self.cursor(), param_views(params@))
                    == params_statement(old(self).tokens(), old(self).cursor()),
            decreases self.tokens().len() - self.cursor(),
        {
            let name = match Error::expected_or_error(
                "a identifier",
                &TokenType::Identifier,
                self.current(),
                Issuer::Parser,
            ) {
                Ok(name) => name.token_value,
                Err(error) => {
                    self.record(error);
                    return None;
                },
            };

            self.advance();

            match Error::expected_or_error(
                "Colon",
                &TokenType::Colon,
                self.current(),
                Issuer::Parser,
            ) {
                Ok(_) => {},
                Err(error) => {
                    self.record(error);
                    return None;
                },
            }

            self.advance();

            let param_type = match self.get_type() {
                Ok(param_type) => param_type,
                Err(error) => {
                    self.record(error);
                    return None;
                },
            };

            self.advance();

            let param = FuncParam { name, param_type };
            proof {
                lemma_param_views_push(params@, param);
            }

            if self.peek_expect(&TokenType::RParen) {
                params.push(param);
                return Some(params);
            } else if self.peek_expect(&TokenType::Comma) {
                params.push(param);
                self.advance();
            } else {
                self.reject("',' or ')'");
                return None;
            }
        }
    }

    /// Reads a block, whose `{` is the current token.
    fn parse_block_statement(&mut self, is_loop: &Loop) -> (block: Option<Vec<Statement>>)
        requires
            old(self).wf(),
        ensures
            Self::reads(
                *old(self),
                *final(self),
                block_statement(old(self).tokens(), old(self).cursor()),
            ),
            match block_statement(old(self).tokens(), old(self).cursor()) {
                Outcome::Parsed { value, end } => block is Some && statement_views(block->Some_0)
                    == value,
                Outcome::Failed { error, at } => block is None,
            },
        decreases old(self).tokens().len() - old(self).cursor(), 4int,
    {
        self.advance();

        let mut block_statements: Vec<Statement> = Vec::new();
        assert(statement_views(block_statements) =~= Seq::empty());

        loop
            invariant
                self.wf(),
                old(self).cursor() <= self.cursor(),
                self.tokens() == old(self).tokens(),
                self.tree() == old(self).tree(),
                self.diagnostics() == old(self).diagnostics(),
                block_from(self.tokens(), self.cursor(), statement_views(block_statements))
                    == block_statement(old(self).tokens(), old(self).cursor()),
            decreases self.tokens().len() - self.cursor(),
        {
            let ghost before = block_statements;
            let ghost at = self.cursor();
            proof {
                lemma_statement_ends_later(self.tokens(), at);
            }
            let statement = if self.peek_expect(&TokenType::RBracket) {
                return Some(block_statements);
            } else if self.peek_expect(&TokenType::Eof) {
                self.reject("end of block statement");
                return None;
            } else if self.peek_expect(&TokenType::KwFn) {
                self.parse_function_satement()
            } else if self.peek_expect(&TokenType::KwLet) {
                self.parse_let_statement()
            } else {
                self.reject("end of code block statement");
                return None;
            };
            match statement {
                Some(statement) => {
                    block_statements.push(statement);
                    proof {
                        lemma_statement_views_push(before, block_statements, statement);
                    }
                    self.advance();
                },
                None => {
                    return None;
                },
            }
        }
    }

    /// Reads a function declaration, whose `fn` is the current token.
    fn parse_function_satement(&mut self) -> (statement: Option<Statement>)
        requires
            old(self).wf(),
        ensures
            Self::reads(
                *old(self),
                *final(self),
                function_statement(old(self).tokens(), old(self).cursor()),
            ),
            match function_statement(old(self).tokens(), old(self).cursor()) {
                Outcome::Parsed { value, end } => statement is Some && statement->Some_0@ == value,
                Outcome::Failed { error, at } => statement is None,
            },
        decreases old(self).tokens().len() - old(self).cursor(), 1int,
    {
        let start = self.current().position;
        self.advance();

        let name: String = match Error::expected_or_error(
            "a identifier",
            &TokenType::Identifier,
            self.current(),
            Issuer::Parser,
        ) {
            Ok(token) => token.token_value,
            Err(error) => {
                self.record(error);
                return None;
            },
        };

        self.advance();

        match Error::expected_or_error("'('", &TokenType::LParen, self.current(), Issuer::Parser) {
            Ok(_) => {},
            Err(error) => {
                self.record(error);
                return None;
            },
        }

        let ghost open = self.cursor();
        proof {
            let first = next_index(self.tokens(), open);
            if self.tokens()[first].token_type != TokenType::RParen {
                lemma_params_end_later(self.tokens(), first, Seq::empty());
            }
        }
        let params = match self.parse_params_statement() {
            Some(params) => params,
            None => {
                return None;
            },
        };

        self.advance();

        let return_type: BuiltInTypes;

        if self.peek_expect(&TokenType::OpSetOrAcess) {
            self.advance();

            return_type = match self.get_type() {
                Ok(return_type) => return_type,
                Err(error) => {
                    self.record(error);
                    return None;
                },
            };

            self.advance();
        } else if self.peek_expect(&TokenType::LBracket) {
            return_type = BuiltInTypes::Any;
        } else {
            self.reject("'->' or '{'");
            return None;
        }

        match Error::expected_or_error("'{'", &TokenType::LBracket, self.current(), Issuer::Parser) {
            Ok(_) => {},
            Err(error) => {
                self.record(error);
                return None;
            },
        }

        let body = match self.parse_block_statement(&Loop::No) {
            Some(body) => body,
            None => {
                return None;
            },
        };

        Some(
            Statement::FunctionDeclaration { start, name, return_type, params, body: Box::new(body) },
        )
    }

    /// Reads statements until the end of the stream or the first error, and
    /// adds them to the module's body.
    pub fn parse_tokens(&mut self)
        requires
            old(self).wf(),
        ensures
            final(self).wf(),
            final(self).tokens() == old(self).tokens(),
            ({
                let program = program_from(old(self).tokens(), old(self).cursor(), Seq::empty());
                &&& final(self).tree() == with_statements(old(self).tree(), program.statements)
                &&& final(self).diagnostics() == with_error(old(self).diagnostics(), program.error)
                &&& final(self).cursor() == program.end
            }),
    {
        let ghost read: Seq<StatementView> = Seq::empty();
        assert(with_statements(self.tree(), read) == self.tree()) by {
            match self.tree() {
                StatementView::Module { start, body } => {
                    assert(body + read =~= body);
                },
                _ => {},
            }
        }
        while !self.peek_expect(&TokenType::Eof)
            invariant
                self.wf(),
                self.tokens() == old(self).tokens(),
                self.diagnostics() == old(self).diagnostics(),
                self.tree() == with_statements(old(self).tree(), read),
                program_from(self.tokens(), self.cursor(), read) == program_from(
                    old(self).tokens(),
                    old(self).cursor(),
                    Seq::empty(),
                ),
            decreases self.tokens().len() - self.cursor(),
        {
            proof {
                lemma_statement_ends_later(self.tokens(), self.cursor());
            }
            let ast_node: Option<Statement> = if self.peek_expect(&TokenType::KwFn) {
                self.parse_function_satement()
            } else if self.peek_expect(&TokenType::KwLet) {
                self.parse_let_statement()
            } else {
                self.reject("a statement");
                return ;
            };

            match ast_node {
                Some(statement) => {
                    let ghost tree = self.tree();
                    self.push_statement(statement);
                    proof {
                        match old(self).tree() {
                            StatementView::Module { start, body } => {
                                assert((body + read) + seq![statement@] =~= body + read.push(
                                    statement@,
                                ));
                            },
                            _ => {},
                        }
                        read = read.push(statement@);
                    }
                },
                None => {
                    return ;
                },
            }

            self.advance();
        }
    }
}

impl Clone for Parser {
    fn clone(&self) -> (copy: Self)
        ensures
            copy.tokens() == self.tokens(),
            copy.cursor() == self.cursor(),
            copy.diagnostics() == self.diagnostics(),
            copy.tree() == self.tree(),
    {
        Parser {
            tokens: copy_tokens(&self.tokens),
            position: self.position,
            errors: copy_errors(&self.errors),
            ast: self.ast.clone(),
        }
    }
}

} // verus!
