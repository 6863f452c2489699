//! The tokenizer: from source text to tokens and lexical errors.
//!
//! The text is read from its start to its end and never given up: where no
//! token begins, one character is reported as an error and the reading goes
//! on after it. Spaces and new lines are read as tokens, since the lines and
//! columns are counted by them, and are left out of the result, which ends
//! with the end-of-stream token.

use crate::frontend::scanner::{lemma_piece_bounds, piece_at, scan_piece};
use crate::frontend::text::{
    at_boundary, lemma_boundary_after_ascii, slice, text_between,
};
use crate::handlers::error_handler::{
    copy_errors, error_views, BaseError, BaseErrorView, Error, ErrorCode, ErrorView, ScriptError,
    ScriptErrorView,
};
use crate::handlers::message_handler::{Issuer, Message, MessageView};
use crate::types::others::Position;
use crate::types::tokens::{copy_tokens, token_views, Token, TokenType, TokenView};
use vstd::prelude::*;
use vstd::string::*;
use vstd::utf8::{encode_utf8_valid_utf8, valid_utf8};

verus! {

/// Where the tokenizer stands: the number of the line, the index at which
/// the line began, and the span of the piece that was read last.
#[derive(Debug, Clone, Copy, PartialEq, Eq, Structural)]
pub struct Cursor {
    pub line: usize,
    pub line_start: usize,
    pub start: usize,
    pub end: usize,
}

/// Counts a new line, which begins after the piece that was read last.
pub fn new_line_callback(lex: &mut Cursor)
    requires
        old(lex).line < usize::MAX,
    ensures
        *final(lex) == (Cursor {
            line: (old(lex).line + 1) as usize,
            line_start: old(lex).end,
            start: old(lex).start,
            end: old(lex).end,
        }),
{
    lex.line = lex.line + 1;
    lex.line_start = lex.end;
}

/// The line and the column of the piece that was read last.
pub fn word_callback(lex: &Cursor) -> (position: Position)
    requires
        lex.line_start <= lex.start,
    ensures
        position == (Position { line: lex.line, column: (lex.start - lex.line_start) as usize }),
{
    Position::new(lex.line, lex.start - lex.line_start)
}

/// What has been read of a text.
pub struct Progress {
    /// Every token read, spaces and new lines among them.
    pub tokens: Seq<TokenView>,
    /// The errors found.
    pub errors: Seq<ErrorView>,
    /// The number of new lines read.
    pub line: int,
    /// The index after the new line that was read last.
    pub line_start: int,
    /// The position of the token that was read last.
    pub position: Position,
}

/// Nothing read.
pub open spec fn begin() -> Progress {
    Progress {
        tokens: Seq::empty(),
        errors: Seq::empty(),
        line: 0,
        line_start: 0,
        position: Position { line: 0, column: 0 },
    }
}

/// The text that `{:?}` writes for a string: the string between double
/// quotes, with its special characters escaped.
pub uninterp spec fn debug_form(text: Seq<char>) -> Seq<char>;

/// The error that reports, at a position, a text that is no token, where
/// `quoted` is that text as it is shown to the user: an invalid-token error
/// of the tokenizer, whose message is `quoted` and ` -> non existent token.`
pub open spec fn non_existent_token_view(quoted: Seq<char>, position: Position) -> ErrorView {
    ErrorView::ScriptError(
        ScriptErrorView {
            base: BaseErrorView {
                message: MessageView {
                    content: quoted + " -> non existent token."@,
                    from: Issuer::Lexer,
                },
                code: ErrorCode::E001,
            },
            position,
        },
    )
}

/// The error that reports the characters `text` at a line and a column, where
/// no token begins. The message shows the text as `{:?}` writes it.
pub open spec fn invalid_token(text: Seq<char>, line: int, column: int) -> ErrorView {
    non_existent_token_view(
        debug_form(text),
        Position { line: line as usize, column: column as usize },
    )
}

/// What has been read after the piece at `at`.
///
/// A token stands at its line, in the column that is the distance from the
/// start of the line to its first byte. A new line is the first token of the
/// line that it begins. An unrecognized character is reported at its line
/// and column, and leaves the position of the last token as it was.
pub open spec fn after_piece(bytes: Seq<u8>, at: int, read: Progress) -> Progress {
    let piece = piece_at(bytes, at);
    let text = text_between(bytes, at, piece.end);
    match piece.kind {
        Some(TokenType::NewLine) => {
            let position = Position { line: (read.line + 1) as usize, column: 0 };
            Progress {
                tokens: read.tokens.push(
                    TokenView { token_type: TokenType::NewLine, token_value: text, position },
                ),
                line: read.line + 1,
                line_start: piece.end,
                position,
                ..read
            }
        },
        Some(token_type) => {
            let position = Position {
                line: read.line as usize,
                column: (at - read.line_start) as usize,
            };
            Progress {
                tokens: read.tokens.push(TokenView { token_type, token_value: text, position }),
                position,
                ..read
            }
        },
        None => Progress {
            errors: read.errors.push(invalid_token(text, read.line, at - read.line_start)),
            ..read
        },
    }
}

/// What has been read at the end of the text, where `read` is what has been
/// read before `at`.
pub open spec fn lex_from(bytes: Seq<u8>, at: int, read: Progress) -> Progress
    decreases bytes.len() - at,
{
    if 0 <= at < bytes.len() {
        proof {
            lemma_piece_bounds(bytes, at);
        }
        lex_from(bytes, piece_at(bytes, at).end, after_piece(bytes, at, read))
    } else {
        read
    }
}

/// The end-of-stream token, which stands at the position of the token before
/// it.
pub open spec fn end_token(position: Position) -> TokenView {
    TokenView { token_type: TokenType::Eof, token_value: "EOF"@, position }
}

/// Whether a token is kept in the result: every token but a space and a new
/// line.
pub open spec fn is_significant(token: TokenView) -> bool {
    token.token_type != TokenType::NewLine && token.token_type != TokenType::Space
}

/// The tokens that are kept, in their order.
pub open spec fn significant(tokens: Seq<TokenView>) -> Seq<TokenView> {
    tokens.filter(|token: TokenView| is_significant(token))
}

/// The result of tokenizing a text.
pub struct Lexed {
    pub tokens: Seq<TokenView>,
    pub errors: Seq<ErrorView>,
}

/// The tokens and the errors of the text `bytes`: the tokens that are kept,
/// then the end-of-stream token; and the errors, in the order of the text.
pub open spec fn lexed(bytes: Seq<u8>) -> Lexed {
    let read = lex_from(bytes, 0, begin());
    Lexed {
        tokens: significant(read.tokens.push(end_token(read.position))),
        errors: read.errors,
    }
}

/// The result of tokenizing ends with the end-of-stream token, which stands
/// at the position of the token that was read last. So the parser accepts
/// it.
pub proof fn lemma_lexed_ends_with_end_token(bytes: Seq<u8>)
    ensures
        lexed(bytes).tokens.len() > 0,
        lexed(bytes).tokens.last() == end_token(lex_from(bytes, 0, begin()).position),
        crate::frontend::syntax::terminated(lexed(bytes).tokens),
{
    let read = lex_from(bytes, 0, begin());
    lemma_significant_push(read.tokens, end_token(read.position));
}

/// An unrecognized character adds one error, at its line and column, and
/// nothing else: no token is added, and the lines are counted as before.
pub proof fn lemma_unrecognized_adds_one_error(bytes: Seq<u8>, at: int, read: Progress)
    requires
        0 <= at < bytes.len(),
        piece_at(bytes, at).kind is None,
    ensures
        after_piece(bytes, at, read) == (Progress {
            errors: read.errors.push(
                invalid_token(
                    text_between(bytes, at, piece_at(bytes, at).end),
                    read.line,
                    at - read.line_start,
                ),
            ),
            ..read
        }),
{
}

/// A text that is one unrecognized character gives one error, at line 0 and
/// column 0, and the end-of-stream token alone.
pub proof fn lemma_one_unrecognized_character(bytes: Seq<u8>)
    requires
        bytes.len() > 0,
        piece_at(bytes, 0).kind is None,
        piece_at(bytes, 0).end == bytes.len(),
    ensures
        lexed(bytes).errors == seq![
            invalid_token(text_between(bytes, 0, bytes.len() as int), 0, 0),
        ],
        lexed(bytes).tokens == seq![end_token(Position { line: 0, column: 0 })],
{
    let first = after_piece(bytes, 0, begin());
    assert(lex_from(bytes, bytes.len() as int, first) == first);
    assert(lex_from(bytes, 0, begin()) == first);
    assert(first.errors =~= seq![
        invalid_token(text_between(bytes, 0, bytes.len() as int), 0, 0),
    ]);
    lemma_significant_push(first.tokens, end_token(first.position));
    reveal(Seq::filter);
    assert(significant(first.tokens) =~= Seq::empty());
    assert(lexed(bytes).tokens =~= seq![end_token(Position { line: 0, column: 0 })]);
}

/// The kept tokens of a sequence with one more token.
pub proof fn lemma_significant_push(tokens: Seq<TokenView>, token: TokenView)
    ensures
        significant(tokens.push(token)) == if is_significant(token) {
            significant(tokens).push(token)
        } else {
            significant(tokens)
        },
{
    reveal(Seq::filter);
    assert(tokens.push(token).drop_last() =~= tokens);
}

proof fn lemma_token_views_push(tokens: Seq<Token>, token: Token)
    ensures
        token_views(tokens.push(token)) == token_views(tokens).push(token@),
{
    assert(token_views(tokens.push(token)) =~= token_views(tokens).push(token@));
}

/// Writes `text` as `{:?}` does: this is `format!("{:?}", text)`, whose
/// result depends on the characters of `text` alone.
#[verifier::external_body]
fn debug_quoted(text: &str) -> (quoted: String)
    ensures
        quoted@ == debug_form(text@),
{
    format!("{:?}", text)
}

/// The error that reports, at a line and a column, a text that is no token,
/// where `quoted` is that text as it is shown to the user.
pub fn non_existent_token(quoted: &str, line: usize, column: usize) -> (error: Error)
    ensures
        error@ == non_existent_token_view(quoted@, Position { line, column }),
{
    let mut content = String::from_str(quoted);
    content.append(" -> non existent token.");
    let message = Message::new(content.as_str(), Issuer::Lexer);
    let base_error = BaseError::new(message, ErrorCode::E001);
    let script_error = ScriptError::new(base_error, line, column);
    Error::ScriptError(script_error)
}

/// A tokenizer: the tokens and the errors of the texts that it has read.
#[derive(Debug)]
pub struct Lexer {
    pub tokens: Vec<Token>,
    pub errors: Vec<Error>,
}

impl Lexer {
    /// A tokenizer that has read nothing.
    pub fn new() -> (lexer: Self)
        ensures
            lexer.tokens@ == Seq::<Token>::empty(),
            lexer.errors@ == Seq::<Error>::empty(),
    {
        Lexer { tokens: Vec::new(), errors: Vec::new() }
    }

    /// Tokenizes `input`. The tokens are added to those that the lexer
    /// holds, and so are the errors. Then the spaces and the new lines are
    /// taken out of the tokens.
    pub fn lex(&mut self, input: &str)
        ensures
            ({
                let read = lex_from(input.spec_bytes(), 0, begin());
                &&& token_views(final(self).tokens@) == significant(
                    (token_views(old(self).tokens@) + read.tokens).push(end_token(read.position)),
                )
                &&& error_views(final(self).errors@) == error_views(old(self).errors@)
                    + read.errors
            }),
            crate::frontend::syntax::terminated(token_views(final(self).tokens@)),
            old(self).tokens@.len() == 0 ==> token_views(final(self).tokens@) == lexed(
                input.spec_bytes(),
            ).tokens,
            old(self).errors@.len() == 0 ==> error_views(final(self).errors@) == lexed(
                input.spec_bytes(),
            ).errors,
    {
        let bytes = input.as_bytes();
        proof {
            encode_utf8_valid_utf8(input@);
        }
        let mut lex = Cursor { line: 0, line_start: 0, start: 0, end: 0 };
        let mut token_position = Position::new(0, 0);
        let ghost mut read = begin();
        assert(token_views(self.tokens@) + read.tokens =~= token_views(self.tokens@));
        assert(error_views(self.errors@) + read.errors =~= error_views(self.errors@));

        while lex.end < bytes.len()
            invariant
                bytes@ == input.spec_bytes(),
                valid_utf8(bytes@),
                at_boundary(bytes@, lex.end as int),
                read.line == lex.line,
                read.line_start == lex.line_start,
                read.position == token_position,
                read.line <= lex.end,
                read.line_start <= lex.end,
                token_views(self.tokens@) == token_views(old(self).tokens@) + read.tokens,
                error_views(self.errors@) == error_views(old(self).errors@) + read.errors,
                lex_from(bytes@, lex.end as int, read) == lex_from(bytes@, 0, begin()),
            decreases bytes@.len() - lex.end,
        {
            lex.start = lex.end;
            let (kind, end) = scan_piece(bytes, lex.start);
            lex.end = end;
            proof {
                lemma_piece_bounds(bytes@, lex.start as int);
                if kind is Some {
                    lemma_boundary_after_ascii(bytes@, end - 1);
                }
            }
            let text = slice(input, lex.start, lex.end);
            let ghost tokens = self.tokens@;
            let ghost errors = self.errors@;
            match kind {
                Some(token) => {
                    match token {
                        TokenType::NewLine => {
                            new_line_callback(&mut lex);
                            token_position = Position::new(lex.line, 0);
                        },
                        _ => {
                            token_position = word_callback(&lex);
                        },
                    }
                    let tk = Token::new(
                        token,
                        text.as_str(),
                        token_position.line,
                        token_position.column,
                    );
                    self.tokens.push(tk);
                    proof {
                        lemma_token_views_push(tokens, tk);
                        assert((token_views(old(self).tokens@) + read.tokens).push(tk@)
                            =~= token_views(old(self).tokens@) + read.tokens.push(tk@));
                    }
                },
                None => {
                    let quoted = debug_quoted(text.as_str());
                    let position = word_callback(&lex);
                    let error = non_existent_token(
                        quoted.as_str(),
                        position.line,
                        position.column,
                    );
                    self.errors.push(error);
                    proof {
                        assert(error_views(errors.push(error)) =~= error_views(errors).push(
                            error@,
                        ));
                        assert((error_views(old(self).errors@) + read.errors).push(error@)
                            =~= error_views(old(self).errors@) + read.errors.push(error@));
                    }
                },
            }
            proof {
                read = after_piece(bytes@, lex.start as int, read);
            }
        }

        let ghost tokens = self.tokens@;
        let end = Token::new(TokenType::Eof, "EOF", token_position.line, token_position.column);
        self.tokens.push(end);
        proof {
            lemma_token_views_push(tokens, end);
            lemma_significant_push(token_views(tokens), end@);
            if old(self).tokens@.len() == 0 {
                assert(token_views(old(self).tokens@) + read.tokens =~= read.tokens);
            }
            if old(self).errors@.len() == 0 {
                assert(error_views(old(self).errors@) + read.errors =~= read.errors);
            }
        }

        self.lex_trim_result();
    }

    /// Takes the spaces and the new lines out of the tokens.
    pub fn lex_trim_result(&mut self)
        ensures
            token_views(final(self).tokens@) == significant(token_views(old(self).tokens@)),
            final(self).errors == old(self).errors,
    {
        let mut result: Vec<Token> = Vec::new();
        let mut i: usize = 0;
        assert(token_views(self.tokens@.take(0)) =~= Seq::empty());
        assert(token_views(result@) =~= Seq::empty());
        proof {
            reveal(Seq::filter);
        }
        while i < self.tokens.len()
            invariant
                *self == *old(self),
                i <= self.tokens@.len(),
                token_views(result@) == significant(token_views(self.tokens@.take(i as int))),
            decreases self.tokens@.len() - i,
        {
            let ghost kept = result@;
            proof {
                assert(token_views(self.tokens@.take(i + 1)) =~= token_views(
                    self.tokens@.take(i as int),
                ).push(self.tokens@[i as int]@));
                lemma_significant_push(
                    token_views(self.tokens@.take(i as int)),
                    self.tokens@[i as int]@,
                );
            }
            match self.tokens[i].token_type {
                TokenType::NewLine => {},
                TokenType::Space => {},
                _ => {
                    let token = self.tokens[i].clone();
                    result.push(token);
                    proof {
                        lemma_token_views_push(kept, token);
                    }
                },
            }
            i = i + 1;
        }
        assert(self.tokens@.take(i as int) =~= self.tokens@);
        self.tokens = result;
    }
}

impl Clone for Lexer {
    fn clone(&self) -> (copy: Self)
        ensures
            copy.tokens@ == self.tokens@,
            error_views(copy.errors@) == error_views(self.errors@),
    {
        Lexer { tokens: copy_tokens(&self.tokens), errors: copy_errors(&self.errors) }
    }
}

} // verus!
