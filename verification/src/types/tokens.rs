//! Token kinds and tokens.

use crate::types::others::Position;
use vstd::prelude::*;

verus! {

/// Every kind of token of the language.
#[derive(Debug, Clone, Copy, PartialEq, Eq, Structural)]
pub enum TokenType {
    // Structural
    NewLine,
    Space,
    Eof,
    // Punctuation
    Dot,
    Comma,
    Colon,
    SemiColon,
    SingleQuote,
    DoubleQuotes,
    // Delimiters
    LParen,
    RParen,
    LBrace,
    RBrace,
    LBracket,
    RBracket,
    OpenComment,
    CloseComment,
    // Declaration keywords
    KwNs,
    KwUse,
    KwLet,
    KwConst,
    KwMut,
    KwStruct,
    KwFn,
    // Logical keywords
    KwIf,
    KwElse,
    KwElif,
    KwIs,
    // Special keywords
    KwReturn,
    // Built-in types
    TypeNull,
    TypeInt,
    TypeFloat,
    TypeBool,
    TypeChar,
    TypeStr,
    TypeVoid,
    TypeAny,
    // Binary operators
    OpPlus,
    OpMinus,
    OpMultiply,
    OpDivision,
    OpRest,
    // Logical operators
    OpNot,
    OpAnd,
    OpOr,
    // Comparisons
    OpSmallerThan,
    OpGreaterThan,
    OpSmallerOrEqualsThan,
    OpGreaterOrEqualsThan,
    OpEquals,
    OpNotEquals,
    // Assignment operators
    OpAssign,
    OpAssignPlus,
    OpAssignMinus,
    OpAssignMultiply,
    OpAssignDivision,
    OpAssignRest,
    // Access operators
    OpSetOrAcess,
    OpAcess,
    OpInferredTypeAssing,
    // Literals
    Identifier,
    Number,
    SomehingElse,
    CharLiteral,
    StringLiteral,
    True,
    False,
}

/// A token: its kind, the text it was read from and where that text began.
#[derive(Debug)]
pub struct Token {
    pub token_type: TokenType,
    pub token_value: String,
    pub position: Position,
}

/// What a token is, with its text as a sequence of characters.
pub struct TokenView {
    pub token_type: TokenType,
    pub token_value: Seq<char>,
    pub position: Position,
}

impl View for Token {
    type V = TokenView;

    open spec fn view(&self) -> TokenView {
        TokenView {
            token_type: self.token_type,
            token_value: self.token_value@,
            position: self.position,
        }
    }
}

impl Clone for Token {
    fn clone(&self) -> (token: Self)
        ensures
            token == *self,
    {
        Token {
            token_type: self.token_type,
            token_value: self.token_value.clone(),
            position: self.position,
        }
    }
}

impl Token {
    /// A token of a kind, with the text `value`, at a line and a column.
    pub fn new(token_type: TokenType, value: &str, line: usize, column: usize) -> (token: Self)
        ensures
            token@ == (TokenView {
                token_type,
                token_value: value@,
                position: Position { line, column },
            }),
    {
        Token {
            token_type,
            token_value: value.to_owned(),
            position: Position::new(line, column),
        }
    }
}

/// The views of a sequence of tokens, in the same order.
pub open spec fn token_views(tokens: Seq<Token>) -> Seq<TokenView> {
    tokens.map_values(|token: Token| token@)
}

/// A copy of the tokens `tokens`.
pub fn copy_tokens(tokens: &Vec<Token>) -> (copy: Vec<Token>)
    ensures
        copy@ == tokens@,
{
    let mut copy: Vec<Token> = Vec::new();
    let mut i: usize = 0;
    while i < tokens.len()
        invariant
            i <= tokens.len(),
            copy.len() == i,
            forall|j: int| 0 <= j < i ==> copy[j] == tokens[j],
        decreases tokens.len() - i,
    {
        copy.push(tokens[i].clone());
        i = i + 1;
    }
    assert(copy@ =~= tokens@);
    copy
}

} // verus!
