//! The scanner: what stands at a place of the source text.
//!
//! At every place the longest text that is a token is taken. Where two kinds
//! of token fit the same text, a keyword goes before an identifier. Where no
//! token begins, one character is set aside as unrecognized.
//!
//! The text is read as bytes. Every token begins and ends with a byte below
//! 128, and only a string or a character literal can hold other bytes.

use crate::types::tokens::TokenType;
use vstd::prelude::*;
use vstd::string::*;
use vstd::utf8::{encode_utf8, is_continuation_byte};

verus! {

/// A byte that can begin a word: a letter or `_`.
pub open spec fn is_word_start(byte: u8) -> bool {
    let c = byte as char;
    ('a' <= c && c <= 'z') || ('A' <= c && c <= 'Z') || c == '_'
}

/// A decimal digit.
pub open spec fn is_digit(byte: u8) -> bool {
    let c = byte as char;
    '0' <= c && c <= '9'
}

/// A byte that can go on a word: a letter, a digit or `_`.
pub open spec fn is_word_byte(byte: u8) -> bool {
    is_word_start(byte) || is_digit(byte)
}

/// A byte that makes an escape of the backslash before it: one of `"\bnfrt`.
pub open spec fn is_escape(byte: u8) -> bool {
    let c = byte as char;
    c == '"' || c == '\\' || c == 'b' || c == 'n' || c == 'f' || c == 'r' || c == 't'
}

/// A hexadecimal digit.
pub open spec fn is_hex_digit(byte: u8) -> bool {
    let c = byte as char;
    ('0' <= c && c <= '9') || ('a' <= c && c <= 'f') || ('A' <= c && c <= 'F')
}

/// The length of the escape that begins with the backslash at `at`, or 0
/// where none begins there. An escape is a backslash and one of `"\bnfrt`,
/// or a backslash, `u` and four hexadecimal digits.
pub open spec fn escape_length(bytes: Seq<u8>, at: int) -> int {
    if at + 1 < bytes.len() && is_escape(bytes[at + 1]) {
        2
    } else if at + 5 < bytes.len() && bytes[at + 1] as char == 'u' && is_hex_digit(bytes[at + 2])
        && is_hex_digit(bytes[at + 3]) && is_hex_digit(bytes[at + 4]) && is_hex_digit(
        bytes[at + 5],
    ) {
        6
    } else {
        0
    }
}

/// The classes of bytes of which a run is read.
#[derive(Debug, Clone, Copy, PartialEq, Eq, Structural)]
pub enum Class {
    /// The bytes of a word.
    Word,
    /// The decimal digits.
    Digit,
    /// The bytes of a character after its first.
    Continuation,
}

/// Whether `byte` is of `class`.
pub open spec fn in_class(class: Class, byte: u8) -> bool {
    match class {
        Class::Word => is_word_byte(byte),
        Class::Digit => is_digit(byte),
        Class::Continuation => is_continuation_byte(byte),
    }
}

/// The end of the run of bytes of `class` that begins at `at`: the first
/// index from `at` on whose byte is not of the class, or the end of the text.
pub open spec fn run_end(bytes: Seq<u8>, at: int, class: Class) -> int
    decreases bytes.len() - at,
{
    if 0 <= at < bytes.len() && in_class(class, bytes[at]) {
        run_end(bytes, at + 1, class)
    } else {
        at
    }
}

/// The kind of the word `text`: the keyword that is written so, and
/// otherwise an identifier.
pub open spec fn word_kind(text: Seq<u8>) -> TokenType {
    if text == encode_utf8("ns"@) {
        TokenType::KwNs
    } else if text == encode_utf8("use"@) {
        TokenType::KwUse
    } else if text == encode_utf8("let"@) {
        TokenType::KwLet
    } else if text == encode_utf8("const"@) {
        TokenType::KwConst
    } else if text == encode_utf8("mut"@) {
        TokenType::KwMut
    } else if text == encode_utf8("struct"@) {
        TokenType::KwStruct
    } else if text == encode_utf8("fn"@) {
        TokenType::KwFn
    } else if text == encode_utf8("if"@) {
        TokenType::KwIf
    } else if text == encode_utf8("else"@) {
        TokenType::KwElse
    } else if text == encode_utf8("elif"@) {
        TokenType::KwElif
    } else if text == encode_utf8("is"@) {
        TokenType::KwIs
    } else if text == encode_utf8("return"@) {
        TokenType::KwReturn
    } else if text == encode_utf8("null"@) {
        TokenType::TypeNull
    } else if text == encode_utf8("int"@) {
        TokenType::TypeInt
    } else if text == encode_utf8("float"@) {
        TokenType::TypeFloat
    } else if text == encode_utf8("bool"@) {
        TokenType::TypeBool
    } else if text == encode_utf8("char"@) {
        TokenType::TypeChar
    } else if text == encode_utf8("str"@) {
        TokenType::TypeStr
    } else if text == encode_utf8("void"@) {
        TokenType::TypeVoid
    } else if text == encode_utf8("any"@) {
        TokenType::TypeAny
    } else if text == encode_utf8("not"@) {
        TokenType::OpNot
    } else if text == encode_utf8("and"@) {
        TokenType::OpAnd
    } else if text == encode_utf8("or"@) {
        TokenType::OpOr
    } else if text == encode_utf8("true"@) {
        TokenType::True
    } else if text == encode_utf8("false"@) {
        TokenType::False
    } else if text == encode_utf8("_"@) {
        TokenType::SomehingElse
    } else {
        TokenType::Identifier
    }
}

/// The token that the two bytes spell, if they spell one.
pub open spec fn pair_kind(first: u8, second: u8) -> Option<TokenType> {
    match (first as char, second as char) {
        ('-', '#') => Some(TokenType::OpenComment),
        ('#', '-') => Some(TokenType::CloseComment),
        ('>', '=') => Some(TokenType::OpSmallerOrEqualsThan),
        ('<', '=') => Some(TokenType::OpGreaterOrEqualsThan),
        ('=', '=') => Some(TokenType::OpEquals),
        ('!', '=') => Some(TokenType::OpNotEquals),
        ('+', '=') => Some(TokenType::OpAssignPlus),
        ('-', '=') => Some(TokenType::OpAssignMinus),
        ('*', '=') => Some(TokenType::OpAssignMultiply),
        ('/', '=') => Some(TokenType::OpAssignDivision),
        ('%', '=') => Some(TokenType::OpAssignRest),
        ('-', '>') => Some(TokenType::OpSetOrAcess),
        (':', ':') => Some(TokenType::OpAcess),
        (':', '=') => Some(TokenType::OpInferredTypeAssing),
        _ => None,
    }
}

/// The token that the byte spells by itself, if it spells one.
pub open spec fn single_kind(byte: u8) -> Option<TokenType> {
    match byte as char {
        '\n' => Some(TokenType::NewLine),
        ' ' => Some(TokenType::Space),
        '\t' => Some(TokenType::Space),
        '\0' => Some(TokenType::Eof),
        '.' => Some(TokenType::Dot),
        ',' => Some(TokenType::Comma),
        ':' => Some(TokenType::Colon),
        ';' => Some(TokenType::SemiColon),
        '\'' => Some(TokenType::SingleQuote),
        '"' => Some(TokenType::DoubleQuotes),
        '(' => Some(TokenType::LParen),
        ')' => Some(TokenType::RParen),
        '[' => Some(TokenType::LBrace),
        ']' => Some(TokenType::RBrace),
        '{' => Some(TokenType::LBracket),
        '}' => Some(TokenType::RBracket),
        '+' => Some(TokenType::OpPlus),
        '-' => Some(TokenType::OpMinus),
        '*' => Some(TokenType::OpMultiply),
        '/' => Some(TokenType::OpDivision),
        '%' => Some(TokenType::OpRest),
        '!' => Some(TokenType::OpNot),
        '&' => Some(TokenType::OpAnd),
        '|' => Some(TokenType::OpOr),
        '<' => Some(TokenType::OpSmallerThan),
        '>' => Some(TokenType::OpGreaterThan),
        '=' => Some(TokenType::OpAssign),
        _ => None,
    }
}

/// The end of the string literal whose inside goes on at `at`: the index
/// after the first `"` that is not part of an escape. There is none where
/// the text ends first, or where a backslash begins no escape.
pub open spec fn string_end(bytes: Seq<u8>, at: int) -> Option<int>
    decreases bytes.len() - at,
{
    if !(0 <= at < bytes.len()) {
        None
    } else if bytes[at] as char == '"' {
        Some(at + 1)
    } else if bytes[at] as char != '\\' {
        string_end(bytes, at + 1)
    } else if escape_length(bytes, at) > 0 {
        string_end(bytes, at + escape_length(bytes, at))
    } else {
        None
    }
}

/// The end of the longest character literal whose inside goes on at `at`,
/// where `last` is the end of the longest that closes before `at`. A `'` may
/// stand inside the literal, so the literal closes at the last `'` that can be
/// reached: before a `"`, before a backslash that begins no escape, and
/// before the end of the text.
pub open spec fn char_end(bytes: Seq<u8>, at: int, last: Option<int>) -> Option<int>
    decreases bytes.len() - at,
{
    if !(0 <= at < bytes.len()) {
        last
    } else if bytes[at] as char == '"' {
        last
    } else if bytes[at] as char == '\'' {
        char_end(bytes, at + 1, Some(at + 1))
    } else if bytes[at] as char != '\\' {
        char_end(bytes, at + 1, last)
    } else if escape_length(bytes, at) > 0 {
        char_end(bytes, at + escape_length(bytes, at), last)
    } else {
        last
    }
}

/// What stands at a place of the text.
pub struct Piece {
    /// The kind of the token, or nothing for an unrecognized character.
    pub kind: Option<TokenType>,
    /// The index after its last byte.
    pub end: int,
}

/// What stands at `at`, an index below the length of `bytes`.
pub open spec fn piece_at(bytes: Seq<u8>, at: int) -> Piece {
    let first = bytes[at];
    if is_word_start(first) {
        let end = run_end(bytes, at + 1, Class::Word);
        Piece { kind: Some(word_kind(bytes.subrange(at, end))), end }
    } else if is_digit(first) {
        Piece { kind: Some(TokenType::Number), end: run_end(bytes, at + 1, Class::Digit) }
    } else if first as char == '"' && string_end(bytes, at + 1) is Some {
        Piece { kind: Some(TokenType::StringLiteral), end: string_end(bytes, at + 1)->Some_0 }
    } else if first as char == '\'' && char_end(bytes, at + 1, None) is Some {
        Piece { kind: Some(TokenType::CharLiteral), end: char_end(bytes, at + 1, None)->Some_0 }
    } else if at + 1 < bytes.len() && pair_kind(first, bytes[at + 1]) is Some {
        Piece { kind: pair_kind(first, bytes[at + 1]), end: at + 2 }
    } else if single_kind(first) is Some {
        Piece { kind: single_kind(first), end: at + 1 }
    } else {
        Piece { kind: None, end: run_end(bytes, at + 1, Class::Continuation) }
    }
}

/// A run ends at or after the place where it begins, and within the text.
pub proof fn lemma_run_end_bounds(bytes: Seq<u8>, at: int, class: Class)
    requires
        0 <= at <= bytes.len(),
    ensures
        at <= run_end(bytes, at, class) <= bytes.len(),
        forall|i: int| at <= i < run_end(bytes, at, class) ==> in_class(class, #[trigger] bytes[i]),
        run_end(bytes, at, class) < bytes.len() ==> !in_class(
            class,
            bytes[run_end(bytes, at, class)],
        ),
    decreases bytes.len() - at,
{
    if at < bytes.len() && in_class(class, bytes[at]) {
        lemma_run_end_bounds(bytes, at + 1, class);
    }
}

/// A string literal ends within the text, with a `"`.
pub proof fn lemma_string_end_bounds(bytes: Seq<u8>, at: int)
    requires
        0 <= at <= bytes.len(),
    ensures
        string_end(bytes, at) matches Some(end) ==> at < end <= bytes.len() && bytes[end - 1] as char
            == '"',
    decreases bytes.len() - at,
{
    if at < bytes.len() && bytes[at] as char != '"' {
        if bytes[at] as char != '\\' {
            lemma_string_end_bounds(bytes, at + 1);
        } else if escape_length(bytes, at) > 0 {
            lemma_string_end_bounds(bytes, at + escape_length(bytes, at));
        }
    }
}

/// A character literal ends within the text, with a `'`.
pub proof fn lemma_char_end_bounds(bytes: Seq<u8>, at: int, last: Option<int>)
    requires
        0 <= at <= bytes.len(),
        last matches Some(end) ==> 0 < end <= at && bytes[end - 1] as char == '\'',
    ensures
        char_end(bytes, at, last) matches Some(end) ==> 0 < end <= bytes.len() && bytes[end - 1] as char
            == '\'' && (last is None ==> at < end),
        last matches Some(before) ==> char_end(bytes, at, last) matches Some(end) && before <= end,
    decreases bytes.len() - at,
{
    if at < bytes.len() && bytes[at] as char != '"' {
        if bytes[at] as char == '\'' {
            lemma_char_end_bounds(bytes, at + 1, Some(at + 1));
        } else if bytes[at] as char != '\\' {
            lemma_char_end_bounds(bytes, at + 1, last);
        } else if escape_length(bytes, at) > 0 {
            lemma_char_end_bounds(bytes, at + escape_length(bytes, at), last);
        }
    }
}

/// What stands at a place ends after it and within the text. A token ends
/// with a byte below 128, and an unrecognized character where the next
/// character begins.
pub proof fn lemma_piece_bounds(bytes: Seq<u8>, at: int)
    requires
        0 <= at < bytes.len(),
    ensures
        at < piece_at(bytes, at).end <= bytes.len(),
        piece_at(bytes, at).kind is Some ==> bytes[piece_at(bytes, at).end - 1] < 0x80,
        piece_at(bytes, at).kind is None ==> crate::frontend::text::at_boundary(
            bytes,
            piece_at(bytes, at).end,
        ),
{
    lemma_run_end_bounds(bytes, at + 1, Class::Word);
    lemma_run_end_bounds(bytes, at + 1, Class::Digit);
    lemma_run_end_bounds(bytes, at + 1, Class::Continuation);
    lemma_string_end_bounds(bytes, at + 1);
    lemma_char_end_bounds(bytes, at + 1, None);
    let first = bytes[at];
    let piece = piece_at(bytes, at);
    if is_word_start(first) {
        let end = run_end(bytes, at + 1, Class::Word);
        if end > at + 1 {
            assert(in_class(Class::Word, bytes[end - 1]));
        }
    } else if is_digit(first) {
        let end = run_end(bytes, at + 1, Class::Digit);
        if end > at + 1 {
            assert(in_class(Class::Digit, bytes[end - 1]));
        }
    }
}

/// Whether `byte` is of `class`.
fn belongs(class: Class, byte: u8) -> (found: bool)
    ensures
        found == in_class(class, byte),
{
    let c = byte as char;
    match class {
        Class::Word => ('a' <= c && c <= 'z') || ('A' <= c && c <= 'Z') || c == '_' || ('0' <= c
            && c <= '9'),
        Class::Digit => '0' <= c && c <= '9',
        Class::Continuation => 0x80 <= byte && byte <= 0xbf,
    }
}

/// Whether `byte` is a hexadecimal digit.
fn is_hex(byte: u8) -> (found: bool)
    ensures
        found == is_hex_digit(byte),
{
    let c = byte as char;
    ('0' <= c && c <= '9') || ('a' <= c && c <= 'f') || ('A' <= c && c <= 'F')
}

/// The length of the escape that begins with the backslash at `at`, or 0
/// where none begins there.
fn escape_at(bytes: &[u8], at: usize) -> (length: usize)
    requires
        at < bytes@.len(),
    ensures
        length == escape_length(bytes@, at as int),
        at + length <= bytes@.len(),
{
    if bytes.len() - at < 2 {
        return 0;
    }
    let c = bytes[at + 1] as char;
    if c == '"' || c == '\\' || c == 'b' || c == 'n' || c == 'f' || c == 'r' || c == 't' {
        2
    } else if bytes.len() - at >= 6 && c == 'u' && is_hex(bytes[at + 2]) && is_hex(bytes[at + 3])
        && is_hex(bytes[at + 4]) && is_hex(bytes[at + 5]) {
        6
    } else {
        0
    }
}

/// Reads the run of bytes of `class` that begins at `at`.
fn scan_run(bytes: &[u8], at: usize, class: Class) -> (end: usize)
    requires
        at <= bytes@.len(),
    ensures
        end == run_end(bytes@, at as int, class),
        at <= end <= bytes@.len(),
{
    let mut end = at;
    while end < bytes.len() && belongs(class, bytes[end])
        invariant
            at <= end <= bytes@.len(),
            run_end(bytes@, end as int, class) == run_end(bytes@, at as int, class),
        decreases bytes@.len() - end,
    {
        end = end + 1;
    }
    end
}

/// Whether the bytes from `start` up to `end` are those of `word`.
fn spells(bytes: &[u8], start: usize, end: usize, word: &str) -> (found: bool)
    requires
        start <= end <= bytes@.len(),
    ensures
        found == (bytes@.subrange(start as int, end as int) == word.spec_bytes()),
{
    let letters = word.as_bytes();
    if end - start != letters.len() {
        return false;
    }
    let ghost text = bytes@.subrange(start as int, end as int);
    let mut i: usize = 0;
    while i < letters.len()
        invariant
            start <= end <= bytes@.len(),
            end - start == letters@.len(),
            letters@ == word.spec_bytes(),
            text == bytes@.subrange(start as int, end as int),
            0 <= i <= letters@.len(),
            forall|j: int| 0 <= j < i ==> text[j] == letters@[j],
        decreases letters@.len() - i,
    {
        if bytes[start + i] != letters[i] {
            assert(text[i as int] != letters@[i as int]);
            return false;
        }
        i = i + 1;
    }
    assert(text =~= letters@);
    true
}

/// The kind of the word that the bytes from `start` up to `end` spell.
fn classify_word(bytes: &[u8], start: usize, end: usize) -> (kind: TokenType)
    requires
        start <= end <= bytes@.len(),
    ensures
        kind == word_kind(bytes@.subrange(start as int, end as int)),
{
    if spells(bytes, start, end, "ns") {
        TokenType::KwNs
    } else if spells(bytes, start, end, "use") {
        TokenType::KwUse
    } else if spells(bytes, start, end, "let") {
        TokenType::KwLet
    } else if spells(bytes, start, end, "const") {
        TokenType::KwConst
    } else if spells(bytes, start, end, "mut") {
        TokenType::KwMut
    } else if spells(bytes, start, end, "struct") {
        TokenType::KwStruct
    } else if spells(bytes, start, end, "fn") {
        TokenType::KwFn
    } else if spells(bytes, start, end, "if") {
        TokenType::KwIf
    } else if spells(bytes, start, end, "else") {
        TokenType::KwElse
    } else if spells(bytes, start, end, "elif") {
        TokenType::KwElif
    } else if spells(bytes, start, end, "is") {
        TokenType::KwIs
    } else if spells(bytes, start, end, "return") {
        TokenType::KwReturn
    } else if spells(bytes, start, end, "null") {
        TokenType::TypeNull
    } else if spells(bytes, start, end, "int") {
        TokenType::TypeInt
    } else if spells(bytes, start, end, "float") {
        TokenType::TypeFloat
    } else if spells(bytes, start, end, "bool") {
        TokenType::TypeBool
    } else if spells(bytes, start, end, "char") {
        TokenType::TypeChar
    } else if spells(bytes, start, end, "str") {
        TokenType::TypeStr
    } else if spells(bytes, start, end, "void") {
        TokenType::TypeVoid
    } else if spells(bytes, start, end, "any") {
        TokenType::TypeAny
    } else if spells(bytes, start, end, "not") {
        TokenType::OpNot
    } else if spells(bytes, start, end, "and") {
        TokenType::OpAnd
    } else if spells(bytes, start, end, "or") {
        TokenType::OpOr
    } else if spells(bytes, start, end, "true") {
        TokenType::True
    } else if spells(bytes, start, end, "false") {
        TokenType::False
    } else if spells(bytes, start, end, "_") {
        TokenType::SomehingElse
    } else {
        TokenType::Identifier
    }
}

/// The token that the two bytes spell, if they spell one.
fn classify_pair(first: u8, second: u8) -> (kind: Option<TokenType>)
    ensures
        kind == pair_kind(first, second),
{
    match (first as char, second as char) {
        ('-', '#') => Some(TokenType::OpenComment),
        ('#', '-') => Some(TokenType::CloseComment),
        ('>', '=') => Some(TokenType::OpSmallerOrEqualsThan),
        ('<', '=') => Some(TokenType::OpGreaterOrEqualsThan),
        ('=', '=') => Some(TokenType::OpEquals),
        ('!', '=') => Some(TokenType::OpNotEquals),
        ('+', '=') => Some(TokenType::OpAssignPlus),
        ('-', '=') => Some(TokenType::OpAssignMinus),
        ('*', '=') => Some(TokenType::OpAssignMultiply),
        ('/', '=') => Some(TokenType::OpAssignDivision),
        ('%', '=') => Some(TokenType::OpAssignRest),
        ('-', '>') => Some(TokenType::OpSetOrAcess),
        (':', ':') => Some(TokenType::OpAcess),
        (':', '=') => Some(TokenType::OpInferredTypeAssing),
        _ => None,
    }
}

/// The token that the byte spells by itself, if it spells one.
fn classify_single(byte: u8) -> (kind: Option<TokenType>)
    ensures
        kind == single_kind(byte),
{
    match byte as char {
        '\n' => Some(TokenType::NewLine),
        ' ' => Some(TokenType::Space),
        '\t' => Some(TokenType::Space),
        '\0' => Some(TokenType::Eof),
        '.' => Some(TokenType::Dot),
        ',' => Some(TokenType::Comma),
        ':' => Some(TokenType::Colon),
        ';' => Some(TokenType::SemiColon),
        '\'' => Some(TokenType::SingleQuote),
        '"' => Some(TokenType::DoubleQuotes),
        '(' => Some(TokenType::LParen),
        ')' => Some(TokenType::RParen),
        '[' => Some(TokenType::LBrace),
        ']' => Some(TokenType::RBrace),
        '{' => Some(TokenType::LBracket),
        '}' => Some(TokenType::RBracket),
        '+' => Some(TokenType::OpPlus),
        '-' => Some(TokenType::OpMinus),
        '*' => Some(TokenType::OpMultiply),
        '/' => Some(TokenType::OpDivision),
        '%' => Some(TokenType::OpRest),
        '!' => Some(TokenType::OpNot),
        '&' => Some(TokenType::OpAnd),
        '|' => Some(TokenType::OpOr),
        '<' => Some(TokenType::OpSmallerThan),
        '>' => Some(TokenType::OpGreaterThan),
        '=' => Some(TokenType::OpAssign),
        _ => None,
    }
}

/// Reads the string literal whose inside goes on at `at`.
fn scan_string(bytes: &[u8], at: usize) -> (end: Option<usize>)
    requires
        at <= bytes@.len(),
    ensures
        match string_end(bytes@, at as int) {
            Some(found) => end == Some(found as usize) && found <= bytes@.len(),
            None => end is None,
        },
{
    let mut i = at;
    while i < bytes.len()
        invariant
            at <= i <= bytes@.len(),
            string_end(bytes@, i as int) == string_end(bytes@, at as int),
        decreases bytes@.len() - i,
    {
        let c = bytes[i] as char;
        if c == '"' {
            return Some(i + 1);
        } else if c != '\\' {
            i = i + 1;
        } else {
            let length = escape_at(bytes, i);
            if length == 0 {
                return None;
            }
            i = i + length;
        }
    }
    None
}

/// Reads the longest character literal whose inside goes on at `at`.
fn scan_char(bytes: &[u8], at: usize) -> (end: Option<usize>)
    requires
        at <= bytes@.len(),
    ensures
        match char_end(bytes@, at as int, None) {
            Some(found) => end == Some(found as usize) && found <= bytes@.len(),
            None => end is None,
        },
{
    let mut i = at;
    let mut last: Option<usize> = None;
    let ghost mut seen: Option<int> = None;
    while i < bytes.len()
        invariant
            at <= i <= bytes@.len(),
            match seen {
                Some(found) => last == Some(found as usize) && 0 < found <= i,
                None => last is None,
            },
            char_end(bytes@, i as int, seen) == char_end(bytes@, at as int, None),
        decreases bytes@.len() - i,
    {
        let c = bytes[i] as char;
        if c == '"' {
            return last;
        } else if c == '\'' {
            i = i + 1;
            last = Some(i);
            proof {
                seen = Some(i as int);
            }
        } else if c != '\\' {
            i = i + 1;
        } else {
            let length = escape_at(bytes, i);
            if length == 0 {
                return last;
            }
            i = i + length;
        }
    }
    last
}

/// Reads what stands at `at`: the kind of the token, or nothing for an
/// unrecognized character, and the index after its last byte.
pub fn scan_piece(bytes: &[u8], at: usize) -> (piece: (Option<TokenType>, usize))
    requires
        at < bytes@.len(),
    ensures
        piece.0 == piece_at(bytes@, at as int).kind,
        piece.1 == piece_at(bytes@, at as int).end,
        at < piece.1 <= bytes@.len(),
{
    proof {
        lemma_piece_bounds(bytes@, at as int);
    }
    let first = bytes[at];
    if belongs(Class::Word, first) && !belongs(Class::Digit, first) {
        let end = scan_run(bytes, at + 1, Class::Word);
        return (Some(classify_word(bytes, at, end)), end);
    }
    if belongs(Class::Digit, first) {
        return (Some(TokenType::Number), scan_run(bytes, at + 1, Class::Digit));
    }
    if first as char == '"' {
        match scan_string(bytes, at + 1) {
            Some(end) => {
                return (Some(TokenType::StringLiteral), end);
            },
            None => {},
        }
    }
    if first as char == '\'' {
        match scan_char(bytes, at + 1) {
            Some(end) => {
                return (Some(TokenType::CharLiteral), end);
            },
            None => {},
        }
    }
    if at + 1 < bytes.len() {
        match classify_pair(first, bytes[at + 1]) {
            Some(kind) => {
                return (Some(kind), at + 2);
            },
            None => {},
        }
    }
    match classify_single(first) {
        Some(kind) => (Some(kind), at + 1),
        None => (None, scan_run(bytes, at + 1, Class::Continuation)),
    }
}

} // verus!
