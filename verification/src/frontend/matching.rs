//! What the scanner's choice means: the text that it takes at a place is
//! written as a token of the kind it gives, no longer text at that place is
//! written as any token, and the only other kind that the same text can have
//! is the identifier that a keyword is also written as.

use crate::frontend::scanner::{
    char_end, escape_length, in_class, is_digit, is_word_byte, is_word_start,
    lemma_char_end_bounds, lemma_piece_bounds, lemma_run_end_bounds, lemma_string_end_bounds,
    pair_kind, piece_at, run_end, single_kind, string_end, word_kind, Class,
};
use crate::types::tokens::TokenType;
use vstd::prelude::*;
use vstd::string::*;
use vstd::utf8::{encode_utf8, is_ascii_chars, is_ascii_chars_encode_utf8};

verus! {

/// A word: a letter or `_`, then letters, digits and `_`.
pub open spec fn is_word(text: Seq<u8>) -> bool {
    &&& text.len() > 0
    &&& is_word_start(text[0])
    &&& forall|i: int| 0 <= i < text.len() ==> is_word_byte(#[trigger] text[i])
}

/// A number: one decimal digit or more.
pub open spec fn is_number(text: Seq<u8>) -> bool {
    &&& text.len() > 0
    &&& forall|i: int| 0 <= i < text.len() ==> is_digit(#[trigger] text[i])
}

/// A string literal: a `"`, then bytes other than `"` and backslash, and
/// escapes, then the `"` that ends the text.
pub open spec fn is_string_literal(text: Seq<u8>) -> bool {
    &&& text.len() > 0
    &&& text[0] as char == '"'
    &&& string_end(text, 1) == Some(text.len() as int)
}

/// A character literal: a `'`, then bytes other than `"` and backslash, and
/// escapes, then the `'` that ends the text.
pub open spec fn is_char_literal(text: Seq<u8>) -> bool {
    &&& text.len() > 0
    &&& text[0] as char == '\''
    &&& char_end(text, 1, None) == Some(text.len() as int)
}

/// Whether `text` is written as a token of `kind`.
pub open spec fn is_token(kind: TokenType, text: Seq<u8>) -> bool {
    match kind {
        TokenType::Identifier => is_word(text),
        TokenType::Number => is_number(text),
        TokenType::StringLiteral => is_string_literal(text),
        TokenType::CharLiteral => is_char_literal(text),
        _ => {
            ||| text.len() == 1 && single_kind(text[0]) == Some(kind)
            ||| text.len() == 2 && pair_kind(text[0], text[1]) == Some(kind)
            ||| word_kind(text) == kind
        },
    }
}

/// A run holds every byte of its class that follows its start without a
/// break.
proof fn lemma_run_is_longest(bytes: Seq<u8>, at: int, class: Class, end: int)
    requires
        0 <= at <= end <= bytes.len(),
        forall|i: int| at <= i < end ==> in_class(class, #[trigger] bytes[i]),
    ensures
        end <= run_end(bytes, at, class),
    decreases end - at,
{
    if at < end {
        assert(in_class(class, bytes[at]));
        lemma_run_is_longest(bytes, at + 1, class, end);
    } else {
        lemma_run_end_bounds(bytes, at, class);
    }
}

/// The bytes of a text of letters, digits and `_` that has one byte for each
/// character.
proof fn lemma_spelled(word: Seq<char>)
    requires
        word.len() > 0,
        is_ascii_chars(word),
        forall|i: int| 0 <= i < word.len() ==> is_word_byte((#[trigger] word[i]) as u8),
        is_word_start(word[0] as u8),
    ensures
        is_word(encode_utf8(word)),
{
    is_ascii_chars_encode_utf8(word);
    let bytes = encode_utf8(word);
    assert forall|i: int| 0 <= i < bytes.len() implies is_word_byte(#[trigger] bytes[i]) by {
        assert(bytes[i] == word[i] as u8);
    }
    assert(bytes[0] == word[0] as u8);
}

/// Every keyword is written as a word.
pub proof fn lemma_keyword_is_word(text: Seq<u8>)
    requires
        word_kind(text) != TokenType::Identifier,
    ensures
        is_word(text),
{
    reveal_strlit("ns");
    reveal_strlit("use");
    reveal_strlit("let");
    reveal_strlit("const");
    reveal_strlit("mut");
    reveal_strlit("struct");
    reveal_strlit("fn");
    reveal_strlit("if");
    reveal_strlit("else");
    reveal_strlit("elif");
    reveal_strlit("is");
    reveal_strlit("return");
    reveal_strlit("null");
    reveal_strlit("int");
    reveal_strlit("float");
    reveal_strlit("bool");
    reveal_strlit("char");
    reveal_strlit("str");
    reveal_strlit("void");
    reveal_strlit("any");
    reveal_strlit("not");
    reveal_strlit("and");
    reveal_strlit("or");
    reveal_strlit("true");
    reveal_strlit("false");
    reveal_strlit("_");
    if text == encode_utf8("ns"@) {
        lemma_spelled("ns"@);
    } else if text == encode_utf8("use"@) {
        lemma_spelled("use"@);
    } else if text == encode_utf8("let"@) {
        lemma_spelled("let"@);
    } else if text == encode_utf8("const"@) {
        lemma_spelled("const"@);
    } else if text == encode_utf8("mut"@) {
        lemma_spelled("mut"@);
    } else if text == encode_utf8("struct"@) {
        lemma_spelled("struct"@);
    } else if text == encode_utf8("fn"@) {
        lemma_spelled("fn"@);
    } else if text == encode_utf8("if"@) {
        lemma_spelled("if"@);
    } else if text == encode_utf8("else"@) {
        lemma_spelled("else"@);
    } else if text == encode_utf8("elif"@) {
        lemma_spelled("elif"@);
    } else if text == encode_utf8("is"@) {
        lemma_spelled("is"@);
    } else if text == encode_utf8("return"@) {
        lemma_spelled("return"@);
    } else if text == encode_utf8("null"@) {
        lemma_spelled("null"@);
    } else if text == encode_utf8("int"@) {
        lemma_spelled("int"@);
    } else if text == encode_utf8("float"@) {
        lemma_spelled("float"@);
    } else if text == encode_utf8("bool"@) {
        lemma_spelled("bool"@);
    } else if text == encode_utf8("char"@) {
        lemma_spelled("char"@);
    } else if text == encode_utf8("str"@) {
        lemma_spelled("str"@);
    } else if text == encode_utf8("void"@) {
        lemma_spelled("void"@);
    } else if text == encode_utf8("any"@) {
        lemma_spelled("any"@);
    } else if text == encode_utf8("not"@) {
        lemma_spelled("not"@);
    } else if text == encode_utf8("and"@) {
        lemma_spelled("and"@);
    } else if text == encode_utf8("or"@) {
        lemma_spelled("or"@);
    } else if text == encode_utf8("true"@) {
        lemma_spelled("true"@);
    } else if text == encode_utf8("false"@) {
        lemma_spelled("false"@);
    } else if text == encode_utf8("_"@) {
        lemma_spelled("_"@);
    }
}

/// Reading a string literal in a part of a text that begins at `at` and
/// reading it in the whole text come to the same end.
proof fn lemma_string_in_part(bytes: Seq<u8>, at: int, end: int, i: int)
    requires
        0 <= at <= end <= bytes.len(),
        0 <= i <= end - at,
    ensures
        string_end(bytes.subrange(at, end), i) matches Some(found) ==> string_end(bytes, at + i)
            == Some(at + found),
        string_end(bytes, at + i) == Some(end) ==> string_end(bytes.subrange(at, end), i) == Some(
            end - at,
        ),
    decreases end - at - i,
{
    let text = bytes.subrange(at, end);
    lemma_string_end_bounds(bytes, at + i);
    if i < text.len() {
        assert(text[i] == bytes[at + i]);
        if text[i] as char == '"' {
        } else if text[i] as char != '\\' {
            lemma_string_in_part(bytes, at, end, i + 1);
        } else {
            let whole = escape_length(bytes, at + i);
            let part = escape_length(text, i);
            if i + 1 < text.len() {
                assert(text[i + 1] == bytes[at + i + 1]);
            }
            if i + 5 < text.len() {
                assert(text[i + 2] == bytes[at + i + 2]);
                assert(text[i + 3] == bytes[at + i + 3]);
                assert(text[i + 4] == bytes[at + i + 4]);
                assert(text[i + 5] == bytes[at + i + 5]);
            }
            if whole > 0 {
                lemma_string_end_bounds(bytes, at + i + whole);
            }
            if part > 0 {
                assert(whole == part);
                lemma_string_in_part(bytes, at, end, i + part);
            }
        }
    }
}

/// Reading a character literal goes on from the literal that closed last, or
/// finds one that closes later.
proof fn lemma_char_end_grows(bytes: Seq<u8>, at: int, last: Option<int>)
    requires
        0 <= at <= bytes.len(),
    ensures
        char_end(bytes, at, last) == last || (char_end(bytes, at, last) matches Some(end) && at
            < end <= bytes.len()),
    decreases bytes.len() - at,
{
    if at < bytes.len() && bytes[at] as char != '"' {
        if bytes[at] as char == '\'' {
            lemma_char_end_grows(bytes, at + 1, Some(at + 1));
        } else if bytes[at] as char != '\\' {
            lemma_char_end_grows(bytes, at + 1, last);
        } else if escape_length(bytes, at) > 0 {
            lemma_char_end_grows(bytes, at + escape_length(bytes, at), last);
        }
    }
}

/// The end of a literal that closed in a part of a text, as an index of the
/// whole text.
spec fn moved(last: Option<int>, at: int) -> Option<int> {
    match last {
        Some(end) => Some(at + end),
        None => None,
    }
}

/// Reading a character literal in a part of a text that begins at `at` finds
/// no longer literal than reading it in the whole text, and the same where
/// the whole text closes the literal at the end of the part.
proof fn lemma_char_in_part(bytes: Seq<u8>, at: int, end: int, i: int, last: Option<int>)
    requires
        0 <= at <= end <= bytes.len(),
        0 <= i <= end - at,
        last matches Some(before) ==> 0 < before <= i && bytes[at + before - 1] as char == '\'',
    ensures
        char_end(bytes.subrange(at, end), i, last) matches Some(found) ==> (char_end(
            bytes,
            at + i,
            moved(last, at),
        ) matches Some(whole) && at + found <= whole),
        char_end(bytes, at + i, moved(last, at)) == Some(end) ==> char_end(
            bytes.subrange(at, end),
            i,
            last,
        ) == Some(end - at),
    decreases end - at - i,
{
    let text = bytes.subrange(at, end);
    lemma_char_end_bounds(bytes, at + i, moved(last, at));
    lemma_char_end_grows(bytes, at + i, moved(last, at));
    if i < text.len() {
        assert(text[i] == bytes[at + i]);
        if text[i] as char == '"' {
        } else if text[i] as char == '\'' {
            lemma_char_in_part(bytes, at, end, i + 1, Some(i + 1));
        } else if text[i] as char != '\\' {
            lemma_char_in_part(bytes, at, end, i + 1, last);
        } else {
            let whole = escape_length(bytes, at + i);
            let part = escape_length(text, i);
            if i + 1 < text.len() {
                assert(text[i + 1] == bytes[at + i + 1]);
            }
            if i + 5 < text.len() {
                assert(text[i + 2] == bytes[at + i + 2]);
                assert(text[i + 3] == bytes[at + i + 3]);
                assert(text[i + 4] == bytes[at + i + 4]);
                assert(text[i + 5] == bytes[at + i + 5]);
            }
            if whole > 0 {
                lemma_char_end_bounds(bytes, at + i + whole, moved(last, at));
                lemma_char_end_grows(bytes, at + i + whole, moved(last, at));
            }
            if part > 0 {
                assert(whole == part);
                lemma_char_in_part(bytes, at, end, i + part, last);
            }
        }
    }
}

/// A byte that is a token by itself begins no word and no number.
proof fn lemma_single_is_no_word(byte: u8)
    ensures
        single_kind(byte) is Some ==> !is_word_byte(byte),
        single_kind(byte) matches Some(kind) ==> kind != TokenType::Identifier && kind
            != TokenType::Number && kind != TokenType::StringLiteral && kind
            != TokenType::CharLiteral,
{
}

/// Two bytes that are a token begin no word, no number and no literal.
proof fn lemma_pair_is_no_word(first: u8, second: u8)
    ensures
        pair_kind(first, second) is Some ==> !is_word_byte(first) && first as char != '"'
            && first as char != '\'',
        pair_kind(first, second) matches Some(kind) ==> kind != TokenType::Identifier && kind
            != TokenType::Number && kind != TokenType::StringLiteral && kind
            != TokenType::CharLiteral,
{
}

/// What the scanner takes is written as a token of the kind that it gives.
pub proof fn lemma_piece_is_token(bytes: Seq<u8>, at: int)
    requires
        0 <= at < bytes.len(),
    ensures
        piece_at(bytes, at).kind matches Some(kind) ==> is_token(
            kind,
            bytes.subrange(at, piece_at(bytes, at).end),
        ),
{
    let piece = piece_at(bytes, at);
    let text = bytes.subrange(at, piece.end);
    let first = bytes[at];
    lemma_piece_bounds(bytes, at);
    lemma_single_is_no_word(first);
    assert(text[0] == first);
    if is_word_start(first) {
        lemma_run_end_bounds(bytes, at + 1, Class::Word);
        assert forall|i: int| 0 <= i < text.len() implies is_word_byte(#[trigger] text[i]) by {
            if i > 0 {
                assert(in_class(Class::Word, bytes[at + i]));
            }
        }
        assert(is_word(text));
    } else if is_digit(first) {
        lemma_run_end_bounds(bytes, at + 1, Class::Digit);
        assert forall|i: int| 0 <= i < text.len() implies is_digit(#[trigger] text[i]) by {
            if i > 0 {
                assert(in_class(Class::Digit, bytes[at + i]));
            }
        }
    } else if first as char == '"' && string_end(bytes, at + 1) is Some {
        lemma_string_in_part(bytes, at, piece.end, 1);
    } else if first as char == '\'' && char_end(bytes, at + 1, None) is Some {
        lemma_char_in_part(bytes, at, piece.end, 1, None);
    } else if at + 1 < bytes.len() && pair_kind(first, bytes[at + 1]) is Some {
        lemma_pair_is_no_word(first, bytes[at + 1]);
        assert(text[1] == bytes[at + 1]);
    }
}

/// A byte that is a token by itself: the scanner finds a token there.
proof fn lemma_longest_single(bytes: Seq<u8>, at: int, kind: TokenType)
    requires
        0 <= at < bytes.len(),
        single_kind(bytes[at]) == Some(kind),
    ensures
        piece_at(bytes, at).kind is Some,
        at + 1 <= piece_at(bytes, at).end,
        at + 1 == piece_at(bytes, at).end ==> piece_at(bytes, at).kind == Some(kind),
{
    let first = bytes[at];
    lemma_single_is_no_word(first);
    assert(!is_word_start(first) && !is_digit(first));
    if first as char == '"' && string_end(bytes, at + 1) is Some {
        lemma_string_end_bounds(bytes, at + 1);
    } else if first as char == '\'' && char_end(bytes, at + 1, None) is Some {
        lemma_char_end_bounds(bytes, at + 1, None);
    } else if at + 1 < bytes.len() && pair_kind(first, bytes[at + 1]) is Some {
        assert(piece_at(bytes, at).end == at + 2);
    } else {
        assert(piece_at(bytes, at).kind == single_kind(first));
    }
}

/// Two bytes that are a token: the scanner takes them.
proof fn lemma_longest_pair(bytes: Seq<u8>, at: int, kind: TokenType)
    requires
        0 <= at,
        at + 1 < bytes.len(),
        pair_kind(bytes[at], bytes[at + 1]) == Some(kind),
    ensures
        piece_at(bytes, at).kind == Some(kind),
        piece_at(bytes, at).end == at + 2,
{
    lemma_pair_is_no_word(bytes[at], bytes[at + 1]);
}

/// A word: the scanner takes it, or a longer word.
proof fn lemma_longest_word(bytes: Seq<u8>, at: int, end: int)
    requires
        0 <= at < end <= bytes.len(),
        is_word(bytes.subrange(at, end)),
    ensures
        piece_at(bytes, at).kind is Some,
        end <= piece_at(bytes, at).end,
        end == piece_at(bytes, at).end ==> piece_at(bytes, at).kind == Some(
            word_kind(bytes.subrange(at, end)),
        ),
{
    let text = bytes.subrange(at, end);
    assert(text[0] == bytes[at]);
    assert forall|i: int| at + 1 <= i < end implies in_class(Class::Word, #[trigger] bytes[i]) by {
        assert(is_word_byte(text[i - at]));
    }
    lemma_run_is_longest(bytes, at + 1, Class::Word, end);
}

/// A number: the scanner takes it, or a longer number.
proof fn lemma_longest_number(bytes: Seq<u8>, at: int, end: int)
    requires
        0 <= at < end <= bytes.len(),
        is_number(bytes.subrange(at, end)),
    ensures
        piece_at(bytes, at).kind == Some(TokenType::Number),
        end <= piece_at(bytes, at).end,
{
    let text = bytes.subrange(at, end);
    assert(text[0] == bytes[at]);
    assert(is_digit(text[0]));
    assert forall|i: int| at + 1 <= i < end implies in_class(Class::Digit, #[trigger] bytes[i]) by {
        assert(is_digit(text[i - at]));
    }
    lemma_run_is_longest(bytes, at + 1, Class::Digit, end);
}

/// A string literal: the scanner takes it.
proof fn lemma_longest_string(bytes: Seq<u8>, at: int, end: int)
    requires
        0 <= at < end <= bytes.len(),
        is_string_literal(bytes.subrange(at, end)),
    ensures
        piece_at(bytes, at).kind == Some(TokenType::StringLiteral),
        piece_at(bytes, at).end == end,
{
    let text = bytes.subrange(at, end);
    assert(text[0] == bytes[at]);
    lemma_string_end_bounds(text, 1);
    lemma_string_in_part(bytes, at, end, 1);
}

/// A character literal: the scanner takes it, or a longer one.
proof fn lemma_longest_char(bytes: Seq<u8>, at: int, end: int)
    requires
        0 <= at < end <= bytes.len(),
        is_char_literal(bytes.subrange(at, end)),
    ensures
        piece_at(bytes, at).kind == Some(TokenType::CharLiteral),
        end <= piece_at(bytes, at).end,
{
    let text = bytes.subrange(at, end);
    assert(text[0] == bytes[at]);
    lemma_char_end_bounds(text, 1, None);
    lemma_char_in_part(bytes, at, end, 1, None);
}

/// The scanner takes the longest text that is written as a token: where the
/// text from `at` up to `end` is written as a token of `kind`, the scanner
/// finds a token at `at` that ends at `end` or after it. Where it ends at
/// `end`, it is of the kind `kind`, unless `kind` is the identifier that a
/// keyword is also written as: then the scanner gives the keyword.
pub proof fn lemma_piece_is_longest(bytes: Seq<u8>, at: int, kind: TokenType, end: int)
    requires
        0 <= at < end <= bytes.len(),
        is_token(kind, bytes.subrange(at, end)),
    ensures
        piece_at(bytes, at).kind is Some,
        end <= piece_at(bytes, at).end,
        end == piece_at(bytes, at).end ==> kind == piece_at(bytes, at).kind->Some_0 || kind
            == TokenType::Identifier,
{
    let text = bytes.subrange(at, end);
    assert(text[0] == bytes[at]);
    if text.len() > 1 {
        assert(text[1] == bytes[at + 1]);
    }
    if kind == TokenType::Identifier {
        lemma_longest_word(bytes, at, end);
    } else if kind == TokenType::Number {
        lemma_longest_number(bytes, at, end);
    } else if kind == TokenType::StringLiteral {
        lemma_longest_string(bytes, at, end);
    } else if kind == TokenType::CharLiteral {
        lemma_longest_char(bytes, at, end);
    } else if text.len() == 1 && single_kind(text[0]) == Some(kind) {
        lemma_longest_single(bytes, at, kind);
    } else if text.len() == 2 && pair_kind(text[0], text[1]) == Some(kind) {
        lemma_longest_pair(bytes, at, kind);
    } else {
        assert(word_kind(text) == kind);
        lemma_keyword_is_word(text);
        lemma_longest_word(bytes, at, end);
    }
}

/// Where the scanner sets a character aside as unrecognized, no text that
/// begins there is written as a token.
pub proof fn lemma_unrecognized_begins_no_token(bytes: Seq<u8>, at: int, kind: TokenType, end: int)
    requires
        0 <= at < end <= bytes.len(),
        piece_at(bytes, at).kind is None,
    ensures
        !is_token(kind, bytes.subrange(at, end)),
{
    if is_token(kind, bytes.subrange(at, end)) {
        lemma_piece_is_longest(bytes, at, kind, end);
    }
}

} // verus!
