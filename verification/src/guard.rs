//! Which streams of tokens are handed to a parser, and what comes back.
//!
//! The parsers behind [`crate::reader`] stop on some streams: with a panic,
//! or because they call themselves deeper than the stack allows. The
//! functions of this file look at the tokens of a stream first, and hand it
//! on only where it holds nothing that a parser could stumble over. What
//! comes back for a stream is stated exactly; for a text it is stated for
//! whatever the lexer makes of the text.

use crate::reader::{
    all_held, callable_path_found, closes_from, digits_end, ends_from, expression_found, held,
    identifier_found, is_bare, is_based, is_character, is_decimal, is_digit, is_digit_to,
    is_escape, is_known_literal, is_letter, is_light, is_number, is_plain, is_raw, is_string,
    is_word, last_quote, lex, parse_type_paths, parses_as_callable_path,
    parses_as_expression, parses_as_identifier, pounds_end, push, tokens, type_paths_found,
    weight, Bracket, Token, TokenModel, MAX_TOKENS,
};
use proc_macro2::TokenStream;
use vstd::prelude::*;
use vstd::string::*;

verus! {

/// The smaller of a number and the number after a limit.
pub open spec fn capped(count: nat, limit: nat) -> nat {
    if count <= limit {
        count
    } else {
        limit + 1
    }
}

/// A token as text: a word and a literal as written, punctuation by its
/// character, a group by its brackets with two points between them.
pub open spec fn token_spelled(token: TokenModel) -> Seq<char> {
    match token {
        TokenModel::Ident(text) => text,
        TokenModel::Literal(text) => text,
        TokenModel::Punct(c, _) => seq![c],
        TokenModel::Group(Bracket::Parenthesis, _) => seq!['(', '.', '.', ')'],
        TokenModel::Group(Bracket::Brace, _) => seq!['{', '.', '.', '}'],
        TokenModel::Group(Bracket::Square, _) => seq!['[', '.', '.', ']'],
        TokenModel::Group(Bracket::Invisible, _) => seq!['.', '.'],
    }
}

/// Tokens as text: one after the other, with nothing between them. A path
/// is spelled as it is written without spaces.
pub open spec fn spelled(tokens: Seq<TokenModel>) -> Seq<char>
    decreases tokens.len(),
{
    if tokens.len() == 0 {
        Seq::empty()
    } else {
        spelled(tokens.drop_last()) + token_spelled(tokens.last())
    }
}

/// Each row of tokens as text.
pub open spec fn all_spelled(rows: Seq<Seq<TokenModel>>) -> Seq<Seq<char>> {
    Seq::new(rows.len(), |i: int| spelled(rows[i]))
}

/// The type paths in tokens, each as text: `None` where the tokens are not
/// bare, or where `syn` finds no list of paths in them.
pub open spec fn type_paths_read(tokens: Seq<TokenModel>) -> Option<Seq<Seq<char>>> {
    if is_bare(tokens) {
        match type_paths_found(tokens) {
            Some(paths) => Some(all_spelled(paths)),
            None => None,
        }
    } else {
        None
    }
}

/// Whether tokens are light and `syn` finds one expression in them.
pub open spec fn expression_read(tokens: Seq<TokenModel>) -> bool {
    is_light(tokens) && expression_found(tokens)
}

/// Whether tokens are light and `syn` finds a path to a function in them.
pub open spec fn callable_path_read(tokens: Seq<TokenModel>) -> bool {
    is_light(tokens) && callable_path_found(tokens)
}

/// Whether tokens are light and `syn` finds one identifier in them.
pub open spec fn identifier_read(tokens: Seq<TokenModel>) -> bool {
    is_light(tokens) && identifier_found(tokens)
}

/// The type paths in what the lexer made of a text: none where it found no
/// tokens.
pub open spec fn type_paths_lexed(lexed: Option<Seq<TokenModel>>) -> Option<Seq<Seq<char>>> {
    match lexed {
        Some(tokens) => type_paths_read(tokens),
        None => None,
    }
}

/// Whether what the lexer made of a text is an expression.
pub open spec fn expression_lexed(lexed: Option<Seq<TokenModel>>) -> bool {
    lexed matches Some(tokens) && expression_read(tokens)
}

/// Whether what the lexer made of a text is a path to a function.
pub open spec fn callable_path_lexed(lexed: Option<Seq<TokenModel>>) -> bool {
    lexed matches Some(tokens) && callable_path_read(tokens)
}

/// Whether what the lexer made of a text is an identifier.
pub open spec fn identifier_lexed(lexed: Option<Seq<TokenModel>>) -> bool {
    lexed matches Some(tokens) && identifier_read(tokens)
}

/// Whether a character is one of `0` to `9`.
pub fn digit(c: char) -> (r: bool)
    ensures
        r == is_digit(c),
{
    '0' <= c && c <= '9'
}

/// Whether a character is a letter of the alphabet, a digit or `_`.
pub fn word(c: char) -> (r: bool)
    ensures
        r == is_word(c),
{
    digit(c) || ('a' <= c && c <= 'z') || ('A' <= c && c <= 'Z') || c == '_'
}

/// Whether a character may follow a backslash.
pub fn escape(c: char) -> (r: bool)
    ensures
        r == is_escape(c),
{
    c == 'n' || c == 'r' || c == 't' || c == '\\' || c == '0' || c == '\'' || c == '"'
}

/// Whether a character is a letter of the alphabet.
pub fn letter(c: char) -> (r: bool)
    ensures
        r == is_letter(c),
{
    ('a' <= c && c <= 'z') || ('A' <= c && c <= 'Z')
}

/// Whether a character is a digit to the base.
pub fn digit_to(c: char, base: u8) -> (r: bool)
    ensures
        r == is_digit_to(c, base as nat),
{
    if base == 2 {
        '0' <= c && c <= '1'
    } else if base == 8 {
        '0' <= c && c <= '7'
    } else if base == 16 {
        digit(c) || ('a' <= c && c <= 'f') || ('A' <= c && c <= 'F')
    } else {
        digit(c)
    }
}

/// Finds where the digits end that begin at the given place.
pub fn end_of_digits(text: &str, at: usize, base: u8) -> (r: usize)
    requires
        at <= text@.len(),
    ensures
        r == digits_end(text@, at as int, base as nat),
        at <= r <= text@.len(),
{
    let length = text.unicode_len();
    let mut i = at;
    while i < length
        invariant
            at <= i <= length,
            length == text@.len(),
            digits_end(text@, at as int, base as nat) == digits_end(
                text@,
                i as int,
                base as nat,
            ),
        decreases length - i,
    {
        let c = text.get_char(i);
        if !(digit_to(c, base) || c == '_') {
            return i;
        }
        i += 1;
    }
    i
}

/// Whether the text from the given place on is nothing, or the suffix of a
/// number.
pub fn ends_at(text: &str, at: usize) -> (r: bool)
    requires
        at <= text@.len(),
    ensures
        r == ends_from(text@, at as int),
{
    let length = text.unicode_len();
    if at == length {
        return true;
    }
    let first = text.get_char(at);
    if !letter(first) || first == 'e' || first == 'E' {
        return false;
    }
    let mut i = at + 1;
    while i < length
        invariant
            at < i <= length,
            length == text@.len(),
            forall|k: int| at < k < i ==> is_word(#[trigger] text@[k]),
        decreases length - i,
    {
        if !word(text.get_char(i)) {
            return false;
        }
        i += 1;
    }
    true
}

/// Whether a literal is a number to base ten as this library hands it on.
pub fn decimal(text: &str) -> (r: bool)
    ensures
        r == is_decimal(text@),
{
    let length = text.unicode_len();
    if length == 0 || !digit(text.get_char(0)) {
        return false;
    }
    if length > 1 && text.get_char(0) == '0' {
        let second = text.get_char(1);
        if second == 'x' || second == 'o' || second == 'b' {
            return false;
        }
    }
    let whole = end_of_digits(text, 0, 10);
    if whole < length && text.get_char(whole) == '.' {
        if whole + 1 < length && digit(text.get_char(whole + 1)) {
            let part = end_of_digits(text, whole + 1, 10);
            ends_at(text, part)
        } else {
            false
        }
    } else {
        ends_at(text, whole)
    }
}

/// Whether a literal is a number to the base as this library hands it on.
pub fn based(text: &str, letter: char, base: u8) -> (r: bool)
    ensures
        r == is_based(text@, letter, base as nat),
{
    let length = text.unicode_len();
    if length < 3 || text.get_char(0) != '0' || text.get_char(1) != letter {
        return false;
    }
    digit_to(text.get_char(2), base) && end_of_digits(text, 2, base) == length
}

/// Whether a literal is a number that `syn` reads.
pub fn number(text: &str) -> (r: bool)
    ensures
        r == is_number(text@),
{
    decimal(text) || based(text, 'x', 16) || based(text, 'o', 8) || based(text, 'b', 2)
}

/// Whether a literal is a string that `syn` reads.
pub fn string(text: &str) -> (r: bool)
    ensures
        r == is_string(text@),
{
    let length = text.unicode_len();
    if length == 0 || text.get_char(0) != '"' {
        return false;
    }
    let mut i: usize = 1;
    while i < length
        invariant
            1 <= i <= length + 1,
            length == text@.len(),
            text@[0] == '"',
            closes_from(text@, 1) == closes_from(text@, i as int),
        decreases length + 1 - i,
    {
        let c = text.get_char(i);
        if c == '"' {
            assert(closes_from(text@, i as int));
            return true;
        } else if c == '\\' {
            if i + 1 < length && escape(text.get_char(i + 1)) {
                i += 2;
            } else {
                return false;
            }
        } else if c == '\r' {
            return false;
        } else {
            i += 1;
        }
    }
    false
}

/// Whether a literal is a raw string that `syn` reads.
pub fn raw(text: &str) -> (r: bool)
    ensures
        r == is_raw(text@),
{
    let length = text.unicode_len();
    if length == 0 || text.get_char(0) != 'r' {
        return false;
    }
    let mut open: usize = 1;
    while open < length && text.get_char(open) == '#'
        invariant
            1 <= open <= length,
            length == text@.len(),
            pounds_end(text@, 1) == pounds_end(text@, open as int),
        decreases length - open,
    {
        open += 1;
    }
    assert(pounds_end(text@, 1) == open);
    if open >= length || text.get_char(open) != '"' {
        return false;
    }
    let mut end: usize = length;
    assert(text@.take(length as int) =~= text@);
    while end > 0 && text.get_char(end - 1) != '"'
        invariant
            end <= length,
            length == text@.len(),
            last_quote(text@) == last_quote(text@.take(end as int)),
        decreases end,
    {
        assert(text@.take(end as int).drop_last() =~= text@.take(end - 1));
        end -= 1;
    }
    assert(text@.take(length as int) =~= text@);
    if end == 0 {
        assert(last_quote(text@) == -1);
        return false;
    }
    let close = end - 1;
    assert(text@.take(end as int).last() == '"');
    assert(last_quote(text@) == close);
    if close <= open || open - 1 >= length - close {
        return false;
    }
    let mut k: usize = close + 1;
    while k - close < open
        invariant
            close < k <= close + open,
            close + open - 1 < length,
            length == text@.len(),
            text@[0] == 'r',
            pounds_end(text@, 1) == open,
            last_quote(text@) == close,
            text@[open as int] == '"',
            open < close,
            forall|j: int| close < j < k ==> #[trigger] text@[j] == '#',
        decreases close + open - k,
    {
        if text.get_char(k) != '#' {
            return false;
        }
        k += 1;
    }
    true
}

/// Whether a literal is a character that `syn` reads.
pub fn character(text: &str) -> (r: bool)
    ensures
        r == is_character(text@),
{
    let length = text.unicode_len();
    if length < 3 || text.get_char(0) != '\'' {
        return false;
    }
    if text.get_char(1) == '\\' {
        length >= 4 && escape(text.get_char(2)) && text.get_char(3) == '\''
    } else {
        text.get_char(2) == '\''
    }
}

/// Whether a literal is one that `syn` reads without fail.
pub fn known_literal(text: &str) -> (r: bool)
    ensures
        r == is_known_literal(text@),
{
    number(text) || string(text) || raw(text) || character(text)
}

/// Spells the tokens of a stream.
pub fn spell(stream: &TokenStream) -> (r: String)
    ensures
        r@ == spelled(held(*stream)),
{
    let found = tokens(stream);
    let ghost all = found.deep_view();
    let mut out = String::new();
    let mut i: usize = 0;
    assert(all.take(0) =~= Seq::empty());
    while i < found.len()
        invariant
            i <= found.len(),
            all == found.deep_view(),
            out@ == spelled(all.take(i as int)),
        decreases found.len() - i,
    {
        assert(all.take(i + 1).drop_last() =~= all.take(i as int));
        assert(all.take(i + 1).last() == found[i as int].deep_view());
        let ghost before = out@;
        match &found[i] {
            Token::Ident(text) => out.append(text.as_str()),
            Token::Literal(text) => out.append(text.as_str()),
            Token::Punct(c, _) => {
                push(&mut out, *c);
                assert(out@ =~= before + seq![*c]);
            },
            Token::Group(bracket, _) => {
                match bracket {
                    Bracket::Parenthesis => {
                        push(&mut out, '(');
                        push(&mut out, '.');
                        push(&mut out, '.');
                        push(&mut out, ')');
                        assert(out@ =~= before + seq!['(', '.', '.', ')']);
                    },
                    Bracket::Brace => {
                        push(&mut out, '{');
                        push(&mut out, '.');
                        push(&mut out, '.');
                        push(&mut out, '}');
                        assert(out@ =~= before + seq!['{', '.', '.', '}']);
                    },
                    Bracket::Square => {
                        push(&mut out, '[');
                        push(&mut out, '.');
                        push(&mut out, '.');
                        push(&mut out, ']');
                        assert(out@ =~= before + seq!['[', '.', '.', ']']);
                    },
                    Bracket::Invisible => {
                        push(&mut out, '.');
                        push(&mut out, '.');
                        assert(out@ =~= before + seq!['.', '.']);
                    },
                }
            },
        }
        i += 1;
    }
    assert(all.take(i as int) =~= all);
    out
}

/// Whether the tokens of a stream are plain, to the given depth.
pub fn plain(stream: &TokenStream, depth: usize, parentheses_only: bool) -> (r: bool)
    ensures
        r == is_plain(held(*stream), depth as nat, parentheses_only),
    decreases depth,
{
    let found = tokens(stream);
    let mut i: usize = 0;
    while i < found.len()
        invariant
            i <= found.len(),
            held(*stream) == found.deep_view(),
            forall|j: int|
                0 <= j < i ==> match #[trigger] found.deep_view()[j] {
                    TokenModel::Group(bracket, inner) => depth > 0 && (bracket
                        == Bracket::Parenthesis || !parentheses_only) && is_plain(
                        inner,
                        (depth - 1) as nat,
                        parentheses_only,
                    ),
                    TokenModel::Literal(literal) => is_known_literal(literal),
                    _ => true,
                },
        decreases found.len() - i,
    {
        let fine = match &found[i] {
            Token::Group(bracket, inner) => depth > 0 && (match bracket {
                Bracket::Parenthesis => true,
                _ => !parentheses_only,
            }) && plain(inner, depth - 1, parentheses_only),
            Token::Literal(literal) => known_literal(literal.as_str()),
            _ => true,
        };
        assert(found.deep_view()[i as int] == found[i as int].deep_view());
        if !fine {
            return false;
        }
        i += 1;
    }
    true
}

/// Whether the tokens of a stream are bare.
pub fn bare(stream: &TokenStream) -> (r: bool)
    ensures
        r == is_bare(held(*stream)),
{
    let found = tokens(stream);
    let mut i: usize = 0;
    while i < found.len()
        invariant
            i <= found.len(),
            held(*stream) == found.deep_view(),
            forall|j: int|
                0 <= j < i ==> match #[trigger] found.deep_view()[j] {
                    TokenModel::Ident(_) => true,
                    TokenModel::Punct(c, _) => c == ':' || c == ',',
                    _ => false,
                },
        decreases found.len() - i,
    {
        let fine = match &found[i] {
            Token::Ident(_) => true,
            Token::Punct(c, _) => *c == ':' || *c == ',',
            _ => false,
        };
        assert(found.deep_view()[i as int] == found[i as int].deep_view());
        if !fine {
            return false;
        }
        i += 1;
    }
    true
}

/// Counts the tokens of a stream, with those inside its groups as far as
/// `depth` groups down, and no further than one past `limit`.
pub fn weigh(stream: &TokenStream, depth: usize, limit: usize) -> (r: usize)
    requires
        limit < usize::MAX / 2,
    ensures
        r == capped(weight(held(*stream), depth as nat), limit as nat),
    decreases depth,
{
    let found = tokens(stream);
    let ghost all = found.deep_view();
    let mut count: usize = 0;
    let mut i: usize = 0;
    assert(all.take(0) =~= Seq::empty());
    while i < found.len()
        invariant
            i <= found.len(),
            limit < usize::MAX / 2,
            all == found.deep_view(),
            count == capped(weight(all.take(i as int), depth as nat), limit as nat),
        decreases found.len() - i,
    {
        assert(all.take(i + 1).drop_last() =~= all.take(i as int));
        assert(all.take(i + 1).last() == all[i as int]);
        assert(all[i as int] == found[i as int].deep_view());
        let inside = match &found[i] {
            Token::Group(_, inner) => {
                if depth > 0 {
                    weigh(inner, depth - 1, limit)
                } else {
                    0
                }
            },
            _ => 0,
        };
        count = count + 1 + inside;
        if count > limit {
            count = limit + 1;
        }
        i += 1;
    }
    assert(all.take(i as int) =~= all);
    count
}

/// Whether the tokens of a stream are light.
pub fn light(stream: &TokenStream) -> (r: bool)
    ensures
        r == is_light(held(*stream)),
{
    plain(stream, MAX_TOKENS, false) && weigh(stream, MAX_TOKENS, MAX_TOKENS) <= MAX_TOKENS
}

/// Spells each of the streams.
pub fn spell_all(streams: &Vec<TokenStream>) -> (r: Vec<String>)
    ensures
        r.deep_view() == all_spelled(all_held(streams@)),
{
    let mut out: Vec<String> = Vec::new();
    let mut i: usize = 0;
    while i < streams.len()
        invariant
            i <= streams.len(),
            out.len() == i,
            forall|j: int| 0 <= j < i ==> (#[trigger] out[j])@ == spelled(held(streams[j])),
        decreases streams.len() - i,
    {
        let text = spell(&streams[i]);
        out.push(text);
        i += 1;
    }
    assert(out.deep_view() =~= all_spelled(all_held(streams@)));
    out
}

/// Reads the tokens of a stream as a comma-separated list of type paths,
/// each as text. A stream that is not bare is not handed to the parser.
pub fn type_paths_in(stream: TokenStream) -> (r: Option<Vec<String>>)
    ensures
        r.deep_view() == type_paths_read(held(stream)),
{
    if !bare(&stream) {
        return None;
    }
    match parse_type_paths(stream) {
        Some(paths) => Some(spell_all(&paths)),
        None => None,
    }
}

/// Whether the tokens of a stream are one expression. A stream that is not
/// light is not handed to the parser.
pub fn is_expression(stream: TokenStream) -> (r: bool)
    ensures
        r == expression_read(held(stream)),
{
    light(&stream) && parses_as_expression(stream)
}

/// Whether the tokens of a stream are a path to a function. A stream that
/// is not light is not handed to the parser.
pub fn is_callable_path(stream: TokenStream) -> (r: bool)
    ensures
        r == callable_path_read(held(stream)),
{
    light(&stream) && parses_as_callable_path(stream)
}

/// Whether the tokens of a stream are one identifier. A stream that is not
/// light is not handed to the parser.
pub fn is_identifier(stream: TokenStream) -> (r: bool)
    ensures
        r == identifier_read(held(stream)),
{
    light(&stream) && parses_as_identifier(stream)
}

/// Reads a text as a comma-separated list of type paths: what the lexer
/// makes of the text is read as [`type_paths_in`] reads it. An empty text is
/// an empty list.
pub fn read_type_paths(text: &str) -> (r: Option<Vec<String>>)
    ensures
        exists|lexed: Option<Seq<TokenModel>>| r.deep_view() == #[trigger] type_paths_lexed(lexed),
{
    match lex(text) {
        None => {
            assert(type_paths_lexed(None) is None);
            None
        },
        Some(stream) => {
            let r = type_paths_in(stream);
            assert(r.deep_view() == type_paths_lexed(Some(held(stream))));
            r
        },
    }
}

/// Whether a text is one expression: whether what the lexer makes of it is
/// one, as [`is_expression`] says.
pub fn is_expression_text(text: &str) -> (r: bool)
    ensures
        exists|lexed: Option<Seq<TokenModel>>| r == #[trigger] expression_lexed(lexed),
{
    match lex(text) {
        None => {
            assert(!expression_lexed(None));
            false
        },
        Some(stream) => {
            let r = is_expression(stream);
            assert(r == expression_lexed(Some(held(stream))));
            r
        },
    }
}

/// Whether a text is a path to a function: whether what the lexer makes of
/// it is one, as [`is_callable_path`] says.
pub fn is_callable_path_text(text: &str) -> (r: bool)
    ensures
        exists|lexed: Option<Seq<TokenModel>>| r == #[trigger] callable_path_lexed(lexed),
{
    match lex(text) {
        None => {
            assert(!callable_path_lexed(None));
            false
        },
        Some(stream) => {
            let r = is_callable_path(stream);
            assert(r == callable_path_lexed(Some(held(stream))));
            r
        },
    }
}

/// Whether a text is an identifier: whether what the lexer makes of it is
/// one, as [`is_identifier`] says.
pub fn is_identifier_text(text: &str) -> (r: bool)
    ensures
        exists|lexed: Option<Seq<TokenModel>>| r == #[trigger] identifier_lexed(lexed),
{
    match lex(text) {
        None => {
            assert(!identifier_lexed(None));
            false
        },
        Some(stream) => {
            let r = is_identifier(stream);
            assert(r == identifier_lexed(Some(held(stream))));
            r
        },
    }
}

} // verus!
