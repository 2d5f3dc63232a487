//! Reading text with the parsers of `proc_macro2`, `syn` and
//! `syn_unnamed_struct`.
//!
//! No function in this file is proved: each hands a value to an outside
//! function and gives back what that found. Which tokens the lexer finds in
//! a text is not stated anywhere: it depends on the process that asks. What
//! `syn` and `syn_unnamed_struct` find in a stream of tokens depends on the
//! tokens alone, and has a name.

use proc_macro2::{Delimiter, Spacing, TokenStream, TokenTree};
use quote::ToTokens;
use std::str::FromStr;
use syn::parse::Parser;
use syn::punctuated::Punctuated;
use syn::token::Comma;
use syn::Lit;
use syn_unnamed_struct::{Meta, MetaValue};
use vstd::prelude::*;

verus! {

/// A stream of tokens of `proc_macro2`. Its tokens are seen through
/// [`tokens`] only.
#[verifier::external_type_specification]
#[verifier::external_body]
pub struct ExTokenStream(TokenStream);

/// The stack that a thread gets from `std` where it asks for none, in bytes.
pub const STACK: usize = 2 * 1024 * 1024;

/// The stack that `syn` is given for each token that it may descend into, in
/// bytes.
pub const FRAME: usize = 32 * 1024;

/// How many tokens a stream may hold that is handed to `syn`, those inside
/// its groups included, and so how deep its groups may lie in one another.
/// `syn` calls itself once for each bracket, but also once for each `-`,
/// `!`, `&`, `return`, `||` or `<` in a row of them without any bracket, so
/// that the tokens are counted, not the brackets; this many calls fit the
/// stack.
pub const MAX_TOKENS: usize = STACK / FRAME;

/// The brackets round a group of tokens.
#[derive(Debug, Clone, Copy, PartialEq, Eq, Structural)]
pub enum Bracket {
    /// `( .. )`
    Parenthesis,
    /// `{ .. }`
    Brace,
    /// `[ .. ]`
    Square,
    /// Brackets that are not written.
    Invisible,
}

/// A token, or a group of tokens between brackets.
#[derive(Debug)]
pub enum Token {
    /// A group: its brackets, and the tokens between them.
    Group(Bracket, TokenStream),
    /// A word.
    Ident(String),
    /// One character of punctuation, and whether the next token follows it
    /// at once, as the second colon does the first in `::`.
    Punct(char, bool),
    /// A literal, as written.
    Literal(String),
}

/// What a [`Token`] stands for.
pub enum TokenModel {
    Group(Bracket, Seq<TokenModel>),
    Ident(Seq<char>),
    Punct(char, bool),
    Literal(Seq<char>),
}

/// What stands to the right of `=` in an entry, as the parser hands it out.
#[derive(Debug)]
pub enum RawValue {
    /// A string literal: what it holds, without quotes and escapes.
    Str(String),
    /// `true` or `false`.
    Bool(bool),
    /// A list in parentheses: the tokens between them.
    List(TokenStream),
    /// Anything else.
    Other,
}

/// One entry of a comma-separated list, as the parser hands it out.
#[derive(Debug)]
pub enum RawEntry {
    /// A path alone: its tokens.
    Bare(TokenStream),
    /// A path, by its tokens, with its value.
    Pair(TokenStream, RawValue),
    /// Anything else: its tokens.
    Other(TokenStream),
}

/// What a [`RawValue`] stands for.
pub enum RawValueModel {
    Str(Seq<char>),
    Bool(bool),
    List(Seq<TokenModel>),
    Other,
}

/// What a [`RawEntry`] stands for.
pub enum RawEntryModel {
    Bare(Seq<TokenModel>),
    Pair(Seq<TokenModel>, RawValueModel),
    Other(Seq<TokenModel>),
}

/// The tokens that a stream holds, each group with the tokens that it holds
/// in its turn, punctuation with its spacing. This is what the stream is,
/// whoever made it; which stream a text gives has no name.
pub uninterp spec fn held(stream: TokenStream) -> Seq<TokenModel>;

impl DeepView for Token {
    type V = TokenModel;

    open spec fn deep_view(&self) -> TokenModel {
        match self {
            Token::Group(bracket, inner) => TokenModel::Group(*bracket, held(*inner)),
            Token::Ident(text) => TokenModel::Ident(text@),
            Token::Punct(c, joint) => TokenModel::Punct(*c, *joint),
            Token::Literal(text) => TokenModel::Literal(text@),
        }
    }
}

impl DeepView for RawValue {
    type V = RawValueModel;

    open spec fn deep_view(&self) -> RawValueModel {
        match self {
            RawValue::Str(text) => RawValueModel::Str(text@),
            RawValue::Bool(flag) => RawValueModel::Bool(*flag),
            RawValue::List(inner) => RawValueModel::List(held(*inner)),
            RawValue::Other => RawValueModel::Other,
        }
    }
}

impl DeepView for RawEntry {
    type V = RawEntryModel;

    open spec fn deep_view(&self) -> RawEntryModel {
        match self {
            RawEntry::Bare(path) => RawEntryModel::Bare(held(*path)),
            RawEntry::Pair(path, value) => RawEntryModel::Pair(held(*path), value.deep_view()),
            RawEntry::Other(tokens) => RawEntryModel::Other(held(*tokens)),
        }
    }
}

/// What each of the streams holds.
pub open spec fn all_held(streams: Seq<TokenStream>) -> Seq<Seq<TokenModel>> {
    Seq::new(streams.len(), |i: int| held(streams[i]))
}

/// What each of the streams holds, where there are streams.
pub open spec fn all_held_if(streams: Option<Vec<TokenStream>>) -> Option<Seq<Seq<TokenModel>>> {
    match streams {
        Some(streams) => Some(all_held(streams@)),
        None => None,
    }
}

/// The entries that `syn_unnamed_struct` finds in a plain list of tokens,
/// one level of them; `None` where it finds no list of entries.
pub uninterp spec fn entries_found(tokens: Seq<TokenModel>) -> Option<Seq<RawEntryModel>>;

/// The paths that `syn` finds in bare tokens, each by its tokens; `None`
/// where it finds no list of paths.
pub uninterp spec fn type_paths_found(tokens: Seq<TokenModel>) -> Option<Seq<Seq<TokenModel>>>;

/// Whether `syn` finds one expression in light tokens.
pub uninterp spec fn expression_found(tokens: Seq<TokenModel>) -> bool;

/// Whether `syn` finds a path that an expression can name in light tokens.
pub uninterp spec fn callable_path_found(tokens: Seq<TokenModel>) -> bool;

/// Whether `syn` finds one identifier in light tokens.
pub uninterp spec fn identifier_found(tokens: Seq<TokenModel>) -> bool;

/// Whether a character is one of `0` to `9`.
pub open spec fn is_digit(c: char) -> bool {
    '0' <= c <= '9'
}

/// Whether a character is a letter of the alphabet, a digit or `_`.
pub open spec fn is_word(c: char) -> bool {
    is_digit(c) || 'a' <= c <= 'z' || 'A' <= c <= 'Z' || c == '_'
}

/// Whether a character may follow a backslash in a literal that this
/// library hands on: one of `n r t \ 0 ' "`.
pub open spec fn is_escape(c: char) -> bool {
    c == 'n' || c == 'r' || c == 't' || c == '\\' || c == '0' || c == '\'' || c == '"'
}

/// Whether a character is a letter of the alphabet.
pub open spec fn is_letter(c: char) -> bool {
    'a' <= c <= 'z' || 'A' <= c <= 'Z'
}

/// Whether a character is a digit to the base: 2, 8, 10 or 16.
pub open spec fn is_digit_to(c: char, base: nat) -> bool {
    if base == 2 {
        '0' <= c <= '1'
    } else if base == 8 {
        '0' <= c <= '7'
    } else if base == 16 {
        is_digit(c) || 'a' <= c <= 'f' || 'A' <= c <= 'F'
    } else {
        is_digit(c)
    }
}

/// Where the digits end that begin at the given place: the first place from
/// there on that holds neither a digit to the base nor `_`.
pub open spec fn digits_end(text: Seq<char>, at: int, base: nat) -> int
    decreases text.len() - at,
{
    if 0 <= at < text.len() && (is_digit_to(text[at], base) || text[at] == '_') {
        digits_end(text, at + 1, base)
    } else {
        at
    }
}

/// Whether the text from the given place on is the suffix of a number: a
/// letter other than `e` and `E`, and then letters, digits and `_`.
pub open spec fn is_suffix_from(text: Seq<char>, at: int) -> bool {
    &&& 0 <= at < text.len()
    &&& is_letter(text[at])
    &&& text[at] != 'e'
    &&& text[at] != 'E'
    &&& forall|k: int| at < k < text.len() ==> is_word(#[trigger] text[k])
}

/// Whether the text from the given place on is nothing, or the suffix of a
/// number.
pub open spec fn ends_from(text: Seq<char>, at: int) -> bool {
    at == text.len() || is_suffix_from(text, at)
}

/// Whether a literal is a number to base ten as this library hands it on:
/// digits and `_` after a first digit, then perhaps a point with digits and
/// `_` after a first digit, then perhaps a suffix. A number with an exponent
/// is left out, and so is one that begins like a number to another base.
pub open spec fn is_decimal(text: Seq<char>) -> bool {
    &&& text.len() > 0
    &&& is_digit(text[0])
    &&& !(text.len() > 1 && text[0] == '0' && (text[1] == 'x' || text[1] == 'o' || text[1] == 'b'))
    &&& {
        let whole = digits_end(text, 0, 10);
        if whole < text.len() && text[whole] == '.' {
            whole + 1 < text.len() && is_digit(text[whole + 1]) && ends_from(
                text,
                digits_end(text, whole + 1, 10),
            )
        } else {
            ends_from(text, whole)
        }
    }
}

/// Whether a literal is a number to the base as this library hands it on:
/// `0`, the letter of the base, a digit, and then digits and `_` to the end.
pub open spec fn is_based(text: Seq<char>, letter: char, base: nat) -> bool {
    &&& text.len() >= 3
    &&& text[0] == '0'
    &&& text[1] == letter
    &&& is_digit_to(text[2], base)
    &&& digits_end(text, 2, base) == text.len()
}

/// Whether a literal is a number that `syn` reads, and that the lexer takes
/// for a number again with a sign before it: one to base ten, sixteen, eight
/// or two as above.
pub open spec fn is_number(text: Seq<char>) -> bool {
    is_decimal(text) || is_based(text, 'x', 16) || is_based(text, 'o', 8) || is_based(
        text,
        'b',
        2,
    )
}

/// Whether a string literal closes, seen from the given place in it: a
/// backslash is followed by one of the characters of [`is_escape`], no
/// carriage return stands in it, and a quote ends it.
pub open spec fn closes_from(text: Seq<char>, at: int) -> bool
    decreases text.len() - at,
{
    if at < 0 || at >= text.len() {
        false
    } else if text[at] == '"' {
        true
    } else if text[at] == '\\' {
        at + 1 < text.len() && is_escape(text[at + 1]) && closes_from(text, at + 2)
    } else if text[at] == '\r' {
        false
    } else {
        closes_from(text, at + 1)
    }
}

/// Whether a literal is a string that `syn` reads: it begins with a quote
/// and closes.
pub open spec fn is_string(text: Seq<char>) -> bool {
    text.len() > 0 && text[0] == '"' && closes_from(text, 1)
}

/// Where the `#` end that begin at the given place.
pub open spec fn pounds_end(text: Seq<char>, at: int) -> int
    decreases text.len() - at,
{
    if 0 <= at < text.len() && text[at] == '#' {
        pounds_end(text, at + 1)
    } else {
        at
    }
}

/// The place of the last quote in a text, or -1 where it has none.
pub open spec fn last_quote(text: Seq<char>) -> int
    decreases text.len(),
{
    if text.len() == 0 {
        -1
    } else if text.last() == '"' {
        text.len() - 1
    } else {
        last_quote(text.drop_last())
    }
}

/// Whether a literal is a raw string that `syn` reads: `r`, some `#`, a
/// quote, and after the last quote of the text, which is another, as many
/// `#` again.
pub open spec fn is_raw(text: Seq<char>) -> bool {
    &&& text.len() > 0
    &&& text[0] == 'r'
    &&& {
        let open = pounds_end(text, 1);
        let close = last_quote(text);
        &&& open < text.len()
        &&& text[open] == '"'
        &&& open < close
        &&& close + open - 1 < text.len()
        &&& forall|k: int| close < k < close + open ==> #[trigger] text[k] == '#'
    }
}

/// Whether a literal is a character that `syn` reads: between two single
/// quotes one character that is no backslash, or a backslash and one of the
/// characters of [`is_escape`].
pub open spec fn is_character(text: Seq<char>) -> bool {
    &&& text.len() >= 3
    &&& text[0] == '\''
    &&& if text[1] == '\\' {
        text.len() >= 4 && is_escape(text[2]) && text[3] == '\''
    } else {
        text[2] == '\''
    }
}

/// Whether a literal is one that `syn` reads without fail: a number, a
/// string, a raw string or a character as above. `syn` stops with a panic on a literal
/// that it cannot read, so that every literal is looked at in full before
/// `syn` sees it.
pub open spec fn is_known_literal(text: Seq<char>) -> bool {
    is_number(text) || is_string(text) || is_raw(text) || is_character(text)
}

/// Whether the tokens are plain: every literal among them is of a kind that
/// `syn` knows, and their groups are plain in their turn and lie at most
/// `depth` deep in one another; with `parentheses_only`, every group is one
/// in parentheses.
pub open spec fn is_plain(tokens: Seq<TokenModel>, depth: nat, parentheses_only: bool) -> bool
    decreases depth,
{
    forall|i: int|
        0 <= i < tokens.len() ==> match #[trigger] tokens[i] {
            TokenModel::Group(bracket, inner) => depth > 0 && (bracket == Bracket::Parenthesis
                || !parentheses_only) && is_plain(inner, (depth - 1) as nat, parentheses_only),
            TokenModel::Literal(literal) => is_known_literal(literal),
            _ => true,
        }
}

/// Whether the tokens are bare: words, colons and commas only.
pub open spec fn is_bare(tokens: Seq<TokenModel>) -> bool {
    forall|i: int|
        0 <= i < tokens.len() ==> match #[trigger] tokens[i] {
            TokenModel::Ident(_) => true,
            TokenModel::Punct(c, _) => c == ':' || c == ',',
            _ => false,
        }
}

/// The number of the tokens, with those inside the groups among them as far
/// as `depth` groups down.
pub open spec fn weight(tokens: Seq<TokenModel>, depth: nat) -> nat
    decreases depth, tokens.len(),
{
    if tokens.len() == 0 {
        0
    } else {
        weight(tokens.drop_last(), depth) + 1 + match tokens.last() {
            TokenModel::Group(_, inner) => if depth > 0 {
                weight(inner, (depth - 1) as nat)
            } else {
                0
            },
            _ => 0,
        }
    }
}

/// Whether the tokens are a plain list: plain with groups in parentheses
/// only, at most [`MAX_TOKENS`] deep.
pub open spec fn is_plain_list(tokens: Seq<TokenModel>) -> bool {
    is_plain(tokens, MAX_TOKENS as nat, true)
}

/// Whether the tokens are light: plain, whatever their brackets, and at most
/// [`MAX_TOKENS`], those inside their groups included.
pub open spec fn is_light(tokens: Seq<TokenModel>) -> bool {
    is_plain(tokens, MAX_TOKENS as nat, false) && weight(tokens, MAX_TOKENS as nat) <= MAX_TOKENS
}

/// Calls `proc_macro2::TokenStream::from_str`: the tokens of the text, or
/// `None` where it finds none in it. Which tokens it finds is not stated.
#[verifier::external_body]
pub(crate) fn lex(text: &str) -> (r: Option<TokenStream>) {
    TokenStream::from_str(text).ok()
}

/// Walks a stream with `proc_macro2::TokenStream::into_iter` and hands out
/// its tokens, one level of them: a group with its brackets and the stream
/// that it holds, punctuation with its spacing. The contract says that these
/// are the tokens that the stream holds.
#[verifier::external_body]
pub(crate) fn tokens(stream: &TokenStream) -> (r: Vec<Token>)
    ensures
        r.deep_view() == held(*stream),
{
    stream.clone().into_iter().map(|tree| match tree {
        TokenTree::Group(g) => Token::Group(match g.delimiter() {
            Delimiter::Parenthesis => Bracket::Parenthesis,
            Delimiter::Brace => Bracket::Brace,
            Delimiter::Bracket => Bracket::Square,
            Delimiter::None => Bracket::Invisible,
        }, g.stream()),
        TokenTree::Ident(i) => Token::Ident(i.to_string()),
        TokenTree::Punct(p) => Token::Punct(p.as_char(), match p.spacing() {
            Spacing::Joint => true,
            Spacing::Alone => false,
        }),
        TokenTree::Literal(l) => Token::Literal(l.to_string()),
    }).collect()
}

/// Calls `String::push`: the text with the character at its end.
#[verifier::external_body]
pub(crate) fn push(text: &mut String, c: char)
    ensures
        final(text)@ == old(text)@.push(c),
{
    text.push(c)
}

/// Calls `syn::punctuated::Punctuated::parse_terminated` for a list of
/// `syn_unnamed_struct::Meta`, through `syn::parse::Parser::parse2`, and
/// hands out the entries, one level of them: a path alone, or a path with
/// its value; a string literal by what it holds, a path and a list by their
/// tokens. The contract names the result: it depends on the tokens alone.
/// `syn_unnamed_struct` can stop with a panic on a record in braces, `syn`
/// on a literal that it cannot read, and both call themselves for each list
/// in a list: the stream is a plain list.
#[verifier::external_body]
pub(crate) fn parse_entries(stream: TokenStream) -> (r: Option<Vec<RawEntry>>)
    requires
        is_plain_list(held(stream)),
    ensures
        r.deep_view() == entries_found(held(stream)),
{
    let metas = Parser::parse2(Punctuated::<Meta, Comma>::parse_terminated, stream).ok()?;
    Some(metas.into_iter().map(|meta| match meta {
        Meta::Path(p) => RawEntry::Bare(p.to_token_stream()),
        Meta::NameValue(pair) => RawEntry::Pair(pair.path.to_token_stream(), match pair.value {
            MetaValue::Lit(Lit::Str(s)) => RawValue::Str(s.value()),
            MetaValue::Lit(Lit::Bool(b)) => RawValue::Bool(b.value),
            MetaValue::UnnamedMetaList(list) => RawValue::List(list.nested.to_token_stream()),
            _ => RawValue::Other,
        }),
        other => RawEntry::Other(other.to_token_stream()),
    }).collect())
}

/// Calls `syn::punctuated::Punctuated::parse_terminated` for a list of
/// `syn::Path`, through `syn::parse::Parser::parse2`, and hands out each
/// path by its tokens. The contract names the result: it depends on the
/// tokens alone. `syn` can stop with a panic on a literal that it cannot
/// read, and calls itself for what stands between brackets and between `<`
/// and `>`: the stream is bare.
#[verifier::external_body]
pub(crate) fn parse_type_paths(stream: TokenStream) -> (r: Option<Vec<TokenStream>>)
    requires
        is_bare(held(stream)),
    ensures
        all_held_if(r) == type_paths_found(held(stream)),
{
    let paths = Parser::parse2(Punctuated::<syn::Path, Comma>::parse_terminated, stream).ok()?;
    Some(paths.into_iter().map(|path| path.to_token_stream()).collect())
}

/// Calls `syn::parse2` for a `syn::Expr` and says whether it parsed. The
/// contract names the answer: it depends on the tokens alone. `syn` can stop
/// with a panic on a literal that it cannot read, and calls itself as deep
/// as the expression goes: the stream is light.
#[verifier::external_body]
pub(crate) fn parses_as_expression(stream: TokenStream) -> (r: bool)
    requires
        is_light(held(stream)),
    ensures
        r == expression_found(held(stream)),
{
    syn::parse2::<syn::Expr>(stream).is_ok()
}

/// Calls `syn::parse2` for a `syn::ExprPath` and says whether it parsed. The
/// contract names the answer: it depends on the tokens alone. `syn` can stop
/// with a panic on a literal that it cannot read, and calls itself as deep
/// as the types in the path go: the stream is light.
#[verifier::external_body]
pub(crate) fn parses_as_callable_path(stream: TokenStream) -> (r: bool)
    requires
        is_light(held(stream)),
    ensures
        r == callable_path_found(held(stream)),
{
    syn::parse2::<syn::ExprPath>(stream).is_ok()
}

/// Calls `syn::parse2` for a `syn::Ident` and says whether it parsed. The
/// contract names the answer: it depends on the tokens alone. `syn` calls
/// itself for each group in a group: the stream is light.
#[verifier::external_body]
pub(crate) fn parses_as_identifier(stream: TokenStream) -> (r: bool)
    requires
        is_light(held(stream)),
    ensures
        r == identifier_found(held(stream)),
{
    syn::parse2::<syn::Ident>(stream).is_ok()
}

} // verus!
