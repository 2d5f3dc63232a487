//! The tree that an annotation's text is read into.

use crate::guard::{plain, spell, spelled};
use crate::reader::{
    entries_found, held, is_plain_list, lex, parse_entries, RawEntry, RawEntryModel, RawValue,
    RawValueModel, TokenModel, MAX_TOKENS,
};
use proc_macro2::TokenStream;
use vstd::prelude::*;

verus! {

/// What stands to the right of `=` in an entry.
#[derive(Debug, PartialEq, Eq)]
pub enum Value {
    /// A string literal: what it holds, without quotes and escapes.
    Str(String),
    /// `true` or `false`.
    Bool(bool),
    /// A list in parentheses.
    List(Vec<Entry>),
    /// Anything else: a number, a character, a record in braces, a list that
    /// is no list of entries.
    Other,
}

/// One entry of a comma-separated list.
#[derive(Debug, PartialEq, Eq)]
pub enum Entry {
    /// A path alone, spelled without spaces.
    Bare(String),
    /// A path, spelled without spaces, `=` and a value.
    Pair(String, Value),
    /// Anything else, spelled token by token, each group by its brackets.
    Other(String),
}

/// What a [`Value`] stands for.
pub enum ValueModel {
    Str(Seq<char>),
    Bool(bool),
    List(Seq<EntryModel>),
    Other,
}

/// What an [`Entry`] stands for.
pub enum EntryModel {
    Bare(Seq<char>),
    Pair(Seq<char>, ValueModel),
    Other(Seq<char>),
}

/// What a value stands for.
pub open spec fn value_model(v: Value) -> ValueModel
    decreases v,
{
    match v {
        Value::Str(s) => ValueModel::Str(s@),
        Value::Bool(b) => ValueModel::Bool(b),
        Value::List(items) => ValueModel::List(
            Seq::new(
                items@.len(),
                |i: int|
                    if 0 <= i < items@.len() {
                        entry_model(items[i])
                    } else {
                        EntryModel::Other(Seq::empty())
                    },
            ),
        ),
        Value::Other => ValueModel::Other,
    }
}

/// What an entry stands for.
pub open spec fn entry_model(e: Entry) -> EntryModel
    decreases e,
{
    match e {
        Entry::Bare(p) => EntryModel::Bare(p@),
        Entry::Pair(p, v) => EntryModel::Pair(p@, value_model(v)),
        Entry::Other(t) => EntryModel::Other(t@),
    }
}

impl DeepView for Value {
    type V = ValueModel;

    open spec fn deep_view(&self) -> ValueModel {
        value_model(*self)
    }
}

impl DeepView for Entry {
    type V = EntryModel;

    open spec fn deep_view(&self) -> EntryModel {
        entry_model(*self)
    }
}

/// A read list stands for the list of what its entries stand for.
pub proof fn lemma_list_model(items: Vec<Entry>)
    ensures
        value_model(Value::List(items)) == ValueModel::List(items.deep_view()),
{
    assert(value_model(Value::List(items))->List_0 =~= items.deep_view());
}

/// A value as the parser handed it out, as a value of the tree. A list is
/// read in its turn, `depth` lists down; one that is no list of entries, or
/// lies deeper, is a value like any other.
pub open spec fn value_read(raw: RawValueModel, depth: nat) -> ValueModel
    decreases depth, 0nat,
{
    match raw {
        RawValueModel::Str(text) => ValueModel::Str(text),
        RawValueModel::Bool(flag) => ValueModel::Bool(flag),
        RawValueModel::List(tokens) => if depth == 0 {
            ValueModel::Other
        } else {
            match list_read(tokens, (depth - 1) as nat) {
                Some(entries) => ValueModel::List(entries),
                None => ValueModel::Other,
            }
        },
        RawValueModel::Other => ValueModel::Other,
    }
}

/// An entry as the parser handed it out, as an entry of the tree: its path
/// spelled, its value read `depth` lists down.
pub open spec fn entry_read(raw: RawEntryModel, depth: nat) -> EntryModel
    decreases depth, 1nat,
{
    match raw {
        RawEntryModel::Bare(path) => EntryModel::Bare(spelled(path)),
        RawEntryModel::Pair(path, value) => EntryModel::Pair(
            spelled(path),
            value_read(value, depth),
        ),
        RawEntryModel::Other(tokens) => EntryModel::Other(spelled(tokens)),
    }
}

/// The entries that tokens hold, with the lists under them, `depth` of them
/// in one another: `None` where the tokens are no plain list, or where
/// `syn_unnamed_struct` finds no list of entries in them.
pub open spec fn list_read(tokens: Seq<TokenModel>, depth: nat) -> Option<Seq<EntryModel>>
    decreases depth, 2nat,
{
    if !is_plain_list(tokens) {
        None
    } else {
        match entries_found(tokens) {
            Some(raw) => Some(Seq::new(raw.len(), |i: int| entry_read(raw[i], depth))),
            None => None,
        }
    }
}

/// The entries in what the lexer made of a text: none where it found no
/// tokens.
pub open spec fn list_lexed(lexed: Option<Seq<TokenModel>>) -> Option<Seq<EntryModel>> {
    match lexed {
        Some(tokens) => list_read(tokens, MAX_TOKENS as nat),
        None => None,
    }
}

/// Turns a value as the parser handed it out into a value of the tree.
pub fn read_value(raw: RawValue, depth: usize) -> (r: Value)
    ensures
        r.deep_view() == value_read(raw.deep_view(), depth as nat),
    decreases depth, 0nat,
{
    match raw {
        RawValue::Str(text) => Value::Str(text),
        RawValue::Bool(flag) => Value::Bool(flag),
        RawValue::List(inner) => {
            if depth == 0 {
                Value::Other
            } else {
                match read_list(inner, depth - 1) {
                    Some(entries) => {
                        proof {
                            lemma_list_model(entries);
                        }
                        Value::List(entries)
                    },
                    None => Value::Other,
                }
            }
        },
        RawValue::Other => Value::Other,
    }
}

/// Turns an entry as the parser handed it out into an entry of the tree.
pub fn read_entry(raw: RawEntry, depth: usize) -> (r: Entry)
    ensures
        r.deep_view() == entry_read(raw.deep_view(), depth as nat),
    decreases depth, 1nat,
{
    match raw {
        RawEntry::Bare(path) => Entry::Bare(spell(&path)),
        RawEntry::Pair(path, value) => Entry::Pair(spell(&path), read_value(value, depth)),
        RawEntry::Other(tokens) => Entry::Other(spell(&tokens)),
    }
}

/// Reads a stream of tokens as a comma-separated list of entries, and the
/// lists under them, `depth` of them in one another. A stream that is no
/// plain list is not handed to the parser.
pub fn read_list(stream: TokenStream, depth: usize) -> (r: Option<Vec<Entry>>)
    ensures
        r.deep_view() == list_read(held(stream), depth as nat),
    decreases depth, 2nat,
{
    if !plain(&stream, MAX_TOKENS, true) {
        return None;
    }
    match parse_entries(stream) {
        None => None,
        Some(raw) => {
            let ghost found = raw.deep_view();
            let ghost items = raw@;
            let mut entries: Vec<Entry> = Vec::new();
            for entry in it: raw
                invariant
                    it.seq() == items,
                    found.len() == items.len(),
                    forall|j: int| 0 <= j < items.len() ==> found[j] == items[j].deep_view(),
                    entries.len() == it.index(),
                    forall|j: int|
                        0 <= j < entries.len() ==> #[trigger] entries[j].deep_view() == entry_read(
                            found[j],
                            depth as nat,
                        ),
            {
                let read = read_entry(entry, depth);
                entries.push(read);
            }
            assert(entries.deep_view() =~= Seq::new(
                found.len(),
                |i: int| entry_read(found[i], depth as nat),
            ));
            Some(entries)
        },
    }
}

/// Reads the text of an annotation as a comma-separated list of entries,
/// with the lists under them: what the lexer makes of the text is read as
/// [`read_list`] reads it. An empty text is an empty list.
pub fn parse_list(text: &str) -> (r: Option<Vec<Entry>>)
    ensures
        exists|lexed: Option<Seq<TokenModel>>| r.deep_view() == #[trigger] list_lexed(lexed),
{
    match lex(text) {
        None => {
            assert(list_lexed(None) is None);
            None
        },
        Some(stream) => {
            let r = read_list(stream, MAX_TOKENS);
            assert(r.deep_view() == list_lexed(Some(held(stream))));
            r
        },
    }
}

} // verus!
