//! What a field's annotations ask for: the directives, and the overrides that
//! hold for one source type only.

use crate::error::{outcome, DeriveError, Failure};
use crate::tree::{lemma_list_model, Entry, EntryModel, Value, ValueModel};
use vstd::prelude::*;
use vstd::string::*;

verus! {

/// The key of the directive that names the function a value passes through.
pub const MAP: &'static str = "map";

/// The key of the directive that names the field to read in the source.
pub const RENAME: &'static str = "rename";

/// The key of the directive that leaves the source unread.
pub const SKIP: &'static str = "skip";

/// The key of the directive that gives the expression for a skipped field.
pub const DEFAULT: &'static str = "default";

/// The key of the directive that lists what holds for one source type only.
pub const OVERRIDES: &'static str = "overrides";

/// What holds of a field for one source type only. A directive that was not
/// written is `None`, and leaves what holds in general untouched.
#[derive(Debug, Clone, PartialEq, Eq)]
pub struct FieldOverridesArgs {
    pub map: Option<String>,
    pub rename: Option<String>,
    pub skip: Option<bool>,
    pub default: Option<String>,
}

/// What the annotations of one field ask for.
#[derive(Debug, Clone, PartialEq, Eq)]
pub struct FieldArgs {
    pub map: Option<String>,
    pub rename: Option<String>,
    pub skip: bool,
    pub default: Option<String>,
    /// The overrides, each with its source type. Of two for one type the
    /// later holds.
    pub overrides: Vec<(String, FieldOverridesArgs)>,
}

/// What a [`FieldOverridesArgs`] stands for.
pub struct OverrideModel {
    pub map: Option<Seq<char>>,
    pub rename: Option<Seq<char>>,
    pub skip: Option<bool>,
    pub default: Option<Seq<char>>,
}

/// What a [`FieldArgs`] stands for.
pub struct FieldModel {
    pub map: Option<Seq<char>>,
    pub rename: Option<Seq<char>>,
    pub skip: bool,
    pub default: Option<Seq<char>>,
    pub overrides: Map<Seq<char>, OverrideModel>,
}

impl DeepView for FieldOverridesArgs {
    type V = OverrideModel;

    open spec fn deep_view(&self) -> OverrideModel {
        OverrideModel {
            map: self.map.deep_view(),
            rename: self.rename.deep_view(),
            skip: self.skip,
            default: self.default.deep_view(),
        }
    }
}

/// The map that a list of overrides stands for: each type with the last
/// override that the list holds for it.
pub open spec fn overrides_model(items: Seq<(String, FieldOverridesArgs)>) -> Map<
    Seq<char>,
    OverrideModel,
>
    decreases items.len(),
{
    if items.len() == 0 {
        Map::empty()
    } else {
        overrides_model(items.drop_last()).insert(items.last().0@, items.last().1.deep_view())
    }
}

impl DeepView for FieldArgs {
    type V = FieldModel;

    open spec fn deep_view(&self) -> FieldModel {
        FieldModel {
            map: self.map.deep_view(),
            rename: self.rename.deep_view(),
            skip: self.skip,
            default: self.default.deep_view(),
            overrides: overrides_model(self.overrides@),
        }
    }
}

impl OverrideModel {
    /// The override that asks for nothing.
    pub open spec fn empty() -> OverrideModel {
        OverrideModel { map: None, rename: None, skip: None, default: None }
    }
}

impl FieldModel {
    /// The directives of a field without annotations.
    pub open spec fn empty() -> FieldModel {
        FieldModel { map: None, rename: None, skip: false, default: None, overrides: Map::empty() }
    }

    /// The same directives, but for `map`.
    pub open spec fn with_map(self, function: Seq<char>) -> FieldModel {
        FieldModel { map: Some(function), ..self }
    }

    /// The same directives, but for `rename`.
    pub open spec fn with_rename(self, name: Seq<char>) -> FieldModel {
        FieldModel { rename: Some(name), ..self }
    }

    /// The same directives, but for `skip`.
    pub open spec fn with_skip(self, flag: bool) -> FieldModel {
        FieldModel { skip: flag, ..self }
    }

    /// The same directives, but for `default`.
    pub open spec fn with_default(self, expression: Seq<char>) -> FieldModel {
        FieldModel { default: Some(expression), ..self }
    }

    /// The same directives, but for the override of one source type.
    pub open spec fn with_override(
        self,
        source_type: Seq<char>,
        args: OverrideModel,
    ) -> FieldModel {
        FieldModel { overrides: self.overrides.insert(source_type, args), ..self }
    }
}

/// The text of a string literal, `None` for any other value.
pub open spec fn text_of(value: ValueModel) -> Option<Seq<char>> {
    match value {
        ValueModel::Str(s) => Some(s),
        _ => None,
    }
}

/// The truth value of `true` or `false`, `None` for any other value.
pub open spec fn flag_of(value: ValueModel) -> Option<bool> {
    match value {
        ValueModel::Bool(b) => Some(b),
        _ => None,
    }
}

/// An override after one more entry of its list.
///
/// `skip` alone stands for `skip = true`. `map`, `rename` and `default` take
/// a string, `skip` takes `true` or `false`; a later entry replaces what an
/// earlier one set for the same key. Any other key is not recognised, a value
/// of another kind is a mismatch, and an entry that is neither a path nor a
/// path with a value has the wrong shape.
pub open spec fn setting_applied(args: OverrideModel, entry: EntryModel) -> Result<
    OverrideModel,
    Failure,
> {
    match entry {
        EntryModel::Bare(key) => if key == SKIP@ {
            Ok(OverrideModel { skip: Some(true), ..args })
        } else {
            Err(Failure::UnrecognizedDirective(key))
        },
        EntryModel::Pair(key, value) => if key == MAP@ {
            match text_of(value) {
                Some(text) => Ok(OverrideModel { map: Some(text), ..args }),
                None => Err(Failure::TypeMismatch(key)),
            }
        } else if key == RENAME@ {
            match text_of(value) {
                Some(text) => Ok(OverrideModel { rename: Some(text), ..args }),
                None => Err(Failure::TypeMismatch(key)),
            }
        } else if key == DEFAULT@ {
            match text_of(value) {
                Some(text) => Ok(OverrideModel { default: Some(text), ..args }),
                None => Err(Failure::TypeMismatch(key)),
            }
        } else if key == SKIP@ {
            match flag_of(value) {
                Some(flag) => Ok(OverrideModel { skip: Some(flag), ..args }),
                None => Err(Failure::TypeMismatch(key)),
            }
        } else {
            Err(Failure::UnrecognizedDirective(key))
        },
        EntryModel::Other(text) => Err(Failure::StructuralViolation(text)),
    }
}

/// An override after the entries of a list, from the first to the last, or
/// the failure of the first entry that fails.
pub open spec fn settings_applied(args: OverrideModel, entries: Seq<EntryModel>) -> Result<
    OverrideModel,
    Failure,
>
    decreases entries.len(),
{
    if entries.len() == 0 {
        Ok(args)
    } else {
        match setting_applied(args, entries[0]) {
            Ok(next) => settings_applied(next, entries.skip(1)),
            Err(failure) => Err(failure),
        }
    }
}

/// The override that the value after a source type stands for: the value is
/// a list, and its entries are applied to the override that asks for nothing.
/// A value that is no list has the wrong shape; the failure names the type.
pub open spec fn override_read(source_type: Seq<char>, value: ValueModel) -> Result<
    OverrideModel,
    Failure,
> {
    match value {
        ValueModel::List(entries) => settings_applied(OverrideModel::empty(), entries),
        _ => Err(Failure::StructuralViolation(source_type)),
    }
}

/// Whether two texts are the same.
pub fn same_text(a: &str, b: &str) -> (r: bool)
    ensures
        r == (a@ == b@),
{
    String::from_str(a) == String::from_str(b)
}

/// The text of a string literal, `None` for any other value.
pub fn extract_meta_str(value: &Value) -> (r: Option<String>)
    ensures
        r.deep_view() == text_of(value.deep_view()),
{
    match value {
        Value::Str(text) => Some(text.clone()),
        _ => None,
    }
}

/// The truth value of `true` or `false`, `None` for any other value.
pub fn extract_meta_bool(value: &Value) -> (r: Option<bool>)
    ensures
        r == flag_of(value.deep_view()),
{
    match value {
        Value::Bool(flag) => Some(*flag),
        _ => None,
    }
}

impl Default for FieldOverridesArgs {
    /// The override that asks for nothing.
    fn default() -> (r: FieldOverridesArgs)
        ensures
            r.deep_view() == OverrideModel::empty(),
    {
        FieldOverridesArgs::new()
    }
}

impl Default for FieldArgs {
    /// The directives of a field without annotations.
    fn default() -> (r: FieldArgs)
        ensures
            r.deep_view() == FieldModel::empty(),
    {
        FieldArgs::new()
    }
}

impl FieldOverridesArgs {
    /// The override that asks for nothing.
    pub fn new() -> (r: FieldOverridesArgs)
        ensures
            r.deep_view() == OverrideModel::empty(),
    {
        FieldOverridesArgs { map: None, rename: None, skip: None, default: None }
    }

    /// Applies one entry of an override's list.
    pub fn apply(self, entry: &Entry) -> (r: Result<FieldOverridesArgs, DeriveError>)
        ensures
            outcome(r) == setting_applied(self.deep_view(), entry.deep_view()),
    {
        let mut args = self;
        match entry {
            Entry::Bare(key) => {
                if same_text(key.as_str(), SKIP) {
                    args.skip = Some(true);
                    Ok(args)
                } else {
                    Err(DeriveError::UnrecognizedDirective(key.clone()))
                }
            },
            Entry::Pair(key, value) => {
                if same_text(key.as_str(), MAP) {
                    match extract_meta_str(value) {
                        Some(text) => {
                            args.map = Some(text);
                            Ok(args)
                        },
                        None => Err(DeriveError::TypeMismatch(key.clone())),
                    }
                } else if same_text(key.as_str(), RENAME) {
                    match extract_meta_str(value) {
                        Some(text) => {
                            args.rename = Some(text);
                            Ok(args)
                        },
                        None => Err(DeriveError::TypeMismatch(key.clone())),
                    }
                } else if same_text(key.as_str(), DEFAULT) {
                    match extract_meta_str(value) {
                        Some(text) => {
                            args.default = Some(text);
                            Ok(args)
                        },
                        None => Err(DeriveError::TypeMismatch(key.clone())),
                    }
                } else if same_text(key.as_str(), SKIP) {
                    match extract_meta_bool(value) {
                        Some(flag) => {
                            args.skip = Some(flag);
                            Ok(args)
                        },
                        None => Err(DeriveError::TypeMismatch(key.clone())),
                    }
                } else {
                    Err(DeriveError::UnrecognizedDirective(key.clone()))
                }
            },
            Entry::Other(text) => Err(DeriveError::StructuralViolation(text.clone())),
        }
    }
}

/// Reads the value after a source type as the override for that type.
pub fn extract_field_override_arg(source_type: &str, value: &Value) -> (r: Result<
    FieldOverridesArgs,
    DeriveError,
>)
    ensures
        outcome(r) == override_read(source_type@, value.deep_view()),
{
    match value {
        Value::List(entries) => {
            proof {
                lemma_list_model(*entries);
            }
            let ghost all = entries.deep_view();
            let mut args = FieldOverridesArgs::new();
            let mut i: usize = 0;
            assert(all.skip(0) =~= all);
            while i < entries.len()
                invariant
                    i <= entries.len(),
                    all == entries.deep_view(),
                    value.deep_view() == ValueModel::List(all),
                    settings_applied(OverrideModel::empty(), all) == settings_applied(
                        args.deep_view(),
                        all.skip(i as int),
                    ),
                decreases entries.len() - i,
            {
                assert(all.skip(i as int).len() > 0);
            assert(all.skip(i as int)[0] == entries[i as int].deep_view());
                assert(all.skip(i as int).skip(1) =~= all.skip(i + 1));
                match args.apply(&entries[i]) {
                    Ok(next) => {
                        args = next;
                    },
                    Err(e) => {
                        return Err(e);
                    },
                }
                i += 1;
            }
            Ok(args)
        },
        _ => Err(DeriveError::StructuralViolation(String::from_str(source_type))),
    }
}

/// The directives of a field after one more entry of a list of overrides:
/// a source type with the list of what holds for it. The type is one of
/// `types`, else the failure names it as unknown; the entry replaces the
/// override that the field had for that type. An entry that is no path with
/// a value has the wrong shape.
pub open spec fn override_applied(
    field: FieldModel,
    entry: EntryModel,
    types: Seq<Seq<char>>,
) -> Result<FieldModel, Failure> {
    match entry {
        EntryModel::Pair(source_type, value) => if !types.contains(source_type) {
            Err(Failure::UnknownOverrideType(source_type))
        } else {
            match override_read(source_type, value) {
                Ok(args) => Ok(field.with_override(source_type, args)),
                Err(failure) => Err(failure),
            }
        },
        EntryModel::Bare(text) => Err(Failure::StructuralViolation(text)),
        EntryModel::Other(text) => Err(Failure::StructuralViolation(text)),
    }
}

/// The directives of a field after the entries of a list of overrides, from
/// the first to the last, or the failure of the first entry that fails.
pub open spec fn overrides_applied(
    field: FieldModel,
    entries: Seq<EntryModel>,
    types: Seq<Seq<char>>,
) -> Result<FieldModel, Failure>
    decreases entries.len(),
{
    if entries.len() == 0 {
        Ok(field)
    } else {
        match override_applied(field, entries[0], types) {
            Ok(next) => overrides_applied(next, entries.skip(1), types),
            Err(failure) => Err(failure),
        }
    }
}

/// The directives of a field after one more entry of an annotation.
///
/// `skip` alone stands for `skip = true`. `map`, `rename` and `default` take
/// a string, `skip` takes `true` or `false`, and `overrides` takes a list of
/// overrides, whose types are among `types`; a later entry replaces what an
/// earlier one set for the same key, and an override replaces an earlier one
/// for the same type. Any other key is not recognised, a value of another
/// kind is a mismatch, and a value of `overrides` that is no list, like an
/// entry that is neither a path nor a path with a value, has the wrong shape.
pub open spec fn directive_applied(
    field: FieldModel,
    entry: EntryModel,
    types: Seq<Seq<char>>,
) -> Result<FieldModel, Failure> {
    match entry {
        EntryModel::Bare(key) => if key == SKIP@ {
            Ok(field.with_skip(true))
        } else {
            Err(Failure::UnrecognizedDirective(key))
        },
        EntryModel::Pair(key, value) => if key == MAP@ {
            match text_of(value) {
                Some(text) => Ok(field.with_map(text)),
                None => Err(Failure::TypeMismatch(key)),
            }
        } else if key == RENAME@ {
            match text_of(value) {
                Some(text) => Ok(field.with_rename(text)),
                None => Err(Failure::TypeMismatch(key)),
            }
        } else if key == DEFAULT@ {
            match text_of(value) {
                Some(text) => Ok(field.with_default(text)),
                None => Err(Failure::TypeMismatch(key)),
            }
        } else if key == SKIP@ {
            match flag_of(value) {
                Some(flag) => Ok(field.with_skip(flag)),
                None => Err(Failure::TypeMismatch(key)),
            }
        } else if key == OVERRIDES@ {
            match value {
                ValueModel::List(entries) => overrides_applied(field, entries, types),
                _ => Err(Failure::StructuralViolation(key)),
            }
        } else {
            Err(Failure::UnrecognizedDirective(key))
        },
        EntryModel::Other(text) => Err(Failure::StructuralViolation(text)),
    }
}

/// The directives of a field after the entries of an annotation, from the
/// first to the last, or the failure of the first entry that fails.
pub open spec fn directives_applied(
    field: FieldModel,
    entries: Seq<EntryModel>,
    types: Seq<Seq<char>>,
) -> Result<FieldModel, Failure>
    decreases entries.len(),
{
    if entries.len() == 0 {
        Ok(field)
    } else {
        match directive_applied(field, entries[0], types) {
            Ok(next) => directives_applied(next, entries.skip(1), types),
            Err(failure) => Err(failure),
        }
    }
}

/// Whether a list of texts holds a text.
pub fn holds_text(texts: &Vec<String>, text: &str) -> (r: bool)
    ensures
        r == texts.deep_view().contains(text@),
{
    let mut i: usize = 0;
    while i < texts.len()
        invariant
            i <= texts.len(),
            forall|j: int| 0 <= j < i ==> texts.deep_view()[j] != text@,
        decreases texts.len() - i,
    {
        assert(texts.deep_view()[i as int] == texts[i as int]@);
        if same_text(texts[i].as_str(), text) {
            return true;
        }
        i += 1;
    }
    false
}

impl FieldArgs {
    /// The directives of a field without annotations.
    pub fn new() -> (r: FieldArgs)
        ensures
            r.deep_view() == FieldModel::empty(),
    {
        FieldArgs { map: None, rename: None, skip: false, default: None, overrides: Vec::new() }
    }

    /// Applies one entry of a list of overrides.
    pub fn apply_override(self, entry: &Entry, types: &Vec<String>) -> (r: Result<
        FieldArgs,
        DeriveError,
    >)
        ensures
            outcome(r) == override_applied(self.deep_view(), entry.deep_view(), types.deep_view()),
    {
        let mut args = self;
        match entry {
            Entry::Pair(source_type, value) => {
                if !holds_text(types, source_type.as_str()) {
                    return Err(DeriveError::UnknownOverrideType(source_type.clone()));
                }
                match extract_field_override_arg(source_type.as_str(), value) {
                    Ok(found) => {
                        let ghost before = args.overrides@;
                        args.overrides.push((source_type.clone(), found));
                        assert(args.overrides@.drop_last() =~= before);
                        Ok(args)
                    },
                    Err(e) => Err(e),
                }
            },
            Entry::Bare(text) => Err(DeriveError::StructuralViolation(text.clone())),
            Entry::Other(text) => Err(DeriveError::StructuralViolation(text.clone())),
        }
    }

    /// Applies the entries of a list of overrides, from the first to the last.
    pub fn apply_overrides(self, entries: &Vec<Entry>, types: &Vec<String>) -> (r: Result<
        FieldArgs,
        DeriveError,
    >)
        ensures
            outcome(r) == overrides_applied(
                self.deep_view(),
                entries.deep_view(),
                types.deep_view(),
            ),
    {
        let ghost all = entries.deep_view();
        let ghost start = self.deep_view();
        let mut args = self;
        let mut i: usize = 0;
        assert(all.skip(0) =~= all);
        while i < entries.len()
            invariant
                i <= entries.len(),
                all == entries.deep_view(),
                start == self.deep_view(),
                overrides_applied(start, all, types.deep_view()) == overrides_applied(
                    args.deep_view(),
                    all.skip(i as int),
                    types.deep_view(),
                ),
            decreases entries.len() - i,
        {
            assert(all.skip(i as int).len() > 0);
            assert(all.skip(i as int)[0] == entries[i as int].deep_view());
            assert(all.skip(i as int).skip(1) =~= all.skip(i + 1));
            match args.apply_override(&entries[i], types) {
                Ok(next) => {
                    args = next;
                },
                Err(e) => {
                    return Err(e);
                },
            }
            i += 1;
        }
        Ok(args)
    }

    /// Applies one entry of an annotation.
    pub fn apply(self, entry: &Entry, types: &Vec<String>) -> (r: Result<FieldArgs, DeriveError>)
        ensures
            outcome(r) == directive_applied(self.deep_view(), entry.deep_view(), types.deep_view()),
    {
        let mut args = self;
        match entry {
            Entry::Bare(key) => {
                if same_text(key.as_str(), SKIP) {
                    args.skip = true;
                    Ok(args)
                } else {
                    Err(DeriveError::UnrecognizedDirective(key.clone()))
                }
            },
            Entry::Pair(key, value) => {
                if same_text(key.as_str(), MAP) {
                    match extract_meta_str(value) {
                        Some(text) => {
                            args.map = Some(text);
                            Ok(args)
                        },
                        None => Err(DeriveError::TypeMismatch(key.clone())),
                    }
                } else if same_text(key.as_str(), RENAME) {
                    match extract_meta_str(value) {
                        Some(text) => {
                            args.rename = Some(text);
                            Ok(args)
                        },
                        None => Err(DeriveError::TypeMismatch(key.clone())),
                    }
                } else if same_text(key.as_str(), DEFAULT) {
                    match extract_meta_str(value) {
                        Some(text) => {
                            args.default = Some(text);
                            Ok(args)
                        },
                        None => Err(DeriveError::TypeMismatch(key.clone())),
                    }
                } else if same_text(key.as_str(), SKIP) {
                    match extract_meta_bool(value) {
                        Some(flag) => {
                            args.skip = flag;
                            Ok(args)
                        },
                        None => Err(DeriveError::TypeMismatch(key.clone())),
                    }
                } else if same_text(key.as_str(), OVERRIDES) {
                    match value {
                        Value::List(entries) => {
                            proof {
                                lemma_list_model(*entries);
                            }
                            args.apply_overrides(entries, types)
                        },
                        _ => Err(DeriveError::StructuralViolation(key.clone())),
                    }
                } else {
                    Err(DeriveError::UnrecognizedDirective(key.clone()))
                }
            },
            Entry::Other(text) => Err(DeriveError::StructuralViolation(text.clone())),
        }
    }

    /// Applies the entries of an annotation, from the first to the last.
    pub fn apply_all(self, entries: &Vec<Entry>, types: &Vec<String>) -> (r: Result<
        FieldArgs,
        DeriveError,
    >)
        ensures
            outcome(r) == directives_applied(
                self.deep_view(),
                entries.deep_view(),
                types.deep_view(),
            ),
    {
        let ghost all = entries.deep_view();
        let ghost start = self.deep_view();
        let mut args = self;
        let mut i: usize = 0;
        assert(all.skip(0) =~= all);
        while i < entries.len()
            invariant
                i <= entries.len(),
                all == entries.deep_view(),
                start == self.deep_view(),
                directives_applied(start, all, types.deep_view()) == directives_applied(
                    args.deep_view(),
                    all.skip(i as int),
                    types.deep_view(),
                ),
            decreases entries.len() - i,
        {
            assert(all.skip(i as int).len() > 0);
            assert(all.skip(i as int)[0] == entries[i as int].deep_view());
            assert(all.skip(i as int).skip(1) =~= all.skip(i + 1));
            match args.apply(&entries[i], types) {
                Ok(next) => {
                    args = next;
                },
                Err(e) => {
                    return Err(e);
                },
            }
            i += 1;
        }
        Ok(args)
    }
}

} // verus!
