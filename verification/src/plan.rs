//! How one field is filled from one source type.

use crate::directive::{overrides_model, same_text, FieldArgs, FieldModel, FieldOverridesArgs};
use vstd::prelude::*;
use vstd::string::*;

verus! {

/// The conversion that a field gets where no `map` names another.
pub const INTO_METHOD: &'static str = "core::convert::Into::into";

/// The expression that a skipped field gets where no `default` gives another.
pub const SKIP_METHOD: &'static str = "core::default::Default::default()";

/// How one field is filled from one source type.
#[derive(Debug, Clone, PartialEq, Eq)]
pub struct ConversionPlan {
    /// Whether the source is left unread.
    pub skip: bool,
    /// For a skipped field the expression that it is set to, for any other
    /// the function that the source's value passes through.
    pub method: String,
    /// The field that is read in the source.
    pub source_field: String,
}

/// What a [`ConversionPlan`] stands for.
pub struct PlanModel {
    pub skip: bool,
    pub method: Seq<char>,
    pub source_field: Seq<char>,
}

impl DeepView for ConversionPlan {
    type V = PlanModel;

    open spec fn deep_view(&self) -> PlanModel {
        PlanModel { skip: self.skip, method: self.method@, source_field: self.source_field@ }
    }
}

/// The second text where there is one, else the first.
pub open spec fn replaced(general: Option<Seq<char>>, special: Option<Seq<char>>) -> Option<
    Seq<char>,
> {
    match special {
        Some(text) => Some(text),
        None => general,
    }
}

impl FieldModel {
    /// What holds of the field for one source type: each directive as the
    /// override for that type has it, and as the field has it in general
    /// where the override has none or the type has no override. The
    /// overrides are spent.
    pub open spec fn for_type(self, source_type: Seq<char>) -> FieldModel {
        if self.overrides.contains_key(source_type) {
            let special = self.overrides[source_type];
            FieldModel {
                map: replaced(self.map, special.map),
                rename: replaced(self.rename, special.rename),
                skip: match special.skip {
                    Some(flag) => flag,
                    None => self.skip,
                },
                default: replaced(self.default, special.default),
                overrides: Map::empty(),
            }
        } else {
            FieldModel { overrides: Map::empty(), ..self }
        }
    }

    /// The plan for a field of the given name, of which `self` holds.
    ///
    /// A skipped field is set to its `default`, or to the default of its
    /// type. Any other is read from the field that `rename` names, or from
    /// the one of its own name, through the function that `map` names, or
    /// through the conversion into its type.
    pub open spec fn plan(self, field_name: Seq<char>) -> PlanModel {
        PlanModel {
            skip: self.skip,
            method: if self.skip {
                match self.default {
                    Some(expression) => expression,
                    None => SKIP_METHOD@,
                }
            } else {
                match self.map {
                    Some(function) => function,
                    None => INTO_METHOD@,
                }
            },
            source_field: match self.rename {
                Some(name) => name,
                None => field_name,
            },
        }
    }
}

/// A copy of a text that may be missing.
pub fn copy_text(text: &Option<String>) -> (r: Option<String>)
    ensures
        r.deep_view() == text.deep_view(),
{
    match text {
        Some(t) => Some(t.clone()),
        None => None,
    }
}

/// The second text where there is one, else the first.
pub fn replace_text(general: &Option<String>, special: &Option<String>) -> (r: Option<String>)
    ensures
        r.deep_view() == replaced(general.deep_view(), special.deep_view()),
{
    match special {
        Some(text) => Some(text.clone()),
        None => copy_text(general),
    }
}

impl FieldArgs {
    /// The override for a source type, where the field has one.
    pub fn find_override(&self, source_type: &str) -> (r: Option<&FieldOverridesArgs>)
        ensures
            r.deep_view() == self.deep_view().overrides.get(source_type@),
    {
        let mut found: Option<&FieldOverridesArgs> = None;
        let mut i: usize = 0;
        assert(self.overrides@.take(0) =~= Seq::empty());
        while i < self.overrides.len()
            invariant
                i <= self.overrides.len(),
                found matches Some(o) ==> overrides_model(
                    self.overrides@.take(i as int),
                ).contains_key(source_type@) && overrides_model(
                    self.overrides@.take(i as int),
                )[source_type@] == o.deep_view(),
                found.is_none() ==> !overrides_model(self.overrides@.take(i as int)).contains_key(
                    source_type@,
                ),
            decreases self.overrides.len() - i,
        {
            assert(self.overrides@.take(i + 1).drop_last() =~= self.overrides@.take(i as int));
            assert(self.overrides@.take(i + 1).last() == self.overrides@[i as int]);
            if same_text(self.overrides[i].0.as_str(), source_type) {
                found = Some(&self.overrides[i].1);
            }
            i += 1;
        }
        assert(self.overrides@.take(i as int) =~= self.overrides@);
        found
    }

    /// What holds of the field for one source type.
    pub fn for_type(&self, source_type: &str) -> (r: FieldArgs)
        ensures
            r.deep_view() == self.deep_view().for_type(source_type@),
    {
        match self.find_override(source_type) {
            Some(special) => FieldArgs {
                map: replace_text(&self.map, &special.map),
                rename: replace_text(&self.rename, &special.rename),
                skip: match special.skip {
                    Some(flag) => flag,
                    None => self.skip,
                },
                default: replace_text(&self.default, &special.default),
                overrides: Vec::new(),
            },
            None => FieldArgs {
                map: copy_text(&self.map),
                rename: copy_text(&self.rename),
                skip: self.skip,
                default: copy_text(&self.default),
                overrides: Vec::new(),
            },
        }
    }

    /// The plan for a field of the given name, of which `self` holds.
    pub fn plan(&self, field_name: &str) -> (r: ConversionPlan)
        ensures
            r.deep_view() == self.deep_view().plan(field_name@),
    {
        let method = if self.skip {
            match &self.default {
                Some(expression) => expression.clone(),
                None => String::from_str(SKIP_METHOD),
            }
        } else {
            match &self.map {
                Some(function) => function.clone(),
                None => String::from_str(INTO_METHOD),
            }
        };
        let source_field = match &self.rename {
            Some(name) => name.clone(),
            None => String::from_str(field_name),
        };
        ConversionPlan { skip: self.skip, method, source_field }
    }
}

/// Plans how a field of the given name and directives is filled from one
/// source type.
pub fn conversion_plan(field_name: &str, args: &FieldArgs, source_type: &str) -> (r:
    ConversionPlan)
    ensures
        r.deep_view() == args.deep_view().for_type(source_type@).plan(field_name@),
{
    args.for_type(source_type).plan(field_name)
}

} // verus!
