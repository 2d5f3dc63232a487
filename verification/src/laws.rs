//! What holds of every derivation.

use crate::decl::{
    block_applied, blocks_applied, decl_fits, field_resolved, marked, resolved, types_added,
    types_gathered, types_named, AnnotationModel, BlockModel, ReadDeclModel, ReadFieldModel,
    Shape, TargetDeclModel, TypeBlockModel, MARKER,
};
use crate::directive::{
    directive_applied, directives_applied, override_applied, overrides_applied,
    setting_applied, settings_applied, FieldModel, OverrideModel, DEFAULT, MAP, OVERRIDES,
    RENAME, SKIP,
};
use crate::emit::{
    field_emitted, fields_emitted, routine_emitted, routines_emitted, routines_tried,
    AssignmentModel, RoutineModel, TargetFieldModel, Verdicts,
};
use crate::derived;
use crate::error::{gathered, lemma_gathered_first_failure, lemma_gathered_success, Failure};
use crate::plan::SKIP_METHOD;
use crate::tree::{EntryModel, ValueModel};
use vstd::prelude::*;

verus! {

/// No two directives have the same key.
pub proof fn lemma_keys_differ()
    ensures
        MAP@ != RENAME@,
        MAP@ != SKIP@,
        MAP@ != DEFAULT@,
        MAP@ != OVERRIDES@,
        RENAME@ != SKIP@,
        RENAME@ != DEFAULT@,
        RENAME@ != OVERRIDES@,
        SKIP@ != DEFAULT@,
        SKIP@ != OVERRIDES@,
        DEFAULT@ != OVERRIDES@,
{
    reveal_strlit("map");
    reveal_strlit("rename");
    reveal_strlit("skip");
    reveal_strlit("default");
    reveal_strlit("overrides");
    assert(MAP@.len() == 3);
    assert(RENAME@.len() == 6);
    assert(SKIP@.len() == 4);
    assert(DEFAULT@.len() == 7);
    assert(OVERRIDES@.len() == 9);
}

/// Whether an entry is written with the given key, alone or with a value.
pub open spec fn names_key(entry: EntryModel, key: Seq<char>) -> bool {
    match entry {
        EntryModel::Bare(path) => path == key,
        EntryModel::Pair(path, _) => path == key,
        EntryModel::Other(_) => false,
    }
}

/// Whether no entry of a list is written with the given key.
pub open spec fn leaves_key(entries: Seq<EntryModel>, key: Seq<char>) -> bool {
    forall|i: int| 0 <= i < entries.len() ==> !names_key(#[trigger] entries[i], key)
}

/// Annotations of other names are passed over: where no annotation has
/// this library's name, none is read.
pub proof fn law_foreign_annotations_are_passed_over(annotations: Seq<AnnotationModel>)
    requires
        forall|i: int| 0 <= i < annotations.len() ==> (#[trigger] annotations[i]).name != MARKER@,
    ensures
        marked(annotations) == Seq::<AnnotationModel>::empty(),
    decreases annotations.len(),
{
    if annotations.len() > 0 {
        let rest = annotations.drop_last();
        assert(annotations.last() == annotations[annotations.len() - 1]);
        assert forall|i: int| 0 <= i < rest.len() implies (#[trigger] rest[i]).name != MARKER@ by {
            assert(rest[i] == annotations[i]);
        }
        law_foreign_annotations_are_passed_over(rest);
    }
}

/// A field without annotations of this library's name has no directives, and
/// is then read, whatever the source type and whatever the parsers answer,
/// from the field of its own name through the conversion into its type.
pub proof fn law_plain_field_is_converted(
    target: Seq<char>,
    name: Seq<char>,
    types: Seq<Seq<char>>,
    source_type: Seq<char>,
    verdicts: Verdicts,
)
    ensures
        field_resolved(target, ReadFieldModel::named(name, Seq::empty()), types) == Ok::<
            TargetFieldModel,
            Failure,
        >(TargetFieldModel::plain(name)),
        field_emitted(TargetFieldModel::plain(name), source_type, verdicts) == Ok::<
            AssignmentModel,
            Failure,
        >(AssignmentModel::converted(name)),
{
    assert(FieldModel::empty().for_type(source_type) == FieldModel::empty());
}

/// `rename` with a string sets the name under which the field is read,
/// whatever the field is called and whatever `rename` was before; a field
/// that is read is then read under that name.
pub proof fn law_rename_names_the_source_field(
    field: FieldModel,
    field_name: Seq<char>,
    source_field: Seq<char>,
    types: Seq<Seq<char>>,
)
    ensures
        directive_applied(
            field,
            EntryModel::Pair(RENAME@, ValueModel::Str(source_field)),
            types,
        ) == Ok::<FieldModel, Failure>(field.with_rename(source_field)),
        field.with_rename(source_field).plan(field_name).source_field == source_field,
{
    lemma_keys_differ();
}

/// `skip`, alone or with `true`, makes a field skipped. A skipped field is
/// not read: it is set to its `default` where it has one, and to the default
/// of its type where it has none.
pub proof fn law_skip_sets_the_default(
    field: FieldModel,
    field_name: Seq<char>,
    types: Seq<Seq<char>>,
)
    ensures
        directive_applied(field, EntryModel::Bare(SKIP@), types) == Ok::<FieldModel, Failure>(
            field.with_skip(true),
        ),
        directive_applied(field, EntryModel::Pair(SKIP@, ValueModel::Bool(true)), types) == Ok::<
            FieldModel,
            Failure,
        >(field.with_skip(true)),
        field.with_skip(true).plan(field_name).skip,
        field.default is None ==> field.with_skip(true).plan(field_name).method == SKIP_METHOD@,
        field.default matches Some(expression) ==> field.with_skip(true).plan(field_name).method
            == expression,
{
    lemma_keys_differ();
}

/// `map` with a string sets the function that the value passes through. A
/// field that is read then passes through that function, and is read under
/// the name that `rename` gives, or under its own.
pub proof fn law_map_names_the_function(
    field: FieldModel,
    field_name: Seq<char>,
    function: Seq<char>,
    types: Seq<Seq<char>>,
)
    requires
        !field.skip,
    ensures
        directive_applied(field, EntryModel::Pair(MAP@, ValueModel::Str(function)), types) == Ok::<
            FieldModel,
            Failure,
        >(field.with_map(function)),
        !field.with_map(function).plan(field_name).skip,
        field.with_map(function).plan(field_name).method == function,
        field.with_map(function).plan(field_name).source_field == match field.rename {
            Some(name) => name,
            None => field_name,
        },
{
}

/// For a source type with an override, each directive is what the override
/// has for it, and what the field has in general where the override has
/// nothing. For a source type without an override, each is what the field
/// has in general.
pub proof fn law_override_replaces_what_it_sets(field: FieldModel, source_type: Seq<char>)
    ensures
        field.overrides.contains_key(source_type) ==> {
            let special = field.overrides[source_type];
            let held = field.for_type(source_type);
            &&& held.map == if special.map is Some {
                special.map
            } else {
                field.map
            }
            &&& held.rename == if special.rename is Some {
                special.rename
            } else {
                field.rename
            }
            &&& held.default == if special.default is Some {
                special.default
            } else {
                field.default
            }
            &&& held.skip == if special.skip is Some {
                special.skip->Some_0
            } else {
                field.skip
            }
        },
        !field.overrides.contains_key(source_type) ==> {
            let held = field.for_type(source_type);
            &&& held.map == field.map
            &&& held.rename == field.rename
            &&& held.default == field.default
            &&& held.skip == field.skip
        },
{
}

/// A list of overrides that is applied in two parts comes to what it comes
/// to when applied whole.
pub proof fn lemma_overrides_in_a_row(
    field: FieldModel,
    first: Seq<EntryModel>,
    second: Seq<EntryModel>,
    types: Seq<Seq<char>>,
)
    ensures
        overrides_applied(field, first + second, types) == match overrides_applied(
            field,
            first,
            types,
        ) {
            Ok(between) => overrides_applied(between, second, types),
            Err(failure) => Err(failure),
        },
    decreases first.len(),
{
    if first.len() == 0 {
        assert(first + second =~= second);
    } else {
        assert((first + second)[0] == first[0]);
        assert((first + second).skip(1) =~= first.skip(1) + second);
        match override_applied(field, first[0], types) {
            Ok(next) => lemma_overrides_in_a_row(next, first.skip(1), second, types),
            Err(_) => {},
        }
    }
}

/// An override for a type that the target does not name as a source fails,
/// and the failure names that type: in a list of overrides whose entries
/// before it are in order, and so in `overrides` with that list.
pub proof fn law_unknown_override_type_fails(
    field: FieldModel,
    before: Seq<EntryModel>,
    source_type: Seq<char>,
    value: ValueModel,
    after: Seq<EntryModel>,
    types: Seq<Seq<char>>,
)
    requires
        !types.contains(source_type),
        overrides_applied(field, before, types) is Ok,
    ensures
        overrides_applied(
            field,
            before + seq![EntryModel::Pair(source_type, value)] + after,
            types,
        ) == Err::<FieldModel, Failure>(Failure::UnknownOverrideType(source_type)),
        directive_applied(
            field,
            EntryModel::Pair(
                OVERRIDES@,
                ValueModel::List(before + seq![EntryModel::Pair(source_type, value)] + after),
            ),
            types,
        ) == Err::<FieldModel, Failure>(Failure::UnknownOverrideType(source_type)),
{
    lemma_keys_differ();
    let entry = EntryModel::Pair(source_type, value);
    let rest = seq![entry] + after;
    assert(before + seq![entry] + after =~= before + rest);
    lemma_overrides_in_a_row(field, before, rest, types);
    assert(rest[0] == entry);
}

/// The entries of an annotation that are applied in two parts come to what
/// they come to when applied whole.
pub proof fn lemma_directives_in_a_row(
    field: FieldModel,
    first: Seq<EntryModel>,
    second: Seq<EntryModel>,
    types: Seq<Seq<char>>,
)
    ensures
        directives_applied(field, first + second, types) == match directives_applied(
            field,
            first,
            types,
        ) {
            Ok(between) => directives_applied(between, second, types),
            Err(failure) => Err(failure),
        },
    decreases first.len(),
{
    if first.len() == 0 {
        assert(first + second =~= second);
    } else {
        assert((first + second)[0] == first[0]);
        assert((first + second).skip(1) =~= first.skip(1) + second);
        match directive_applied(field, first[0], types) {
            Ok(next) => lemma_directives_in_a_row(next, first.skip(1), second, types),
            Err(_) => {},
        }
    }
}

/// The blocks of a field count as one row: what the later ones are applied
/// to is what the earlier ones came to.
pub proof fn law_blocks_in_a_row(
    field: FieldModel,
    earlier: Seq<BlockModel>,
    later: Seq<BlockModel>,
    types: Seq<Seq<char>>,
)
    ensures
        blocks_applied(field, earlier + later, types) == match blocks_applied(
            field,
            earlier,
            types,
        ) {
            Ok(between) => blocks_applied(between, later, types),
            Err(failure) => Err(failure),
        },
    decreases earlier.len(),
{
    if earlier.len() == 0 {
        assert(earlier + later =~= later);
    } else {
        assert((earlier + later)[0] == earlier[0]);
        assert((earlier + later).skip(1) =~= earlier.skip(1) + later);
        match block_applied(field, earlier[0], types) {
            Ok(next) => law_blocks_in_a_row(next, earlier.skip(1), later, types),
            Err(_) => {},
        }
    }
}

/// Two blocks of a field count as one: they come to what the entries of the
/// first, followed by those of the second, come to.
pub proof fn law_blocks_join_their_entries(
    field: FieldModel,
    first: Seq<EntryModel>,
    second: Seq<EntryModel>,
    types: Seq<Seq<char>>,
)
    ensures
        blocks_applied(field, seq![BlockModel::Read(first), BlockModel::Read(second)], types)
            == directives_applied(field, first + second, types),
{
    let both = seq![BlockModel::Read(first), BlockModel::Read(second)];
    lemma_directives_in_a_row(field, first, second, types);
    assert(both[0] == BlockModel::Read(first));
    assert(both.skip(1)[0] == BlockModel::Read(second));
    assert(both.skip(1).skip(1).len() == 0);
    match directives_applied(field, first, types) {
        Ok(between) => {
            assert(blocks_applied(field, both, types) == blocks_applied(
                between,
                both.skip(1),
                types,
            ));
            match directives_applied(between, second, types) {
                Ok(last) => {
                    assert(blocks_applied(between, both.skip(1), types) == blocks_applied(
                        last,
                        both.skip(1).skip(1),
                        types,
                    ));
                },
                Err(_) => {},
            }
        },
        Err(_) => {},
    }
}

/// A list of overrides leaves `map`, `rename`, `skip` and `default` as they
/// are.
pub proof fn lemma_overrides_keep_directives(
    field: FieldModel,
    entries: Seq<EntryModel>,
    types: Seq<Seq<char>>,
)
    requires
        overrides_applied(field, entries, types) is Ok,
    ensures
        overrides_applied(field, entries, types)->Ok_0.map == field.map,
        overrides_applied(field, entries, types)->Ok_0.rename == field.rename,
        overrides_applied(field, entries, types)->Ok_0.skip == field.skip,
        overrides_applied(field, entries, types)->Ok_0.default == field.default,
    decreases entries.len(),
{
    if entries.len() > 0 {
        lemma_overrides_keep_directives(
            override_applied(field, entries[0], types)->Ok_0,
            entries.skip(1),
            types,
        );
    }
}

/// What the entries of an annotation do not name stays as it was.
pub proof fn law_unnamed_directives_persist(
    field: FieldModel,
    entries: Seq<EntryModel>,
    types: Seq<Seq<char>>,
)
    requires
        directives_applied(field, entries, types) is Ok,
    ensures
        leaves_key(entries, MAP@) ==> directives_applied(field, entries, types)->Ok_0.map
            == field.map,
        leaves_key(entries, RENAME@) ==> directives_applied(field, entries, types)->Ok_0.rename
            == field.rename,
        leaves_key(entries, SKIP@) ==> directives_applied(field, entries, types)->Ok_0.skip
            == field.skip,
        leaves_key(entries, DEFAULT@) ==> directives_applied(field, entries, types)->Ok_0.default
            == field.default,
        leaves_key(entries, OVERRIDES@) ==> directives_applied(
            field,
            entries,
            types,
        )->Ok_0.overrides == field.overrides,
    decreases entries.len(),
{
    lemma_keys_differ();
    if entries.len() > 0 {
        let next = directive_applied(field, entries[0], types)->Ok_0;
        let rest = entries.skip(1);
        law_unnamed_directives_persist(next, rest, types);
        assert forall|key: Seq<char>| leaves_key(entries, key) implies leaves_key(rest, key)
            && !names_key(entries[0], key) by {
            assert forall|i: int| 0 <= i < rest.len() implies !names_key(
                #[trigger] rest[i],
                key,
            ) by {
                assert(rest[i] == entries[i + 1]);
            }
        }
        match entries[0] {
            EntryModel::Pair(key, ValueModel::List(items)) => {
                if key == OVERRIDES@ {
                    lemma_overrides_keep_directives(field, items, types);
                }
            },
            _ => {},
        }
    }
}

/// Of two entries for one key the later one holds: after an entry that sets
/// `map`, `rename` or `default` to a string, or `skip` to `true` or `false`,
/// and after entries that do not name that key, the directive is what that
/// entry set, whatever came before it, in the same annotation or in an
/// earlier one.
pub proof fn law_later_directive_wins(
    field: FieldModel,
    before: Seq<EntryModel>,
    key: Seq<char>,
    value: ValueModel,
    after: Seq<EntryModel>,
    types: Seq<Seq<char>>,
)
    requires
        directives_applied(field, before + seq![EntryModel::Pair(key, value)] + after, types)
            is Ok,
        leaves_key(after, key),
    ensures
        ({
            let held = directives_applied(
                field,
                before + seq![EntryModel::Pair(key, value)] + after,
                types,
            )->Ok_0;
            &&& key == MAP@ ==> value is Str && held.map == Some(value->Str_0)
            &&& key == RENAME@ ==> value is Str && held.rename == Some(value->Str_0)
            &&& key == DEFAULT@ ==> value is Str && held.default == Some(value->Str_0)
            &&& key == SKIP@ ==> value is Bool && held.skip == value->Bool_0
        }),
{
    lemma_keys_differ();
    let entry = EntryModel::Pair(key, value);
    let rest = seq![entry] + after;
    assert(before + seq![entry] + after =~= before + rest);
    lemma_directives_in_a_row(field, before, rest, types);
    let between = directives_applied(field, before, types)->Ok_0;
    assert(rest[0] == entry);
    assert(rest.skip(1) =~= after);
    let set = directive_applied(between, entry, types)->Ok_0;
    law_unnamed_directives_persist(set, after, types);
}

/// A routine sets every field of the target, in the order of the fields:
/// whatever the parsers answered, a routine that was written has one
/// assignment for each field, under the field's name and by the field's plan
/// for the routine's source type.
pub proof fn law_routine_sets_every_field(
    target: Seq<char>,
    fields: Seq<TargetFieldModel>,
    source_type: Seq<char>,
    verdicts: Seq<Verdicts>,
)
    requires
        routine_emitted(target, fields, source_type, verdicts) is Ok,
    ensures
        ({
            let routine = routine_emitted(target, fields, source_type, verdicts)->Ok_0;
            &&& routine.target == target
            &&& routine.source_type == source_type
            &&& routine.assignments.len() == fields.len()
            &&& forall|i: int|
                0 <= i < fields.len() ==> (#[trigger] routine.assignments[i]).field
                    == fields[i].name && routine.assignments[i].plan == fields[i].args.for_type(
                    source_type,
                ).plan(fields[i].name)
        }),
{
    let steps = fields_emitted(fields, source_type, verdicts);
    lemma_gathered_success(steps);
    let routine = routine_emitted(target, fields, source_type, verdicts)->Ok_0;
    assert forall|i: int| 0 <= i < fields.len() implies (#[trigger] routine.assignments[i]).field
        == fields[i].name && routine.assignments[i].plan == fields[i].args.for_type(
        source_type,
    ).plan(fields[i].name) by {
        assert(steps[i] == Ok::<AssignmentModel, Failure>(routine.assignments[i]));
    }
}

/// A routine fails only over a text that a field uses for its source type:
/// whatever the parsers answered, the failure says that a text is malformed,
/// and the text is the `default` of a skipped field, or the `rename` or the
/// `map` of a field that is read.
pub proof fn law_routine_fails_over_a_text_in_use(
    target: Seq<char>,
    fields: Seq<TargetFieldModel>,
    source_type: Seq<char>,
    verdicts: Seq<Verdicts>,
) -> (first: int)
    requires
        routine_emitted(target, fields, source_type, verdicts) is Err,
    ensures
        0 <= first < fields.len(),
        ({
            let failure = routine_emitted(target, fields, source_type, verdicts)->Err_0;
            let held = fields[first].args.for_type(source_type);
            &&& failure is MalformedExpression
            &&& held.skip ==> held.default == Some(failure.subject())
            &&& !held.skip ==> held.rename == Some(failure.subject()) || held.map == Some(
                failure.subject(),
            )
        }),
{
    let steps = fields_emitted(fields, source_type, verdicts);
    let first = lemma_gathered_first_failure(steps);
    assert(steps[first] == field_emitted(fields[first], source_type, verdicts[first]));
    first
}

/// A routine whose fields use no text of an annotation for its source type
/// is written whatever the parsers answer.
pub proof fn law_routine_without_texts_is_written(
    target: Seq<char>,
    fields: Seq<TargetFieldModel>,
    source_type: Seq<char>,
    verdicts: Seq<Verdicts>,
)
    requires
        forall|i: int|
            0 <= i < fields.len() ==> {
                let held = (#[trigger] fields[i]).args.for_type(source_type);
                &&& held.skip ==> held.default is None
                &&& !held.skip ==> held.rename is None && held.map is None
            },
    ensures
        routine_emitted(target, fields, source_type, verdicts) is Ok,
{
    if routine_emitted(target, fields, source_type, verdicts) is Err {
        let steps = fields_emitted(fields, source_type, verdicts);
        let first = lemma_gathered_first_failure(steps);
        assert(steps[first] == field_emitted(fields[first], source_type, verdicts[first]));
        assert(false);
    }
}

/// There is one routine for each source type, in the order of the types,
/// and each builds the target from its type.
pub proof fn law_one_routine_for_each_type(
    target: Seq<char>,
    fields: Seq<TargetFieldModel>,
    types: Seq<Seq<char>>,
    verdicts: Seq<Seq<Verdicts>>,
)
    requires
        routines_emitted(target, fields, types, verdicts) is Ok,
    ensures
        routines_emitted(target, fields, types, verdicts)->Ok_0.len() == types.len(),
        forall|i: int|
            0 <= i < types.len() ==> routine_emitted(
                target,
                fields,
                #[trigger] types[i],
                verdicts[i],
            ) == Ok::<RoutineModel, Failure>(
                routines_emitted(target, fields, types, verdicts)->Ok_0[i],
            ),
{
    let steps = routines_tried(target, fields, types, verdicts);
    lemma_gathered_success(steps);
    let routines = routines_emitted(target, fields, types, verdicts)->Ok_0;
    assert forall|i: int| 0 <= i < types.len() implies routine_emitted(
        target,
        fields,
        #[trigger] types[i],
        verdicts[i],
    ) == Ok::<RoutineModel, Failure>(routines[i]) by {
        assert(steps[i] == Ok::<RoutineModel, Failure>(routines[i]));
    }
}

/// A declaration that resolves is a struct, and has a resolved field for
/// each of its fields, under the field's name.
pub proof fn law_resolved_keeps_the_fields(read: ReadDeclModel)
    requires
        resolved(read) is Ok,
    ensures
        read.shape == Shape::Struct,
        resolved(read)->Ok_0.1.len() == read.fields.len(),
        forall|i: int|
            0 <= i < read.fields.len() ==> (#[trigger] read.fields[i]).name == Some(
                resolved(read)->Ok_0.1[i].name,
            ),
{
    let types = types_named(read.types)->Ok_0;
    let steps = Seq::new(
        read.fields.len(),
        |i: int| field_resolved(read.name, read.fields[i], types),
    );
    lemma_gathered_success(steps);
    let fields = resolved(read)->Ok_0.1;
    assert forall|i: int| 0 <= i < read.fields.len() implies (#[trigger] read.fields[i]).name
        == Some(fields[i].name) by {
        assert(steps[i] == Ok::<TargetFieldModel, Failure>(fields[i]));
    }
}

/// The routines that a declaration comes to, whatever was read from its
/// annotations and whatever the parsers answered, build the declared type,
/// and each sets every field of the declaration, in the order of the
/// fields and under their names.
pub proof fn law_derived_routines_set_every_field(
    decl: TargetDeclModel,
    read: ReadDeclModel,
    verdicts: Seq<Seq<Verdicts>>,
    routines: Seq<RoutineModel>,
)
    requires
        decl_fits(read, decl),
        derived(Ok::<Seq<RoutineModel>, Failure>(routines), read, verdicts),
    ensures
        decl.shape == Shape::Struct,
        forall|i: int|
            0 <= i < routines.len() ==> {
                &&& (#[trigger] routines[i]).target == decl.name
                &&& routines[i].assignments.len() == decl.fields.len()
                &&& forall|j: int|
                    0 <= j < decl.fields.len() ==> decl.fields[j].name == Some(
                        (#[trigger] routines[i].assignments[j]).field,
                    )
            },
{
    law_resolved_keeps_the_fields(read);
    let types = resolved(read)->Ok_0.0;
    let fields = resolved(read)->Ok_0.1;
    law_one_routine_for_each_type(read.name, fields, types, verdicts);
    assert forall|i: int| 0 <= i < routines.len() implies {
        &&& (#[trigger] routines[i]).target == decl.name
        &&& routines[i].assignments.len() == decl.fields.len()
        &&& forall|j: int|
            0 <= j < decl.fields.len() ==> decl.fields[j].name == Some(
                (#[trigger] routines[i].assignments[j]).field,
            )
    } by {
        assert(routine_emitted(read.name, fields, types[i], verdicts[i]) == Ok::<
            RoutineModel,
            Failure,
        >(routines[i]));
        law_routine_sets_every_field(read.name, fields, types[i], verdicts[i]);
        assert forall|j: int| 0 <= j < decl.fields.len() implies decl.fields[j].name == Some(
            (#[trigger] routines[i].assignments[j]).field,
        ) by {
            assert(read.fields[j].name == decl.fields[j].name);
        }
    }
}

/// A struct without annotations of this library's name, whose fields all
/// have names and no such annotations either, comes to no routine, whatever
/// the parsers would answer: nothing is asked of them.
pub proof fn law_plain_declaration_gets_no_routine(
    decl: TargetDeclModel,
    read: ReadDeclModel,
    verdicts: Seq<Seq<Verdicts>>,
    result: Result<Seq<RoutineModel>, Failure>,
)
    requires
        decl_fits(read, decl),
        derived(result, read, verdicts),
        decl.shape == Shape::Struct,
        marked(decl.annotations).len() == 0,
        forall|i: int|
            0 <= i < decl.fields.len() ==> (#[trigger] decl.fields[i]).name is Some && marked(
                decl.fields[i].annotations,
            ).len() == 0,
    ensures
        result == Ok::<Seq<RoutineModel>, Failure>(Seq::empty()),
{
    let none = Seq::<Seq<char>>::empty();
    assert(types_named(read.types) == Ok::<Seq<Seq<char>>, Failure>(none));
    let steps = Seq::new(
        read.fields.len(),
        |i: int| field_resolved(read.name, read.fields[i], none),
    );
    assert forall|i: int| 0 <= i < steps.len() implies (#[trigger] steps[i]) is Ok by {
        assert(read.fields[i].name == decl.fields[i].name);
        assert(read.fields[i].blocks.len() == 0);
    }
    if gathered(steps) is Err {
        let first = lemma_gathered_first_failure(steps);
        assert(steps[first] is Ok);
    }
    let fields = resolved(read)->Ok_0.1;
    assert(routines_tried(read.name, fields, none, verdicts) =~= Seq::empty());
}

/// Whether a failure is one that entries give: a key that is not
/// recognised, a value of the wrong kind, an override for an unknown type,
/// or a wrong shape.
pub open spec fn comes_from_entries(failure: Failure) -> bool {
    failure is UnrecognizedDirective || failure is TypeMismatch || failure is UnknownOverrideType
        || failure is StructuralViolation
}

/// Whether an annotation holds the text: as its list, or as its name where
/// it has no list.
pub open spec fn holds_subject(annotation: AnnotationModel, text: Seq<char>) -> bool {
    match annotation.args {
        Some(list) => list == text,
        None => annotation.name == text,
    }
}

/// The entries of an override fail only as entries do.
pub proof fn lemma_settings_fail_as_entries(args: OverrideModel, entries: Seq<EntryModel>)
    requires
        settings_applied(args, entries) is Err,
    ensures
        comes_from_entries(settings_applied(args, entries)->Err_0),
    decreases entries.len(),
{
    if entries.len() > 0 {
        match setting_applied(args, entries[0]) {
            Ok(next) => lemma_settings_fail_as_entries(next, entries.skip(1)),
            Err(_) => {},
        }
    }
}

/// A list of overrides fails only as entries do.
pub proof fn lemma_overrides_fail_as_entries(
    field: FieldModel,
    entries: Seq<EntryModel>,
    types: Seq<Seq<char>>,
)
    requires
        overrides_applied(field, entries, types) is Err,
    ensures
        comes_from_entries(overrides_applied(field, entries, types)->Err_0),
    decreases entries.len(),
{
    if entries.len() > 0 {
        match override_applied(field, entries[0], types) {
            Ok(next) => lemma_overrides_fail_as_entries(next, entries.skip(1), types),
            Err(_) => {
                match entries[0] {
                    EntryModel::Pair(_, ValueModel::List(settings)) => {
                        if settings_applied(OverrideModel::empty(), settings) is Err {
                            lemma_settings_fail_as_entries(OverrideModel::empty(), settings);
                        }
                    },
                    _ => {},
                }
            },
        }
    }
}

/// The entries of an annotation fail only as entries do.
pub proof fn lemma_directives_fail_as_entries(
    field: FieldModel,
    entries: Seq<EntryModel>,
    types: Seq<Seq<char>>,
)
    requires
        directives_applied(field, entries, types) is Err,
    ensures
        comes_from_entries(directives_applied(field, entries, types)->Err_0),
    decreases entries.len(),
{
    if entries.len() > 0 {
        match directive_applied(field, entries[0], types) {
            Ok(next) => lemma_directives_fail_as_entries(next, entries.skip(1), types),
            Err(_) => {
                match entries[0] {
                    EntryModel::Pair(_, ValueModel::List(items)) => {
                        if overrides_applied(field, items, types) is Err {
                            lemma_overrides_fail_as_entries(field, items, types);
                        }
                    },
                    _ => {},
                }
            },
        }
    }
}

/// The blocks of a field fail only as entries do.
pub proof fn lemma_blocks_fail_as_entries(
    field: FieldModel,
    blocks: Seq<BlockModel>,
    types: Seq<Seq<char>>,
)
    requires
        blocks_applied(field, blocks, types) is Err,
    ensures
        comes_from_entries(blocks_applied(field, blocks, types)->Err_0),
    decreases blocks.len(),
{
    if blocks.len() > 0 {
        match block_applied(field, blocks[0], types) {
            Ok(next) => lemma_blocks_fail_as_entries(next, blocks.skip(1), types),
            Err(_) => {
                match blocks[0] {
                    BlockModel::Read(entries) => lemma_directives_fail_as_entries(
                        field,
                        entries,
                        types,
                    ),
                    _ => {},
                }
            },
        }
    }
}

/// The blocks of a target fail only over a block that could not be read,
/// and the failure names what that block holds.
pub proof fn lemma_types_fail_over_a_block(
    types: Seq<Seq<char>>,
    blocks: Seq<TypeBlockModel>,
) -> (at: int)
    requires
        types_gathered(types, blocks) is Err,
    ensures
        0 <= at < blocks.len(),
        types_gathered(types, blocks)->Err_0 is MalformedTypeAnnotation,
        blocks[at] == TypeBlockModel::Unread(types_gathered(types, blocks)->Err_0.subject()),
    decreases blocks.len(),
{
    match types_added(types, blocks[0]) {
        Ok(next) => {
            let at = lemma_types_fail_over_a_block(next, blocks.skip(1));
            assert(blocks.skip(1)[at] == blocks[at + 1]);
            at + 1
        },
        Err(_) => 0,
    }
}

/// Which failures a derivation can come to, whatever was read and whatever
/// the parsers answered.
///
/// A malformed list of types is the list, or the name, of an annotation of
/// this library's name on the target. A malformed expression comes only
/// after the declaration was resolved, from the routines. Every other
/// failure is one that entries give, and comes from resolving.
pub proof fn law_failures_of_a_derivation(
    decl: TargetDeclModel,
    read: ReadDeclModel,
    verdicts: Seq<Seq<Verdicts>>,
    failure: Failure,
)
    requires
        decl_fits(read, decl),
        derived(Err::<Seq<RoutineModel>, Failure>(failure), read, verdicts),
    ensures
        failure is MalformedTypeAnnotation ==> exists|i: int|
            0 <= i < marked(decl.annotations).len() && holds_subject(
                #[trigger] marked(decl.annotations)[i],
                failure.subject(),
            ),
        failure is MalformedExpression <==> resolved(read) is Ok,
        !(failure is MalformedTypeAnnotation) && !(failure is MalformedExpression)
            ==> comes_from_entries(failure),
{
    match resolved(read) {
        Ok((types, fields)) => {
            let steps = routines_tried(read.name, fields, types, verdicts);
            let first = lemma_gathered_first_failure(steps);
            let at = law_routine_fails_over_a_text_in_use(
                read.name,
                fields,
                types[first],
                verdicts[first],
            );
        },
        Err(_) => {
            if types_named(read.types) is Err {
                let at = lemma_types_fail_over_a_block(Seq::empty(), read.types);
                assert(holds_subject(marked(decl.annotations)[at], failure.subject()));
            } else if read.shape == Shape::Struct {
                let types = types_named(read.types)->Ok_0;
                let steps = Seq::new(
                    read.fields.len(),
                    |i: int| field_resolved(read.name, read.fields[i], types),
                );
                let first = lemma_gathered_first_failure(steps);
                if read.fields[first].name is Some {
                    lemma_blocks_fail_as_entries(
                        FieldModel::empty(),
                        read.fields[first].blocks,
                        types,
                    );
                }
            }
        },
    }
}

} // verus!
