//! The routines that fill a target from its source types.

use crate::directive::{FieldArgs, FieldModel};
use crate::error::{
    failure_of, gathered, lemma_gathered_failure, outcome, DeriveError, Failure,
};
use crate::plan::{ConversionPlan, PlanModel, INTO_METHOD};
use crate::guard::{
    callable_path_lexed, expression_lexed, identifier_lexed, is_callable_path_text,
    is_expression_text, is_identifier_text,
};
use crate::reader::TokenModel;
use vstd::prelude::*;
use vstd::string::*;

verus! {

/// A field of the target, with what its annotations ask for.
#[derive(Debug, Clone, PartialEq, Eq)]
pub struct TargetField {
    pub name: String,
    pub args: FieldArgs,
}

/// How one field of the target is set.
#[derive(Debug, Clone, PartialEq, Eq)]
pub struct Assignment {
    pub field: String,
    pub plan: ConversionPlan,
}

/// The routine that builds the target from one source type: it sets every
/// field of the target, in the order of their declaration.
#[derive(Debug, Clone, PartialEq, Eq)]
pub struct Routine {
    pub source_type: String,
    pub target: String,
    pub assignments: Vec<Assignment>,
}

/// What a [`TargetField`] stands for.
pub struct TargetFieldModel {
    pub name: Seq<char>,
    pub args: FieldModel,
}

/// What an [`Assignment`] stands for.
pub struct AssignmentModel {
    pub field: Seq<char>,
    pub plan: PlanModel,
}

/// What a [`Routine`] stands for.
pub struct RoutineModel {
    pub source_type: Seq<char>,
    pub target: Seq<char>,
    pub assignments: Seq<AssignmentModel>,
}

impl DeepView for TargetField {
    type V = TargetFieldModel;

    open spec fn deep_view(&self) -> TargetFieldModel {
        TargetFieldModel { name: self.name@, args: self.args.deep_view() }
    }
}

impl DeepView for Assignment {
    type V = AssignmentModel;

    open spec fn deep_view(&self) -> AssignmentModel {
        AssignmentModel { field: self.field@, plan: self.plan.deep_view() }
    }
}

impl DeepView for Routine {
    type V = RoutineModel;

    open spec fn deep_view(&self) -> RoutineModel {
        RoutineModel {
            source_type: self.source_type@,
            target: self.target@,
            assignments: self.assignments.deep_view(),
        }
    }
}

/// What the parsers answered when asked about the texts that a field uses:
/// whether its `default` is an expression, whether its `rename` is an
/// identifier, whether its `map` is a path to a function.
#[derive(Debug, Clone, Copy, PartialEq, Eq, Structural)]
pub struct Verdicts {
    pub expression: bool,
    pub identifier: bool,
    pub path: bool,
}

/// What the lexer made of the texts that a field uses: of its `default`, of
/// its `rename` and of its `map`.
pub ghost struct Lexed {
    pub default: Option<Seq<TokenModel>>,
    pub rename: Option<Seq<TokenModel>>,
    pub map: Option<Seq<TokenModel>>,
}

impl Lexed {
    /// The lexer found no tokens in any text.
    pub open spec fn nothing() -> Lexed {
        Lexed { default: None, rename: None, map: None }
    }
}

impl FieldModel {
    /// What the parsers answer about the texts that the field uses, for what
    /// the lexer made of each. A text that is not in use is not asked about,
    /// and counts as fine: `default` where the field is read, `rename` and
    /// `map` where it is skipped, and `map` where `rename` is no identifier.
    pub open spec fn verdicts(self, lexed: Lexed) -> Verdicts {
        let expression = self.default is None || !self.skip || expression_lexed(lexed.default);
        let identifier = self.rename is None || self.skip || identifier_lexed(lexed.rename);
        let path = self.map is None || self.skip || !identifier || callable_path_lexed(lexed.map);
        Verdicts { expression, identifier, path }
    }

    /// Whether the answers are what the parsers answer for something that
    /// the lexer made of the texts.
    pub open spec fn may_answer(self, verdicts: Verdicts) -> bool {
        exists|lexed: Lexed| verdicts == #[trigger] self.verdicts(lexed)
    }

    /// The text that keeps the field from being set as `self` asks, if there
    /// is one, given what the parsers answered. Only the texts that the
    /// field's plan uses count, and only those that an annotation gave: for
    /// a skipped field its `default`, which has to be an expression; for any
    /// other its `rename`, which has to be an identifier, and then its `map`,
    /// which has to be a path to a function.
    pub open spec fn checked(self, verdicts: Verdicts) -> Option<Failure> {
        if self.skip {
            match self.default {
                Some(expression) if !verdicts.expression => Some(
                    Failure::MalformedExpression(expression),
                ),
                _ => None,
            }
        } else {
            match self.rename {
                Some(name) if !verdicts.identifier => Some(Failure::MalformedExpression(name)),
                _ => match self.map {
                    Some(function) if !verdicts.path => Some(
                        Failure::MalformedExpression(function),
                    ),
                    _ => None,
                },
            }
        }
    }
}

impl TargetFieldModel {
    /// A field of the given name without directives.
    pub open spec fn plain(name: Seq<char>) -> TargetFieldModel {
        TargetFieldModel { name, args: FieldModel::empty() }
    }
}

impl AssignmentModel {
    /// The assignment that reads the field of the same name in the source
    /// and converts what it holds into the field's type.
    pub open spec fn converted(name: Seq<char>) -> AssignmentModel {
        AssignmentModel {
            field: name,
            plan: PlanModel { skip: false, method: INTO_METHOD@, source_field: name },
        }
    }
}

/// How a field is set from one source type, given what the parsers answered:
/// by the plan for what holds of the field for that type, unless a text of
/// that plan fails.
pub open spec fn field_emitted(
    field: TargetFieldModel,
    source_type: Seq<char>,
    verdicts: Verdicts,
) -> Result<AssignmentModel, Failure> {
    let held = field.args.for_type(source_type);
    match held.checked(verdicts) {
        Some(failure) => Err(failure),
        None => Ok(AssignmentModel { field: field.name, plan: held.plan(field.name) }),
    }
}

/// How each field is set from one source type, given what the parsers
/// answered for each.
pub open spec fn fields_emitted(
    fields: Seq<TargetFieldModel>,
    source_type: Seq<char>,
    verdicts: Seq<Verdicts>,
) -> Seq<Result<AssignmentModel, Failure>> {
    Seq::new(fields.len(), |i: int| field_emitted(fields[i], source_type, verdicts[i]))
}

/// The routine that builds the target from one source type, given what the
/// parsers answered for each field: an assignment for each field, in their
/// order, or the failure of the first field that fails.
pub open spec fn routine_emitted(
    target: Seq<char>,
    fields: Seq<TargetFieldModel>,
    source_type: Seq<char>,
    verdicts: Seq<Verdicts>,
) -> Result<RoutineModel, Failure> {
    match gathered(fields_emitted(fields, source_type, verdicts)) {
        Err(failure) => Err(failure),
        Ok(assignments) => Ok(RoutineModel { source_type, target, assignments }),
    }
}

/// A routine for each of the first source types, given what the parsers
/// answered for each field and type.
pub open spec fn routines_tried(
    target: Seq<char>,
    fields: Seq<TargetFieldModel>,
    types: Seq<Seq<char>>,
    verdicts: Seq<Seq<Verdicts>>,
) -> Seq<Result<RoutineModel, Failure>> {
    Seq::new(types.len(), |i: int| routine_emitted(target, fields, types[i], verdicts[i]))
}

/// A routine for each source type, in their order, given what the parsers
/// answered for each field and type, or the failure of the first routine
/// that fails.
pub open spec fn routines_emitted(
    target: Seq<char>,
    fields: Seq<TargetFieldModel>,
    types: Seq<Seq<char>>,
    verdicts: Seq<Seq<Verdicts>>,
) -> Result<Seq<RoutineModel>, Failure> {
    gathered(routines_tried(target, fields, types, verdicts))
}

/// Whether a result is what a field comes to for the answers, and the
/// answers are what the parsers answer for something that the lexer made of
/// the texts in use.
pub open spec fn field_fits(
    result: Result<AssignmentModel, Failure>,
    field: TargetFieldModel,
    source_type: Seq<char>,
    verdicts: Verdicts,
) -> bool {
    result == field_emitted(field, source_type, verdicts) && field.args.for_type(
        source_type,
    ).may_answer(verdicts)
}

/// Whether there is an answer for each field, and each is what the parsers
/// answer for something that the lexer made of the texts that the field uses
/// for the source type.
pub open spec fn answers_fit(
    fields: Seq<TargetFieldModel>,
    source_type: Seq<char>,
    verdicts: Seq<Verdicts>,
) -> bool {
    verdicts.len() == fields.len() && forall|i: int|
        0 <= i < fields.len() ==> (#[trigger] fields[i]).args.for_type(source_type).may_answer(
            verdicts[i],
        )
}

/// The answers for the fields where the lexer finds no tokens in any text.
pub open spec fn no_answers(fields: Seq<TargetFieldModel>, source_type: Seq<char>) -> Seq<
    Verdicts,
> {
    Seq::new(
        fields.len(),
        |i: int| fields[i].args.for_type(source_type).verdicts(Lexed::nothing()),
    )
}

/// Whether a result is what a routine comes to for answers that fit.
pub open spec fn routine_fits(
    result: Result<RoutineModel, Failure>,
    target: Seq<char>,
    fields: Seq<TargetFieldModel>,
    source_type: Seq<char>,
    verdicts: Seq<Verdicts>,
) -> bool {
    answers_fit(fields, source_type, verdicts) && result == routine_emitted(
        target,
        fields,
        source_type,
        verdicts,
    )
}

/// Whether a result is what the routines come to for answers that fit, for
/// each source type.
pub open spec fn routines_fit(
    result: Result<Seq<RoutineModel>, Failure>,
    target: Seq<char>,
    fields: Seq<TargetFieldModel>,
    types: Seq<Seq<char>>,
    verdicts: Seq<Seq<Verdicts>>,
) -> bool {
    &&& verdicts.len() == types.len()
    &&& forall|i: int|
        0 <= i < types.len() ==> answers_fit(fields, #[trigger] types[i], verdicts[i])
    &&& result == routines_emitted(target, fields, types, verdicts)
}

impl FieldArgs {
    /// Looks for a text that keeps the field from being set as `self` asks,
    /// given what the parsers answered.
    pub fn check_with(&self, verdicts: Verdicts) -> (r: Result<(), DeriveError>)
        ensures
            failure_of(r) == self.deep_view().checked(verdicts),
    {
        if self.skip {
            match &self.default {
                Some(expression) => {
                    if verdicts.expression {
                        Ok(())
                    } else {
                        Err(DeriveError::MalformedExpression(expression.clone()))
                    }
                },
                None => Ok(()),
            }
        } else {
            match &self.rename {
                Some(name) => {
                    if !verdicts.identifier {
                        return Err(DeriveError::MalformedExpression(name.clone()));
                    }
                },
                None => {},
            }
            match &self.map {
                Some(function) => {
                    if verdicts.path {
                        Ok(())
                    } else {
                        Err(DeriveError::MalformedExpression(function.clone()))
                    }
                },
                None => Ok(()),
            }
        }
    }

    /// Asks the parsers about the texts that the field uses: hands its
    /// `default`, its `rename` and its `map` to the lexer, each where it is
    /// in use, and what the lexer makes of it to the parser.
    pub fn ask(&self) -> (r: Verdicts)
        ensures
            self.deep_view().may_answer(r),
    {
        let ghost mut lexed = Lexed::nothing();
        let expression = match &self.default {
            Some(text) => {
                if self.skip {
                    let found = is_expression_text(text.as_str());
                    proof {
                        let made = choose|made: Option<Seq<TokenModel>>|
                            found == expression_lexed(made);
                        lexed = Lexed { default: made, ..lexed };
                    }
                    found
                } else {
                    true
                }
            },
            None => true,
        };
        let identifier = match &self.rename {
            Some(text) => {
                if self.skip {
                    true
                } else {
                    let found = is_identifier_text(text.as_str());
                    proof {
                        let made = choose|made: Option<Seq<TokenModel>>|
                            found == identifier_lexed(made);
                        lexed = Lexed { rename: made, ..lexed };
                    }
                    found
                }
            },
            None => true,
        };
        let path = match &self.map {
            Some(text) => {
                if self.skip || !identifier {
                    true
                } else {
                    let found = is_callable_path_text(text.as_str());
                    proof {
                        let made = choose|made: Option<Seq<TokenModel>>|
                            found == callable_path_lexed(made);
                        lexed = Lexed { map: made, ..lexed };
                    }
                    found
                }
            },
            None => true,
        };
        let verdicts = Verdicts { expression, identifier, path };
        assert(verdicts == self.deep_view().verdicts(lexed));
        verdicts
    }

    /// Looks for a text that keeps the field from being set as `self` asks:
    /// asks the parsers, and goes by what they answer.
    pub fn check(&self) -> (r: Result<(), DeriveError>)
        ensures
            exists|verdicts: Verdicts|
                self.deep_view().may_answer(verdicts) && failure_of(r)
                    == #[trigger] self.deep_view().checked(verdicts),
    {
        let verdicts = self.ask();
        self.check_with(verdicts)
    }
}

/// Says how a field is set from one source type, given what the parsers
/// answered.
pub fn emit_field_with(field: &TargetField, source_type: &str, verdicts: Verdicts) -> (r: Result<
    Assignment,
    DeriveError,
>)
    ensures
        outcome(r) == field_emitted(field.deep_view(), source_type@, verdicts),
{
    let held = field.args.for_type(source_type);
    match held.check_with(verdicts) {
        Ok(()) => Ok(
            Assignment { field: field.name.clone(), plan: held.plan(field.name.as_str()) },
        ),
        Err(e) => Err(e),
    }
}

/// Says how a field is set from one source type: asks the parsers about the
/// texts in use, and goes by what they answer.
pub fn emit_field(field: &TargetField, source_type: &str) -> (r: Result<Assignment, DeriveError>)
    ensures
        exists|verdicts: Verdicts| #[trigger]
            field_fits(outcome(r), field.deep_view(), source_type@, verdicts),
{
    let verdicts = field.args.for_type(source_type).ask();
    let r = emit_field_with(field, source_type, verdicts);
    assert(field_fits(outcome(r), field.deep_view(), source_type@, verdicts));
    r
}

/// Writes the routine that builds the target from one source type: asks the
/// parsers about the texts in use, field by field, and goes by what they
/// answer.
pub fn emit_routine(target: &str, fields: &Vec<TargetField>, source_type: &str) -> (r: Result<
    Routine,
    DeriveError,
>)
    ensures
        exists|verdicts: Seq<Verdicts>| #[trigger]
            routine_fits(outcome(r), target@, fields.deep_view(), source_type@, verdicts),
{
    let ghost all = fields.deep_view();
    let ghost mut verdicts: Seq<Verdicts> = Seq::empty();
    let mut assignments: Vec<Assignment> = Vec::new();
    let mut i: usize = 0;
    assert(fields_emitted(all.take(0), source_type@, verdicts) =~= Seq::empty());
    assert(assignments.deep_view() =~= Seq::empty());
    while i < fields.len()
        invariant
            i <= fields.len(),
            all == fields.deep_view(),
            verdicts.len() == i,
            forall|j: int|
                0 <= j < i ==> (#[trigger] all[j]).args.for_type(source_type@).may_answer(
                    verdicts[j],
                ),
            gathered(fields_emitted(all.take(i as int), source_type@, verdicts)) == Ok::<
                Seq<AssignmentModel>,
                Failure,
            >(assignments.deep_view()),
        decreases fields.len() - i,
    {
        let result = emit_field(&fields[i], source_type);
        let ghost verdict = choose|verdict: Verdicts|
            field_fits(outcome(result), fields[i as int].deep_view(), source_type@, verdict);
        let ghost next = verdicts.push(verdict);
        assert(fields_emitted(all.take(i + 1), source_type@, next).drop_last() =~= fields_emitted(
            all.take(i as int),
            source_type@,
            verdicts,
        ));
        assert(fields_emitted(all.take(i + 1), source_type@, next).last() == outcome(result));
        match result {
            Ok(assignment) => {
                let ghost before = assignments.deep_view();
                assignments.push(assignment);
                assert(assignments.deep_view() =~= before.push(assignment.deep_view()));
                proof {
                    verdicts = next;
                }
            },
            Err(e) => {
                proof {
                    let rest = no_answers(all, source_type@).skip(i + 1);
                    let whole = next + rest;
                    assert forall|j: int| 0 <= j < all.len() implies (
                    #[trigger] all[j]).args.for_type(source_type@).may_answer(whole[j]) by {
                        if j > i {
                            assert(whole[j] == all[j].args.for_type(source_type@).verdicts(
                                Lexed::nothing(),
                            ));
                        }
                    }
                    let steps = fields_emitted(all, source_type@, whole);
                    assert(steps.take(i + 1) =~= fields_emitted(
                        all.take(i + 1),
                        source_type@,
                        next,
                    ));
                    lemma_gathered_failure(steps, i + 1);
                    assert(routine_fits(
                        Err::<RoutineModel, Failure>(e.deep_view()),
                        target@,
                        all,
                        source_type@,
                        whole,
                    ));
                }
                return Err(e);
            },
        }
        i += 1;
    }
    assert(all.take(i as int) =~= all);
    let routine = Routine {
        source_type: String::from_str(source_type),
        target: String::from_str(target),
        assignments,
    };
    assert(routine_fits(
        Ok::<RoutineModel, Failure>(routine.deep_view()),
        target@,
        all,
        source_type@,
        verdicts,
    ));
    Ok(routine)
}

/// Writes a routine for each source type, asking the parsers on the way.
pub fn emit(target: &str, fields: &Vec<TargetField>, types: &Vec<String>) -> (r: Result<
    Vec<Routine>,
    DeriveError,
>)
    ensures
        exists|verdicts: Seq<Seq<Verdicts>>| #[trigger]
            routines_fit(outcome(r), target@, fields.deep_view(), types.deep_view(), verdicts),
{
    let ghost all = types.deep_view();
    let ghost these = fields.deep_view();
    let ghost mut verdicts: Seq<Seq<Verdicts>> = Seq::empty();
    let mut routines: Vec<Routine> = Vec::new();
    let mut i: usize = 0;
    assert(routines_tried(target@, these, all.take(0), verdicts) =~= Seq::empty());
    assert(routines.deep_view() =~= Seq::empty());
    while i < types.len()
        invariant
            i <= types.len(),
            all == types.deep_view(),
            these == fields.deep_view(),
            verdicts.len() == i,
            forall|k: int| 0 <= k < i ==> answers_fit(these, #[trigger] all[k], verdicts[k]),
            gathered(routines_tried(target@, these, all.take(i as int), verdicts)) == Ok::<
                Seq<RoutineModel>,
                Failure,
            >(routines.deep_view()),
        decreases types.len() - i,
    {
        let result = emit_routine(target, fields, types[i].as_str());
        let ghost verdict = choose|verdict: Seq<Verdicts>|
            routine_fits(outcome(result), target@, these, types[i as int]@, verdict);
        let ghost next = verdicts.push(verdict);
        assert(routines_tried(target@, these, all.take(i + 1), next).drop_last() =~= routines_tried(
            target@,
            these,
            all.take(i as int),
            verdicts,
        ));
        assert(routines_tried(target@, these, all.take(i + 1), next).last() == outcome(result));
        match result {
            Ok(routine) => {
                let ghost before = routines.deep_view();
                routines.push(routine);
                assert(routines.deep_view() =~= before.push(routine.deep_view()));
                proof {
                    verdicts = next;
                }
            },
            Err(e) => {
                proof {
                    let rest = Seq::new(
                        (types.len() - i - 1) as nat,
                        |k: int| no_answers(these, all[i + 1 + k]),
                    );
                    let whole = next + rest;
                    assert forall|k: int| 0 <= k < all.len() implies answers_fit(
                        these,
                        #[trigger] all[k],
                        whole[k],
                    ) by {
                        if k > i {
                            assert(whole[k] == no_answers(these, all[k]));
                            assert forall|j: int| 0 <= j < these.len() implies (
                            #[trigger] these[j]).args.for_type(all[k]).may_answer(whole[k][j]) by {
                                assert(whole[k][j] == these[j].args.for_type(all[k]).verdicts(
                                    Lexed::nothing(),
                                ));
                            }
                        }
                    }
                    let steps = routines_tried(target@, these, all, whole);
                    assert(steps.take(i + 1) =~= routines_tried(
                        target@,
                        these,
                        all.take(i + 1),
                        next,
                    ));
                    lemma_gathered_failure(steps, i + 1);
                    assert(routines_fit(
                        Err::<Seq<RoutineModel>, Failure>(e.deep_view()),
                        target@,
                        these,
                        all,
                        whole,
                    ));
                }
                return Err(e);
            },
        }
        i += 1;
    }
    assert(all.take(i as int) =~= all);
    assert(routines_fit(
        Ok::<Seq<RoutineModel>, Failure>(routines.deep_view()),
        target@,
        these,
        all,
        verdicts,
    ));
    Ok(routines)
}

impl AssignmentModel {
    /// The assignment as code: the field, a colon, and the expression of a
    /// skipped field, or the call of the function on the field that is read
    /// in `obj`. A text from an annotation is followed by a line break, so
    /// that a comment at its end takes nothing with it.
    pub open spec fn rendered(self) -> Seq<char> {
        if self.plan.skip {
            self.field + ": "@ + self.plan.method + "\n"@
        } else {
            self.field + ": "@ + self.plan.method + "\n(obj."@ + self.plan.source_field + "\n)"@
        }
    }
}

/// The assignments as code, each followed by a comma and a line break.
pub open spec fn assignments_rendered(assignments: Seq<AssignmentModel>) -> Seq<char>
    decreases assignments.len(),
{
    if assignments.len() == 0 {
        Seq::empty()
    } else {
        assignments_rendered(assignments.drop_last()) + assignments.last().rendered() + ",\n"@
    }
}

impl RoutineModel {
    /// The routine as code: an `impl` of `From` of the source type for the
    /// target, whose `from` takes the source as `obj` and builds the target
    /// from the assignments.
    pub open spec fn rendered(self) -> Seq<char> {
        "impl ::std::convert::From<"@ + self.source_type + "> for "@ + self.target
            + " {\nfn from(obj: "@ + self.source_type + ") -> Self {\nSelf {\n"@
            + assignments_rendered(self.assignments) + "}\n}\n}\n"@
    }
}

impl Assignment {
    /// Writes the assignment as code.
    pub fn render(&self) -> (r: String)
        ensures
            r@ == self.deep_view().rendered(),
    {
        let mut code = self.field.clone();
        code.append(": ");
        code.append(self.plan.method.as_str());
        if self.plan.skip {
            code.append("\n");
        } else {
            code.append("\n(obj.");
            code.append(self.plan.source_field.as_str());
            code.append("\n)");
        }
        code
    }
}

impl Routine {
    /// Writes the routine as code.
    pub fn render(&self) -> (r: String)
        ensures
            r@ == self.deep_view().rendered(),
    {
        let ghost all = self.assignments.deep_view();
        let mut body = String::new();
        let mut i: usize = 0;
        assert(all.take(0) =~= Seq::empty());
        while i < self.assignments.len()
            invariant
                i <= self.assignments.len(),
                all == self.assignments.deep_view(),
                body@ == assignments_rendered(all.take(i as int)),
            decreases self.assignments.len() - i,
        {
            assert(all.take(i + 1).drop_last() =~= all.take(i as int));
            assert(all.take(i + 1).last() == self.assignments[i as int].deep_view());
            let line = self.assignments[i].render();
            body.append(line.as_str());
            body.append(",\n");
            i += 1;
        }
        assert(all.take(i as int) =~= all);
        let mut code = String::from_str("impl ::std::convert::From<");
        code.append(self.source_type.as_str());
        code.append("> for ");
        code.append(self.target.as_str());
        code.append(" {\nfn from(obj: ");
        code.append(self.source_type.as_str());
        code.append(") -> Self {\nSelf {\n");
        code.append(body.as_str());
        code.append("}\n}\n}\n");
        code
    }
}

} // verus!
