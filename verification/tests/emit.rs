use derive_from_ext::directive::{FieldArgs, FieldOverridesArgs};
use derive_from_ext::emit::{
    emit, emit_field, emit_field_with, emit_routine, Assignment, Routine, TargetField, Verdicts,
};
use derive_from_ext::error::DeriveError;
use derive_from_ext::plan::ConversionPlan;

fn text(value: &str) -> Option<String> {
    Some(value.to_string())
}

fn plain(name: &str) -> TargetField {
    TargetField { name: name.to_string(), args: FieldArgs::new() }
}

fn converted(name: &str) -> Assignment {
    Assignment {
        field: name.to_string(),
        plan: ConversionPlan {
            skip: false,
            method: "core::convert::Into::into".to_string(),
            source_field: name.to_string(),
        },
    }
}

#[test]
fn plain_field_is_assigned_by_conversion() {
    assert_eq!(emit_field(&plain("name"), "A"), Ok(converted("name")));
}

#[test]
fn field_is_checked_as_its_type_sees_it() {
    let mut field = plain("name");
    field.args.map = text("not a path");
    field.args.overrides.push((
        "B".to_string(),
        FieldOverridesArgs { map: text("lowercase"), rename: None, skip: None, default: None },
    ));
    assert_eq!(
        emit_field(&field, "A"),
        Err(DeriveError::MalformedExpression("not a path".to_string()))
    );
    let for_b = emit_field(&field, "B").unwrap();
    assert_eq!(for_b.plan.method, "lowercase");
}

#[test]
fn only_the_texts_in_use_are_checked() {
    let mut field = plain("name");
    field.args.skip = true;
    field.args.map = text("not a path");
    field.args.rename = text("not a name");
    assert!(field.args.check().is_ok());
    assert!(emit_field(&field, "A").unwrap().plan.skip);

    field.args.skip = false;
    field.args.rename = None;
    field.args.map = None;
    field.args.default = text("1 +");
    assert!(field.args.check().is_ok());
}

#[test]
fn default_that_is_no_expression_fails() {
    let mut field = plain("other");
    field.args.skip = true;
    field.args.default = text("1 +");
    assert_eq!(
        emit_field(&field, "A"),
        Err(DeriveError::MalformedExpression("1 +".to_string()))
    );
    field.args.default = text("c\"text\"");
    assert_eq!(
        field.args.check(),
        Err(DeriveError::MalformedExpression("c\"text\"".to_string()))
    );
}

#[test]
fn text_with_too_many_tokens_fails() {
    let long = format!("a{}", " + a".repeat(32));
    let mut field = plain("other");
    field.args.skip = true;
    field.args.default = text(&long);
    assert_eq!(field.args.check(), Err(DeriveError::MalformedExpression(long)));
    let name = "a".repeat(5000);
    field.args.skip = false;
    field.args.rename = text(&name);
    assert_eq!(field.args.check(), Ok(()));
}

fn verdicts(expression: bool, identifier: bool, path: bool) -> Verdicts {
    Verdicts { expression, identifier, path }
}

#[test]
fn skipped_field_goes_by_the_verdict_on_its_default() {
    let mut field = plain("other");
    field.args.skip = true;
    field.args.map = text("f");
    field.args.rename = text("r");
    assert_eq!(field.args.check_with(verdicts(false, false, false)), Ok(()));
    field.args.default = text("d");
    assert_eq!(field.args.check_with(verdicts(true, false, false)), Ok(()));
    assert_eq!(
        field.args.check_with(verdicts(false, true, true)),
        Err(DeriveError::MalformedExpression("d".to_string()))
    );
}

#[test]
fn read_field_goes_by_the_verdicts_on_rename_and_map() {
    let mut field = plain("name");
    field.args.default = text("d");
    assert_eq!(field.args.check_with(verdicts(false, false, false)), Ok(()));
    field.args.map = text("f");
    assert_eq!(field.args.check_with(verdicts(false, false, true)), Ok(()));
    assert_eq!(
        field.args.check_with(verdicts(true, true, false)),
        Err(DeriveError::MalformedExpression("f".to_string()))
    );
    field.args.rename = text("r");
    assert_eq!(field.args.check_with(verdicts(false, true, true)), Ok(()));
    assert_eq!(
        field.args.check_with(verdicts(true, false, true)),
        Err(DeriveError::MalformedExpression("r".to_string()))
    );
    assert_eq!(
        field.args.check_with(verdicts(true, false, false)),
        Err(DeriveError::MalformedExpression("r".to_string()))
    );
    assert_eq!(
        field.args.check_with(verdicts(true, true, false)),
        Err(DeriveError::MalformedExpression("f".to_string()))
    );
}

#[test]
fn parsers_are_asked_about_the_texts_in_use_only() {
    let mut field = plain("name");
    field.args.default = text("1 +");
    field.args.map = text("lowercase");
    field.args.rename = text("not a name");
    assert_eq!(field.args.ask(), verdicts(true, false, true));
    field.args.rename = text("first_name");
    assert_eq!(field.args.ask(), verdicts(true, true, true));
    field.args.map = text("not a path");
    assert_eq!(field.args.ask(), verdicts(true, true, false));
    field.args.skip = true;
    assert_eq!(field.args.ask(), verdicts(false, true, true));
    field.args.default = text("1 + 1");
    assert_eq!(field.args.ask(), verdicts(true, true, true));
}

#[test]
fn field_is_emitted_by_the_verdicts_given() {
    let mut field = plain("name");
    field.args.map = text("anything at all");
    let emitted = emit_field_with(&field, "A", verdicts(true, true, true)).unwrap();
    assert_eq!(emitted.plan.method, "anything at all");
    assert_eq!(
        emit_field_with(&field, "A", verdicts(true, true, false)),
        Err(DeriveError::MalformedExpression("anything at all".to_string()))
    );
    assert_eq!(emit_field_with(&plain("a"), "A", verdicts(false, false, false)), Ok(converted("a")));
}

#[test]
fn rename_that_is_no_identifier_fails_before_map() {
    let mut field = plain("name");
    field.args.rename = text("first name");
    field.args.map = text("not a path");
    assert_eq!(
        field.args.check(),
        Err(DeriveError::MalformedExpression("first name".to_string()))
    );
    field.args.rename = text("first_name");
    assert_eq!(
        field.args.check(),
        Err(DeriveError::MalformedExpression("not a path".to_string()))
    );
    field.args.map = text("lowercase");
    assert_eq!(field.args.check(), Ok(()));
}

#[test]
fn routine_assigns_every_field_in_order() {
    let fields = vec![plain("a"), plain("b"), plain("c")];
    assert_eq!(
        emit_routine("T", &fields, "S"),
        Ok(Routine {
            source_type: "S".to_string(),
            target: "T".to_string(),
            assignments: vec![converted("a"), converted("b"), converted("c")],
        })
    );
}

#[test]
fn routine_without_fields_assigns_nothing() {
    assert_eq!(
        emit_routine("T", &vec![], "S"),
        Ok(Routine { source_type: "S".to_string(), target: "T".to_string(), assignments: vec![] })
    );
}

#[test]
fn routine_fails_as_its_first_failing_field() {
    let mut second = plain("b");
    second.args.map = text("1");
    let mut third = plain("c");
    third.args.map = text("2");
    let fields = vec![plain("a"), second, third];
    assert_eq!(
        emit_routine("T", &fields, "S"),
        Err(DeriveError::MalformedExpression("1".to_string()))
    );
}

#[test]
fn one_routine_for_each_source_type_in_order() {
    let fields = vec![plain("a")];
    let types = vec!["X".to_string(), "Y".to_string(), "Z".to_string()];
    let routines = emit("T", &fields, &types).unwrap();
    assert_eq!(routines.len(), 3);
    assert_eq!(routines[0].source_type, "X");
    assert_eq!(routines[1].source_type, "Y");
    assert_eq!(routines[2].source_type, "Z");
    for routine in &routines {
        assert_eq!(routine.target, "T");
        assert_eq!(routine.assignments, vec![converted("a")]);
    }
}

#[test]
fn no_source_type_gives_no_routine() {
    assert_eq!(emit("T", &vec![plain("a")], &vec![]), Ok(vec![]));
}

#[test]
fn failure_for_one_type_fails_the_whole() {
    let mut field = plain("a");
    field.args.overrides.push((
        "Y".to_string(),
        FieldOverridesArgs { map: text("1"), rename: None, skip: None, default: None },
    ));
    let types = vec!["X".to_string(), "Y".to_string()];
    assert_eq!(
        emit("T", &vec![field], &types),
        Err(DeriveError::MalformedExpression("1".to_string()))
    );
}

fn skipped(name: &str, expression: &str) -> Assignment {
    Assignment {
        field: name.to_string(),
        plan: ConversionPlan {
            skip: true,
            method: expression.to_string(),
            source_field: name.to_string(),
        },
    }
}

#[test]
fn assignment_is_rendered_as_a_call_on_the_source() {
    assert_eq!(
        converted("name").render(),
        "name: core::convert::Into::into\n(obj.name\n)"
    );
    let renamed = Assignment {
        field: "name".to_string(),
        plan: ConversionPlan {
            skip: false,
            method: "lowercase".to_string(),
            source_field: "other_name".to_string(),
        },
    };
    assert_eq!(renamed.render(), "name: lowercase\n(obj.other_name\n)");
}

#[test]
fn skipped_assignment_is_rendered_as_its_expression() {
    assert_eq!(
        skipped("other", "core::default::Default::default()").render(),
        "other: core::default::Default::default()\n"
    );
}

#[test]
fn routine_is_rendered_as_an_impl_of_from() {
    let routine = Routine {
        source_type: "A".to_string(),
        target: "C".to_string(),
        assignments: vec![converted("name"), skipped("other", "String::new()")],
    };
    assert_eq!(
        routine.render(),
        "impl ::std::convert::From<A> for C {\n\
         fn from(obj: A) -> Self {\n\
         Self {\n\
         name: core::convert::Into::into\n\
         (obj.name\n\
         ),\n\
         other: String::new()\n\
         ,\n\
         }\n\
         }\n\
         }\n"
    );
}

#[test]
fn routine_without_assignments_is_rendered_empty() {
    let routine =
        Routine { source_type: "A".to_string(), target: "C".to_string(), assignments: vec![] };
    assert_eq!(
        routine.render(),
        "impl ::std::convert::From<A> for C {\nfn from(obj: A) -> Self {\nSelf {\n}\n}\n}\n"
    );
}

#[test]
fn rendered_routine_is_an_impl_with_every_field() {
    let mut second = plain("other");
    second.args.skip = true;
    second.args.default = text("String::from(\"Something else\") // the rest");
    let mut third = plain("age");
    third.args.map = text("lowercase // through this");
    third.args.rename = text("years // read here");
    let routine = emit_routine("C", &vec![plain("name"), second, third], "other::A").unwrap();
    let parsed = syn::parse_str::<syn::ItemImpl>(&routine.render()).unwrap();
    assert!(parsed.trait_.is_some());
    assert_eq!(parsed.items.len(), 1);
    let body = match &parsed.items[0] {
        syn::ImplItem::Method(method) => &method.block,
        _ => panic!("no method"),
    };
    assert_eq!(body.stmts.len(), 1);
    let built = match &body.stmts[0] {
        syn::Stmt::Expr(syn::Expr::Struct(built)) => built,
        _ => panic!("no struct expression"),
    };
    let fields: Vec<String> = built
        .fields
        .iter()
        .map(|field| match &field.member {
            syn::Member::Named(name) => name.to_string(),
            syn::Member::Unnamed(_) => panic!("unnamed field"),
        })
        .collect();
    assert_eq!(fields, vec!["name", "other", "age"]);
}
