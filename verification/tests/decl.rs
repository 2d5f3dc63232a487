use derive_from_ext::decl::{
    add_types, derive_read, read_blocks, read_decl, read_entries, read_field, read_type_blocks,
    read_types, resolve_field, resolve_fields, source_types, Annotation, Block, FieldDecl,
    ReadDecl, ReadField, Shape, TargetDecl, TypeBlock, MARKER,
};
use derive_from_ext::directive::FieldArgs;
use derive_from_ext::error::DeriveError;
use derive_from_ext::tree::{Entry, Value};

fn note(name: &str, args: Option<&str>) -> Annotation {
    Annotation { name: name.to_string(), args: args.map(|text| text.to_string()) }
}

fn from(args: &str) -> Annotation {
    note("from", Some(args))
}

fn names(types: &[&str]) -> Vec<String> {
    types.iter().map(|name| name.to_string()).collect()
}

fn listed(types: &[&str]) -> TypeBlock {
    TypeBlock::Read(names(types))
}

fn pair(key: &str, value: &str) -> Entry {
    Entry::Pair(key.to_string(), Value::Str(value.to_string()))
}

fn field(name: &str, blocks: Vec<Block>) -> ReadField {
    ReadField { name: Some(name.to_string()), blocks }
}

fn decl(shape: Shape, annotations: Vec<Annotation>, fields: Vec<FieldDecl>) -> TargetDecl {
    TargetDecl { name: "T".to_string(), shape, annotations, fields }
}

fn read(shape: Shape, types: Vec<TypeBlock>, fields: Vec<ReadField>) -> ReadDecl {
    ReadDecl { name: "T".to_string(), shape, types, fields }
}

#[test]
fn marker_is_from() {
    assert_eq!(MARKER, "from");
}

#[test]
fn source_types_come_in_their_order() {
    assert_eq!(source_types(&vec![listed(&["B", "A"])]), Ok(names(&["B", "A"])));
    assert_eq!(add_types(names(&["A"]), &listed(&["B", "C"])), Ok(names(&["A", "B", "C"])));
}

#[test]
fn source_types_of_several_blocks_are_joined() {
    assert_eq!(
        source_types(&vec![listed(&["A"]), listed(&[]), listed(&["B", "C"])]),
        Ok(names(&["A", "B", "C"]))
    );
    assert_eq!(source_types(&vec![]), Ok(vec![]));
}

#[test]
fn unread_block_of_types_is_malformed() {
    assert_eq!(
        source_types(&vec![listed(&["A"]), TypeBlock::Unread("&B".to_string()), listed(&["C"])]),
        Err(DeriveError::MalformedTypeAnnotation("&B".to_string()))
    );
    assert_eq!(
        add_types(vec![], &TypeBlock::Unread("from".to_string())),
        Err(DeriveError::MalformedTypeAnnotation("from".to_string()))
    );
}

#[test]
fn types_are_read_from_an_annotation() {
    assert_eq!(read_types(&from("B, other::A")), listed(&["B", "other::A"]));
    assert_eq!(read_types(&from("A, 1")), TypeBlock::Unread("A, 1".to_string()));
    assert_eq!(read_types(&from("Wrapper<T>")), TypeBlock::Unread("Wrapper<T>".to_string()));
    assert_eq!(read_types(&from("A = (skip)")), TypeBlock::Unread("A = (skip)".to_string()));
    assert_eq!(read_types(&note("from", None)), TypeBlock::Unread("from".to_string()));
}

#[test]
fn entries_are_read_from_an_annotation() {
    assert_eq!(read_entries(&from("map = \"f\"")), Block::Read(vec![pair("map", "f")]));
    assert_eq!(read_entries(&from("map = ")), Block::Unread("map = ".to_string()));
    assert_eq!(read_entries(&from("x = { y }")), Block::Unread("x = { y }".to_string()));
    assert_eq!(read_entries(&note("from", None)), Block::Unread("from".to_string()));
}

#[test]
fn only_annotations_of_the_marker_are_read() {
    let annotations = vec![
        from("A"),
        note("derive", Some("Debug")),
        note("doc", None),
        note("allow", Some("nope = 1, {")),
        from("B, C"),
    ];
    assert_eq!(read_type_blocks(&annotations), vec![listed(&["A"]), listed(&["B", "C"])]);
    let annotations = vec![
        note("allow", Some("dead_code")),
        from("skip"),
        note("deprecated", None),
        note("serde", Some("rename = \"b\"")),
    ];
    assert_eq!(
        read_blocks(&annotations),
        vec![Block::Read(vec![Entry::Bare("skip".to_string())])]
    );
    assert_eq!(read_blocks(&vec![note("allow", Some("unused"))]), vec![]);
}

#[test]
fn declaration_is_read_field_by_field() {
    let written = decl(
        Shape::Struct,
        vec![from("A"), note("derive", Some("Debug"))],
        vec![
            FieldDecl { name: Some("a".to_string()), annotations: vec![from("map = \"f\"")] },
            FieldDecl { name: None, annotations: vec![note("doc", None)] },
        ],
    );
    assert_eq!(
        read_decl(&written),
        read(
            Shape::Struct,
            vec![listed(&["A"])],
            vec![
                field("a", vec![Block::Read(vec![pair("map", "f")])]),
                ReadField { name: None, blocks: vec![] },
            ]
        )
    );
    assert_eq!(
        read_field(&FieldDecl { name: Some("a".to_string()), annotations: vec![] }),
        field("a", vec![])
    );
}

#[test]
fn field_without_blocks_has_no_directives() {
    let resolved = resolve_field("T", &field("a", vec![]), &names(&["A"])).unwrap();
    assert_eq!(resolved.name, "a");
    assert_eq!(resolved.args, FieldArgs::new());
}

#[test]
fn blocks_of_a_field_are_applied_in_a_row() {
    let blocks = vec![
        Block::Read(vec![pair("map", "f"), pair("rename", "r")]),
        Block::Read(vec![]),
        Block::Read(vec![pair("map", "g")]),
    ];
    let resolved = resolve_field("T", &field("a", blocks), &vec![]).unwrap();
    assert_eq!(resolved.args.map, Some("g".to_string()));
    assert_eq!(resolved.args.rename, Some("r".to_string()));
}

#[test]
fn field_without_a_name_has_the_wrong_shape() {
    let unnamed = ReadField { name: None, blocks: vec![Block::Unread("nope".to_string())] };
    assert_eq!(
        resolve_field("T", &unnamed, &vec![]),
        Err(DeriveError::StructuralViolation("T".to_string()))
    );
}

#[test]
fn unread_block_of_a_field_has_the_wrong_shape() {
    let blocks = vec![Block::Read(vec![pair("map", "f")]), Block::Unread("map = ".to_string())];
    assert_eq!(
        resolve_field("T", &field("a", blocks), &vec![]),
        Err(DeriveError::StructuralViolation("map = ".to_string()))
    );
}

#[test]
fn fields_fail_as_the_first_failing_field() {
    let fields = vec![
        field("a", vec![]),
        field("b", vec![Block::Read(vec![Entry::Bare("one".to_string())])]),
        field("c", vec![Block::Read(vec![Entry::Bare("two".to_string())])]),
    ];
    assert_eq!(
        resolve_fields("T", &fields, &vec![]),
        Err(DeriveError::UnrecognizedDirective("one".to_string()))
    );
    assert_eq!(resolve_fields("T", &vec![field("a", vec![])], &vec![]).unwrap().len(), 1);
}

#[test]
fn read_declaration_comes_to_its_types_and_fields() {
    let declared = read(
        Shape::Struct,
        vec![listed(&["A", "B"])],
        vec![field("a", vec![Block::Read(vec![pair("rename", "x")])]), field("b", vec![])],
    );
    let (types, fields) = derive_read(&declared).unwrap();
    assert_eq!(types, names(&["A", "B"]));
    assert_eq!(fields.len(), 2);
    assert_eq!(fields[0].name, "a");
    assert_eq!(fields[0].args.rename, Some("x".to_string()));
    assert_eq!(fields[1].name, "b");
    assert_eq!(fields[1].args, FieldArgs::new());
}

#[test]
fn enum_and_union_have_the_wrong_shape() {
    assert_eq!(
        derive_read(&read(Shape::Enum, vec![listed(&["A"])], vec![])),
        Err(DeriveError::StructuralViolation("T".to_string()))
    );
    assert_eq!(
        derive_read(&read(Shape::Union, vec![], vec![])),
        Err(DeriveError::StructuralViolation("T".to_string()))
    );
    assert_eq!(
        derive_from_ext::derive(&decl(Shape::Enum, vec![from("A")], vec![])),
        Err(DeriveError::StructuralViolation("T".to_string()))
    );
}

#[test]
fn source_types_are_gathered_before_the_shape_is_looked_at() {
    assert_eq!(
        derive_read(&read(Shape::Enum, vec![TypeBlock::Unread("1".to_string())], vec![])),
        Err(DeriveError::MalformedTypeAnnotation("1".to_string()))
    );
    assert_eq!(
        derive_from_ext::derive(&decl(Shape::Enum, vec![from("1")], vec![])),
        Err(DeriveError::MalformedTypeAnnotation("1".to_string()))
    );
}

#[test]
fn shape_is_looked_at_before_the_fields() {
    let fields = vec![ReadField { name: None, blocks: vec![Block::Unread("x".to_string())] }];
    assert_eq!(
        derive_read(&read(Shape::Enum, vec![], fields)),
        Err(DeriveError::StructuralViolation("T".to_string()))
    );
}

#[test]
fn struct_without_fields_gets_empty_routines() {
    let declared = decl(Shape::Struct, vec![from("A, B")], vec![]);
    let routines = derive_from_ext::derive(&declared).unwrap();
    assert_eq!(routines.len(), 2);
    assert!(routines[0].assignments.is_empty());
    assert!(routines[1].assignments.is_empty());
}

#[test]
fn struct_without_source_types_gets_no_routine() {
    let fields = vec![FieldDecl { name: Some("a".to_string()), annotations: vec![] }];
    assert_eq!(derive_from_ext::derive(&decl(Shape::Struct, vec![], fields)), Ok(vec![]));
}

#[test]
fn fields_are_resolved_before_routines_are_written() {
    let fields = vec![
        FieldDecl { name: Some("a".to_string()), annotations: vec![from("map = \"1\"")] },
        FieldDecl { name: Some("b".to_string()), annotations: vec![from("nope")] },
    ];
    assert_eq!(
        derive_from_ext::derive(&decl(Shape::Struct, vec![from("A")], fields)),
        Err(DeriveError::UnrecognizedDirective("nope".to_string()))
    );
}

#[test]
fn malformed_map_fails_the_derivation() {
    let fields =
        vec![FieldDecl { name: Some("a".to_string()), annotations: vec![from("map = \"|x| x\"")] }];
    assert_eq!(
        derive_from_ext::derive(&decl(Shape::Struct, vec![from("A")], fields)),
        Err(DeriveError::MalformedExpression("|x| x".to_string()))
    );
}

#[test]
fn key_decides_where_lists_go_deep() {
    let fields = vec![FieldDecl {
        name: Some("a".to_string()),
        annotations: vec![from("overrides = (A = (overrides = (A = (skip))))")],
    }];
    assert_eq!(
        derive_from_ext::derive(&decl(Shape::Struct, vec![from("A")], fields)),
        Err(DeriveError::UnrecognizedDirective("overrides".to_string()))
    );
    let fields = vec![FieldDecl {
        name: Some("a".to_string()),
        annotations: vec![from("overrides = (A = (rename = (b = (c))))")],
    }];
    assert_eq!(
        derive_from_ext::derive(&decl(Shape::Struct, vec![from("A")], fields)),
        Err(DeriveError::TypeMismatch("rename".to_string()))
    );
}
