//! The declaration of a target: as written, as read, and what its
//! annotations come to.

use crate::directive::{directives_applied, same_text, FieldArgs, FieldModel};
use crate::emit::{TargetField, TargetFieldModel};
use crate::error::{gathered, lemma_gathered_failure, outcome, DeriveError, Failure};
use crate::guard::{read_type_paths, type_paths_lexed};
use crate::reader::TokenModel;
use crate::tree::{list_lexed, parse_list, Entry, EntryModel};
use vstd::prelude::*;
use vstd::string::*;

verus! {

/// The name of the annotations that this library reads. Any other
/// annotation is passed over.
pub const MARKER: &'static str = "from";

/// An annotation: its name, and the text between its parentheses where it
/// has parentheses.
#[derive(Debug, Clone, PartialEq, Eq)]
pub struct Annotation {
    pub name: String,
    pub args: Option<String>,
}

/// A field as declared: its name, where it has one, and its annotations.
#[derive(Debug, Clone, PartialEq, Eq)]
pub struct FieldDecl {
    pub name: Option<String>,
    pub annotations: Vec<Annotation>,
}

/// The kind of type that a declaration declares.
#[derive(Debug, Clone, Copy, PartialEq, Eq, Structural)]
pub enum Shape {
    Struct,
    Enum,
    Union,
}

/// A type as declared: its name, its kind, its annotations and, for a
/// struct, its fields in their order.
#[derive(Debug, Clone, PartialEq, Eq)]
pub struct TargetDecl {
    pub name: String,
    pub shape: Shape,
    pub annotations: Vec<Annotation>,
    pub fields: Vec<FieldDecl>,
}

/// An annotation of this library's name on a target, read.
#[derive(Debug, PartialEq, Eq)]
pub enum TypeBlock {
    /// The source types that it lists.
    Read(Vec<String>),
    /// Nothing: the text that is no list of type paths, or the name of the
    /// annotation where it has no list.
    Unread(String),
}

/// An annotation of this library's name on a field, read.
#[derive(Debug, PartialEq, Eq)]
pub enum Block {
    /// The entries that it lists.
    Read(Vec<Entry>),
    /// Nothing: the text that is no list of entries, or the name of the
    /// annotation where it has no list.
    Unread(String),
}

/// A field as read: its name, where it has one, and those of its annotations
/// that have this library's name.
#[derive(Debug, PartialEq, Eq)]
pub struct ReadField {
    pub name: Option<String>,
    pub blocks: Vec<Block>,
}

/// A type as read: its name, its kind, those of its annotations that have
/// this library's name, and its fields in their order.
#[derive(Debug, PartialEq, Eq)]
pub struct ReadDecl {
    pub name: String,
    pub shape: Shape,
    pub types: Vec<TypeBlock>,
    pub fields: Vec<ReadField>,
}

/// What an [`Annotation`] stands for.
pub struct AnnotationModel {
    pub name: Seq<char>,
    pub args: Option<Seq<char>>,
}

/// What a [`FieldDecl`] stands for.
pub struct FieldDeclModel {
    pub name: Option<Seq<char>>,
    pub annotations: Seq<AnnotationModel>,
}

/// What a [`TargetDecl`] stands for.
pub struct TargetDeclModel {
    pub name: Seq<char>,
    pub shape: Shape,
    pub annotations: Seq<AnnotationModel>,
    pub fields: Seq<FieldDeclModel>,
}

/// What a [`TypeBlock`] stands for.
pub enum TypeBlockModel {
    Read(Seq<Seq<char>>),
    Unread(Seq<char>),
}

/// What a [`Block`] stands for.
pub enum BlockModel {
    Read(Seq<EntryModel>),
    Unread(Seq<char>),
}

/// What a [`ReadField`] stands for.
pub struct ReadFieldModel {
    pub name: Option<Seq<char>>,
    pub blocks: Seq<BlockModel>,
}

/// What a [`ReadDecl`] stands for.
pub struct ReadDeclModel {
    pub name: Seq<char>,
    pub shape: Shape,
    pub types: Seq<TypeBlockModel>,
    pub fields: Seq<ReadFieldModel>,
}

impl DeepView for Annotation {
    type V = AnnotationModel;

    open spec fn deep_view(&self) -> AnnotationModel {
        AnnotationModel { name: self.name@, args: self.args.deep_view() }
    }
}

impl DeepView for FieldDecl {
    type V = FieldDeclModel;

    open spec fn deep_view(&self) -> FieldDeclModel {
        FieldDeclModel { name: self.name.deep_view(), annotations: self.annotations.deep_view() }
    }
}

impl DeepView for TargetDecl {
    type V = TargetDeclModel;

    open spec fn deep_view(&self) -> TargetDeclModel {
        TargetDeclModel {
            name: self.name@,
            shape: self.shape,
            annotations: self.annotations.deep_view(),
            fields: self.fields.deep_view(),
        }
    }
}

impl DeepView for TypeBlock {
    type V = TypeBlockModel;

    open spec fn deep_view(&self) -> TypeBlockModel {
        match self {
            TypeBlock::Read(paths) => TypeBlockModel::Read(paths.deep_view()),
            TypeBlock::Unread(text) => TypeBlockModel::Unread(text@),
        }
    }
}

impl DeepView for Block {
    type V = BlockModel;

    open spec fn deep_view(&self) -> BlockModel {
        match self {
            Block::Read(entries) => BlockModel::Read(entries.deep_view()),
            Block::Unread(text) => BlockModel::Unread(text@),
        }
    }
}

impl DeepView for ReadField {
    type V = ReadFieldModel;

    open spec fn deep_view(&self) -> ReadFieldModel {
        ReadFieldModel { name: self.name.deep_view(), blocks: self.blocks.deep_view() }
    }
}

impl DeepView for ReadDecl {
    type V = ReadDeclModel;

    open spec fn deep_view(&self) -> ReadDeclModel {
        ReadDeclModel {
            name: self.name@,
            shape: self.shape,
            types: self.types.deep_view(),
            fields: self.fields.deep_view(),
        }
    }
}

/// Those of the annotations that have this library's name, in their order.
pub open spec fn marked(annotations: Seq<AnnotationModel>) -> Seq<AnnotationModel>
    decreases annotations.len(),
{
    if annotations.len() == 0 {
        Seq::empty()
    } else if annotations.last().name == MARKER@ {
        marked(annotations.drop_last()).push(annotations.last())
    } else {
        marked(annotations.drop_last())
    }
}

/// The block of source types that a text gives, for what the lexer made of
/// the text: the type paths that were read, or else nothing, and then the
/// block holds the text.
pub open spec fn types_block(text: Seq<char>, lexed: Option<Seq<TokenModel>>) -> TypeBlockModel {
    match type_paths_lexed(lexed) {
        Some(paths) => TypeBlockModel::Read(paths),
        None => TypeBlockModel::Unread(text),
    }
}

/// The block of entries that a text gives, for what the lexer made of the
/// text: the entries that were read, or else nothing, and then the block
/// holds the text.
pub open spec fn entries_block(text: Seq<char>, lexed: Option<Seq<TokenModel>>) -> BlockModel {
    match list_lexed(lexed) {
        Some(entries) => BlockModel::Read(entries),
        None => BlockModel::Unread(text),
    }
}

/// Whether a block of source types is what is read from an annotation:
/// where the annotation has no list, nothing is read and the block holds the
/// annotation's name; where it has one, the block is what its text gives for
/// something that the lexer made of it.
pub open spec fn types_fit(block: TypeBlockModel, annotation: AnnotationModel) -> bool {
    match annotation.args {
        None => block == TypeBlockModel::Unread(annotation.name),
        Some(text) => exists|lexed: Option<Seq<TokenModel>>|
            block == #[trigger] types_block(text, lexed),
    }
}

/// Whether a block of entries is what is read from an annotation, as for
/// [`types_fit`].
pub open spec fn entries_fit(block: BlockModel, annotation: AnnotationModel) -> bool {
    match annotation.args {
        None => block == BlockModel::Unread(annotation.name),
        Some(text) => exists|lexed: Option<Seq<TokenModel>>|
            block == #[trigger] entries_block(text, lexed),
    }
}

/// Whether a field as read can be what was read from a field as declared:
/// it has the same name, and a fitting block for each annotation of this
/// library's name.
pub open spec fn field_fits(read: ReadFieldModel, field: FieldDeclModel) -> bool {
    &&& read.name == field.name
    &&& read.blocks.len() == marked(field.annotations).len()
    &&& forall|i: int|
        0 <= i < read.blocks.len() ==> entries_fit(
            #[trigger] read.blocks[i],
            marked(field.annotations)[i],
        )
}

/// Whether a declaration as read can be what was read from a declaration as
/// written: it has the same name and kind, a fitting block for each
/// annotation of this library's name, and a fitting field for each field.
pub open spec fn decl_fits(read: ReadDeclModel, decl: TargetDeclModel) -> bool {
    &&& read.name == decl.name
    &&& read.shape == decl.shape
    &&& read.types.len() == marked(decl.annotations).len()
    &&& forall|i: int|
        0 <= i < read.types.len() ==> types_fit(
            #[trigger] read.types[i],
            marked(decl.annotations)[i],
        )
    &&& read.fields.len() == decl.fields.len()
    &&& forall|i: int|
        0 <= i < read.fields.len() ==> field_fits(#[trigger] read.fields[i], decl.fields[i])
}

/// The source types after one more block of the target: the paths that it
/// lists are added in their order; a block that could not be read fails, and
/// the failure names what it holds.
pub open spec fn types_added(types: Seq<Seq<char>>, block: TypeBlockModel) -> Result<
    Seq<Seq<char>>,
    Failure,
> {
    match block {
        TypeBlockModel::Read(paths) => Ok(types + paths),
        TypeBlockModel::Unread(text) => Err(Failure::MalformedTypeAnnotation(text)),
    }
}

/// The source types after the blocks of the target, from the first to the
/// last, or the failure of the first block that fails.
pub open spec fn types_gathered(types: Seq<Seq<char>>, blocks: Seq<TypeBlockModel>) -> Result<
    Seq<Seq<char>>,
    Failure,
>
    decreases blocks.len(),
{
    if blocks.len() == 0 {
        Ok(types)
    } else {
        match types_added(types, blocks[0]) {
            Ok(next) => types_gathered(next, blocks.skip(1)),
            Err(failure) => Err(failure),
        }
    }
}

/// The source types that a target names.
pub open spec fn types_named(blocks: Seq<TypeBlockModel>) -> Result<Seq<Seq<char>>, Failure> {
    types_gathered(Seq::empty(), blocks)
}

/// The directives of a field after one more of its blocks: the entries of
/// the block are applied, from the first to the last; a block that could not
/// be read has the wrong shape, and the failure names what it holds.
pub open spec fn block_applied(
    field: FieldModel,
    block: BlockModel,
    types: Seq<Seq<char>>,
) -> Result<FieldModel, Failure> {
    match block {
        BlockModel::Read(entries) => directives_applied(field, entries, types),
        BlockModel::Unread(text) => Err(Failure::StructuralViolation(text)),
    }
}

/// The directives of a field after its blocks, from the first to the last,
/// or the failure of the first block that fails.
pub open spec fn blocks_applied(
    field: FieldModel,
    blocks: Seq<BlockModel>,
    types: Seq<Seq<char>>,
) -> Result<FieldModel, Failure>
    decreases blocks.len(),
{
    if blocks.len() == 0 {
        Ok(field)
    } else {
        match block_applied(field, blocks[0], types) {
            Ok(next) => blocks_applied(next, blocks.skip(1), types),
            Err(failure) => Err(failure),
        }
    }
}

impl ReadFieldModel {
    /// A field of the given name and blocks.
    pub open spec fn named(name: Seq<char>, blocks: Seq<BlockModel>) -> ReadFieldModel {
        ReadFieldModel { name: Some(name), blocks }
    }
}

/// A field as read with what its blocks ask for. A field without a name has
/// the wrong shape; the failure names the target.
pub open spec fn field_resolved(
    target: Seq<char>,
    field: ReadFieldModel,
    types: Seq<Seq<char>>,
) -> Result<TargetFieldModel, Failure> {
    match field.name {
        None => Err(Failure::StructuralViolation(target)),
        Some(name) => match blocks_applied(FieldModel::empty(), field.blocks, types) {
            Ok(args) => Ok(TargetFieldModel { name, args }),
            Err(failure) => Err(failure),
        },
    }
}

/// The fields of a target, each with what its blocks ask for, or the failure
/// of the first field that fails.
pub open spec fn fields_resolved(
    target: Seq<char>,
    fields: Seq<ReadFieldModel>,
    types: Seq<Seq<char>>,
) -> Result<Seq<TargetFieldModel>, Failure> {
    gathered(Seq::new(fields.len(), |i: int| field_resolved(target, fields[i], types)))
}

/// What a declaration as read comes to: its source types and its fields,
/// each with what its blocks ask for.
///
/// The source types are gathered first, then the declaration has to be a
/// struct, then its fields are resolved in their order, each of which has to
/// have a name. The first failure on this way is the failure of the whole.
pub open spec fn resolved(decl: ReadDeclModel) -> Result<
    (Seq<Seq<char>>, Seq<TargetFieldModel>),
    Failure,
> {
    match types_named(decl.types) {
        Err(failure) => Err(failure),
        Ok(types) => if decl.shape != Shape::Struct {
            Err(Failure::StructuralViolation(decl.name))
        } else {
            match fields_resolved(decl.name, decl.fields, types) {
                Err(failure) => Err(failure),
                Ok(fields) => Ok((types, fields)),
            }
        },
    }
}

/// Adds the source types of one block of the target.
pub fn add_types(types: Vec<String>, block: &TypeBlock) -> (r: Result<Vec<String>, DeriveError>)
    ensures
        outcome(r) == types_added(types.deep_view(), block.deep_view()),
{
    match block {
        TypeBlock::Unread(text) => Err(DeriveError::MalformedTypeAnnotation(text.clone())),
        TypeBlock::Read(paths) => {
            let ghost before = types.deep_view();
            let mut types = types;
            let mut i: usize = 0;
            assert(before + paths.deep_view().take(0) =~= before);
            while i < paths.len()
                invariant
                    i <= paths.len(),
                    types.deep_view() == before + paths.deep_view().take(i as int),
                decreases paths.len() - i,
            {
                let ghost so_far = types.deep_view();
                types.push(paths[i].clone());
                assert(types.deep_view() =~= so_far.push(paths[i as int]@));
                assert(paths.deep_view().take(i + 1) =~= paths.deep_view().take(i as int).push(
                    paths[i as int]@,
                ));
                assert(before + paths.deep_view().take(i + 1) =~= (before + paths.deep_view().take(
                    i as int,
                )).push(paths[i as int]@));
                i += 1;
            }
            assert(paths.deep_view().take(i as int) =~= paths.deep_view());
            Ok(types)
        },
    }
}

/// Lists the source types that the blocks of a target name.
pub fn source_types(blocks: &Vec<TypeBlock>) -> (r: Result<Vec<String>, DeriveError>)
    ensures
        outcome(r) == types_named(blocks.deep_view()),
{
    let ghost all = blocks.deep_view();
    let mut types: Vec<String> = Vec::new();
    let mut i: usize = 0;
    assert(all.skip(0) =~= all);
    assert(types.deep_view() =~= Seq::empty());
    while i < blocks.len()
        invariant
            i <= blocks.len(),
            all == blocks.deep_view(),
            types_named(all) == types_gathered(types.deep_view(), all.skip(i as int)),
        decreases blocks.len() - i,
    {
        assert(all.skip(i as int).len() > 0);
        assert(all.skip(i as int)[0] == blocks[i as int].deep_view());
        assert(all.skip(i as int).skip(1) =~= all.skip(i + 1));
        match add_types(types, &blocks[i]) {
            Ok(next) => {
                types = next;
            },
            Err(e) => {
                return Err(e);
            },
        }
        i += 1;
    }
    Ok(types)
}

impl FieldArgs {
    /// Applies one block of a field.
    pub fn apply_block(self, block: &Block, types: &Vec<String>) -> (r: Result<
        FieldArgs,
        DeriveError,
    >)
        ensures
            outcome(r) == block_applied(self.deep_view(), block.deep_view(), types.deep_view()),
    {
        match block {
            Block::Read(entries) => self.apply_all(entries, types),
            Block::Unread(text) => Err(DeriveError::StructuralViolation(text.clone())),
        }
    }
}

/// Works out what the blocks of a field ask for.
pub fn resolve_field(target: &str, field: &ReadField, types: &Vec<String>) -> (r: Result<
    TargetField,
    DeriveError,
>)
    ensures
        outcome(r) == field_resolved(target@, field.deep_view(), types.deep_view()),
{
    let name = match &field.name {
        None => {
            return Err(DeriveError::StructuralViolation(String::from_str(target)));
        },
        Some(name) => name.clone(),
    };
    let ghost all = field.blocks.deep_view();
    let mut args = FieldArgs::new();
    let mut i: usize = 0;
    assert(all.skip(0) =~= all);
    while i < field.blocks.len()
        invariant
            i <= field.blocks.len(),
            all == field.blocks.deep_view(),
            field.deep_view().name == Some(name@),
            blocks_applied(FieldModel::empty(), all, types.deep_view()) == blocks_applied(
                args.deep_view(),
                all.skip(i as int),
                types.deep_view(),
            ),
        decreases field.blocks.len() - i,
    {
        assert(all.skip(i as int).len() > 0);
        assert(all.skip(i as int)[0] == field.blocks[i as int].deep_view());
        assert(all.skip(i as int).skip(1) =~= all.skip(i + 1));
        match args.apply_block(&field.blocks[i], types) {
            Ok(next) => {
                args = next;
            },
            Err(e) => {
                return Err(e);
            },
        }
        i += 1;
    }
    Ok(TargetField { name, args })
}

/// Works out, field by field, what the blocks of a target ask for.
pub fn resolve_fields(target: &str, fields: &Vec<ReadField>, types: &Vec<String>) -> (r: Result<
    Vec<TargetField>,
    DeriveError,
>)
    ensures
        outcome(r) == fields_resolved(target@, fields.deep_view(), types.deep_view()),
{
    let ghost steps = Seq::new(
        fields.deep_view().len(),
        |i: int| field_resolved(target@, fields.deep_view()[i], types.deep_view()),
    );
    let mut resolved: Vec<TargetField> = Vec::new();
    let mut i: usize = 0;
    assert(steps.take(0) =~= Seq::empty());
    assert(resolved.deep_view() =~= Seq::empty());
    while i < fields.len()
        invariant
            i <= fields.len(),
            steps.len() == fields.len(),
            steps == Seq::new(
                fields.deep_view().len(),
                |i: int| field_resolved(target@, fields.deep_view()[i], types.deep_view()),
            ),
            forall|j: int|
                0 <= j < fields.len() ==> #[trigger] steps[j] == field_resolved(
                    target@,
                    fields[j].deep_view(),
                    types.deep_view(),
                ),
            gathered(steps.take(i as int)) == Ok::<Seq<TargetFieldModel>, Failure>(
                resolved.deep_view(),
            ),
        decreases fields.len() - i,
    {
        assert(steps.take(i + 1).drop_last() =~= steps.take(i as int));
        assert(steps.take(i + 1).last() == steps[i as int]);
        match resolve_field(target, &fields[i], types) {
            Ok(field) => {
                let ghost before = resolved.deep_view();
                resolved.push(field);
                assert(resolved.deep_view() =~= before.push(field.deep_view()));
            },
            Err(e) => {
                proof {
                    lemma_gathered_failure(steps, i + 1);
                }
                return Err(e);
            },
        }
        i += 1;
    }
    assert(steps.take(i as int) =~= steps);
    Ok(resolved)
}

/// Works out what a declaration as read comes to: its source types and its
/// fields, each with what its blocks ask for.
pub fn derive_read(decl: &ReadDecl) -> (r: Result<(Vec<String>, Vec<TargetField>), DeriveError>)
    ensures
        outcome(r) == resolved(decl.deep_view()),
{
    let types = match source_types(&decl.types) {
        Ok(types) => types,
        Err(e) => {
            return Err(e);
        },
    };
    match decl.shape {
        Shape::Struct => {},
        _ => {
            return Err(DeriveError::StructuralViolation(decl.name.clone()));
        },
    }
    match resolve_fields(decl.name.as_str(), &decl.fields, &types) {
        Ok(fields) => Ok((types, fields)),
        Err(e) => Err(e),
    }
}

/// Reads the source types of one annotation of a target.
pub fn read_types(annotation: &Annotation) -> (r: TypeBlock)
    ensures
        types_fit(r.deep_view(), annotation.deep_view()),
{
    match &annotation.args {
        None => TypeBlock::Unread(annotation.name.clone()),
        Some(text) => {
            let read = read_type_paths(text.as_str());
            let ghost lexed = choose|lexed: Option<Seq<TokenModel>>|
                read.deep_view() == type_paths_lexed(lexed);
            let block = match read {
                Some(paths) => TypeBlock::Read(paths),
                None => TypeBlock::Unread(text.clone()),
            };
            assert(block.deep_view() == types_block(text@, lexed));
            block
        },
    }
}

/// Reads the entries of one annotation of a field.
pub fn read_entries(annotation: &Annotation) -> (r: Block)
    ensures
        entries_fit(r.deep_view(), annotation.deep_view()),
{
    match &annotation.args {
        None => Block::Unread(annotation.name.clone()),
        Some(text) => {
            let read = parse_list(text.as_str());
            let ghost lexed = choose|lexed: Option<Seq<TokenModel>>|
                read.deep_view() == list_lexed(lexed);
            let block = match read {
                Some(entries) => Block::Read(entries),
                None => Block::Unread(text.clone()),
            };
            assert(block.deep_view() == entries_block(text@, lexed));
            block
        },
    }
}

/// Reads those of the annotations of a target that have this library's name.
pub fn read_type_blocks(annotations: &Vec<Annotation>) -> (r: Vec<TypeBlock>)
    ensures
        r.len() == marked(annotations.deep_view()).len(),
        forall|i: int|
            0 <= i < r.len() ==> types_fit(
                #[trigger] r.deep_view()[i],
                marked(annotations.deep_view())[i],
            ),
{
    let ghost all = annotations.deep_view();
    let mut blocks: Vec<TypeBlock> = Vec::new();
    let mut i: usize = 0;
    assert(all.take(0) =~= Seq::empty());
    while i < annotations.len()
        invariant
            i <= annotations.len(),
            all == annotations.deep_view(),
            blocks.len() == marked(all.take(i as int)).len(),
            forall|j: int|
                0 <= j < blocks.len() ==> types_fit(
                    #[trigger] blocks.deep_view()[j],
                    marked(all.take(i as int))[j],
                ),
        decreases annotations.len() - i,
    {
        assert(all.take(i + 1).drop_last() =~= all.take(i as int));
        assert(all.take(i + 1).last() == annotations[i as int].deep_view());
        if same_text(annotations[i].name.as_str(), MARKER) {
            let block = read_types(&annotations[i]);
            let ghost before = blocks.deep_view();
            blocks.push(block);
            assert(blocks.deep_view() =~= before.push(block.deep_view()));
        }
        i += 1;
    }
    assert(all.take(i as int) =~= all);
    blocks
}

/// Reads those of the annotations of a field that have this library's name.
pub fn read_blocks(annotations: &Vec<Annotation>) -> (r: Vec<Block>)
    ensures
        r.len() == marked(annotations.deep_view()).len(),
        forall|i: int|
            0 <= i < r.len() ==> entries_fit(
                #[trigger] r.deep_view()[i],
                marked(annotations.deep_view())[i],
            ),
{
    let ghost all = annotations.deep_view();
    let mut blocks: Vec<Block> = Vec::new();
    let mut i: usize = 0;
    assert(all.take(0) =~= Seq::empty());
    while i < annotations.len()
        invariant
            i <= annotations.len(),
            all == annotations.deep_view(),
            blocks.len() == marked(all.take(i as int)).len(),
            forall|j: int|
                0 <= j < blocks.len() ==> entries_fit(
                    #[trigger] blocks.deep_view()[j],
                    marked(all.take(i as int))[j],
                ),
        decreases annotations.len() - i,
    {
        assert(all.take(i + 1).drop_last() =~= all.take(i as int));
        assert(all.take(i + 1).last() == annotations[i as int].deep_view());
        if same_text(annotations[i].name.as_str(), MARKER) {
            let block = read_entries(&annotations[i]);
            let ghost before = blocks.deep_view();
            blocks.push(block);
            assert(blocks.deep_view() =~= before.push(block.deep_view()));
        }
        i += 1;
    }
    assert(all.take(i as int) =~= all);
    blocks
}

/// Reads a field as declared.
pub fn read_field(field: &FieldDecl) -> (r: ReadField)
    ensures
        field_fits(r.deep_view(), field.deep_view()),
{
    let name = match &field.name {
        Some(name) => Some(name.clone()),
        None => None,
    };
    ReadField { name, blocks: read_blocks(&field.annotations) }
}

/// Reads a declaration as written: hands the text of each annotation of this
/// library's name to the lexer, and what the lexer makes of it to the
/// parsers. The declaration as read is what the declaration as written
/// gives for something that the lexer made of each text.
pub fn read_decl(decl: &TargetDecl) -> (r: ReadDecl)
    ensures
        decl_fits(r.deep_view(), decl.deep_view()),
{
    let types = read_type_blocks(&decl.annotations);
    let mut fields: Vec<ReadField> = Vec::new();
    let mut i: usize = 0;
    while i < decl.fields.len()
        invariant
            i <= decl.fields.len(),
            fields.len() == i,
            forall|j: int|
                0 <= j < i ==> field_fits(
                    #[trigger] fields.deep_view()[j],
                    decl.fields.deep_view()[j],
                ),
        decreases decl.fields.len() - i,
    {
        let field = read_field(&decl.fields[i]);
        let ghost before = fields.deep_view();
        fields.push(field);
        assert(fields.deep_view() =~= before.push(field.deep_view()));
        i += 1;
    }
    ReadDecl { name: decl.name.clone(), shape: decl.shape, types, fields }
}

} // verus!
