use vstd::prelude::*;
use arrow::datatypes::DataType;
use arrow::datatypes::Field;
use arrow::datatypes::Schema;
use arrow::datatypes::SchemaBuilder;
use arrow::datatypes::TimeUnit;
use std::sync::Arc;

verus! {

/// The type of a column's values.
#[derive(Clone, Copy, Debug, PartialEq, Eq, Structural)]
pub enum ColumnKind {
    /// Text.
    Utf8,
    /// A timestamp in whole seconds, without a time zone.
    TimestampSecond,
    /// A list of texts, whose items are named `item`.
    Utf8List { item_nullable: bool },
}

/// A field of a schema: its name, the type of its values, and whether a value
/// may be null.
pub type FieldShape = (Seq<char>, ColumnKind, bool);

/// arrow's `Schema`; what the contracts read of it is [`schema_fields`].
#[verifier::external_type_specification]
#[verifier::external_body]
pub struct ExSchema(Schema);

/// arrow's `SchemaBuilder`; what the contracts read of it is
/// [`schema_builder_fields`].
#[verifier::external_type_specification]
#[verifier::external_body]
pub struct ExSchemaBuilder(SchemaBuilder);

/// The fields of a schema that holds nothing but what a [`FieldShape`] says:
/// fields of the three kinds, and no metadata on the schema, on a field or on
/// the item of a list. `Some` of the fields in their order for such a schema,
/// `None` for every other.
pub uninterp spec fn schema_fields(schema: Schema) -> Option<Seq<FieldShape>>;

/// The same of a schema builder: `Some` of the fields that were pushed, in
/// their order, where the builder holds nothing else.
pub uninterp spec fn schema_builder_fields(builder: SchemaBuilder) -> Option<Seq<FieldShape>>;

/// `SchemaBuilder::new`: the builder it returns holds no field and no metadata.
#[verifier::external_body]
pub(crate) fn schema_builder_new() -> (builder: SchemaBuilder)
    ensures
        schema_builder_fields(builder) == Some(Seq::<FieldShape>::empty()),
{
    SchemaBuilder::new()
}

/// `SchemaBuilder::push` of a `Field::new` with `DataType::Utf8`: a text field
/// of that name, without metadata, is added behind the fields that the
/// builder holds.
#[verifier::external_body]
pub(crate) fn push_utf8_field(builder: &mut SchemaBuilder, name: &str, nullable: bool)
    ensures
        schema_builder_fields(*old(builder)) matches Some(fields) ==> schema_builder_fields(
            *final(builder),
        ) == Some(fields.push((name@, ColumnKind::Utf8, nullable))),
{
    builder.push(Field::new(name, DataType::Utf8, nullable));
}

/// `SchemaBuilder::push` of a `Field::new` with `DataType::Timestamp` in
/// seconds and no time zone: such a field, without metadata, is added behind
/// those that the builder holds.
#[verifier::external_body]
pub(crate) fn push_timestamp_field(builder: &mut SchemaBuilder, name: &str, nullable: bool)
    ensures
        schema_builder_fields(*old(builder)) matches Some(fields) ==> schema_builder_fields(
            *final(builder),
        ) == Some(fields.push((name@, ColumnKind::TimestampSecond, nullable))),
{
    builder.push(Field::new(name, DataType::Timestamp(TimeUnit::Second, None), nullable));
}

/// `SchemaBuilder::push` of a `Field::new` with `DataType::List` over
/// `Field::new_list_field` with `DataType::Utf8`: a field of lists of texts,
/// without metadata on it or on its item, is added behind those that the
/// builder holds.
#[verifier::external_body]
pub(crate) fn push_utf8_list_field(
    builder: &mut SchemaBuilder,
    name: &str,
    item_nullable: bool,
    nullable: bool,
)
    ensures
        schema_builder_fields(*old(builder)) matches Some(fields) ==> schema_builder_fields(
            *final(builder),
        ) == Some(fields.push((name@, (ColumnKind::Utf8List { item_nullable }), nullable))),
{
    let item = Field::new_list_field(DataType::Utf8, item_nullable);
    builder.push(Field::new(name, DataType::List(Arc::new(item)), nullable));
}

/// `SchemaBuilder::finish`: the schema holds what the builder held, its fields
/// in their order and its metadata.
#[verifier::external_body]
pub(crate) fn schema_builder_finish(builder: SchemaBuilder) -> (schema: Schema)
    ensures
        schema_fields(schema) == schema_builder_fields(builder),
{
    builder.finish()
}

/// The nine fields of a commit log, in column order. None may be null; only
/// the items of the parent list are declared nullable.
pub open spec fn commit_log_fields() -> Seq<FieldShape> {
    seq![
        ("commit_hash"@, ColumnKind::Utf8, false),
        ("message"@, ColumnKind::Utf8, false),
        ("author_name"@, ColumnKind::Utf8, false),
        ("author_email"@, ColumnKind::Utf8, false),
        ("author_timestamp"@, ColumnKind::TimestampSecond, false),
        ("committer_name"@, ColumnKind::Utf8, false),
        ("committer_email"@, ColumnKind::Utf8, false),
        ("committer_timestamp"@, ColumnKind::TimestampSecond, false),
        ("parent_hashes"@, (ColumnKind::Utf8List { item_nullable: true }), false),
    ]
}

/// The schema of the output: the same nine fields on every call, and nothing
/// else.
pub fn get_arrow_schema() -> (schema: Schema)
    ensures
        schema_fields(schema) == Some(commit_log_fields()),
{
    let mut builder = schema_builder_new();
    push_utf8_field(&mut builder, "commit_hash", false);
    push_utf8_field(&mut builder, "message", false);
    push_utf8_field(&mut builder, "author_name", false);
    push_utf8_field(&mut builder, "author_email", false);
    push_timestamp_field(&mut builder, "author_timestamp", false);
    push_utf8_field(&mut builder, "committer_name", false);
    push_utf8_field(&mut builder, "committer_email", false);
    push_timestamp_field(&mut builder, "committer_timestamp", false);
    push_utf8_list_field(&mut builder, "parent_hashes", true, false);
    let schema = schema_builder_finish(builder);
    assert(schema_fields(schema).unwrap() =~= commit_log_fields());
    schema
}

} // verus!
