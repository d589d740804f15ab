//! Arrow fields and schemas: what a result column is called, what it holds, and where it stands.
use std::sync::Arc;

use arrow_schema::{DataType, Field, Schema};
use vstd::prelude::*;

verus! {

/// The outside type [`DataType`].
#[verifier::external_type_specification]
#[verifier::external_body]
pub struct ExDataType(DataType);

/// The outside type [`Field`].
#[verifier::external_type_specification]
#[verifier::external_body]
pub struct ExField(Field);

/// The outside type [`Schema`].
#[verifier::external_type_specification]
#[verifier::external_body]
pub struct ExSchema(Schema);

/// What a result column holds.
#[derive(Clone, Copy, Debug, PartialEq, Eq, Structural)]
pub enum ColumnType {
    /// Strings, null where there is no answer.
    Utf8,
    /// Booleans, never null.
    Boolean,
}

/// The Arrow data type of a result column: `DataType::Utf8` or `DataType::Boolean`.
pub uninterp spec fn arrow_type(column_type: ColumnType) -> DataType;

/// The field that `Field::new` makes.
pub uninterp spec fn new_field(name: Seq<char>, data_type: DataType, nullable: bool) -> Field;

/// The name of a field.
pub uninterp spec fn field_name(field: Field) -> Seq<char>;

/// The data type of a field.
pub uninterp spec fn field_type(field: Field) -> DataType;

/// Whether a field admits nulls.
pub uninterp spec fn field_nullable(field: Field) -> bool;

/// The schema that `Schema::new` makes.
pub uninterp spec fn new_schema(fields: Seq<Arc<Field>>) -> Schema;

/// The fields of a schema, in order.
pub uninterp spec fn schema_fields(schema: Schema) -> Seq<Arc<Field>>;

/// The field of a result column: nullable, unqualified, of the column's type.
pub open spec fn result_field(name: Seq<char>, column_type: ColumnType) -> Field {
    new_field(name, arrow_type(column_type), true)
}

/// The data types `DataType::Utf8` and `DataType::Boolean`.
#[verifier::external_body]
pub(crate) fn data_type(column_type: ColumnType) -> (made: DataType)
    ensures
        made == arrow_type(column_type),
{
    match column_type {
        ColumnType::Utf8 => DataType::Utf8,
        ColumnType::Boolean => DataType::Boolean,
    }
}

/// `Field::new`: a field with this name, data type and nullability, and nothing else set.
#[verifier::external_body]
pub(crate) fn make_field(name: &str, data_type: DataType, nullable: bool) -> (field: Field)
    ensures
        field == new_field(name@, data_type, nullable),
        field_name(field) == name@,
        field_type(field) == data_type,
        field_nullable(field) == nullable,
{
    Field::new(name, data_type, nullable)
}

/// `Schema::new`: a schema of these fields and nothing else.
#[verifier::external_body]
pub(crate) fn make_schema(fields: Vec<Arc<Field>>) -> (schema: Schema)
    ensures
        schema == new_schema(fields@),
        schema_fields(schema) == fields@,
{
    Schema::new(fields)
}

/// `Schema::fields`: the fields of a schema, shared.
#[verifier::external_body]
pub(crate) fn fields_of(schema: &Schema) -> (fields: Vec<Arc<Field>>)
    ensures
        fields@ == schema_fields(*schema),
{
    schema.fields().iter().cloned().collect()
}

/// `Arc::clone`: another pointer to the same value.
#[verifier::external_body]
pub(crate) fn share<T>(shared: &Arc<T>) -> (other: Arc<T>)
    ensures
        other == *shared,
{
    Arc::clone(shared)
}

/// Makes the field of a result column.
pub fn make_result_field(name: &str, column_type: ColumnType) -> (field: Field)
    ensures
        field == result_field(name@, column_type),
        field_name(field) == name@,
        field_type(field) == arrow_type(column_type),
        field_nullable(field),
{
    make_field(name, data_type(column_type), true)
}

} // verus!
