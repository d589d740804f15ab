//! Arrow columns and record batches as the processor sees them.
//!
//! A column travels as a [`ColumnarValue`] that holds an array. What the processor can read of
//! one is either a sequence of optional strings or a sequence of optional booleans; every other
//! array is carried through untouched.
use std::sync::Arc;

use arrow_array::builder::{ArrayBuilder, BooleanBuilder, StringBuilder};
use arrow_array::{Array, BooleanArray, RecordBatch, StringArray};
use arrow_schema::{ArrowError, DataType, Field, Schema};
use datafusion::error::DataFusionError;
use datafusion::logical_expr::ColumnarValue;
use vstd::prelude::*;
use vstd::utf8::encode_utf8;

use crate::schema::{
    arrow_type, field_nullable, field_type, new_schema, schema_fields, ColumnType,
};

verus! {

/// The outside type [`ColumnarValue`]: an array, or a scalar that stands for one.
#[verifier::external_type_specification]
#[verifier::external_body]
pub struct ExColumnarValue(ColumnarValue);

/// The outside type [`BooleanArray`].
#[verifier::external_type_specification]
#[verifier::external_body]
pub struct ExBooleanArray(BooleanArray);

/// The outside type [`BooleanBuilder`].
#[verifier::external_type_specification]
#[verifier::external_body]
pub struct ExBooleanBuilder(BooleanBuilder);

/// The outside type [`ArrowError`].
#[verifier::external_type_specification]
#[verifier::external_body]
pub struct ExArrowError(ArrowError);

/// The outside type [`DataFusionError`].
#[verifier::external_type_specification]
#[verifier::external_body]
pub struct ExDataFusionError(DataFusionError);

/// An Arrow `StringArray`. Its type takes parameters bounded by traits of Arrow, so it is held
/// here in a field of its own.
#[verifier::external_body]
pub struct Utf8Array {
    array: StringArray,
}

/// An Arrow `StringBuilder`, held in a field for the same reason as [`Utf8Array`].
#[verifier::external_body]
pub struct Utf8Builder {
    builder: StringBuilder,
}

/// An Arrow `RecordBatch`. `RecordBatch` indexes into trait objects, so it is held here in a
/// field; the field is public so that callers can hand a batch in and take one out.
#[verifier::external_body]
pub struct Batch {
    pub batch: RecordBatch,
}

/// The values of a string array, null slots as `None`.
pub uninterp spec fn utf8_cells(array: Utf8Array) -> Seq<Option<Seq<char>>>;

/// The values of a boolean array, null slots as `None`.
pub uninterp spec fn boolean_cells(array: BooleanArray) -> Seq<Option<bool>>;

/// The values appended so far to a string builder.
pub uninterp spec fn utf8_pending(builder: Utf8Builder) -> Seq<Option<Seq<char>>>;

/// The values appended so far to a boolean builder.
pub uninterp spec fn boolean_pending(builder: BooleanBuilder) -> Seq<Option<bool>>;

/// The number of slots of the array in a columnar value, `None` for a scalar.
pub uninterp spec fn array_len(column: ColumnarValue) -> Option<nat>;

/// The values of a columnar value that holds a `StringArray`, `None` for every other.
pub uninterp spec fn utf8_values(column: ColumnarValue) -> Option<Seq<Option<Seq<char>>>>;

/// The values of a columnar value that holds a `BooleanArray`, `None` for every other.
pub uninterp spec fn boolean_values(column: ColumnarValue) -> Option<Seq<Option<bool>>>;

/// The data type of the array in a columnar value.
pub uninterp spec fn array_type(column: ColumnarValue) -> DataType;

/// The number of null slots that the array in a columnar value reports.
pub uninterp spec fn array_null_count(column: ColumnarValue) -> nat;

/// What comes of repeating a scalar into an array.
pub enum Expansion {
    /// The array.
    Made(ColumnarValue),
    /// An error.
    Refused(DataFusionError),
    /// Neither: the call panics, as on strings too long together for 32-bit offsets.
    Unreturned,
}

/// What `ScalarValue::to_array_of_size` makes of a scalar columnar value.
pub uninterp spec fn scalar_expansion(column: ColumnarValue, num_rows: usize) -> Expansion;

/// The string, or null, of a columnar value that holds a `ScalarValue::Utf8`, `None` for every
/// other.
pub uninterp spec fn string_scalar(column: ColumnarValue) -> Option<Option<Seq<char>>>;

/// The boolean, or null, of a columnar value that holds a `ScalarValue::Boolean`, `None` for every
/// other.
pub uninterp spec fn boolean_scalar(column: ColumnarValue) -> Option<Option<bool>>;

/// Whether the data type of a scalar columnar value is nested, as `DataType::is_nested` tells: a
/// list, a struct, a map, a union, or a dictionary of such.
pub uninterp spec fn nested_scalar(column: ColumnarValue) -> bool;

/// The record batch that `RecordBatch::try_new` makes of a schema and columns, or why it makes
/// none.
pub uninterp spec fn new_batch(schema: Schema, columns: Seq<ColumnarValue>) -> Result<
    Batch,
    ArrowError,
>;

/// The columns of a record batch.
pub uninterp spec fn batch_columns(batch: Batch) -> Seq<ColumnarValue>;

/// The schema of a record batch.
pub uninterp spec fn batch_schema(batch: Batch) -> Schema;

/// The number of rows of a record batch.
pub uninterp spec fn batch_rows(batch: Batch) -> usize;

/// The fields of a record batch's schema.
pub open spec fn batch_fields(batch: Batch) -> Seq<Arc<Field>> {
    schema_fields(batch_schema(batch))
}

/// The number of bytes that the non-null strings take in UTF-8.
pub open spec fn utf8_bytes(cells: Seq<Option<Seq<char>>>) -> nat
    decreases cells.len(),
{
    if cells.len() == 0 {
        0
    } else {
        utf8_bytes(cells.drop_last()) + (match cells.last() {
            Some(text) => encode_utf8(text).len(),
            None => 0,
        })
    }
}

/// The same slot over and over.
pub open spec fn repeated<T>(slot: T, num_rows: usize) -> Seq<T> {
    Seq::new(num_rows as nat, |i: int| slot)
}

/// The number of null slots among so many that are all alike.
pub open spec fn nulls_among<T>(slot: Option<T>, num_rows: usize) -> nat {
    if slot is None {
        num_rows as nat
    } else {
        0
    }
}

/// Whether an array holds a string, or null, in each of `num_rows` slots.
pub open spec fn repeats_string(
    text: Option<Seq<char>>,
    num_rows: usize,
    array: ColumnarValue,
) -> bool {
    &&& array_len(array) == Some(num_rows as nat)
    &&& array_type(array) == arrow_type(ColumnType::Utf8)
    &&& array_null_count(array) == nulls_among(text, num_rows)
    &&& utf8_values(array) == Some(repeated(text, num_rows))
}

/// Whether an array holds a boolean, or null, in each of `num_rows` slots.
pub open spec fn repeats_boolean(value: Option<bool>, num_rows: usize, array: ColumnarValue) -> bool {
    &&& array_len(array) == Some(num_rows as nat)
    &&& array_type(array) == arrow_type(ColumnType::Boolean)
    &&& array_null_count(array) == nulls_among(value, num_rows)
    &&& boolean_values(array) == Some(repeated(value, num_rows))
}

/// Whether a columnar value becomes this array for a batch of `num_rows` rows: the array itself,
/// or a scalar in every slot. Of a nested scalar the length stays open.
pub open spec fn becomes(column: ColumnarValue, num_rows: usize, array: ColumnarValue) -> bool {
    if array_len(column) is Some {
        array == column
    } else if let Some(text) = string_scalar(column) {
        repeats_string(text, num_rows, array)
    } else if let Some(value) = boolean_scalar(column) {
        repeats_boolean(value, num_rows, array)
    } else {
        &&& scalar_expansion(column, num_rows) == Expansion::Made(array)
        &&& !nested_scalar(column) ==> array_len(array) == Some(num_rows as nat)
    }
}

/// Whether a columnar value is a scalar that is refused as a column with this error. Strings and
/// booleans never are. Of a nested scalar the error itself stays open.
pub open spec fn refuses(column: ColumnarValue, num_rows: usize, error: DataFusionError) -> bool {
    &&& array_len(column) is None
    &&& string_scalar(column) is None
    &&& boolean_scalar(column) is None
    &&& scalar_expansion(column, num_rows) matches Expansion::Refused(reason) && (!nested_scalar(
        column,
    ) ==> error == reason)
}

/// Whether making a columnar value into an array of `num_rows` slots returns: of an array it does,
/// of a string where its repetitions fit 32-bit offsets, of a boolean, and of any other scalar
/// where its expansion does. A string or a boolean also needs room for its slots in memory.
pub open spec fn expands(column: ColumnarValue, num_rows: usize) -> bool {
    ||| array_len(column) is Some
    ||| string_scalar(column) matches Some(text) && num_rows <= isize::MAX / 8 && utf8_bytes(
        repeated(text, num_rows),
    ) <= i32::MAX
    ||| boolean_scalar(column) is Some && num_rows <= isize::MAX / 8
    ||| !(scalar_expansion(column, num_rows) is Unreturned)
}

/// Whether an array may stand in a record batch under a field.
pub open spec fn column_fits(column: ColumnarValue, field: Field) -> bool {
    &&& array_type(column) == field_type(field)
    &&& field_nullable(field) || array_null_count(column) == 0
}

/// Whether fields and columns have the shape of a record batch, types aside: at least one column,
/// one field for each, every column of the same length and without nulls where its field admits
/// none.
pub open spec fn batch_shaped(fields: Seq<Arc<Field>>, columns: Seq<ColumnarValue>) -> bool {
    &&& columns.len() > 0
    &&& fields.len() == columns.len()
    &&& forall|i: int|
        0 <= i < columns.len() ==> {
            &&& array_len(#[trigger] columns[i]) == array_len(columns[0])
            &&& field_nullable(*fields[i]) || array_null_count(columns[i]) == 0
        }
}

/// Whether fields and columns make no record batch and this is why. Where a column's type alone is
/// wrong, the error prints both types, with any metadata of theirs in any order: it stays open.
pub open spec fn batch_fails(
    fields: Seq<Arc<Field>>,
    columns: Seq<ColumnarValue>,
    error: ArrowError,
) -> bool {
    &&& !valid_batch(fields, columns)
    &&& !batch_shaped(fields, columns) ==> new_batch(new_schema(fields), columns) == Err::<
        Batch,
        _,
    >(error)
}

/// Whether fields and columns together make a record batch: at least one column, one field for
/// each, every column of the same length and fit for its field.
pub open spec fn valid_batch(fields: Seq<Arc<Field>>, columns: Seq<ColumnarValue>) -> bool {
    &&& columns.len() > 0
    &&& fields.len() == columns.len()
    &&& forall|i: int|
        0 <= i < columns.len() ==> {
            &&& array_len(#[trigger] columns[i]) == array_len(columns[0])
            &&& column_fits(columns[i], *fields[i])
        }
}

/// `Array::len` on the array of a columnar value: the number of its slots. A scalar has none.
#[verifier::external_body]
pub(crate) fn column_len(column: &ColumnarValue) -> (len: Option<usize>)
    ensures
        len is Some <==> array_len(*column) is Some,
        len is Some ==> array_len(*column) == Some(len->Some_0 as nat),
{
    match column {
        ColumnarValue::Array(array) => Some(array.len()),
        ColumnarValue::Scalar(_) => None,
    }
}

/// `Any::downcast_ref::<StringArray>` on the array of a columnar value: an array comes back
/// exactly when the column holds a `StringArray`, with that array's values.
#[verifier::external_body]
pub(crate) fn as_string_array(column: &ColumnarValue) -> (array: Option<Utf8Array>)
    ensures
        array is Some <==> utf8_values(*column) is Some,
        array matches Some(strings) ==> {
            &&& utf8_values(*column) == Some(utf8_cells(strings))
            &&& array_len(*column) == Some(utf8_cells(strings).len())
        },
{
    match column {
        ColumnarValue::Array(array) => array.as_any().downcast_ref::<StringArray>().map(
            |strings| Utf8Array { array: strings.clone() },
        ),
        ColumnarValue::Scalar(_) => None,
    }
}

/// `Any::downcast_ref::<BooleanArray>` on the array of a columnar value: an array comes back
/// exactly when the column holds a `BooleanArray`, with that array's values.
#[verifier::external_body]
pub(crate) fn as_boolean_array(column: &ColumnarValue) -> (array: Option<BooleanArray>)
    ensures
        array is Some <==> boolean_values(*column) is Some,
        array matches Some(booleans) ==> {
            &&& boolean_values(*column) == Some(boolean_cells(booleans))
            &&& array_len(*column) == Some(boolean_cells(booleans).len())
        },
{
    match column {
        ColumnarValue::Array(array) => array.as_any().downcast_ref::<BooleanArray>().cloned(),
        ColumnarValue::Scalar(_) => None,
    }
}

impl Utf8Array {
    /// `Array::is_null` on a `StringArray`: whether the slot is null. It panics past the end of
    /// an array that has nulls.
    #[verifier::external_body]
    pub(crate) fn is_null(&self, row: usize) -> (null: bool)
        requires
            row < utf8_cells(*self).len(),
        ensures
            null == (utf8_cells(*self)[row as int] is None),
    {
        self.array.is_null(row)
    }

    /// `StringArray::value`: the string in a slot, copied. Of a null slot nothing is said. It
    /// panics past the end of the array.
    #[verifier::external_body]
    pub(crate) fn value(&self, row: usize) -> (text: String)
        requires
            row < utf8_cells(*self).len(),
        ensures
            utf8_cells(*self)[row as int] matches Some(cell) ==> text@ == cell,
    {
        self.array.value(row).to_string()
    }
}

/// `Array::is_null` on a `BooleanArray`: whether the slot is null. It panics past the end of an
/// array that has nulls.
#[verifier::external_body]
pub(crate) fn boolean_is_null(array: &BooleanArray, row: usize) -> (null: bool)
    requires
        row < boolean_cells(*array).len(),
    ensures
        null == (boolean_cells(*array)[row as int] is None),
{
    array.is_null(row)
}

/// `BooleanArray::value`: the boolean in a slot. Of a null slot nothing is said. It panics past
/// the end of the array.
#[verifier::external_body]
pub(crate) fn boolean_value(array: &BooleanArray, row: usize) -> (value: bool)
    requires
        row < boolean_cells(*array).len(),
    ensures
        boolean_cells(*array)[row as int] matches Some(cell) ==> value == cell,
{
    array.value(row)
}

/// `ColumnarValue::into_array`: an array is handed back as it is. A string or a boolean comes back
/// as an array that holds it, or null, in each of `num_rows` slots. Any other scalar is repeated
/// or refused, which depends on the scalar and the number of rows alone; what the array holds is
/// not stated. It has `num_rows` slots, and the error too depends on those two alone, unless the
/// scalar is nested: a list scalar may hold any number of lists, and the error of a nested one may
/// print metadata in any order.
#[verifier::external_body]
pub(crate) fn into_array(column: ColumnarValue, num_rows: usize) -> (array: Result<
    ColumnarValue,
    DataFusionError,
>)
    requires
        expands(column, num_rows),
    ensures
        array is Ok ==> array_len(array->Ok_0) is Some,
        array_len(column) is Some ==> array is Ok && array->Ok_0 == column,
        array_len(column) is None && string_scalar(column) is Some ==> array is Ok
            && repeats_string(string_scalar(column)->Some_0, num_rows, array->Ok_0),
        array_len(column) is None && string_scalar(column) is None && boolean_scalar(column) is Some
            ==> array is Ok && repeats_boolean(
            boolean_scalar(column)->Some_0,
            num_rows,
            array->Ok_0,
        ),
        array_len(column) is None && string_scalar(column) is None && boolean_scalar(column) is None
            && array is Ok ==> scalar_expansion(column, num_rows) == Expansion::Made(array->Ok_0),
        array_len(column) is None && string_scalar(column) is None && boolean_scalar(column) is None
            && array is Ok && !nested_scalar(column) ==> array_len(array->Ok_0) == Some(
            num_rows as nat,
        ),
        array_len(column) is None && string_scalar(column) is None && boolean_scalar(column) is None
            && array is Err ==> scalar_expansion(column, num_rows) is Refused,
        array_len(column) is None && string_scalar(column) is None && boolean_scalar(column) is None
            && array is Err && !nested_scalar(column) ==> scalar_expansion(column, num_rows)
            == Expansion::Refused(array->Err_0),
{
    column.into_array(num_rows).map(ColumnarValue::Array)
}

impl Utf8Builder {
    /// `StringBuilder::new`: a builder with nothing appended.
    #[verifier::external_body]
    pub(crate) fn new() -> (builder: Self)
        ensures
            utf8_pending(builder) == Seq::<Option<Seq<char>>>::empty(),
    {
        Utf8Builder { builder: StringBuilder::new() }
    }

    /// `StringBuilder::append_value`: appends a string. It panics where the strings together
    /// would take more bytes than an `i32` offset can reach.
    #[verifier::external_body]
    pub(crate) fn append_value(&mut self, text: &str)
        requires
            utf8_bytes(utf8_pending(*old(self)).push(Some(text@))) <= i32::MAX,
        ensures
            utf8_pending(*final(self)) == utf8_pending(*old(self)).push(Some(text@)),
    {
        self.builder.append_value(text)
    }

    /// `StringBuilder::append_null`: appends a null slot.
    #[verifier::external_body]
    pub(crate) fn append_null(&mut self)
        ensures
            utf8_pending(*final(self)) == utf8_pending(*old(self)).push(None),
    {
        self.builder.append_null()
    }

    /// `StringBuilder::finish`: a `StringArray` of everything appended, of data type `Utf8`; the
    /// builder is empty again.
    #[verifier::external_body]
    pub(crate) fn finish(&mut self) -> (array: ColumnarValue)
        ensures
            utf8_values(array) == Some(utf8_pending(*old(self))),
            array_len(array) == Some(utf8_pending(*old(self)).len()),
            array_type(array) == arrow_type(ColumnType::Utf8),
            utf8_pending(*final(self)) == Seq::<Option<Seq<char>>>::empty(),
    {
        ArrayBuilder::finish(&mut self.builder).into()
    }
}

/// `BooleanBuilder::new`: a builder with nothing appended.
#[verifier::external_body]
pub(crate) fn boolean_builder() -> (builder: BooleanBuilder)
    ensures
        boolean_pending(builder) == Seq::<Option<bool>>::empty(),
{
    BooleanBuilder::new()
}

/// `BooleanBuilder::append_value`: appends a boolean.
#[verifier::external_body]
pub(crate) fn append_boolean(builder: &mut BooleanBuilder, value: bool)
    ensures
        boolean_pending(*final(builder)) == boolean_pending(*old(builder)).push(Some(value)),
{
    builder.append_value(value)
}

/// `BooleanBuilder::finish`: a `BooleanArray` of everything appended, of data type `Boolean` and
/// without nulls where no null was appended; the builder is empty again.
#[verifier::external_body]
pub(crate) fn finish_booleans(builder: &mut BooleanBuilder) -> (array: ColumnarValue)
    ensures
        boolean_values(array) == Some(boolean_pending(*old(builder))),
        array_len(array) == Some(boolean_pending(*old(builder)).len()),
        array_type(array) == arrow_type(ColumnType::Boolean),
        (forall|i: int|
            0 <= i < boolean_pending(*old(builder)).len() ==> #[trigger] boolean_pending(
                *old(builder),
            )[i] is Some) ==> array_null_count(array) == 0,
        boolean_pending(*final(builder)) == Seq::<Option<bool>>::empty(),
{
    ArrayBuilder::finish(builder).into()
}

impl Batch {
    /// `RecordBatch::num_rows`.
    #[verifier::external_body]
    pub(crate) fn num_rows(&self) -> (rows: usize)
        ensures
            rows == batch_rows(*self),
    {
        self.batch.num_rows()
    }

    /// `RecordBatch::columns`: the columns, each an array with a slot for every row.
    #[verifier::external_body]
    pub(crate) fn columns(&self) -> (columns: Vec<ColumnarValue>)
        ensures
            columns@ == batch_columns(*self),
            columns@.len() == batch_fields(*self).len(),
            forall|i: int|
                0 <= i < columns@.len() ==> array_len(#[trigger] columns@[i]) == Some(
                    batch_rows(*self) as nat,
                ),
    {
        self.batch.columns().iter().cloned().map(ColumnarValue::Array).collect()
    }

    /// `RecordBatch::schema`.
    #[verifier::external_body]
    pub(crate) fn schema(&self) -> (schema: Arc<Schema>)
        ensures
            *schema == batch_schema(*self),
    {
        self.batch.schema()
    }

    /// `RecordBatch::try_new`: a batch of exactly this schema and these columns, made exactly when
    /// they fit together. The error depends on them alone, unless nothing but a column's type is
    /// wrong: then it prints both types, with any metadata of theirs in any order.
    #[verifier::external_body]
    pub(crate) fn try_new(schema: Arc<Schema>, columns: Vec<ColumnarValue>) -> (batch: Result<
        Batch,
        ArrowError,
    >)
        requires
            forall|i: int| 0 <= i < columns@.len() ==> array_len(#[trigger] columns@[i]) is Some,
        ensures
            batch is Ok <==> valid_batch(schema_fields(*schema), columns@),
            batch is Ok ==> batch == new_batch(*schema, columns@),
            batch is Err && !batch_shaped(schema_fields(*schema), columns@) ==> batch == new_batch(
                *schema,
                columns@,
            ),
            batch matches Ok(made) ==> {
                &&& batch_schema(made) == *schema
                &&& batch_columns(made) == columns@
                &&& array_len(columns@[0]) == Some(batch_rows(made) as nat)
            },
    {
        let arrays: Result<Vec<_>, _> =
            columns.into_iter().map(|column| column.into_array(0)).collect();
        RecordBatch::try_new(schema, arrays?).map(|batch| Batch { batch })
    }
}

} // verus!
