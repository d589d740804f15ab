//! Evaluating physical expressions over batches.
//!
//! An expression is of any type `E`; how it is evaluated and described comes in as functions.
use std::sync::Arc;

use arrow_schema::{ArrowError, DataType, Field, Schema};
use datafusion::error::DataFusionError;
use datafusion::logical_expr::ColumnarValue;
use vstd::prelude::*;

use crate::columns::{
    array_len, batch_columns, batch_fails, batch_fields, batch_rows, batch_schema, becomes, expands,
    into_array, refuses, valid_batch, Batch,
};
use crate::schema::{make_field, make_schema, new_field, new_schema};

verus! {

/// What an expression says of its result over a schema.
pub struct ExprField {
    pub name: String,
    pub data_type: DataType,
    pub nullable: bool,
}

/// Why a batch was not made.
pub enum ProcessError {
    /// An expression failed.
    Expression(DataFusionError),
    /// The columns do not make a record batch.
    Batch(ArrowError),
}

/// Whether evaluating an expression over a batch may give this array.
pub open spec fn evaluates<E, F: Fn(&E, &Batch) -> Result<ColumnarValue, DataFusionError>>(
    eval: F,
    expr: E,
    batch: Batch,
    array: ColumnarValue,
) -> bool {
    exists|value: ColumnarValue|
        {
            &&& #[trigger] eval.ensures((&expr, &batch), Ok(value))
            &&& becomes(value, batch_rows(batch), array)
        }
}

/// Whether evaluating an expression over a batch may fail with this error: the evaluation gives
/// it, or gives a scalar that is refused as a column.
pub open spec fn fails<E, F: Fn(&E, &Batch) -> Result<ColumnarValue, DataFusionError>>(
    eval: F,
    expr: E,
    batch: Batch,
    error: DataFusionError,
) -> bool {
    ||| eval.ensures((&expr, &batch), Err(error))
    ||| exists|value: ColumnarValue|
        {
            &&& #[trigger] eval.ensures((&expr, &batch), Ok(value))
            &&& refuses(value, batch_rows(batch), error)
        }
}

/// Whether a field says what an expression may say of its result over a schema.
pub open spec fn describes<E, G: Fn(&E, &Schema) -> Result<ExprField, DataFusionError>>(
    describe: G,
    expr: E,
    schema: Schema,
    field: Field,
) -> bool {
    exists|described: ExprField|
        {
            &&& #[trigger] describe.ensures((&expr, &schema), Ok(described))
            &&& field == new_field(described.name@, described.data_type, described.nullable)
        }
}

/// Whether an expression can be evaluated over a batch, and what it gives there can be made into
/// an array.
pub open spec fn expands_on<E, F: Fn(&E, &Batch) -> Result<ColumnarValue, DataFusionError>>(
    eval: F,
    expr: E,
    batch: Batch,
) -> bool {
    &&& eval.requires((&expr, &batch))
    &&& forall|value: ColumnarValue| #[trigger]
        eval.ensures((&expr, &batch), Ok(value)) ==> expands(value, batch_rows(batch))
}

/// Whether each of some expressions can be evaluated over a batch.
pub open spec fn exprs_expand_on<E, F: Fn(&E, &Batch) -> Result<ColumnarValue, DataFusionError>>(
    eval: F,
    exprs: Seq<E>,
    batch: Batch,
) -> bool {
    forall|i: int| 0 <= i < exprs.len() ==> expands_on(eval, #[trigger] exprs[i], batch)
}

/// Whether each of some expressions can be described over a schema.
pub open spec fn exprs_describable<E, G: Fn(&E, &Schema) -> Result<ExprField, DataFusionError>>(
    describe: G,
    exprs: Seq<E>,
    schema: Schema,
) -> bool {
    forall|i: int|
        0 <= i < exprs.len() ==> #[trigger] describe.requires((&exprs[i], &schema))
}

/// Evaluates an expression over a batch and makes its result an array of the batch's length.
pub fn evaluate<E, F: Fn(&E, &Batch) -> Result<ColumnarValue, DataFusionError>>(
    eval: &F,
    expr: &E,
    batch: &Batch,
) -> (array: Result<ColumnarValue, DataFusionError>)
    requires
        expands_on(*eval, *expr, *batch),
    ensures
        match array {
            Ok(made) => evaluates(*eval, *expr, *batch, made) && array_len(made) is Some,
            Err(error) => fails(*eval, *expr, *batch, error),
        },
{
    match eval(expr, batch) {
        Ok(value) => into_array(value, batch.num_rows()),
        Err(error) => Err(error),
    }
}

/// Whether evaluating expressions over a batch may give these arrays.
pub open spec fn exprs_evaluate<E, F: Fn(&E, &Batch) -> Result<ColumnarValue, DataFusionError>>(
    eval: F,
    exprs: Seq<E>,
    batch: Batch,
    columns: Seq<ColumnarValue>,
) -> bool {
    &&& columns.len() == exprs.len()
    &&& forall|i: int|
        0 <= i < exprs.len() ==> evaluates(eval, exprs[i], batch, #[trigger] columns[i])
}

/// Whether fields say what expressions may say of their results over a schema.
pub open spec fn exprs_describe<E, G: Fn(&E, &Schema) -> Result<ExprField, DataFusionError>>(
    describe: G,
    exprs: Seq<E>,
    schema: Schema,
    fields: Seq<Arc<Field>>,
) -> bool {
    &&& fields.len() == exprs.len()
    &&& forall|i: int|
        0 <= i < exprs.len() ==> describes(describe, exprs[i], schema, *(#[trigger] fields[i]))
}

/// Whether evaluating expressions over a batch may fail with this error, at the first one that
/// fails.
pub open spec fn exprs_fail_to_evaluate<
    E,
    F: Fn(&E, &Batch) -> Result<ColumnarValue, DataFusionError>,
>(eval: F, exprs: Seq<E>, batch: Batch, error: DataFusionError) -> bool {
    exists|i: int, before: Seq<ColumnarValue>|
        {
            &&& 0 <= i < exprs.len()
            &&& #[trigger] exprs_evaluate(eval, exprs.take(i), batch, before)
            &&& fails(eval, exprs[i], batch, error)
        }
}

/// Whether describing expressions over a schema may fail with this error, at the first one that
/// fails.
pub open spec fn exprs_fail_to_describe<
    E,
    G: Fn(&E, &Schema) -> Result<ExprField, DataFusionError>,
>(describe: G, exprs: Seq<E>, schema: Schema, error: DataFusionError) -> bool {
    exists|i: int, before: Seq<Arc<Field>>|
        {
            &&& 0 <= i < exprs.len()
            &&& #[trigger] exprs_describe(describe, exprs.take(i), schema, before)
            &&& describe.ensures((&exprs[i], &schema), Err(error))
        }
}

/// Whether a batch is what a projection may give: a column for each expression under the field
/// that describes it.
pub open spec fn projects<
    E,
    F: Fn(&E, &Batch) -> Result<ColumnarValue, DataFusionError>,
    G: Fn(&E, &Schema) -> Result<ExprField, DataFusionError>,
>(
    eval: F,
    describe: G,
    exprs: Seq<E>,
    batch: Batch,
    fields: Seq<Arc<Field>>,
    columns: Seq<ColumnarValue>,
) -> bool {
    &&& exprs_evaluate(eval, exprs, batch, columns)
    &&& exprs_describe(describe, exprs, batch_schema(batch), fields)
}

/// Whether the columns of a projection may make no record batch, with this error.
pub open spec fn projecting_fails<
    E,
    F: Fn(&E, &Batch) -> Result<ColumnarValue, DataFusionError>,
    G: Fn(&E, &Schema) -> Result<ExprField, DataFusionError>,
>(eval: F, describe: G, exprs: Seq<E>, batch: Batch, error: ArrowError) -> bool {
    exists|fields: Seq<Arc<Field>>, columns: Seq<ColumnarValue>|
        {
            &&& projects(eval, describe, exprs, batch, fields, columns)
            &&& #[trigger] batch_fails(fields, columns, error)
        }
}

/// What a projection may give: the batch, or one of the errors with its reason.
pub open spec fn projection_gives<
    E,
    F: Fn(&E, &Batch) -> Result<ColumnarValue, DataFusionError>,
    G: Fn(&E, &Schema) -> Result<ExprField, DataFusionError>,
>(
    eval: F,
    describe: G,
    exprs: Seq<E>,
    batch: Batch,
    projected: Result<Batch, ProcessError>,
) -> bool {
    match projected {
        Ok(made) => {
            &&& projects(eval, describe, exprs, batch, batch_fields(made), batch_columns(made))
            &&& batch_schema(made) == new_schema(batch_fields(made))
            &&& valid_batch(batch_fields(made), batch_columns(made))
            &&& forall|i: int|
                0 <= i < exprs.len() ==> array_len(#[trigger] batch_columns(made)[i]) == Some(
                    batch_rows(made) as nat,
                )
        },
        Err(ProcessError::Expression(error)) => {
            ||| exprs_fail_to_evaluate(eval, exprs, batch, error)
            ||| {
                &&& exists|columns: Seq<ColumnarValue>|
                    exprs_evaluate(eval, exprs, batch, columns)
                &&& exprs_fail_to_describe(describe, exprs, batch_schema(batch), error)
            }
        },
        Err(ProcessError::Batch(error)) => projecting_fails(
            eval,
            describe,
            exprs,
            batch,
            error,
        ),
    }
}

/// Evaluates expressions over a batch into a new batch, each under the field that it describes.
/// All are evaluated before any is described.
pub fn project<
    E,
    F: Fn(&E, &Batch) -> Result<ColumnarValue, DataFusionError>,
    G: Fn(&E, &Schema) -> Result<ExprField, DataFusionError>,
>(exprs: &Vec<E>, batch: &Batch, eval: &F, describe: &G) -> (projected: Result<
    Batch,
    ProcessError,
>)
    requires
        exprs_expand_on(*eval, exprs@, *batch),
        exprs_describable(*describe, exprs@, batch_schema(*batch)),
    ensures
        projection_gives(*eval, *describe, exprs@, *batch, projected),
{
    let mut columns: Vec<ColumnarValue> = Vec::with_capacity(exprs.len());
    for i in 0..exprs.len()
        invariant
            exprs_expand_on(*eval, exprs@, *batch),
            exprs_evaluate(*eval, exprs@.take(i as int), *batch, columns@),
            forall|j: int| 0 <= j < i ==> array_len(#[trigger] columns@[j]) is Some,
    {
        match evaluate(eval, &exprs[i], batch) {
            Ok(array) => columns.push(array),
            Err(error) => {
                assert(fails(*eval, exprs@[i as int], *batch, error));
                return Err(ProcessError::Expression(error));
            },
        }
    }
    assert(exprs@.take(exprs@.len() as int) =~= exprs@);
    assert(exprs_evaluate(*eval, exprs@, *batch, columns@));
    let schema = batch.schema();
    let mut fields: Vec<Arc<Field>> = Vec::with_capacity(exprs.len());
    for i in 0..exprs.len()
        invariant
            exprs_describable(*describe, exprs@, batch_schema(*batch)),
            *schema == batch_schema(*batch),
            exprs_evaluate(*eval, exprs@, *batch, columns@),
            exprs_describe(*describe, exprs@.take(i as int), *schema, fields@),
    {
        match describe(&exprs[i], &schema) {
            Ok(described) => {
                let field = make_field(
                    described.name.as_str(),
                    described.data_type,
                    described.nullable,
                );
                fields.push(Arc::new(field));
            },
            Err(error) => {
                assert(describe.ensures((&exprs@[i as int], &*schema), Err(error)));
                assert(exprs_fail_to_describe(*describe, exprs@, *schema, error));
                return Err(ProcessError::Expression(error));
            },
        }
    }
    proof {
        assert(exprs_describe(*describe, exprs@, *schema, fields@));
        assert(projects(*eval, *describe, exprs@, *batch, fields@, columns@));
    }
    let ghost all_columns = columns@;
    match Batch::try_new(Arc::new(make_schema(fields)), columns) {
        Ok(made) => Ok(made),
        Err(error) => {
            assert(batch_fails(fields@, all_columns, error));
            assert(projecting_fails(*eval, *describe, exprs@, *batch, error));
            Err(ProcessError::Batch(error))
        },
    }
}

} // verus!
