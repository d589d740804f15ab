//! What holds of a batch on its way through the operator: what operations read of it, what is
//! appended to it, what goes out, and what a checkpoint saves.
use std::sync::Arc;

use arrow_schema::{ArrowError, Field, Schema};
use datafusion::error::DataFusionError;
use datafusion::logical_expr::ColumnarValue;
use vstd::prelude::*;
use vstd::utf8::encode_utf8;

use crate::columns::{
    array_len, array_null_count, array_type, batch_columns, batch_fails, batch_fields, batch_rows,
    batch_schema, becomes, boolean_scalar, boolean_values, expands, nested_scalar, new_batch,
    refuses, scalar_expansion, string_scalar, utf8_bytes, utf8_values, valid_batch, Batch,
    Expansion,
};
use crate::evaluation::{
    evaluates, expands_on, exprs_describe, exprs_evaluate, exprs_fail_to_evaluate, fails,
    projecting_fails, projection_gives, ExprField, ProcessError,
};
use crate::model::{cell, column, maps_known, run_rows, Cell, MapView, StateView};
use crate::ops::StateOpType;
use crate::processor::{
    all_reach, appends, columns_answer, emits, empty_maps, has_dirty, intermediate_schema,
    is_checkpoint, is_intermediate, name_set, name_texts, op_evaluates, op_fails, op_reached,
    ops_evaluate, ops_expand_on, ops_fail, plan_of, projection_expands, result_fields, rows_give,
    rows_of, table_description, takes_columns, written_names, BatchOutcome, StateOp,
    StatefulProcessorFunc, TableWrites,
};
use crate::results::{texts, EvaluatedOp, ResultColumn};
use crate::schema::{arrow_type, field_nullable, field_type, new_field, new_schema, ColumnType};
use crate::state::{distinct_keys, entries_map, entry_texts, text_of};
use crate::state_laws::{key_occurs, law_restored_entries, law_restored_keys};

verus! {

/// Whether an operation reads its value column.
pub open spec fn takes_value(op_type: StateOpType) -> bool {
    match op_type {
        StateOpType::StatePut | StateOpType::StateUpsert | StateOpType::StateUpdate => true,
        StateOpType::StateGet | StateOpType::StateDelete => false,
    }
}

/// In every row an operation reads that row's slot of its own columns: its key column, its value
/// column where it is one that writes a value, and its condition column where it is an update. A
/// column that holds no strings, or no booleans, reads as null.
pub proof fn law_rows_read_own_columns<E>(
    ops: Seq<StateOp<E>>,
    evaluated: Seq<EvaluatedOp>,
    num_rows: usize,
    row: int,
    i: int,
)
    requires
        0 <= row < num_rows,
        0 <= i < ops.len(),
    ensures
        rows_of(ops, evaluated, num_rows).len() == num_rows,
        rows_of(ops, evaluated, num_rows)[row].len() == ops.len(),
        ({
            let args = rows_of(ops, evaluated, num_rows)[row][i];
            let own = evaluated[i];
            &&& utf8_values(own.key_array) matches Some(keys) ==> args.key == keys[row]
            &&& utf8_values(own.key_array) is None ==> args.key is None
            &&& takes_value(ops[i].op_type) ==> {
                &&& own.value_array matches Some(array) ==> {
                    &&& utf8_values(array) matches Some(values) ==> args.value == values[row]
                    &&& utf8_values(array) is None ==> args.value is None
                }
                &&& own.value_array is None ==> args.value is None
            }
            &&& ops[i].op_type is StateUpdate ==> {
                &&& own.condition_array matches Some(array) ==> {
                    &&& boolean_values(array) matches Some(conditions) ==> args.condition
                        == conditions[row]
                    &&& boolean_values(array) is None ==> args.condition is None
                }
                &&& own.condition_array is None ==> args.condition is None
            }
        }),
{
}

/// What an operation reads depends on no other operation and no other operation's columns.
pub proof fn law_other_columns_do_not_matter<E>(
    ops: Seq<StateOp<E>>,
    other_ops: Seq<StateOp<E>>,
    evaluated: Seq<EvaluatedOp>,
    other_evaluated: Seq<EvaluatedOp>,
    num_rows: usize,
    row: int,
    i: int,
    j: int,
)
    requires
        0 <= row < num_rows,
        0 <= i < ops.len(),
        0 <= j < other_ops.len(),
        ops[i].op_type == other_ops[j].op_type,
        evaluated[i] == other_evaluated[j],
    ensures
        rows_of(ops, evaluated, num_rows)[row][i] == rows_of(
            other_ops,
            other_evaluated,
            num_rows,
        )[row][j],
{
}

/// What an operation reads in a row does not depend on how many rows follow.
pub proof fn law_more_rows_do_not_matter<E>(
    ops: Seq<StateOp<E>>,
    evaluated: Seq<EvaluatedOp>,
    num_rows: usize,
    more_rows: usize,
    row: int,
)
    requires
        0 <= row < num_rows <= more_rows,
    ensures
        rows_of(ops, evaluated, num_rows)[row] =~= rows_of(ops, evaluated, more_rows)[row],
{
}

/// Every operation works on the map that it names, as the kind that it is.
pub proof fn law_plan<E>(ops: Seq<StateOp<E>>, i: int)
    requires
        0 <= i < ops.len(),
    ensures
        plan_of(ops).len() == ops.len(),
        plan_of(ops)[i].map == ops[i].map_name@,
        plan_of(ops)[i].op_type == ops[i].op_type,
{
}

/// Columns are long enough exactly where every column of strings that is read as a key or a value,
/// and every column of booleans that is read as a condition, has a slot for each row.
pub proof fn law_long_enough<E>(
    ops: Seq<StateOp<E>>,
    evaluated: Seq<EvaluatedOp>,
    num_rows: usize,
)
    ensures
        all_reach(ops, evaluated, num_rows) <==> {
            &&& evaluated.len() == ops.len()
            &&& forall|i: int|
                0 <= i < ops.len() ==> {
                    let own = #[trigger] evaluated[i];
                    &&& utf8_values(own.key_array) matches Some(keys) ==> num_rows <= keys.len()
                    &&& takes_value(ops[i].op_type) ==> (own.value_array matches Some(array) ==> (
                    utf8_values(array) matches Some(values) ==> num_rows <= values.len()))
                    &&& ops[i].op_type is StateUpdate ==> (own.condition_array matches Some(array)
                        ==> (boolean_values(array) matches Some(conditions) ==> num_rows
                        <= conditions.len()))
                }
        },
{
}

/// An array stands for itself. A string or a boolean, or a null of either, stands in every slot of
/// a column as long as the batch.
pub proof fn law_column_of_value(value: ColumnarValue, num_rows: usize, array: ColumnarValue)
    requires
        becomes(value, num_rows, array),
    ensures
        array_len(value) is Some ==> array == value,
        array_len(value) is None ==> (string_scalar(value) matches Some(text) ==> {
            &&& array_len(array) == Some(num_rows as nat)
            &&& array_type(array) == arrow_type(ColumnType::Utf8)
            &&& text is Some ==> array_null_count(array) == 0
            &&& text is None ==> array_null_count(array) == num_rows
            &&& utf8_values(array) matches Some(slots) && slots.len() == num_rows && forall|i: int|
                0 <= i < num_rows ==> #[trigger] slots[i] == text
        }),
        array_len(value) is None && string_scalar(value) is None ==> (boolean_scalar(
            value,
        ) matches Some(flag) ==> {
            &&& array_len(array) == Some(num_rows as nat)
            &&& array_type(array) == arrow_type(ColumnType::Boolean)
            &&& flag is Some ==> array_null_count(array) == 0
            &&& flag is None ==> array_null_count(array) == num_rows
            &&& boolean_values(array) matches Some(slots) && slots.len() == num_rows && forall|
                i: int,
            |
                0 <= i < num_rows ==> #[trigger] slots[i] == flag
        }),
        array_len(value) is None && string_scalar(value) is None && boolean_scalar(value) is None
            ==> scalar_expansion(value, num_rows) == Expansion::Made(array) && (!nested_scalar(
            value,
        ) ==> array_len(array) == Some(num_rows as nat)),
{
}

/// Arrays, strings and booleans are never refused as columns.
pub proof fn law_refused_value(value: ColumnarValue, num_rows: usize, error: DataFusionError)
    requires
        refuses(value, num_rows, error),
    ensures
        array_len(value) is None,
        string_scalar(value) is None,
        boolean_scalar(value) is None,
        scalar_expansion(value, num_rows) is Refused,
        !nested_scalar(value) ==> scalar_expansion(value, num_rows) == Expansion::Refused(error),
{
}

/// An evaluation that takes an expression and a batch and gives an array, or an error, can be
/// used over that batch.
pub proof fn law_arrays_can_be_used<E, F: Fn(&E, &Batch) -> Result<ColumnarValue, DataFusionError>>(
    eval: F,
    expr: E,
    batch: Batch,
)
    requires
        eval.requires((&expr, &batch)),
        forall|value: ColumnarValue| #[trigger]
            eval.ensures((&expr, &batch), Ok(value)) ==> array_len(value) is Some,
    ensures
        expands_on(eval, expr, batch),
{
}

/// Operations, and the expressions of a projection, can be used over a batch where each of their
/// expressions can.
pub proof fn law_all_can_be_used<
    E,
    F: Fn(&E, &Batch) -> Result<ColumnarValue, DataFusionError>,
    G: Fn(&E, &Schema) -> Result<ExprField, DataFusionError>,
>(eval: F, describe: G, ops: Seq<StateOp<E>>, exprs: Seq<E>, batch: Batch)
    ensures
        (forall|i: int|
            0 <= i < ops.len() ==> {
                &&& expands_on(eval, (#[trigger] ops[i]).key_expr, batch)
                &&& ops[i].value_expr matches Some(value) ==> expands_on(eval, value, batch)
                &&& ops[i].condition_expr matches Some(condition) ==> expands_on(
                    eval,
                    condition,
                    batch,
                )
            }) ==> ops_expand_on(eval, ops, batch),
        (forall|i: int, intermediate: Batch|
            0 <= i < exprs.len() && batch_rows(intermediate) == batch_rows(batch)
                ==> #[trigger] expands_on(eval, exprs[i], intermediate)) && (forall|
            i: int,
            schema: &Schema,
        |
            0 <= i < exprs.len() ==> #[trigger] describe.requires((&exprs[i], schema)))
            ==> projection_expands(eval, describe, ops, exprs, batch),
{
}

/// Short strings over few rows, and booleans over few rows, can be made into columns.
pub proof fn law_scalars_can_be_used(value: ColumnarValue, num_rows: usize)
    requires
        num_rows <= 0x0fff_ffff,
        (string_scalar(value) matches Some(text) && utf8_bytes(
            Seq::new(num_rows as nat, |i: int| text),
        ) <= i32::MAX) || boolean_scalar(value) is Some,
    ensures
        expands(value, num_rows),
{
}

/// A column comes from evaluating its expression over the batch.
pub proof fn law_evaluated<E, F: Fn(&E, &Batch) -> Result<ColumnarValue, DataFusionError>>(
    eval: F,
    expr: E,
    batch: Batch,
    array: ColumnarValue,
)
    ensures
        evaluates(eval, expr, batch, array) ==> exists|value: ColumnarValue|
            {
                &&& #[trigger] eval.ensures((&expr, &batch), Ok(value))
                &&& becomes(value, batch_rows(batch), array)
            },
        eval.ensures((&expr, &batch), Ok(array)) && array_len(array) is Some ==> evaluates(
            eval,
            expr,
            batch,
            array,
        ),
{
}

/// An expression fails with the error that evaluating it over the batch gives, or that making its
/// value a column does.
pub proof fn law_failed<E, F: Fn(&E, &Batch) -> Result<ColumnarValue, DataFusionError>>(
    eval: F,
    expr: E,
    batch: Batch,
    error: DataFusionError,
)
    requires
        fails(eval, expr, batch, error),
    ensures
        eval.ensures((&expr, &batch), Err(error)) || exists|value: ColumnarValue|
            {
                &&& #[trigger] eval.ensures((&expr, &batch), Ok(value))
                &&& refuses(value, batch_rows(batch), error)
            },
{
}

/// Every operation's columns come from its own expressions, all over the input batch: the key
/// column from the key, a value column exactly where there is a value expression and from it, and
/// so for the condition.
pub proof fn law_columns_come_from_own_expressions<
    E,
    F: Fn(&E, &Batch) -> Result<ColumnarValue, DataFusionError>,
>(eval: F, ops: Seq<StateOp<E>>, batch: Batch, evaluated: Seq<EvaluatedOp>, i: int)
    requires
        ops_evaluate(eval, ops, batch, evaluated),
        0 <= i < ops.len(),
    ensures
        evaluated.len() == ops.len(),
        evaluates(eval, ops[i].key_expr, batch, evaluated[i].key_array),
        ops[i].value_expr is Some <==> evaluated[i].value_array is Some,
        ops[i].value_expr is Some ==> evaluates(
            eval,
            ops[i].value_expr->Some_0,
            batch,
            evaluated[i].value_array->Some_0,
        ),
        ops[i].condition_expr is Some <==> evaluated[i].condition_array is Some,
        ops[i].condition_expr is Some ==> evaluates(
            eval,
            ops[i].condition_expr->Some_0,
            batch,
            evaluated[i].condition_array->Some_0,
        ),
{
    assert(op_evaluates(eval, ops[i], batch, evaluated[i]));
}

/// Operations fail where the key, the value or the condition of one of them does, and all the
/// operations before that one, and the expressions before that one, have their columns.
pub proof fn law_failing_operation<E, F: Fn(&E, &Batch) -> Result<ColumnarValue, DataFusionError>>(
    eval: F,
    ops: Seq<StateOp<E>>,
    batch: Batch,
    error: DataFusionError,
) -> (i: int)
    requires
        ops_fail(eval, ops, batch, error),
    ensures
        0 <= i < ops.len(),
        ({
            ||| fails(eval, ops[i].key_expr, batch, error)
            ||| {
                &&& exists|key: ColumnarValue| evaluates(eval, ops[i].key_expr, batch, key)
                &&& ops[i].value_expr matches Some(value) && fails(eval, value, batch, error)
            }
            ||| {
                &&& exists|key: ColumnarValue| evaluates(eval, ops[i].key_expr, batch, key)
                &&& ops[i].value_expr matches Some(value) ==> exists|array: ColumnarValue|
                    evaluates(eval, value, batch, array)
                &&& ops[i].condition_expr matches Some(condition) && fails(
                    eval,
                    condition,
                    batch,
                    error,
                )
            }
        }),
        exists|evaluated: Seq<EvaluatedOp>| ops_evaluate(eval, ops.take(i), batch, evaluated),
{
    let i = choose|i: int|
        {
            &&& 0 <= i < ops.len()
            &&& op_reached(eval, ops, batch, i)
            &&& op_fails(eval, #[trigger] ops[i], batch, error)
        };
    i
}

/// The answer of an operation in a row stands in that row of its own column: strings for reads,
/// puts and upserts, booleans for updates and deletes.
pub proof fn law_answers_stand_in_columns<E>(
    state: StateView,
    ops: Seq<StateOp<E>>,
    evaluated: Seq<EvaluatedOp>,
    num_rows: usize,
    columns: Seq<ResultColumn>,
    row: int,
    i: int,
)
    requires
        columns_answer(state, ops, evaluated, num_rows, columns),
        0 <= row < num_rows,
        0 <= i < ops.len(),
    ensures
        columns.len() == ops.len(),
        ({
            let given = cell(state, plan_of(ops), rows_of(ops, evaluated, num_rows), row, i);
            match columns[i] {
                ResultColumn::Str(slots) => {
                    &&& ops[i].op_type is StateGet || ops[i].op_type is StatePut
                        || ops[i].op_type is StateUpsert
                    &&& slots@.len() == num_rows
                    &&& slots@[row] matches Some(text) ==> given == Cell::Str(Some(text@))
                    &&& slots@[row] is None ==> given == Cell::Str(None)
                },
                ResultColumn::Bool(slots) => {
                    &&& ops[i].op_type is StateUpdate || ops[i].op_type is StateDelete
                    &&& slots@.len() == num_rows
                    &&& given == Cell::Bool(slots@[row])
                },
            }
        }),
{
    let all = column(state, plan_of(ops), rows_of(ops, evaluated, num_rows), i);
    assert(columns[i].kind() == ops[i].op_type.answers());
    assert(columns[i].cells() == all);
    assert(all.len() == num_rows);
    assert(all[row] == cell(state, plan_of(ops), rows_of(ops, evaluated, num_rows), row, i));
    match columns[i] {
        ResultColumn::Str(slots) => {
            assert(all[row] == Cell::Str(text_of(slots@[row])));
        },
        ResultColumn::Bool(slots) => {
            assert(all[row] == Cell::Bool(slots@[row]));
        },
    }
}

/// An array of answers has each answer in its own slot and no other slot, null where the answer is
/// null.
pub proof fn law_array_of_answers(column: ResultColumn, array: ColumnarValue)
    requires
        column.is_held_by(array),
    ensures
        match column {
            ResultColumn::Str(slots) => {
                &&& array_len(array) == Some(slots@.len())
                &&& array_type(array) == arrow_type(ColumnType::Utf8)
                &&& utf8_values(array) matches Some(held) && held.len() == slots@.len() && forall|
                    i: int,
                |
                    0 <= i < held.len() ==> match #[trigger] slots@[i] {
                        Some(text) => held[i] == Some(text@),
                        None => held[i] is None,
                    }
            },
            ResultColumn::Bool(slots) => {
                &&& array_len(array) == Some(slots@.len())
                &&& array_type(array) == arrow_type(ColumnType::Boolean)
                &&& boolean_values(array) matches Some(held) && held.len() == slots@.len()
                    && forall|i: int|
                    0 <= i < held.len() ==> held[i] == Some(#[trigger] slots@[i])
            },
        },
{
}

/// The output fields of operations: under the name that the operation gives, nullable, strings for
/// reads, puts and upserts, booleans for updates and deletes.
pub proof fn law_output_fields<E>(ops: Seq<StateOp<E>>, i: int)
    requires
        0 <= i < ops.len(),
    ensures
        result_fields(ops).len() == ops.len(),
        ops[i].op_type is StateGet || ops[i].op_type is StatePut || ops[i].op_type is StateUpsert
            ==> *result_fields(ops)[i] == new_field(
            ops[i].output_field@,
            arrow_type(ColumnType::Utf8),
            true,
        ),
        ops[i].op_type is StateUpdate || ops[i].op_type is StateDelete ==> *result_fields(ops)[i]
            == new_field(ops[i].output_field@, arrow_type(ColumnType::Boolean), true),
{
}

/// Without a final projection, what goes out is the input, column by column and field by field,
/// and after it an array of each operation's answers under its output field, with as many rows.
pub proof fn law_answers_are_appended<
    E,
    F: Fn(&E, &Batch) -> Result<ColumnarValue, DataFusionError>,
    G: Fn(&E, &Schema) -> Result<ExprField, DataFusionError>,
>(
    eval: F,
    describe: G,
    ops: Seq<StateOp<E>>,
    batch: Batch,
    columns: Seq<ResultColumn>,
    made: Batch,
)
    requires
        emits(eval, describe, ops, Seq::<E>::empty(), batch, columns, Ok(made)),
        columns.len() == ops.len(),
        batch_columns(batch).len() == batch_fields(batch).len(),
    ensures
        batch_rows(made) == batch_rows(batch),
        batch_columns(made).len() == batch_columns(batch).len() + ops.len(),
        batch_fields(made) == batch_fields(batch) + result_fields(ops),
        batch_schema(made) == new_schema(batch_fields(batch) + result_fields(ops)),
        forall|i: int|
            0 <= i < batch_columns(batch).len() ==> #[trigger] batch_columns(made)[i]
                == batch_columns(batch)[i],
        forall|i: int|
            0 <= i < ops.len() ==> columns[i].is_held_by(
                #[trigger] batch_columns(made)[batch_columns(batch).len() + i],
            ),
{
    let n = batch_columns(batch).len() as int;
    assert(is_intermediate(ops, batch, columns, made));
    assert(appends(batch, columns, batch_columns(made)));
    assert forall|i: int| 0 <= i < n implies #[trigger] batch_columns(made)[i] == batch_columns(
        batch,
    )[i] by {
        assert(batch_columns(made).take(n)[i] == batch_columns(made)[i]);
    }
}

/// With a final projection, what goes out has a column for each of its expressions in order, each
/// evaluated over the input with the answers appended, under the field that the expression
/// describes over that batch's schema.
pub proof fn law_projection_is_applied<
    E,
    F: Fn(&E, &Batch) -> Result<ColumnarValue, DataFusionError>,
    G: Fn(&E, &Schema) -> Result<ExprField, DataFusionError>,
>(
    eval: F,
    describe: G,
    ops: Seq<StateOp<E>>,
    exprs: Seq<E>,
    batch: Batch,
    columns: Seq<ResultColumn>,
    made: Batch,
) -> (intermediate: Batch)
    requires
        emits(eval, describe, ops, exprs, batch, columns, Ok(made)),
        exprs.len() > 0,
        columns.len() == ops.len(),
    ensures
        emits(eval, describe, ops, Seq::<E>::empty(), batch, columns, Ok(intermediate)),
        batch_columns(made).len() == exprs.len(),
        batch_fields(made).len() == exprs.len(),
        forall|i: int|
            0 <= i < exprs.len() ==> {
                &&& evaluates(eval, exprs[i], intermediate, #[trigger] batch_columns(made)[i])
                &&& array_len(batch_columns(made)[i]) == Some(batch_rows(made) as nat)
            },
        forall|i: int|
            0 <= i < exprs.len() ==> exists|described: ExprField|
                {
                    &&& #[trigger] describe.ensures(
                        (&exprs[i], &batch_schema(intermediate)),
                        Ok(described),
                    )
                    &&& *(#[trigger] batch_fields(made)[i]) == new_field(
                        described.name@,
                        described.data_type,
                        described.nullable,
                    )
                },
{
    let intermediate = choose|intermediate: Batch|
        {
            &&& #[trigger] is_intermediate(ops, batch, columns, intermediate)
            &&& projection_gives(eval, describe, exprs, intermediate, Ok(made))
        };
    assert(exprs_evaluate(eval, exprs, intermediate, batch_columns(made)));
    assert(exprs_describe(describe, exprs, batch_schema(intermediate), batch_fields(made)));
    intermediate
}

/// A batch is refused, and not made, where its own columns do not fit its schema or where it would
/// have no column at all; with a final projection also where an expression fails, or where the
/// projected columns do not fit together.
pub proof fn law_refused_batch<
    E,
    F: Fn(&E, &Batch) -> Result<ColumnarValue, DataFusionError>,
    G: Fn(&E, &Schema) -> Result<ExprField, DataFusionError>,
>(
    eval: F,
    describe: G,
    ops: Seq<StateOp<E>>,
    exprs: Seq<E>,
    batch: Batch,
    columns: Seq<ResultColumn>,
    error: ProcessError,
)
    requires
        emits(eval, describe, ops, exprs, batch, columns, Err(error)),
    ensures
        exprs.len() == 0 ==> error is Batch && {
            ||| batch_fields(batch).len() == 0 && ops.len() == 0
            ||| exists|i: int|
                {
                    &&& 0 <= i < batch_columns(batch).len()
                    &&& array_type(#[trigger] batch_columns(batch)[i]) != field_type(
                        *batch_fields(batch)[i],
                    ) || !field_nullable(*batch_fields(batch)[i]) && array_null_count(
                        batch_columns(batch)[i],
                    ) != 0
                }
        },
        error matches ProcessError::Expression(failure) ==> exists|intermediate: Batch, i: int|
            {
                &&& 0 <= i < exprs.len()
                &&& #[trigger] is_intermediate(ops, batch, columns, intermediate)
                &&& {
                    ||| fails(eval, #[trigger] exprs[i], intermediate, failure) && exists|
                        before: Seq<ColumnarValue>,
                    |
                        exprs_evaluate(eval, exprs.take(i), intermediate, before)
                    ||| {
                        &&& describe.ensures(
                            (&exprs[i], &batch_schema(intermediate)),
                            Err(failure),
                        )
                        &&& exists|all: Seq<ColumnarValue>|
                            exprs_evaluate(eval, exprs, intermediate, all)
                        &&& exists|before: Seq<Arc<Field>>|
                            exprs_describe(
                                describe,
                                exprs.take(i),
                                batch_schema(intermediate),
                                before,
                            )
                    }
                }
            },
{
    if takes_columns(ops, batch) {
        let intermediate = choose|intermediate: Batch|
            {
                &&& #[trigger] is_intermediate(ops, batch, columns, intermediate)
                &&& exprs.len() > 0 && projection_gives(
                    eval,
                    describe,
                    exprs,
                    intermediate,
                    Err(error),
                )
            };
        if let ProcessError::Expression(failure) = error {
            if exprs_fail_to_evaluate(eval, exprs, intermediate, failure) {
                let (i, before) = choose|i: int, before: Seq<ColumnarValue>|
                    {
                        &&& 0 <= i < exprs.len()
                        &&& #[trigger] exprs_evaluate(eval, exprs.take(i), intermediate, before)
                        &&& fails(eval, exprs[i], intermediate, failure)
                    };
                assert(fails(eval, exprs[i], intermediate, failure));
            } else {
                let (i, before) = choose|i: int, before: Seq<Arc<Field>>|
                    {
                        &&& 0 <= i < exprs.len()
                        &&& #[trigger] exprs_describe(
                            describe,
                            exprs.take(i),
                            batch_schema(intermediate),
                            before,
                        )
                        &&& describe.ensures(
                            (&exprs[i], &batch_schema(intermediate)),
                            Err(failure),
                        )
                    };
                assert(describe.ensures((&exprs[i], &batch_schema(intermediate)), Err(failure)));
            }
        }
    }
}

/// What comes of a batch once its columns are there. No row is run where there are rows and an
/// operation names no map, or where a column is too short. Else all rows are run, from the maps as
/// they were and over the columns, and a batch or an error comes of the answers, unless those of
/// an operation take too many bytes.
pub proof fn law_outcomes<
    E,
    F: Fn(&E, &Batch) -> Result<ColumnarValue, DataFusionError>,
    G: Fn(&E, &Schema) -> Result<ExprField, DataFusionError>,
>(
    eval: F,
    describe: G,
    func: StatefulProcessorFunc<E>,
    batch: Batch,
    evaluated: Seq<EvaluatedOp>,
    after: StateView,
    outcome: Result<BatchOutcome, ProcessError>,
)
    requires
        rows_give(eval, describe, func, batch, evaluated, after, outcome),
    ensures
        (outcome matches Ok(BatchOutcome::UnknownMap)) <==> batch_rows(batch) > 0 && exists|i: int|
            0 <= i < func.ops().len() && !func.state().contains_key(
                (#[trigger] func.ops()[i]).map_name@,
            ),
        outcome matches Ok(BatchOutcome::ShortColumn) ==> !all_reach(
            func.ops(),
            evaluated,
            batch_rows(batch),
        ),
        outcome matches Ok(BatchOutcome::UnknownMap) ==> after == func.state(),
        outcome matches Ok(BatchOutcome::ShortColumn) ==> after == func.state(),
        !(outcome matches Ok(BatchOutcome::UnknownMap)) && !(outcome matches Ok(
            BatchOutcome::ShortColumn,
        )) ==> {
            &&& after == run_rows(
                func.state(),
                plan_of(func.ops()),
                rows_of(func.ops(), evaluated, batch_rows(batch)),
            )
            &&& exists|columns: Seq<ResultColumn>|
                {
                    &&& #[trigger] columns_answer(
                        func.state(),
                        func.ops(),
                        evaluated,
                        batch_rows(batch),
                        columns,
                    )
                    &&& (outcome matches Ok(BatchOutcome::LongColumn)) <==> exists|i: int|
                        0 <= i < columns.len() && !(#[trigger] columns[i]).fits()
                    &&& outcome matches Ok(BatchOutcome::Emitted(made)) ==> emits(
                        eval,
                        describe,
                        func.ops(),
                        func.final_exprs(),
                        batch,
                        columns,
                        Ok(made),
                    )
                    &&& outcome matches Err(error) ==> emits(
                        eval,
                        describe,
                        func.ops(),
                        func.final_exprs(),
                        batch,
                        columns,
                        Err(error),
                    )
                }
        },
{
    let ops = func.ops();
    let plan = plan_of(ops);
    if maps_known(func.state(), plan) {
        assert forall|i: int| 0 <= i < ops.len() implies func.state().contains_key(
            (#[trigger] ops[i]).map_name@,
        ) by {
            assert(func.state().contains_key(plan[i].map));
        }
    } else {
        let i = choose|i: int|
            0 <= i < plan.len() && !func.state().contains_key(#[trigger] plan[i].map);
        assert(!func.state().contains_key(ops[i].map_name@));
    }
}

/// A column of strings fits an array exactly where its strings, one after the other, take no more
/// bytes than 32-bit offsets reach; a column of booleans always fits.
pub proof fn law_fits(column: ResultColumn)
    ensures
        column matches ResultColumn::Str(slots) ==> (column.fits() <==> utf8_bytes(texts(slots@))
            <= 0x7fff_ffff),
        column is Bool ==> column.fits(),
{
}

/// Strings take the bytes of each, and a null takes none.
pub proof fn law_bytes(cells: Seq<Option<Seq<char>>>, text: Seq<char>)
    ensures
        utf8_bytes(Seq::empty()) == 0,
        utf8_bytes(cells.push(Some(text))) == utf8_bytes(cells) + encode_utf8(text).len(),
        utf8_bytes(cells.push(None)) == utf8_bytes(cells),
{
    assert(cells.push(Some(text)).drop_last() =~= cells);
    assert(cells.push(None).drop_last() =~= cells);
}

/// Fields and columns make a batch exactly where there is a column, a field for each, all are of
/// one length, and each is of its field's type, without nulls where its field admits none.
pub proof fn law_valid_batch(fields: Seq<Arc<Field>>, columns: Seq<ColumnarValue>)
    ensures
        valid_batch(fields, columns) <==> {
            &&& columns.len() > 0
            &&& fields.len() == columns.len()
            &&& forall|i: int|
                0 <= i < columns.len() ==> {
                    &&& array_len(#[trigger] columns[i]) == array_len(columns[0])
                    &&& array_type(columns[i]) == field_type(*fields[i])
                    &&& !field_nullable(*fields[i]) ==> array_null_count(columns[i]) == 0
                }
        },
{
}

/// A projection's columns make no batch only where they do not fit together.
pub proof fn law_projection_refused<
    E,
    F: Fn(&E, &Batch) -> Result<ColumnarValue, DataFusionError>,
    G: Fn(&E, &Schema) -> Result<ExprField, DataFusionError>,
>(eval: F, describe: G, exprs: Seq<E>, batch: Batch, error: ArrowError)
    requires
        projecting_fails(eval, describe, exprs, batch, error),
    ensures
        exists|fields: Seq<Arc<Field>>, columns: Seq<ColumnarValue>|
            {
                &&& #[trigger] exprs_evaluate(eval, exprs, batch, columns)
                &&& #[trigger] exprs_describe(describe, exprs, batch_schema(batch), fields)
                &&& !valid_batch(fields, columns)
            },
{
}

/// Whether any key of a map is marked.
pub open spec fn any_marked(map: MapView) -> bool {
    exists|key: Seq<char>| #[trigger] map.dirty.contains(key)
}

/// A batch that is not made for want of a column, of a field for each column, of one length, or for
/// a null where none is admitted, fails with Arrow's error on just these fields and columns.
pub proof fn law_batch_error(
    fields: Seq<Arc<Field>>,
    columns: Seq<ColumnarValue>,
    error: ArrowError,
    i: int,
)
    requires
        batch_fails(fields, columns, error),
        ({
            ||| columns.len() == 0
            ||| fields.len() != columns.len()
            ||| 0 <= i < columns.len() && (array_len(columns[i]) != array_len(columns[0])
                || !field_nullable(*fields[i]) && array_null_count(columns[i]) != 0)
        }),
    ensures
        new_batch(new_schema(fields), columns) == Err::<Batch, ArrowError>(error),
        !valid_batch(fields, columns),
{
}

/// The batch that the projection reads has the input's fields followed by the output fields as its
/// schema.
pub proof fn law_intermediate_schema<E>(base: Seq<Arc<Field>>, ops: Seq<StateOp<E>>)
    ensures
        intermediate_schema(base, ops) == new_schema(base + result_fields(ops)),
{
}

/// A map's table is described by a text that ends in the map's name, and no two maps' alike.
pub proof fn law_table_description(name: Seq<char>, other: Seq<char>)
    ensures
        table_description(name).len() == 24 + name.len(),
        table_description(name).skip(24) == name,
        table_description(name).take(24) == table_description(other).take(24),
        table_description(name) == table_description(other) ==> name == other,
{
    reveal_strlit("stateful processor map: ");
    assert(table_description(name).skip(24) =~= name);
    assert(table_description(other).skip(24) =~= other);
    assert(table_description(name).take(24) =~= table_description(other).take(24));
}

/// A checkpoint writes to a table exactly where a key of its map is marked, in the order of the
/// names.
pub proof fn law_tables_written(
    state: StateView,
    names: Seq<Seq<char>>,
    writes: Seq<TableWrites>,
    name: Seq<char>,
    key: Seq<char>,
)
    requires
        is_checkpoint(state, names, writes),
    ensures
        names.contains(name) && state[name].dirty.contains(key) ==> exists|i: int|
            0 <= i < writes.len() && (#[trigger] writes[i]).map_name@ == name,
        forall|i: int|
            0 <= i < writes.len() ==> names.contains((#[trigger] writes[i]).map_name@)
                && any_marked(state[writes[i].map_name@]),
        written_names(writes) == names.filter(|other: Seq<char>| any_marked(state[other])),
{
    let marked_any = |other: Seq<char>| any_marked(state[other]);
    let dirty = |other: Seq<char>| has_dirty(state, other);
    assert forall|other: Seq<char>| #[trigger] dirty(other) == marked_any(other) by {
        if any_marked(state[other]) {
            let marked = choose|marked: Seq<char>| #[trigger] state[other].dirty.contains(marked);
            assert(state[other].dirty.contains(marked));
        }
    }
    assert(dirty =~= marked_any);
    if names.contains(name) && state[name].dirty.contains(key) {
        let at = choose|at: int| 0 <= at < names.len() && names[at] == name;
        assert(marked_any(names[at]));
        names.lemma_filter_contains(marked_any, at);
        let i = choose|i: int|
            0 <= i < written_names(writes).len() && written_names(writes)[i] == name;
        assert(writes[i].map_name@ == name);
    }
    assert forall|i: int| 0 <= i < writes.len() implies names.contains(
        (#[trigger] writes[i]).map_name@,
    ) && any_marked(state[writes[i].map_name@]) by {
        assert(written_names(writes)[i] == writes[i].map_name@);
        assert(names.filter(marked_any)[i] == writes[i].map_name@);
        assert(names.filter(marked_any).contains(writes[i].map_name@));
        names.lemma_filter_contains_rev(marked_any, writes[i].map_name@);
        names.lemma_filter_pred(marked_any, i);
    }
}

/// A checkpoint writes a marked key's entry as it is, tombstones included, once, and nothing under
/// any other key.
pub proof fn law_entries_written(
    state: StateView,
    names: Seq<Seq<char>>,
    writes: Seq<TableWrites>,
    i: int,
    key: Seq<char>,
)
    requires
        is_checkpoint(state, names, writes),
        0 <= i < writes.len(),
    ensures
        ({
            let map = state[writes[i].map_name@];
            let entries = writes[i].entries@;
            &&& map.dirty.contains(key) && map.entries.contains_key(key) <==> key_occurs(
                entries,
                key,
            )
            &&& forall|j: int|
                0 <= j < entries.len() && (#[trigger] entries[j]).0@ == key ==> match entries[j].1 {
                    Some(value) => map.entries[key] == Some(value@),
                    None => map.entries[key] is None,
                }
            &&& forall|j: int, k: int|
                0 <= j < k < entries.len() ==> (#[trigger] entries[j]).0@ != (
                #[trigger] entries[k]).0@
        }),
{
    let map = state[writes[i].map_name@];
    let entries = writes[i].entries@;
    law_restored_keys(entries, key);
    assert(distinct_keys(entry_texts(entries)));
    assert forall|j: int, k: int| 0 <= j < k < entries.len() implies (#[trigger] entries[j]).0@ != (
    #[trigger] entries[k]).0@ by {
        assert(entry_texts(entries)[j].0 != entry_texts(entries)[k].0);
    }
    assert forall|j: int|
        0 <= j < entries.len() && (#[trigger] entries[j]).0@ == key implies match entries[j].1 {
        Some(value) => map.entries[key] == Some(value@),
        None => map.entries[key] is None,
    } by {
        law_restored_entries(entries, j);
        assert(entries_map(entry_texts(entries)).contains_key(key));
    }
}

/// Operators of the same configuration have the same maps' names, operations, projection and input
/// schema.
pub proof fn law_same_config<E>(func: StatefulProcessorFunc<E>, other: StatefulProcessorFunc<E>)
    requires
        func.same_config(other),
    ensures
        func.map_names_view() == other.map_names_view(),
        func.ops() == other.ops(),
        func.final_exprs() == other.final_exprs(),
        func.final_exprs_bytes() == other.final_exprs_bytes(),
        func.input_schema() == other.input_schema(),
{
}

/// A new operator has a map for each of its names and no other, and nothing in any.
pub proof fn law_new_maps(names: Seq<String>, name: Seq<char>, key: Seq<char>)
    ensures
        name_texts(names).len() == names.len(),
        forall|i: int| 0 <= i < names.len() ==> name_texts(names)[i] == (#[trigger] names[i])@,
        empty_maps(name_set(names)).contains_key(name) <==> exists|i: int|
            0 <= i < names.len() && (#[trigger] names[i])@ == name,
        empty_maps(name_set(names)).contains_key(name) ==> {
            &&& !empty_maps(name_set(names))[name].entries.contains_key(key)
            &&& !empty_maps(name_set(names))[name].dirty.contains(key)
        },
{
    if name_texts(names).contains(name) {
        let i = choose|i: int| 0 <= i < name_texts(names).len() && name_texts(names)[i] == name;
        assert(names[i]@ == name);
    }
    if exists|i: int| 0 <= i < names.len() && (#[trigger] names[i])@ == name {
        let i = choose|i: int| 0 <= i < names.len() && (#[trigger] names[i])@ == name;
        assert(name_texts(names)[i] == name);
    }
}

} // verus!
