//! The operator that runs state operations over batches of rows.
use std::sync::Arc;

use arrow_schema::{ArrowError, Field, Schema};
use datafusion::error::DataFusionError;
use datafusion::logical_expr::ColumnarValue;
use datafusion_proto::protobuf::PhysicalExprNode;
use vstd::prelude::*;
use vstd::string::StringExecFns;

use crate::columns::{
    array_len, batch_columns, batch_fails, batch_fields, batch_rows, batch_schema, column_fits,
    valid_batch, Batch,
};
use crate::encoded::{parse_expr, parse_fails, parses, parses_all, ExprError};
use crate::evaluation::{
    evaluate, evaluates, expands_on, exprs_describable, exprs_expand_on, fails, project,
    projection_gives, ExprField, ProcessError,
};
use crate::model::{
    cell, column, lemma_run_ops_dom, lemma_run_rows_dom, maps_known, run_ops, run_rows, saved,
    take_over, Cell, MapView, OpArgs, OpView, StateView,
};
use crate::ops::StateOpType;
use crate::results::{EvaluatedOp, ResultColumn};
use crate::schema::{
    arrow_type, field_nullable, field_type, fields_of, make_result_field, make_schema, new_schema,
    result_field, schema_fields,
};
use crate::state::{distinct_keys, entries_map, entry_texts, StateMaps};

verus! {

/// One state operation. `E` is a physical expression.
pub struct StateOp<E> {
    pub map_name: String,
    pub op_type: StateOpType,
    pub key_expr: E,
    pub value_expr: Option<E>,
    pub condition_expr: Option<E>,
    pub output_field: String,
}

/// The operator: its operations and the maps they work on.
pub struct StatefulProcessorFunc<E> {
    state: StateMaps,
    map_names: Vec<String>,
    ops: Vec<StateOp<E>>,
    final_exprs: Vec<E>,
    // Kept until the schema of the intermediate batch is known.
    final_exprs_bytes: Vec<Vec<u8>>,
    input_schema: Arc<Schema>,
}

/// The texts of names.
pub open spec fn name_texts(names: Seq<String>) -> Seq<Seq<char>> {
    names.map_values(|name: String| name@)
}

/// The names, each once.
pub open spec fn name_set(names: Seq<String>) -> Set<Seq<char>> {
    name_texts(names).to_set()
}

/// A map with nothing in it for each name.
pub open spec fn empty_maps(names: Set<Seq<char>>) -> StateView {
    Map::new(|name: Seq<char>| names.contains(name), |name: Seq<char>| MapView::empty())
}

/// The members of a prefix one longer.
pub proof fn lemma_take_set(texts: Seq<Seq<char>>, i: int)
    requires
        0 <= i < texts.len(),
    ensures
        texts.take(i + 1).to_set() == texts.take(i).to_set().insert(texts[i]),
{
    let now = texts.take(i + 1);
    let was = texts.take(i);
    assert forall|text: Seq<char>| now.contains(text) implies was.contains(text) || text
        == texts[i] by {
        let j = choose|j: int| 0 <= j < now.len() && now[j] == text;
        if j < i {
            assert(was[j] == text);
        }
    }
    assert forall|text: Seq<char>| was.contains(text) implies now.contains(text) by {
        let j = choose|j: int| 0 <= j < was.len() && was[j] == text;
        assert(now[j] == text);
    }
    assert(now[i] == texts[i]);
    assert(now.to_set() =~= was.to_set().insert(texts[i]));
}

/// What operations do and to which maps.
pub open spec fn plan_of<E>(ops: Seq<StateOp<E>>) -> Seq<OpView> {
    ops.map_values(|op: StateOp<E>| OpView { map: op.map_name@, op_type: op.op_type })
}

/// What every operation reads of every row.
pub open spec fn rows_of<E>(
    ops: Seq<StateOp<E>>,
    evaluated: Seq<EvaluatedOp>,
    num_rows: usize,
) -> Seq<Seq<OpArgs>> {
    Seq::new(
        num_rows as nat,
        |row: int| Seq::new(ops.len(), |i: int| evaluated[i].args(ops[i].op_type, row)),
    )
}

/// Whether every operation's columns have at least so many slots.
pub open spec fn all_reach<E>(
    ops: Seq<StateOp<E>>,
    evaluated: Seq<EvaluatedOp>,
    num_rows: usize,
) -> bool {
    &&& evaluated.len() == ops.len()
    &&& forall|i: int|
        0 <= i < ops.len() ==> (#[trigger] evaluated[i]).reaches(ops[i].op_type, num_rows)
}

/// Whether an optional expression can be evaluated over a batch.
pub open spec fn optional_expands_on<
    E,
    F: Fn(&E, &Batch) -> Result<ColumnarValue, DataFusionError>,
>(eval: F, expr: Option<E>, batch: Batch) -> bool {
    expr matches Some(some_expr) ==> expands_on(eval, some_expr, batch)
}

/// Whether an operation's expressions can be evaluated over a batch.
pub open spec fn op_expands_on<E, F: Fn(&E, &Batch) -> Result<ColumnarValue, DataFusionError>>(
    eval: F,
    op: StateOp<E>,
    batch: Batch,
) -> bool {
    &&& expands_on(eval, op.key_expr, batch)
    &&& optional_expands_on(eval, op.value_expr, batch)
    &&& optional_expands_on(eval, op.condition_expr, batch)
}

/// Whether the operations' expressions can be evaluated over a batch.
pub open spec fn ops_expand_on<E, F: Fn(&E, &Batch) -> Result<ColumnarValue, DataFusionError>>(
    eval: F,
    ops: Seq<StateOp<E>>,
    batch: Batch,
) -> bool {
    forall|i: int| 0 <= i < ops.len() ==> op_expands_on(eval, #[trigger] ops[i], batch)
}

/// Whether an optional expression gives an optional array: one where there is an expression.
pub open spec fn optional_evaluates<
    E,
    F: Fn(&E, &Batch) -> Result<ColumnarValue, DataFusionError>,
>(eval: F, expr: Option<E>, batch: Batch, array: Option<ColumnarValue>) -> bool {
    match (expr, array) {
        (Some(some_expr), Some(some_array)) => evaluates(eval, some_expr, batch, some_array),
        (None, None) => true,
        _ => false,
    }
}

/// Whether evaluating an operation's expressions over a batch may give these columns.
pub open spec fn op_evaluates<E, F: Fn(&E, &Batch) -> Result<ColumnarValue, DataFusionError>>(
    eval: F,
    op: StateOp<E>,
    batch: Batch,
    evaluated: EvaluatedOp,
) -> bool {
    &&& evaluates(eval, op.key_expr, batch, evaluated.key_array)
    &&& optional_evaluates(eval, op.value_expr, batch, evaluated.value_array)
    &&& optional_evaluates(eval, op.condition_expr, batch, evaluated.condition_array)
}

/// Whether evaluating operations over a batch may give these columns.
pub open spec fn ops_evaluate<E, F: Fn(&E, &Batch) -> Result<ColumnarValue, DataFusionError>>(
    eval: F,
    ops: Seq<StateOp<E>>,
    batch: Batch,
    evaluated: Seq<EvaluatedOp>,
) -> bool {
    &&& evaluated.len() == ops.len()
    &&& forall|i: int|
        0 <= i < ops.len() ==> op_evaluates(eval, ops[i], batch, #[trigger] evaluated[i])
}

/// Whether evaluating an operation's expressions over a batch may fail with this error. They are
/// taken in order: key, value, condition.
pub open spec fn op_fails<E, F: Fn(&E, &Batch) -> Result<ColumnarValue, DataFusionError>>(
    eval: F,
    op: StateOp<E>,
    batch: Batch,
    error: DataFusionError,
) -> bool {
    ||| fails(eval, op.key_expr, batch, error)
    ||| {
        &&& exists|key: ColumnarValue| evaluates(eval, op.key_expr, batch, key)
        &&& op.value_expr matches Some(expr) && fails(eval, expr, batch, error)
    }
    ||| {
        &&& exists|key: ColumnarValue| evaluates(eval, op.key_expr, batch, key)
        &&& exists|value: Option<ColumnarValue>|
            optional_evaluates(eval, op.value_expr, batch, value)
        &&& op.condition_expr matches Some(expr) && fails(eval, expr, batch, error)
    }
}

/// Whether evaluation may come to the `i`-th operation: the ones before it give columns.
pub open spec fn op_reached<E, F: Fn(&E, &Batch) -> Result<ColumnarValue, DataFusionError>>(
    eval: F,
    ops: Seq<StateOp<E>>,
    batch: Batch,
    i: int,
) -> bool {
    exists|evaluated: Seq<EvaluatedOp>| ops_evaluate(eval, ops.take(i), batch, evaluated)
}

/// Whether evaluating operations over a batch may fail with this error, at the first operation
/// that fails.
pub open spec fn ops_fail<E, F: Fn(&E, &Batch) -> Result<ColumnarValue, DataFusionError>>(
    eval: F,
    ops: Seq<StateOp<E>>,
    batch: Batch,
    error: DataFusionError,
) -> bool {
    exists|i: int|
        {
            &&& 0 <= i < ops.len()
            &&& op_reached(eval, ops, batch, i)
            &&& op_fails(eval, #[trigger] ops[i], batch, error)
        }
}

/// Evaluates an expression where there is one.
fn evaluate_optional<E, F: Fn(&E, &Batch) -> Result<ColumnarValue, DataFusionError>>(
    eval: &F,
    expr: &Option<E>,
    batch: &Batch,
) -> (array: Result<Option<ColumnarValue>, DataFusionError>)
    requires
        optional_expands_on(*eval, *expr, *batch),
    ensures
        match array {
            Ok(made) => optional_evaluates(*eval, *expr, *batch, made),
            Err(error) => *expr matches Some(some_expr) && fails(
                *eval,
                some_expr,
                *batch,
                error,
            ),
        },
{
    match expr {
        Some(some_expr) => match evaluate(eval, some_expr, batch) {
            Ok(array) => Ok(Some(array)),
            Err(error) => Err(error),
        },
        None => Ok(None),
    }
}

/// Whether columns are the answers that operations give over rows of evaluated columns.
pub open spec fn columns_answer<E>(
    state: StateView,
    ops: Seq<StateOp<E>>,
    evaluated: Seq<EvaluatedOp>,
    num_rows: usize,
    columns: Seq<ResultColumn>,
) -> bool {
    &&& columns.len() == ops.len()
    &&& forall|i: int|
        0 <= i < columns.len() ==> {
            &&& (#[trigger] columns[i]).kind() == ops[i].op_type.answers()
            &&& columns[i].cells() == column(
                state,
                plan_of(ops),
                rows_of(ops, evaluated, num_rows),
                i,
            )
        }
}

/// Whether a field is an operation's output field.
pub open spec fn is_result_field<E>(op: StateOp<E>, field: Field) -> bool {
    &&& field == result_field(op.output_field@, op.op_type.answers())
    &&& field_type(field) == arrow_type(op.op_type.answers())
    &&& field_nullable(field)
}

/// The operations' output fields.
pub open spec fn result_fields<E>(ops: Seq<StateOp<E>>) -> Seq<Arc<Field>> {
    ops.map_values(
        |op: StateOp<E>| Arc::new(result_field(op.output_field@, op.op_type.answers())),
    )
}

/// The schema of some fields followed by the operations' output fields.
pub open spec fn intermediate_schema<E>(base: Seq<Arc<Field>>, ops: Seq<StateOp<E>>) -> Schema {
    new_schema(base + result_fields(ops))
}

/// Whether columns can stand beside a batch: one for each operation, of its kind, with an answer
/// for each row, and few enough bytes for a string array.
pub open spec fn columns_match<E>(
    ops: Seq<StateOp<E>>,
    batch: Batch,
    columns: Seq<ResultColumn>,
) -> bool {
    &&& columns.len() == ops.len()
    &&& forall|i: int|
        0 <= i < columns.len() ==> {
            &&& (#[trigger] columns[i]).kind() == ops[i].op_type.answers()
            &&& columns[i].cells().len() == batch_rows(batch)
            &&& columns[i].fits()
        }
}

/// Whether a batch takes the columns of answers: there is at least one column then, and the
/// batch's own columns fit its schema exactly.
pub open spec fn takes_columns<E>(ops: Seq<StateOp<E>>, batch: Batch) -> bool {
    &&& batch_fields(batch).len() + ops.len() > 0
    &&& forall|i: int|
        0 <= i < batch_columns(batch).len() ==> column_fits(
            #[trigger] batch_columns(batch)[i],
            *batch_fields(batch)[i],
        )
}

/// Whether a batch has the rows of another one, and its schema with the operations' output fields
/// appended.
pub open spec fn extends<E>(ops: Seq<StateOp<E>>, batch: Batch, intermediate: Batch) -> bool {
    &&& batch_rows(intermediate) == batch_rows(batch)
    &&& batch_schema(intermediate) == intermediate_schema(batch_fields(batch), ops)
}

/// Whether the expressions of a projection can be evaluated and described over a batch, once the
/// columns of answers are appended to it.
pub open spec fn projection_expands<
    E,
    F: Fn(&E, &Batch) -> Result<ColumnarValue, DataFusionError>,
    G: Fn(&E, &Schema) -> Result<ExprField, DataFusionError>,
>(eval: F, describe: G, ops: Seq<StateOp<E>>, exprs: Seq<E>, batch: Batch) -> bool {
    &&& forall|intermediate: Batch| #[trigger]
        extends(ops, batch, intermediate) ==> exprs_expand_on(eval, exprs, intermediate)
    &&& exprs_describable(describe, exprs, intermediate_schema(batch_fields(batch), ops))
}

/// Whether arrays are a batch's columns followed by arrays of the answers.
pub open spec fn appends(
    batch: Batch,
    columns: Seq<ResultColumn>,
    arrays: Seq<ColumnarValue>,
) -> bool {
    let inputs = batch_columns(batch);
    &&& arrays.len() == inputs.len() + columns.len()
    &&& arrays.take(inputs.len() as int) == inputs
    &&& forall|i: int|
        0 <= i < columns.len() ==> columns[i].is_held_by(#[trigger] arrays[inputs.len() + i])
}

/// Whether appending the columns of answers to a batch may fail with this error.
pub open spec fn appending_fails<E>(
    ops: Seq<StateOp<E>>,
    batch: Batch,
    columns: Seq<ResultColumn>,
    error: ArrowError,
) -> bool {
    exists|arrays: Seq<ColumnarValue>|
        {
            &&& #[trigger] appends(batch, columns, arrays)
            &&& batch_fails(batch_fields(batch) + result_fields(ops), arrays, error)
        }
}

/// Whether a batch is another one with the columns of answers appended.
pub open spec fn is_intermediate<E>(
    ops: Seq<StateOp<E>>,
    batch: Batch,
    columns: Seq<ResultColumn>,
    intermediate: Batch,
) -> bool {
    &&& extends(ops, batch, intermediate)
    &&& batch_fields(intermediate) == batch_fields(batch) + result_fields(ops)
    &&& forall|i: int|
        0 <= i < ops.len() ==> is_result_field(#[trigger] ops[i], *result_fields(ops)[i])
    &&& appends(batch, columns, batch_columns(intermediate))
}

/// Appends the operations' output fields.
fn add_result_fields<E>(base: Vec<Arc<Field>>, ops: &Vec<StateOp<E>>) -> (fields: Vec<Arc<Field>>)
    ensures
        fields@ == base@ + result_fields(ops@),
        forall|i: int|
            0 <= i < ops@.len() ==> is_result_field(#[trigger] ops@[i], *result_fields(ops@)[i]),
{
    let mut fields = base;
    let ghost inputs = fields@;
    assert(fields@ =~= inputs + result_fields(ops@).take(0));
    for i in 0..ops.len()
        invariant
            fields@ == inputs + result_fields(ops@).take(i as int),
            forall|j: int|
                0 <= j < i ==> is_result_field(#[trigger] ops@[j], *result_fields(ops@)[j]),
    {
        let op = &ops[i];
        let field = make_result_field(op.output_field.as_str(), op.op_type.column_type());
        fields.push(Arc::new(field));
        assert(fields@ =~= inputs + result_fields(ops@).take(i + 1));
    }
    assert(result_fields(ops@).take(ops@.len() as int) =~= result_fields(ops@));
    fields
}

impl<E> StatefulProcessorFunc<E> {
    /// The maps.
    pub closed spec fn state(self) -> StateView {
        self.state@
    }

    /// The names of the maps, as configured.
    pub closed spec fn map_names_view(self) -> Seq<String> {
        self.map_names@
    }

    /// The operations.
    pub closed spec fn ops(self) -> Seq<StateOp<E>> {
        self.ops@
    }

    /// The expressions of the final projection.
    pub closed spec fn final_exprs(self) -> Seq<E> {
        self.final_exprs@
    }

    /// The encoded expressions of the final projection.
    pub closed spec fn final_exprs_bytes(self) -> Seq<Vec<u8>> {
        self.final_exprs_bytes@
    }

    /// The schema of the input.
    pub closed spec fn input_schema(self) -> Schema {
        *self.input_schema
    }

    /// Whether there is a map for exactly each configured name.
    pub closed spec fn wf(self) -> bool {
        &&& self.state.wf()
        &&& self.state@.dom() == name_set(self.map_names@)
    }

    /// Whether everything but the maps is the same.
    pub open spec fn same_config(self, other: Self) -> bool {
        &&& self.map_names_view() == other.map_names_view()
        &&& self.ops() == other.ops()
        &&& self.final_exprs() == other.final_exprs()
        &&& self.final_exprs_bytes() == other.final_exprs_bytes()
        &&& self.input_schema() == other.input_schema()
    }

    /// There is a map for exactly each configured name.
    pub proof fn law_one_map_per_name(self)
        requires
            self.wf(),
        ensures
            self.state().dom() == name_set(self.map_names_view()),
    {
    }

    /// An operator with nothing in its maps and its final projection still encoded.
    pub fn new(
        map_names: Vec<String>,
        ops: Vec<StateOp<E>>,
        final_exprs_bytes: Vec<Vec<u8>>,
        input_schema: Arc<Schema>,
    ) -> (func: StatefulProcessorFunc<E>)
        ensures
            func.wf(),
            func.ops() == ops@,
            func.map_names_view() == map_names@,
            func.state() == empty_maps(name_set(map_names@)),
            func.final_exprs().len() == 0,
            func.final_exprs_bytes() == final_exprs_bytes@,
            func.input_schema() == *input_schema,
    {
        let mut state = StateMaps::new();
        let ghost texts = name_texts(map_names@);
        assert(state@ =~= empty_maps(texts.take(0).to_set()));
        for i in 0..map_names.len()
            invariant
                state.wf(),
                texts == name_texts(map_names@),
                state@ == empty_maps(texts.take(i as int).to_set()),
        {
            let ghost before = state@;
            state.add_map(map_names[i].as_str());
            proof {
                lemma_take_set(texts, i as int);
                assert(state@ =~= empty_maps(texts.take(i + 1).to_set()));
            }
        }
        assert(texts.take(texts.len() as int) =~= texts);
        let func = StatefulProcessorFunc {
            state,
            map_names,
            ops,
            final_exprs: Vec::new(),
            final_exprs_bytes,
            input_schema,
        };
        assert(func.state@.dom() =~= name_set(map_names@));
        func
    }

    /// Runs the operations over `num_rows` rows of evaluated columns: rows in order, and within
    /// a row the operations in order, each one seeing what the ones before it wrote.
    pub fn process_rows(&mut self, num_rows: usize, evaluated: &Vec<EvaluatedOp>) -> (columns: Vec<
        ResultColumn,
    >)
        requires
            old(self).wf(),
            all_reach(old(self).ops(), evaluated@, num_rows),
            num_rows > 0 ==> maps_known(old(self).state(), plan_of(old(self).ops())),
        ensures
            final(self).wf(),
            final(self).same_config(*old(self)),
            final(self).state() == run_rows(
                old(self).state(),
                plan_of(old(self).ops()),
                rows_of(old(self).ops(), evaluated@, num_rows),
            ),
            columns_answer(old(self).state(), old(self).ops(), evaluated@, num_rows, columns@),
    {
        let ghost start = self.state@;
        let ghost ops = self.ops@;
        let ghost plan = plan_of(self.ops@);
        let ghost rows = rows_of(self.ops@, evaluated@, num_rows);
        let count: usize = self.ops.len();
        let mut columns: Vec<ResultColumn> = Vec::with_capacity(count);
        for i in 0..count
            invariant
                count == self.ops@.len(),
                columns@.len() == i,
                forall|j: int|
                    0 <= j < i ==> {
                        &&& (#[trigger] columns@[j]).kind() == self.ops@[j].op_type.answers()
                        &&& columns@[j].cells() == Seq::<Cell>::empty()
                    },
        {
            columns.push(ResultColumn::new(self.ops[i].op_type.column_type()));
        }
        assert(rows.take(0) =~= Seq::empty());
        for row in 0..num_rows
            invariant
                self.state.wf(),
                self.same_config(*old(self)),
                ops == self.ops@,
                plan == plan_of(ops),
                rows == rows_of(ops, evaluated@, num_rows),
                count == ops.len(),
                all_reach(ops, evaluated@, num_rows),
                num_rows > 0 ==> maps_known(start, plan),
                self.state@ == run_rows(start, plan, rows.take(row as int)),
                columns@.len() == count,
                forall|i: int|
                    0 <= i < count ==> {
                        &&& (#[trigger] columns@[i]).kind() == ops[i].op_type.answers()
                        &&& columns@[i].cells() == column(start, plan, rows, i).take(row as int)
                    },
        {
            let ghost row_start = self.state@;
            proof {
                lemma_run_rows_dom(start, plan, rows.take(row as int));
                assert(rows.take(row + 1).drop_last() =~= rows.take(row as int));
                assert(rows.take(row + 1).last() == rows[row as int]);
            }
            for i in 0..count
                invariant
                    self.state.wf(),
                    self.same_config(*old(self)),
                    ops == self.ops@,
                    plan == plan_of(ops),
                    rows == rows_of(ops, evaluated@, num_rows),
                    count == ops.len(),
                    row < num_rows,
                    all_reach(ops, evaluated@, num_rows),
                    maps_known(start, plan),
                    row_start == run_rows(start, plan, rows.take(row as int)),
                    row_start.dom() == start.dom(),
                    self.state@ == run_ops(row_start, plan, rows[row as int], i as nat),
                    columns@.len() == count,
                    forall|j: int|
                        0 <= j < count ==> {
                            &&& (#[trigger] columns@[j]).kind() == ops[j].op_type.answers()
                            &&& columns@[j].cells() == column(start, plan, rows, j).take(
                                if j < i {
                                    row + 1
                                } else {
                                    row as int
                                },
                            )
                        },
            {
                let op_type = self.ops[i].op_type;
                proof {
                    assert(evaluated@[i as int].reaches(ops[i as int].op_type, num_rows));
                    assert(start.contains_key(plan[i as int].map));
                    assert forall|j: int| 0 <= j < plan.len() implies row_start.contains_key(
                        #[trigger] plan[j].map,
                    ) by {
                        assert(start.contains_key(plan[j].map));
                    }
                    lemma_run_ops_dom(row_start, plan, rows[row as int], i as nat);
                    assert(self.state@.contains_key(plan[i as int].map));
                }
                let args = evaluated[i].row_args(op_type, row);
                let ghost args_view = args@;
                assert(args_view == rows[row as int][i as int]);
                let ghost before = self.state@;
                let result = self.state.apply(self.ops[i].map_name.as_str(), op_type, args);
                assert(result@ == cell(start, plan, rows, row as int, i as int));
                let ghost columns_before = columns@;
                columns[i].push(result);
                proof {
                    assert(column(start, plan, rows, i as int).take(row + 1) =~= column(
                        start,
                        plan,
                        rows,
                        i as int,
                    ).take(row as int).push(cell(start, plan, rows, row as int, i as int)));
                }
            }
        }
        proof {
            assert(rows.take(num_rows as int) =~= rows);
            assert forall|i: int| 0 <= i < columns@.len() implies {
                &&& (#[trigger] columns@[i]).kind() == ops[i].op_type.answers()
                &&& columns@[i].cells() == column(start, plan, rows, i)
            } by {
                assert(column(start, plan, rows, i).take(num_rows as int) =~= column(
                    start,
                    plan,
                    rows,
                    i,
                ));
            }
            if num_rows > 0 {
                lemma_run_rows_dom(start, plan, rows);
            }
            assert(self.state@.dom() =~= start.dom());
        }
        columns
    }

    /// Evaluates every operation's expressions over a batch: operation by operation, the key,
    /// then the value, then the condition. The first failure ends it.
    pub fn evaluate_ops<F: Fn(&E, &Batch) -> Result<ColumnarValue, DataFusionError>>(
        &self,
        batch: &Batch,
        eval: &F,
    ) -> (evaluated: Result<Vec<EvaluatedOp>, DataFusionError>)
        requires
            ops_expand_on(*eval, self.ops(), *batch),
        ensures
            match evaluated {
                Ok(columns) => ops_evaluate(*eval, self.ops(), *batch, columns@),
                Err(error) => ops_fail(*eval, self.ops(), *batch, error),
            },
    {
        let mut evaluated: Vec<EvaluatedOp> = Vec::with_capacity(self.ops.len());
        for i in 0..self.ops.len()
            invariant
                ops_expand_on(*eval, self.ops(), *batch),
                ops_evaluate(*eval, self.ops@.take(i as int), *batch, evaluated@),
        {
            let op = &self.ops[i];
            proof {
                assert(op_expands_on(*eval, self.ops@[i as int], *batch));
                assert(op_reached(*eval, self.ops@, *batch, i as int));
            }
            let key_array = match evaluate(eval, &op.key_expr, batch) {
                Ok(array) => array,
                Err(error) => {
                    assert(op_fails(*eval, self.ops@[i as int], *batch, error));
                    return Err(error);
                },
            };
            assert(evaluates(*eval, op.key_expr, *batch, key_array));
            let value_array = match evaluate_optional(eval, &op.value_expr, batch) {
                Ok(array) => array,
                Err(error) => {
                    assert(op_fails(*eval, self.ops@[i as int], *batch, error));
                    return Err(error);
                },
            };
            assert(optional_evaluates(*eval, op.value_expr, *batch, value_array));
            let condition_array = match evaluate_optional(eval, &op.condition_expr, batch) {
                Ok(array) => array,
                Err(error) => {
                    assert(op_fails(*eval, self.ops@[i as int], *batch, error));
                    return Err(error);
                },
            };
            evaluated.push(EvaluatedOp { key_array, value_array, condition_array });
        }
        assert(self.ops@.take(self.ops@.len() as int) =~= self.ops@);
        Ok(evaluated)
    }

    /// Appends the columns of answers to a batch, under the operations' output fields.
    pub fn intermediate_batch(&self, batch: &Batch, columns: &Vec<ResultColumn>) -> (made: Result<
        Batch,
        ArrowError,
    >)
        requires
            columns_match(self.ops(), *batch, columns@),
        ensures
            made is Ok <==> takes_columns(self.ops(), *batch),
            made matches Ok(intermediate) ==> is_intermediate(
                self.ops(),
                *batch,
                columns@,
                intermediate,
            ),
            made matches Err(error) ==> appending_fails(self.ops(), *batch, columns@, error),
    {
        let fields = add_result_fields(fields_of(&batch.schema()), &self.ops);
        let mut arrays = batch.columns();
        let ghost inputs = arrays@;
        let count: usize = columns.len();
        for i in 0..count
            invariant
                count == columns@.len(),
                columns_match(self.ops(), *batch, columns@),
                arrays@.len() == inputs.len() + i,
                arrays@.take(inputs.len() as int) == inputs,
                forall|j: int|
                    0 <= j < i ==> columns@[j].is_held_by(#[trigger] arrays@[inputs.len() + j]),
        {
            let ghost before = arrays@;
            assert(columns@[i as int].fits());
            arrays.push(columns[i].finish());
            proof {
                assert(arrays@.take(inputs.len() as int) =~= inputs);
                assert forall|j: int| 0 <= j < i + 1 implies columns@[j].is_held_by(
                    #[trigger] arrays@[inputs.len() + j],
                ) by {
                    if j < i {
                        assert(arrays@[inputs.len() + j] == before[inputs.len() + j]);
                    }
                }
            }
        }
        let schema = make_schema(fields);
        let ghost all_arrays = arrays@;
        proof {
            let all_fields = schema_fields(schema);
            let k = inputs.len() as int;
            assert(all_fields == batch_fields(*batch) + result_fields(self.ops()));
            assert forall|i: int| 0 <= i < arrays@.len() implies array_len(
                #[trigger] arrays@[i],
            ) == Some(batch_rows(*batch) as nat) by {
                if i < k {
                    assert(arrays@.take(k)[i] == arrays@[i]);
                    assert(array_len(inputs[i]) == Some(batch_rows(*batch) as nat));
                } else {
                    assert(columns@[i - k].is_held_by(arrays@[k + (i - k)]));
                    assert(columns@[i - k].cells().len() == batch_rows(*batch));
                }
            }
            assert forall|i: int| 0 <= i < arrays@.len() && takes_columns(
                self.ops(),
                *batch,
            ) implies column_fits(#[trigger] arrays@[i], *all_fields[i]) by {
                if i < k {
                    assert(arrays@.take(k)[i] == arrays@[i]);
                    assert(column_fits(batch_columns(*batch)[i], *batch_fields(*batch)[i]));
                } else {
                    let j = i - k;
                    assert(columns@[j].is_held_by(arrays@[k + j]));
                    assert(is_result_field(self.ops()[j], *result_fields(self.ops())[j]));
                    assert(all_fields[k + j] == result_fields(self.ops())[j]);
                    assert(columns@[j].kind() == self.ops()[j].op_type.answers());
                }
            }
            if valid_batch(all_fields, arrays@) {
                assert forall|i: int| 0 <= i < batch_columns(*batch).len() implies column_fits(
                    #[trigger] batch_columns(*batch)[i],
                    *batch_fields(*batch)[i],
                ) by {
                    assert(arrays@.take(k)[i] == arrays@[i]);
                    assert(column_fits(arrays@[i], *all_fields[i]));
                }
            }
        }
        let made = Batch::try_new(Arc::new(schema), arrays);
        proof {
            assert(appends(*batch, columns@, all_arrays));
            if made is Err {
                assert(batch_fails(
                    batch_fields(*batch) + result_fields(self.ops()),
                    all_arrays,
                    made->Err_0,
                ));
            }
        }
        made
    }

    /// Makes the batch that goes out: the input with the answers appended or, where there is a
    /// final projection, what it makes of that.
    pub fn emit_batch<
        F: Fn(&E, &Batch) -> Result<ColumnarValue, DataFusionError>,
        G: Fn(&E, &Schema) -> Result<ExprField, DataFusionError>,
    >(&self, batch: &Batch, columns: &Vec<ResultColumn>, eval: &F, describe: &G) -> (emitted: Result<
        Batch,
        ProcessError,
    >)
        requires
            columns_match(self.ops(), *batch, columns@),
            projection_expands(*eval, *describe, self.ops(), self.final_exprs(), *batch),
        ensures
            emits(
                *eval,
                *describe,
                self.ops(),
                self.final_exprs(),
                *batch,
                columns@,
                emitted,
            ),
    {
        match self.intermediate_batch(batch, columns) {
            Ok(intermediate) => {
                assert(extends(self.ops(), *batch, intermediate));
                if self.final_exprs.len() == 0 {
                    Ok(intermediate)
                } else {
                    let projected = project(&self.final_exprs, &intermediate, eval, describe);
                    assert(is_intermediate(self.ops(), *batch, columns@, intermediate));
                    projected
                }
            },
            Err(error) => Err(ProcessError::Batch(error)),
        }
    }

    /// Processes a batch: evaluates the operations over it, runs them over its rows, and makes
    /// the batch that goes out. Where an operation's expression fails, nothing has changed; where
    /// the outgoing batch cannot be made, the rows have run all the same.
    pub fn process_batch<
        F: Fn(&E, &Batch) -> Result<ColumnarValue, DataFusionError>,
        G: Fn(&E, &Schema) -> Result<ExprField, DataFusionError>,
    >(&mut self, batch: &Batch, eval: &F, describe: &G) -> (outcome: Result<
        BatchOutcome,
        ProcessError,
    >)
        requires
            old(self).wf(),
            ops_expand_on(*eval, old(self).ops(), *batch),
            projection_expands(
                *eval,
                *describe,
                old(self).ops(),
                old(self).final_exprs(),
                *batch,
            ),
        ensures
            final(self).wf(),
            final(self).same_config(*old(self)),
            batch_gives(*eval, *describe, *old(self), *batch, final(self).state(), outcome),
    {
        let num_rows: usize = batch.num_rows();
        let evaluated = match self.evaluate_ops(batch, eval) {
            Ok(evaluated) => evaluated,
            Err(error) => {
                return Err(ProcessError::Expression(error));
            },
        };
        assert(ops_evaluate(*eval, old(self).ops(), *batch, evaluated@));
        if num_rows > 0 && !self.check_maps() {
            return Ok(BatchOutcome::UnknownMap);
        }
        if !self.check_evaluated(&evaluated, num_rows) {
            return Ok(BatchOutcome::ShortColumn);
        }
        let columns = self.process_rows(num_rows, &evaluated);
        assert(columns_answer(
            old(self).state(),
            old(self).ops(),
            evaluated@,
            num_rows,
            columns@,
        ));
        for i in 0..columns.len()
            invariant
                forall|j: int| 0 <= j < i ==> (#[trigger] columns@[j]).fits(),
                self.wf(),
                self.same_config(*old(self)),
                num_rows == batch_rows(*batch),
                projection_expands(
                    *eval,
                    *describe,
                    old(self).ops(),
                    old(self).final_exprs(),
                    *batch,
                ),
                ops_evaluate(*eval, old(self).ops(), *batch, evaluated@),
                num_rows > 0 ==> maps_known(old(self).state(), plan_of(old(self).ops())),
                all_reach(old(self).ops(), evaluated@, num_rows),
                columns_answer(
                    old(self).state(),
                    old(self).ops(),
                    evaluated@,
                    num_rows,
                    columns@,
                ),
                self.state() == run_rows(
                    old(self).state(),
                    plan_of(old(self).ops()),
                    rows_of(old(self).ops(), evaluated@, num_rows),
                ),
        {
            if !columns[i].check_fits() {
                assert(!all_fit(columns@)) by {
                    assert(!columns@[i as int].fits());
                }
                assert(rows_give(
                    *eval,
                    *describe,
                    *old(self),
                    *batch,
                    evaluated@,
                    self.state(),
                    Ok(BatchOutcome::LongColumn),
                ));
                return Ok(BatchOutcome::LongColumn);
            }
        }
        assert(all_fit(columns@));
        assert(columns_match(self.ops(), *batch, columns@)) by {
            assert forall|i: int| 0 <= i < columns@.len() implies (
            #[trigger] columns@[i]).cells().len() == batch_rows(*batch) by {}
        }
        match self.emit_batch(batch, &columns, eval, describe) {
            Ok(made) => Ok(BatchOutcome::Emitted(made)),
            Err(error) => Err(error),
        }
    }

    /// Takes over the entries of a map from its table.
    pub fn restore_map(&mut self, map_name: &str, entries: Vec<(String, Option<String>)>)
        requires
            old(self).wf(),
            old(self).state().contains_key(map_name@),
        ensures
            final(self).wf(),
            final(self).same_config(*old(self)),
            final(self).state() == take_over(
                old(self).state(),
                map_name@,
                entries_map(entry_texts(entries@)),
            ),
    {
        self.state.restore(map_name, entries);
        assert(self.state@.dom() =~= old(self).state@.dom());
    }

    /// Parses the expressions of the final projection, now against the intermediate schema: the
    /// input's fields followed by one for each operation. Nothing changes where one fails.
    pub fn on_start<P: Fn(&PhysicalExprNode, &Schema) -> Result<E, DataFusionError>>(
        &mut self,
        parse: &P,
    ) -> (started: Result<(), ExprError>)
        requires
            parses_all::<E, P>(*parse),
        ensures
            final(self).wf() == old(self).wf(),
            final(self).state() == old(self).state(),
            final(self).map_names_view() == old(self).map_names_view(),
            final(self).ops() == old(self).ops(),
            final(self).final_exprs_bytes() == old(self).final_exprs_bytes(),
            final(self).input_schema() == old(self).input_schema(),
            start_gives(*parse, *old(self), final(self).final_exprs(), started),
    {
        if self.final_exprs_bytes.len() > 0 {
            let fields = add_result_fields(fields_of(&self.input_schema), &self.ops);
            let schema = make_schema(fields);
            let mut exprs: Vec<E> = Vec::with_capacity(self.final_exprs_bytes.len());
            for i in 0..self.final_exprs_bytes.len()
                invariant
                    parses_all::<E, P>(*parse),
                    *self == *old(self),
                    schema == intermediate_schema(
                        schema_fields(old(self).input_schema()),
                        old(self).ops(),
                    ),
                    exprs_parse(*parse, self.final_exprs_bytes@.take(i as int), schema, exprs@),
            {
                let bytes = &self.final_exprs_bytes[i];
                match parse_expr(bytes, &schema, parse) {
                    Ok(expr) => {
                        exprs.push(expr);
                    },
                    Err(error) => {
                        proof {
                            let all = self.final_exprs_bytes@;
                            assert(parse_fails(*parse, all[i as int]@, schema, error));
                            assert(exprs_parse(*parse, all.take(i as int), schema, exprs@));
                        }
                        return Err(error);
                    },
                }
            }
            assert(self.final_exprs_bytes@.take(self.final_exprs_bytes@.len() as int)
                =~= self.final_exprs_bytes@);
            self.final_exprs = exprs;
        }
        Ok(())
    }
}

impl<E> StatefulProcessorFunc<E> {
    /// The name of the operator.
    pub fn name(&self) -> (name: String)
        ensures
            name@ == "stateful_processor"@,
    {
        "stateful_processor".to_owned()
    }

    /// The names of the maps, as configured.
    pub fn map_names(&self) -> (names: &Vec<String>)
        ensures
            names@ == self.map_names_view(),
    {
        &self.map_names
    }

    /// A table for each map, with its description.
    pub fn tables(&self) -> (tables: Vec<(String, String)>)
        ensures
            tables@.len() == self.map_names_view().len(),
            forall|i: int|
                0 <= i < tables@.len() ==> {
                    &&& (#[trigger] tables@[i]).0 == self.map_names_view()[i]
                    &&& tables@[i].1@ == table_description(self.map_names_view()[i]@)
                },
    {
        let mut tables: Vec<(String, String)> = Vec::with_capacity(self.map_names.len());
        for i in 0..self.map_names.len()
            invariant
                tables@.len() == i,
                forall|j: int|
                    0 <= j < i ==> {
                        &&& (#[trigger] tables@[j]).0 == self.map_names@[j]
                        &&& tables@[j].1@ == table_description(self.map_names@[j]@)
                    },
        {
            let name = &self.map_names[i];
            let mut description = "stateful processor map: ".to_owned();
            description.append(name.as_str());
            tables.push((name.clone(), description));
        }
        tables
    }

    /// Whether every operation has its map.
    pub fn check_maps(&self) -> (known: bool)
        ensures
            known == maps_known(self.state(), plan_of(self.ops())),
    {
        for i in 0..self.ops.len()
            invariant
                forall|j: int|
                    0 <= j < i ==> self.state@.contains_key(#[trigger] plan_of(self.ops@)[j].map),
        {
            if !self.state.contains(self.ops[i].map_name.as_str()) {
                assert(!self.state@.contains_key(plan_of(self.ops@)[i as int].map));
                return false;
            }
        }
        true
    }

    /// Whether every operation's columns have at least so many slots.
    pub fn check_evaluated(&self, evaluated: &Vec<EvaluatedOp>, num_rows: usize) -> (reach: bool)
        requires
            evaluated@.len() == self.ops().len(),
        ensures
            reach == all_reach(self.ops(), evaluated@, num_rows),
    {
        for i in 0..self.ops.len()
            invariant
                evaluated@.len() == self.ops@.len(),
                forall|j: int|
                    0 <= j < i ==> (#[trigger] evaluated@[j]).reaches(
                        self.ops@[j].op_type,
                        num_rows,
                    ),
        {
            if !evaluated[i].check_reaches(self.ops[i].op_type, num_rows) {
                assert(!evaluated@[i as int].reaches(self.ops@[i as int].op_type, num_rows));
                return false;
            }
        }
        true
    }

    /// What a checkpoint writes: for each map with keys written since the last one, in the order
    /// of the configured names, those keys with their entries, tombstones included.
    pub fn handle_checkpoint(&self) -> (writes: Vec<TableWrites>)
        requires
            self.wf(),
        ensures
            is_checkpoint(self.state(), name_texts(self.map_names_view()), writes@),
    {
        let mut writes: Vec<TableWrites> = Vec::new();
        let ghost names = name_texts(self.map_names@);
        let ghost dirty = |name: Seq<char>| has_dirty(self.state(), name);
        proof {
            assert(names.take(0).filter(dirty) =~= Seq::empty()) by {
                reveal(Seq::filter);
            }
            assert(written_names(writes@) =~= Seq::empty());
        }
        for i in 0..self.map_names.len()
            invariant
                self.wf(),
                names == name_texts(self.map_names@),
                dirty == (|name: Seq<char>| has_dirty(self.state(), name)),
                written_names(writes@) == names.take(i as int).filter(dirty),
                forall|j: int|
                    0 <= j < writes@.len() ==> {
                        &&& distinct_keys(entry_texts((#[trigger] writes@[j]).entries@))
                        &&& entries_map(entry_texts(writes@[j].entries@))
                            == self.state()[writes@[j].map_name@].dirty_entries()
                    },
        {
            let name = &self.map_names[i];
            let ghost before = writes@;
            proof {
                assert(names[i as int] == name@);
                assert(name_set(self.map_names@).contains(names[i as int]));
                assert(self.state@.contains_key(name@));
                let now = names.take(i + 1);
                assert(now.drop_last() =~= names.take(i as int));
                assert(now.last() == name@);
                reveal(Seq::filter);
            }
            if let Some(map) = self.state.map(name.as_str()) {
                if map.has_dirty() {
                    writes.push(
                        TableWrites { map_name: name.clone(), entries: map.dirty_entries() },
                    );
                    assert(written_names(writes@) =~= written_names(before).push(name@));
                }
            }
        }
        assert(names.take(names.len() as int) =~= names);
        writes
    }

    /// Forgets which keys were written, after a checkpoint has written them.
    pub fn finish_checkpoint(&mut self)
        requires
            old(self).wf(),
        ensures
            final(self).wf(),
            final(self).same_config(*old(self)),
            final(self).state() == saved(old(self).state()),
    {
        self.state.clear_dirty();
        assert(self.state@.dom() =~= old(self).state@.dom());
    }
}

/// How a map's table is described.
pub open spec fn table_description(name: Seq<char>) -> Seq<char> {
    "stateful processor map: "@ + name
}

/// What came of a batch.
pub enum BatchOutcome {
    /// The batch that goes out.
    Emitted(Batch),
    /// An operation has no map: no row was run.
    UnknownMap,
    /// A column that an operation reads is shorter than the batch: no row was run.
    ShortColumn,
    /// The answers of an operation are too long together for a string array.
    LongColumn,
}

/// Whether every column of answers fits an array.
pub open spec fn all_fit(columns: Seq<ResultColumn>) -> bool {
    forall|i: int| 0 <= i < columns.len() ==> (#[trigger] columns[i]).fits()
}

/// What may go out for a batch and its answers: the batch with the answers appended or, where
/// there is a final projection, what it makes of that.
pub open spec fn emits<
    E,
    F: Fn(&E, &Batch) -> Result<ColumnarValue, DataFusionError>,
    G: Fn(&E, &Schema) -> Result<ExprField, DataFusionError>,
>(
    eval: F,
    describe: G,
    ops: Seq<StateOp<E>>,
    final_exprs: Seq<E>,
    batch: Batch,
    columns: Seq<ResultColumn>,
    emitted: Result<Batch, ProcessError>,
) -> bool {
    if takes_columns(ops, batch) {
        exists|intermediate: Batch|
            {
                &&& #[trigger] is_intermediate(ops, batch, columns, intermediate)
                &&& if final_exprs.len() == 0 {
                    emitted matches Ok(made) && made == intermediate
                } else {
                    projection_gives(eval, describe, final_exprs, intermediate, emitted)
                }
            }
    } else {
        emitted matches Err(ProcessError::Batch(error)) && appending_fails(
            ops,
            batch,
            columns,
            error,
        )
    }
}

/// What may come of a batch once the operations are evaluated over it.
pub open spec fn rows_give<
    E,
    F: Fn(&E, &Batch) -> Result<ColumnarValue, DataFusionError>,
    G: Fn(&E, &Schema) -> Result<ExprField, DataFusionError>,
>(
    eval: F,
    describe: G,
    before: StatefulProcessorFunc<E>,
    batch: Batch,
    evaluated: Seq<EvaluatedOp>,
    after: StateView,
    outcome: Result<BatchOutcome, ProcessError>,
) -> bool {
    let num_rows = batch_rows(batch);
    let ops = before.ops();
    if num_rows > 0 && !maps_known(before.state(), plan_of(ops)) {
        outcome matches Ok(BatchOutcome::UnknownMap) && after == before.state()
    } else if !all_reach(ops, evaluated, num_rows) {
        outcome matches Ok(BatchOutcome::ShortColumn) && after == before.state()
    } else {
        &&& after == run_rows(before.state(), plan_of(ops), rows_of(ops, evaluated, num_rows))
        &&& exists|columns: Seq<ResultColumn>|
            {
                &&& #[trigger] columns_answer(before.state(), ops, evaluated, num_rows, columns)
                &&& match outcome {
                    Ok(BatchOutcome::LongColumn) => !all_fit(columns),
                    Ok(BatchOutcome::Emitted(made)) => all_fit(columns) && emits(
                        eval,
                        describe,
                        ops,
                        before.final_exprs(),
                        batch,
                        columns,
                        Ok(made),
                    ),
                    Err(error) => all_fit(columns) && emits(
                        eval,
                        describe,
                        ops,
                        before.final_exprs(),
                        batch,
                        columns,
                        Err(error),
                    ),
                    _ => false,
                }
            }
    }
}

/// What may come of a batch: an operation's expression fails and nothing has changed, or all have
/// their columns and the rows give what they give.
pub open spec fn batch_gives<
    E,
    F: Fn(&E, &Batch) -> Result<ColumnarValue, DataFusionError>,
    G: Fn(&E, &Schema) -> Result<ExprField, DataFusionError>,
>(
    eval: F,
    describe: G,
    before: StatefulProcessorFunc<E>,
    batch: Batch,
    after: StateView,
    outcome: Result<BatchOutcome, ProcessError>,
) -> bool {
    ||| {
        &&& outcome matches Err(ProcessError::Expression(error)) && ops_fail(
            eval,
            before.ops(),
            batch,
            error,
        )
        &&& after == before.state()
    }
    ||| exists|evaluated: Seq<EvaluatedOp>|
        {
            &&& #[trigger] ops_evaluate(eval, before.ops(), batch, evaluated)
            &&& rows_give(eval, describe, before, batch, evaluated, after, outcome)
        }
}

/// What a checkpoint writes to one table.
#[derive(Debug, PartialEq, Eq)]
pub struct TableWrites {
    pub map_name: String,
    pub entries: Vec<(String, Option<String>)>,
}

/// Whether a key of this map was written since the last checkpoint.
pub open spec fn has_dirty(state: StateView, name: Seq<char>) -> bool {
    !(state[name].dirty =~= Set::empty())
}

/// Whether these are the writes of a checkpoint: to the table of each map that has keys written
/// since the last one, in the order of the names, exactly those keys with their entries.
pub open spec fn is_checkpoint(
    state: StateView,
    names: Seq<Seq<char>>,
    writes: Seq<TableWrites>,
) -> bool {
    &&& written_names(writes) == names.filter(|name: Seq<char>| has_dirty(state, name))
    &&& forall|i: int|
        0 <= i < writes.len() ==> {
            &&& distinct_keys(entry_texts((#[trigger] writes[i]).entries@))
            &&& entries_map(entry_texts(writes[i].entries@))
                == state[writes[i].map_name@].dirty_entries()
        }
}

/// The tables that a checkpoint writes to.
pub open spec fn written_names(writes: Seq<TableWrites>) -> Seq<Seq<char>> {
    writes.map_values(|write: TableWrites| write.map_name@)
}

/// What a start may give: the projection read against the schema that it will meet, or an error
/// with the projection as it was. Without an encoded projection nothing is read.
pub open spec fn start_gives<E, P: Fn(&PhysicalExprNode, &Schema) -> Result<E, DataFusionError>>(
    parse: P,
    before: StatefulProcessorFunc<E>,
    final_exprs: Seq<E>,
    started: Result<(), ExprError>,
) -> bool {
    let schema = intermediate_schema(schema_fields(before.input_schema()), before.ops());
    if before.final_exprs_bytes().len() == 0 {
        started is Ok && final_exprs == before.final_exprs()
    } else {
        match started {
            Ok(()) => exprs_parse(parse, before.final_exprs_bytes(), schema, final_exprs),
            Err(error) => {
                &&& final_exprs == before.final_exprs()
                &&& exprs_fail(parse, before.final_exprs_bytes(), schema, error)
            },
        }
    }
}

/// Whether encoded expressions may give these expressions over a schema.
pub open spec fn exprs_parse<E, P: Fn(&PhysicalExprNode, &Schema) -> Result<E, DataFusionError>>(
    parse: P,
    encoded: Seq<Vec<u8>>,
    schema: Schema,
    exprs: Seq<E>,
) -> bool {
    &&& exprs.len() == encoded.len()
    &&& forall|i: int|
        0 <= i < exprs.len() ==> parses(parse, encoded[i]@, schema, #[trigger] exprs[i])
}

/// Whether encoded expressions may give this error, at the first one that fails.
pub open spec fn exprs_fail<E, P: Fn(&PhysicalExprNode, &Schema) -> Result<E, DataFusionError>>(
    parse: P,
    encoded: Seq<Vec<u8>>,
    schema: Schema,
    error: ExprError,
) -> bool {
    exists|i: int, before: Seq<E>|
        {
            &&& 0 <= i < encoded.len()
            &&& #[trigger] exprs_parse(parse, encoded.take(i), schema, before)
            &&& parse_fails(parse, encoded[i]@, schema, error)
        }
}

} // verus!
