use std::sync::Arc;

use arrow_array::{Array, ArrayRef, BooleanArray, Int64Array, RecordBatch, RecordBatchOptions, StringArray};
use arrow_schema::{DataType, Field, Schema};
use datafusion::common::ScalarValue;
use datafusion::error::DataFusionError;
use datafusion::logical_expr::ColumnarValue;
use datafusion::physical_expr::expressions::{lit, Column};
use datafusion::physical_expr::PhysicalExpr;

use stateful_processor::columns::Batch;
use stateful_processor::evaluation::{ExprField, ProcessError};
use stateful_processor::ops::StateOpType;
use stateful_processor::processor::{BatchOutcome, StateOp, StatefulProcessorFunc, TableWrites};
use stateful_processor::results::{extract_boolean, extract_string, EvaluatedOp, ResultColumn};

type Physical = Arc<dyn PhysicalExpr>;
type Func = StatefulProcessorFunc<Physical>;

fn eval(expr: &Physical, batch: &Batch) -> Result<ColumnarValue, DataFusionError> {
    expr.evaluate(&batch.batch)
}

fn describe(expr: &Physical, schema: &Schema) -> Result<ExprField, DataFusionError> {
    Ok(ExprField {
        name: expr.to_string(),
        data_type: expr.data_type(schema)?,
        nullable: expr.nullable(schema)?,
    })
}

fn column(name: &str, index: usize) -> Physical {
    Arc::new(Column::new(name, index))
}

fn text(s: &str) -> Option<String> {
    Some(s.to_string())
}

fn input_schema() -> Arc<Schema> {
    Arc::new(Schema::new(vec![
        Field::new("k", DataType::Utf8, true),
        Field::new("v", DataType::Utf8, true),
        Field::new("c", DataType::Boolean, true),
    ]))
}

fn batch(keys: Vec<Option<&str>>, values: Vec<Option<&str>>, conditions: Vec<Option<bool>>) -> Batch {
    let columns: Vec<ArrayRef> = vec![
        Arc::new(StringArray::from(keys)),
        Arc::new(StringArray::from(values)),
        Arc::new(BooleanArray::from(conditions)),
    ];
    Batch { batch: RecordBatch::try_new(input_schema(), columns).unwrap() }
}

fn op(map: &str, op_type: StateOpType, output: &str) -> StateOp<Physical> {
    let reads_value = matches!(
        op_type,
        StateOpType::StatePut | StateOpType::StateUpsert | StateOpType::StateUpdate
    );
    StateOp {
        map_name: map.to_string(),
        op_type,
        key_expr: column("k", 0),
        value_expr: if reads_value { Some(column("v", 1)) } else { None },
        condition_expr: if op_type == StateOpType::StateUpdate { Some(column("c", 2)) } else { None },
        output_field: output.to_string(),
    }
}

fn func(maps: Vec<&str>, ops: Vec<StateOp<Physical>>) -> Func {
    let names = maps.into_iter().map(|m| m.to_string()).collect();
    StatefulProcessorFunc::new(names, ops, vec![], input_schema())
}

fn emitted(outcome: Result<BatchOutcome, ProcessError>) -> RecordBatch {
    match outcome {
        Ok(BatchOutcome::Emitted(made)) => made.batch,
        _ => panic!("no batch was emitted"),
    }
}

fn process(func: &mut Func, batch: &Batch) -> RecordBatch {
    emitted(func.process_batch(batch, &eval, &describe))
}

fn strings(batch: &RecordBatch, column: usize) -> Vec<Option<String>> {
    let array = batch.column(column).as_any().downcast_ref::<StringArray>().unwrap();
    array.iter().map(|s| s.map(|s| s.to_string())).collect()
}

fn booleans(batch: &RecordBatch, column: usize) -> Vec<Option<bool>> {
    let array = batch.column(column).as_any().downcast_ref::<BooleanArray>().unwrap();
    array.iter().collect()
}

fn writes(map: &str, entries: Vec<(&str, Option<&str>)>) -> TableWrites {
    TableWrites {
        map_name: map.to_string(),
        entries: entries
            .into_iter()
            .map(|(k, v)| (k.to_string(), v.map(|v| v.to_string())))
            .collect(),
    }
}

#[test]
fn operations_see_what_came_before() {
    let mut func = func(
        vec!["m"],
        vec![
            op("m", StateOpType::StateGet, "before"),
            op("m", StateOpType::StatePut, "wrote"),
            op("m", StateOpType::StateGet, "after"),
        ],
    );
    let input = batch(
        vec![Some("a"), Some("a"), Some("b")],
        vec![Some("1"), Some("2"), Some("3")],
        vec![None, None, None],
    );
    let out = process(&mut func, &input);
    assert_eq!(out.num_columns(), 6);
    assert_eq!(out.column(0), input.batch.column(0));
    assert_eq!(out.column(1), input.batch.column(1));
    assert_eq!(out.column(2), input.batch.column(2));
    assert_eq!(strings(&out, 3), vec![None, text("1"), None]);
    assert_eq!(strings(&out, 4), vec![text("1"), text("2"), text("3")]);
    assert_eq!(strings(&out, 5), vec![text("1"), text("2"), text("3")]);
}

#[test]
fn answers_stand_under_the_output_fields() {
    let mut func = func(
        vec!["m"],
        vec![op("m", StateOpType::StateGet, "got"), op("m", StateOpType::StateDelete, "gone")],
    );
    let out = process(&mut func, &batch(vec![Some("a")], vec![None], vec![None]));
    let schema = out.schema();
    assert_eq!(schema.field(0), input_schema().field(0));
    assert_eq!(schema.field(3), &Field::new("got", DataType::Utf8, true));
    assert_eq!(schema.field(4), &Field::new("gone", DataType::Boolean, true));
    assert_eq!(schema.fields().len(), 5);
}

#[test]
fn updates_and_deletes_answer_booleans() {
    let mut func = func(
        vec!["m"],
        vec![op("m", StateOpType::StateUpdate, "updated"), op("m", StateOpType::StateGet, "got")],
    );
    let input = batch(
        vec![Some("a"), Some("a"), Some("a"), None, Some("a")],
        vec![Some("1"), Some("2"), Some("3"), Some("4"), None],
        vec![Some(false), Some(true), None, Some(true), Some(true)],
    );
    let out = process(&mut func, &input);
    assert_eq!(
        booleans(&out, 3),
        vec![Some(false), Some(true), Some(false), Some(false), Some(false)]
    );
    assert_eq!(strings(&out, 4), vec![None, text("2"), text("2"), None, text("2")]);
    assert_eq!(out.column(3).null_count(), 0);
}

#[test]
fn upserts_answer_what_is_live() {
    let mut func = func(
        vec!["m"],
        vec![op("m", StateOpType::StateUpsert, "up"), op("m", StateOpType::StateDelete, "gone")],
    );
    let out = process(
        &mut func,
        &batch(vec![Some("a"), Some("a"), None], vec![Some("1"), None, Some("3")], vec![None; 3]),
    );
    assert_eq!(strings(&out, 3), vec![text("1"), None, None]);
    assert_eq!(booleans(&out, 4), vec![Some(true), Some(false), Some(false)]);
}

#[test]
fn maps_are_apart() {
    let mut func = func(
        vec!["m", "n"],
        vec![op("m", StateOpType::StatePut, "put"), op("n", StateOpType::StateGet, "got")],
    );
    let out = process(&mut func, &batch(vec![Some("a")], vec![Some("1")], vec![None]));
    assert_eq!(strings(&out, 3), vec![text("1")]);
    assert_eq!(strings(&out, 4), vec![None]);
}

#[test]
fn scalars_are_repeated() {
    let mut put = op("m", StateOpType::StatePut, "put");
    put.key_expr = lit("fixed");
    let mut update = op("m", StateOpType::StateUpdate, "updated");
    update.key_expr = lit("other");
    update.condition_expr = Some(lit(true));
    let mut func = func(vec!["m"], vec![put, update]);
    let out = process(&mut func, &batch(vec![None, None], vec![Some("1"), Some("2")], vec![None; 2]));
    assert_eq!(strings(&out, 3), vec![text("1"), text("2")]);
    assert_eq!(booleans(&out, 4), vec![Some(true), Some(true)]);
    assert_eq!(
        func.handle_checkpoint(),
        vec![writes("m", vec![("fixed", Some("2")), ("other", Some("2"))])]
    );
}

#[test]
fn columns_of_another_type_count_as_null() {
    let schema = Arc::new(Schema::new(vec![
        Field::new("k", DataType::Int64, false),
        Field::new("v", DataType::Utf8, false),
        Field::new("c", DataType::Int64, false),
    ]));
    let columns: Vec<ArrayRef> = vec![
        Arc::new(Int64Array::from(vec![1])),
        Arc::new(StringArray::from(vec!["x"])),
        Arc::new(Int64Array::from(vec![1])),
    ];
    let input = Batch { batch: RecordBatch::try_new(schema, columns).unwrap() };
    let mut condition = op("m", StateOpType::StateUpdate, "updated");
    condition.key_expr = column("v", 1);
    let mut func = func(vec!["m"], vec![op("m", StateOpType::StatePut, "put"), condition]);
    let out = process(&mut func, &input);
    assert_eq!(strings(&out, 3), vec![None]);
    assert_eq!(booleans(&out, 4), vec![Some(false)]);
    assert_eq!(func.handle_checkpoint(), vec![]);
}

#[test]
fn a_missing_value_expression_writes_nothing() {
    let mut put = op("m", StateOpType::StatePut, "put");
    put.value_expr = None;
    let mut func = func(vec!["m"], vec![put]);
    let out = process(&mut func, &batch(vec![Some("a")], vec![Some("1")], vec![None]));
    assert_eq!(strings(&out, 3), vec![None]);
    assert_eq!(func.handle_checkpoint(), vec![]);
}

#[test]
fn batches_may_be_cut_anywhere() {
    let ops = || {
        vec![
            op("m", StateOpType::StateUpsert, "up"),
            op("m", StateOpType::StateUpdate, "updated"),
            op("m", StateOpType::StateGet, "got"),
        ]
    };
    let whole = batch(
        vec![Some("a"), Some("b"), Some("a"), Some("b")],
        vec![Some("1"), Some("2"), Some("3"), None],
        vec![Some(false), Some(true), Some(true), Some(true)],
    );
    let mut once = func(vec!["m"], ops());
    let all = process(&mut once, &whole);
    let mut twice = func(vec!["m"], ops());
    let first = process(&mut twice, &Batch { batch: whole.batch.slice(0, 1) });
    let second = process(&mut twice, &Batch { batch: whole.batch.slice(1, 3) });
    for column in 3..6 {
        assert_eq!(&all.column(column).slice(0, 1), first.column(column));
        assert_eq!(&all.column(column).slice(1, 3), second.column(column));
    }
    assert_eq!(once.handle_checkpoint(), twice.handle_checkpoint());
}

#[test]
fn an_empty_batch_gives_empty_columns() {
    let mut func = func(vec![], vec![op("nowhere", StateOpType::StateGet, "got")]);
    let out = process(&mut func, &batch(vec![], vec![], vec![]));
    assert_eq!(out.num_rows(), 0);
    assert_eq!(out.num_columns(), 4);
}

#[test]
fn an_operation_without_its_map_is_not_run() {
    let mut func = func(
        vec!["m"],
        vec![op("m", StateOpType::StatePut, "put"), op("nowhere", StateOpType::StateGet, "got")],
    );
    assert!(!func.check_maps());
    let outcome = func.process_batch(
        &batch(vec![Some("a")], vec![Some("1")], vec![None]),
        &eval,
        &describe,
    );
    assert!(matches!(outcome, Ok(BatchOutcome::UnknownMap)));
    assert_eq!(func.handle_checkpoint(), vec![]);
}

#[test]
fn a_short_column_is_not_run() {
    let mut func = func(vec!["m"], vec![op("m", StateOpType::StatePut, "put")]);
    let short = |_: &Physical, _: &Batch| -> Result<ColumnarValue, DataFusionError> {
        Ok(ColumnarValue::Array(Arc::new(StringArray::from(vec!["one"]))))
    };
    let input = batch(vec![Some("a"), Some("b")], vec![Some("1"), Some("2")], vec![None, None]);
    let outcome = func.process_batch(&input, &short, &describe);
    assert!(matches!(outcome, Ok(BatchOutcome::ShortColumn)));
    assert_eq!(func.handle_checkpoint(), vec![]);
}

#[test]
fn a_failing_expression_changes_nothing() {
    let mut func = func(
        vec!["m"],
        vec![op("m", StateOpType::StatePut, "put"), op("m", StateOpType::StateGet, "got")],
    );
    let input = batch(vec![Some("a")], vec![Some("1")], vec![None]);
    let fails = |expr: &Physical, batch: &Batch| -> Result<ColumnarValue, DataFusionError> {
        if expr.to_string() == "v@1" {
            Err(DataFusionError::Execution("boom".to_string()))
        } else {
            expr.evaluate(&batch.batch)
        }
    };
    match func.process_batch(&input, &fails, &describe) {
        Err(ProcessError::Expression(DataFusionError::Execution(message))) => {
            assert_eq!(message, "boom")
        }
        _ => panic!("the failure was lost"),
    }
    assert_eq!(func.handle_checkpoint(), vec![]);
}

#[test]
fn a_scalar_that_does_not_expand_fails() {
    let mut func = func(vec!["m"], vec![op("m", StateOpType::StateGet, "got")]);
    let odd = |_: &Physical, _: &Batch| -> Result<ColumnarValue, DataFusionError> {
        Ok(ColumnarValue::Scalar(ScalarValue::Decimal128(Some(1), 0, 0)))
    };
    let outcome = func.process_batch(
        &batch(vec![Some("a")], vec![Some("1")], vec![None]),
        &odd,
        &describe,
    );
    let scalar = ScalarValue::Decimal128(Some(1), 0, 0);
    match outcome {
        Err(ProcessError::Expression(error)) => assert_eq!(
            error.to_string(),
            scalar.to_array_of_size(1).unwrap_err().to_string()
        ),
        _ => panic!("the scalar was expanded"),
    }
}

#[test]
fn null_scalars_are_null_in_every_row() {
    let mut put = op("m", StateOpType::StatePut, "put");
    put.key_expr = lit(ScalarValue::Utf8(None));
    let mut update = op("m", StateOpType::StateUpdate, "updated");
    update.condition_expr = Some(lit(ScalarValue::Boolean(None)));
    let mut func = func(vec!["m"], vec![put, update]);
    let out = process(&mut func, &batch(vec![Some("a"); 2], vec![Some("1"); 2], vec![None; 2]));
    assert_eq!(strings(&out, 3), vec![None, None]);
    assert_eq!(booleans(&out, 4), vec![Some(false), Some(false)]);
    assert_eq!(func.handle_checkpoint(), vec![]);
}

#[test]
fn no_columns_make_no_batch() {
    let options = RecordBatchOptions::new().with_row_count(Some(2));
    let empty = RecordBatch::try_new_with_options(Arc::new(Schema::empty()), vec![], &options);
    let input = Batch { batch: empty.unwrap() };
    let mut func = func(vec!["m"], vec![]);
    match func.process_batch(&input, &eval, &describe) {
        Err(ProcessError::Batch(error)) => assert_eq!(
            error.to_string(),
            RecordBatch::try_new(Arc::new(Schema::empty()), vec![]).unwrap_err().to_string()
        ),
        _ => panic!("a batch was made of nothing"),
    }
}

fn projecting(ops: Vec<StateOp<Physical>>, exprs: Vec<Physical>) -> Func {
    let encoded = (0..exprs.len()).map(|_| vec![]).collect();
    let mut func =
        StatefulProcessorFunc::new(vec!["m".to_string()], ops, encoded, input_schema());
    let left = std::cell::RefCell::new(exprs.into_iter());
    let parse = |_: &datafusion_proto::protobuf::PhysicalExprNode, _: &Schema| {
        Ok(left.borrow_mut().next().unwrap())
    };
    assert!(func.on_start(&parse).is_ok());
    func
}

#[test]
fn the_final_projection_makes_the_batch() {
    let mut func = projecting(
        vec![op("m", StateOpType::StatePut, "put")],
        vec![column("put", 3), column("k", 0), lit("x"), lit(7i64), lit(true)],
    );
    let out = process(&mut func, &batch(vec![Some("a"), None], vec![Some("1"); 2], vec![None; 2]));
    assert_eq!(out.num_columns(), 5);
    assert_eq!(out.num_rows(), 2);
    let sevens: ArrayRef = Arc::new(Int64Array::from(vec![7, 7]));
    assert_eq!(out.column(3), &sevens);
    assert_eq!(booleans(&out, 4), vec![Some(true), Some(true)]);
    assert_eq!(strings(&out, 0), vec![text("1"), None]);
    assert_eq!(strings(&out, 1), vec![text("a"), None]);
    assert_eq!(strings(&out, 2), vec![text("x"), text("x")]);
    assert_eq!(out.schema().field(0), &Field::new("put@3", DataType::Utf8, true));
    assert_eq!(out.schema().field(1), &Field::new("k@0", DataType::Utf8, true));
    assert_eq!(out.schema().field(2), &Field::new("x", DataType::Utf8, false));
}

#[test]
fn a_failing_projection_leaves_the_rows_run() {
    let mut func = projecting(
        vec![op("m", StateOpType::StatePut, "put")],
        vec![column("k", 0), column("nowhere", 9)],
    );
    let input = batch(vec![Some("a")], vec![Some("1")], vec![None]);
    let outcome = func.process_batch(&input, &eval, &describe);
    assert!(matches!(outcome, Err(ProcessError::Expression(_))));
    assert_eq!(func.handle_checkpoint(), vec![writes("m", vec![("a", Some("1"))])]);
}

#[test]
fn a_failing_description_fails_the_batch() {
    let mut func = projecting(vec![], vec![column("k", 0)]);
    let undescribed = |_: &Physical, _: &Schema| -> Result<ExprField, DataFusionError> {
        Err(DataFusionError::Plan("no type".to_string()))
    };
    let input = batch(vec![Some("a")], vec![Some("1")], vec![None]);
    match func.process_batch(&input, &eval, &undescribed) {
        Err(ProcessError::Expression(DataFusionError::Plan(message))) => {
            assert_eq!(message, "no type")
        }
        _ => panic!("the failure was lost"),
    }
}

#[test]
fn a_projection_that_breaks_its_schema_fails() {
    let mut func = projecting(vec![], vec![column("k", 0)]);
    let strict = |_: &Physical, _: &Schema| -> Result<ExprField, DataFusionError> {
        Ok(ExprField { name: "k".to_string(), data_type: DataType::Utf8, nullable: false })
    };
    let outcome = func.process_batch(&batch(vec![None], vec![None], vec![None]), &eval, &strict);
    assert!(matches!(outcome, Err(ProcessError::Batch(_))));
    let wrong_type = |_: &Physical, _: &Schema| -> Result<ExprField, DataFusionError> {
        Ok(ExprField { name: "k".to_string(), data_type: DataType::Int64, nullable: true })
    };
    let input = batch(vec![None], vec![None], vec![None]);
    let outcome = func.process_batch(&input, &eval, &wrong_type);
    assert!(matches!(outcome, Err(ProcessError::Batch(_))));
}

#[test]
fn checkpoints_write_what_changed() {
    let mut func = func(
        vec!["n", "m", "idle"],
        vec![op("m", StateOpType::StatePut, "put"), op("n", StateOpType::StateDelete, "gone")],
    );
    assert_eq!(func.handle_checkpoint(), vec![]);
    process(&mut func, &batch(vec![Some("a"), Some("b")], vec![Some("1"), None], vec![None; 2]));
    let expected = vec![
        writes("n", vec![("a", None), ("b", None)]),
        writes("m", vec![("a", Some("1"))]),
    ];
    assert_eq!(func.handle_checkpoint(), expected);
    assert_eq!(func.handle_checkpoint(), expected);
    func.finish_checkpoint();
    assert_eq!(func.handle_checkpoint(), vec![]);
    process(&mut func, &batch(vec![Some("c")], vec![Some("3")], vec![None]));
    assert_eq!(
        func.handle_checkpoint(),
        vec![writes("n", vec![("c", None)]), writes("m", vec![("c", Some("3"))])]
    );
}

#[test]
fn a_restart_gives_the_maps_back() {
    let ops = || vec![op("m", StateOpType::StateUpsert, "up"), op("m", StateOpType::StateUpdate, "updated")];
    let mut running = func(vec!["m"], ops());
    process(
        &mut running,
        &batch(vec![Some("a"), Some("b")], vec![Some("1"), Some("2")], vec![Some(false); 2]),
    );
    let saved = running.handle_checkpoint();
    running.finish_checkpoint();
    let mut restarted = func(vec!["m"], ops());
    for table in saved {
        restarted.restore_map(&table.map_name, table.entries);
    }
    assert_eq!(restarted.handle_checkpoint(), vec![]);
    let next = batch(
        vec![Some("a"), Some("b"), Some("c")],
        vec![Some("9"), Some("8"), Some("7")],
        vec![Some(false), Some(true), Some(false)],
    );
    assert_eq!(process(&mut restarted, &next), process(&mut running, &next));
    assert_eq!(restarted.handle_checkpoint(), running.handle_checkpoint());
}

#[test]
fn tables_are_named_after_the_maps() {
    let func = func(vec!["m", "n"], vec![]);
    assert_eq!(func.name(), "stateful_processor");
    assert_eq!(func.map_names(), &vec!["m".to_string(), "n".to_string()]);
    assert_eq!(
        func.tables(),
        vec![
            ("m".to_string(), "stateful processor map: m".to_string()),
            ("n".to_string(), "stateful processor map: n".to_string()),
        ]
    );
}

#[test]
fn slots_are_read_by_type() {
    let strings = ColumnarValue::Array(Arc::new(StringArray::from(vec![Some("s"), None])));
    assert_eq!(extract_string(&strings, 0), text("s"));
    assert_eq!(extract_string(&strings, 1), None);
    assert_eq!(extract_boolean(&strings, 0), None);
    let flags = ColumnarValue::Array(Arc::new(BooleanArray::from(vec![Some(true), None, Some(false)])));
    assert_eq!(extract_boolean(&flags, 0), Some(true));
    assert_eq!(extract_boolean(&flags, 1), None);
    assert_eq!(extract_boolean(&flags, 2), Some(false));
    assert_eq!(extract_string(&flags, 0), None);
    let scalar = ColumnarValue::Scalar(ScalarValue::from("s"));
    assert_eq!(extract_string(&scalar, 0), None);
}

#[test]
fn evaluated_rows_can_be_run_directly() {
    let mut func = func(vec!["m"], vec![op("m", StateOpType::StatePut, "put")]);
    let evaluated = vec![EvaluatedOp {
        key_array: ColumnarValue::Array(Arc::new(StringArray::from(vec!["a", "b"]))),
        value_array: Some(ColumnarValue::Array(Arc::new(StringArray::from(vec![Some("1"), None])))),
        condition_array: None,
    }];
    assert!(func.check_evaluated(&evaluated, 2));
    assert!(!func.check_evaluated(&evaluated, 3));
    let columns = func.process_rows(2, &evaluated);
    assert_eq!(columns, vec![ResultColumn::Str(vec![text("1"), None])]);
}
