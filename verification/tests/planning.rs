use std::sync::Arc;

use arrow_array::{ArrayRef, RecordBatch, StringArray};
use arrow_schema::{DataType, Field, Schema};
use datafusion::common::DFSchema;
use datafusion::error::DataFusionError;
use datafusion::execution::context::ExecutionProps;
use datafusion::logical_expr::registry::MemoryFunctionRegistry;
use datafusion::logical_expr::{col, lit, EmptyRelation, Expr, LogicalPlan};
use datafusion::physical_expr::{create_physical_expr, PhysicalExpr};
use datafusion_proto::physical_plan::from_proto::parse_physical_expr;
use datafusion_proto::physical_plan::to_proto::serialize_physical_expr;
use datafusion_proto::physical_plan::DefaultPhysicalExtensionCodec;
use datafusion_proto::protobuf::PhysicalExprNode;
use prost::Message;

use stateful_processor::columns::Batch;
use stateful_processor::config::{StateOperation, StatefulProcessorOperator};
use stateful_processor::constructor::{ConfigError, StatefulProcessorConstructor};
use stateful_processor::encoded::ExprError;
use stateful_processor::evaluation::ExprField;
use stateful_processor::planner::{PlanError, StatefulOpDesc, StatefulProcessorExtension};
use stateful_processor::planning::{collect_map_names, EdgeKind, NodePlan};
use stateful_processor::processor::{BatchOutcome, StatefulProcessorFunc};

type Physical = Arc<dyn PhysicalExpr>;

fn serialize(expr: &Expr, schema: &DFSchema) -> Result<Vec<u8>, DataFusionError> {
    let physical = create_physical_expr(expr, schema, &ExecutionProps::new())?;
    let node = serialize_physical_expr(&physical, &DefaultPhysicalExtensionCodec {})?;
    Ok(node.encode_to_vec())
}

fn parse(node: &PhysicalExprNode, schema: &Schema) -> Result<Physical, DataFusionError> {
    parse_physical_expr(
        node,
        &MemoryFunctionRegistry::new(),
        schema,
        &DefaultPhysicalExtensionCodec {},
    )
}

fn convert(schema: &Schema) -> Result<Arc<Schema>, String> {
    Ok(Arc::new(schema.clone()))
}

fn bytes(expr: &Expr) -> Vec<u8> {
    serialize(expr, &input_dfschema()).unwrap()
}

fn input_schema() -> Arc<Schema> {
    Arc::new(Schema::new(vec![
        Field::new("k", DataType::Utf8, true),
        Field::new("v", DataType::Utf8, true),
    ]))
}

fn input_dfschema() -> DFSchema {
    DFSchema::try_from_qualified_schema("bid", &input_schema()).unwrap()
}

fn input() -> LogicalPlan {
    LogicalPlan::EmptyRelation(EmptyRelation {
        produce_one_row: false,
        schema: Arc::new(input_dfschema()),
    })
}

fn desc(map: &str, op_type: i32, value: Option<Expr>, condition: Option<Expr>, out: &str) -> StatefulOpDesc {
    StatefulOpDesc {
        map_name: map.to_string(),
        op_type,
        key_expr: col("bid.k"),
        value_expr: value,
        condition_expr: condition,
        output_field: out.to_string(),
    }
}

fn node(ops: Vec<StatefulOpDesc>, final_exprs: Vec<Expr>) -> StatefulProcessorExtension {
    let schema = Schema::new(vec![
        Field::new("old", DataType::Utf8, true),
        Field::new("key", DataType::Utf8, true),
    ]);
    StatefulProcessorExtension {
        input: input(),
        ops,
        final_exprs,
        final_schema: Arc::new(DFSchema::try_from(schema).unwrap()),
    }
}

fn sample() -> StatefulProcessorExtension {
    node(
        vec![
            desc("seen", 0, None, None, "old"),
            desc("last", 3, Some(col("bid.v")), Some(lit(true)), "updated"),
            desc("seen", 1, Some(col("bid.v")), None, "put"),
        ],
        vec![col("old"), col("bid.k")],
    )
}

fn planned(node: &StatefulProcessorExtension) -> NodePlan<Schema> {
    match node.plan_node(7, vec![input_schema()], &serialize) {
        Ok(plan) => plan,
        Err(_) => panic!("the node was not planned"),
    }
}

fn built(config: StatefulProcessorOperator<Schema>) -> StatefulProcessorFunc<Physical> {
    match StatefulProcessorConstructor.with_config(config, &convert, &parse) {
        Ok(func) => func,
        Err(_) => panic!("the operator was not made"),
    }
}

fn operation(op_type: i32) -> StateOperation {
    StateOperation {
        map_name: "m".to_string(),
        op_type,
        key_expr: bytes(&col("bid.k")),
        value_expr: vec![],
        condition_expr: vec![],
        output_field: "out".to_string(),
    }
}

fn config(operations: Vec<StateOperation>) -> StatefulProcessorOperator<Schema> {
    StatefulProcessorOperator {
        name: "StatefulProcessor".to_string(),
        operations,
        map_names: vec!["m".to_string()],
        input_schema: Some(input_schema()),
        final_exprs: vec![],
    }
}

fn refusal(config: StatefulProcessorOperator<Schema>) -> ConfigError<String> {
    match StatefulProcessorConstructor.with_config(config, &convert, &parse) {
        Ok(_) => panic!("the configuration was accepted"),
        Err(error) => error,
    }
}

#[test]
fn the_node_names_itself() {
    let node = sample();
    assert_eq!(node.name(), "StatefulProcessorExtension");
    assert_eq!(node.inputs(), vec![&input()]);
    assert_eq!(node.schema(), &node.final_schema);
    assert_eq!(
        node.fmt_for_explain(),
        "StatefulProcessorExtension: ops=3, schema=[old, key]"
    );
}

#[test]
fn a_node_without_columns_explains_itself() {
    let mut node = node(vec![], vec![]);
    node.final_schema = Arc::new(DFSchema::empty());
    assert_eq!(node.fmt_for_explain(), "StatefulProcessorExtension: ops=0, schema=[]");
    assert_eq!(node.output_schema(), vec![]);
}

#[test]
fn expressions_come_operation_by_operation() {
    assert_eq!(
        sample().expressions(),
        vec![
            col("bid.k"),
            col("bid.k"),
            col("bid.v"),
            lit(true),
            col("bid.k"),
            col("bid.v"),
            col("old"),
            col("bid.k"),
        ]
    );
}

#[test]
fn a_node_is_rebuilt_from_its_expressions() {
    let node = sample();
    match node.with_exprs_and_inputs(node.expressions(), vec![input()]) {
        Ok(rebuilt) => assert_eq!(rebuilt, node),
        Err(_) => panic!("the node was not rebuilt"),
    }
    assert_eq!(node.clone(), node);
}

#[test]
fn a_node_takes_other_expressions() {
    let node = sample();
    let exprs: Vec<Expr> = (0..9).map(|i: i32| lit(i)).collect();
    match node.with_exprs_and_inputs(exprs.clone(), vec![input()]) {
        Ok(rebuilt) => {
            assert_eq!(rebuilt.ops[0].key_expr, lit(0i32));
            assert_eq!(rebuilt.ops[0].value_expr, None);
            assert_eq!(rebuilt.ops[1].key_expr, lit(1i32));
            assert_eq!(rebuilt.ops[1].value_expr, Some(lit(2i32)));
            assert_eq!(rebuilt.ops[1].condition_expr, Some(lit(3i32)));
            assert_eq!(rebuilt.ops[2].key_expr, lit(4i32));
            assert_eq!(rebuilt.ops[2].value_expr, Some(lit(5i32)));
            assert_eq!(rebuilt.ops[2].output_field, "put");
            assert_eq!(rebuilt.final_exprs, vec![lit(6i32), lit(7i32), lit(8i32)]);
            assert_eq!(rebuilt.expressions(), exprs);
        }
        Err(_) => panic!("the node was not rebuilt"),
    }
}

#[test]
fn a_node_has_one_input() {
    let node = sample();
    match node.with_exprs_and_inputs(node.expressions(), vec![input(), input()]) {
        Err(error) => assert_eq!(
            error.message(),
            Some("StatefulProcessorExtension requires exactly one input, found 2".to_string())
        ),
        Ok(_) => panic!("two inputs were taken"),
    }
    assert!(matches!(
        node.with_exprs_and_inputs(vec![], vec![]),
        Err(PlanError::InputCount(0))
    ));
}

#[test]
fn a_node_has_one_input_schema() {
    match sample().plan_node::<Schema, _>(0, vec![], &serialize) {
        Err(error) => assert_eq!(
            error.message(),
            Some("StatefulProcessorExtension requires exactly one input schema, found 0".to_string())
        ),
        Ok(_) => panic!("no schema was needed"),
    }
    assert!(matches!(
        sample().plan_node(0, vec![input_schema(), input_schema()], &serialize),
        Err(PlanError::SchemaCount(2))
    ));
}

#[test]
fn a_plan_configures_the_operator() {
    let plan = planned(&sample());
    assert_eq!(plan.node_id, 7);
    assert_eq!(plan.operator_id, "stateful_processor_7");
    assert_eq!(plan.description, "StatefulProcessor");
    assert_eq!(plan.parallelism, 1);
    assert_eq!(plan.operator_name, "StatefulProcessor");
    assert_eq!(plan.edges.len(), 1);
    assert_eq!(plan.edges[0].kind, EdgeKind::Forward);
    assert_eq!(plan.edges[0].schema, input_schema());
    let config = plan.config;
    assert_eq!(config.name, "StatefulProcessor");
    assert_eq!(config.map_names, vec!["__sp_seen".to_string(), "__sp_last".to_string()]);
    assert_eq!(config.input_schema, Some(input_schema()));
    assert_eq!(config.operations.len(), 3);
    assert_eq!(config.operations[1].map_name, "__sp_last");
    assert_eq!(config.operations[1].op_type, 3);
    assert_eq!(config.operations[1].output_field, "updated");
    assert_eq!(config.operations[1].key_expr, bytes(&col("bid.k")));
    assert_eq!(config.operations[1].value_expr, bytes(&col("bid.v")));
    assert_eq!(config.operations[1].condition_expr, bytes(&lit(true)));
    assert_eq!(config.operations[0].value_expr, Vec::<u8>::new());
    assert_eq!(config.operations[0].condition_expr, Vec::<u8>::new());
    assert_eq!(config.final_exprs.len(), 2);
    assert_eq!(config.final_exprs[1], bytes(&col("bid.k")));
}

#[test]
fn map_names_come_once_in_order() {
    let ops = vec![
        desc("b", 0, None, None, "x"),
        desc("a", 0, None, None, "y"),
        desc("b", 0, None, None, "z"),
    ];
    assert_eq!(
        collect_map_names(&ops),
        vec!["__sp_b".to_string(), "__sp_a".to_string()]
    );
}

#[test]
fn a_node_index_is_cut_to_its_width() {
    let plan = match node(vec![], vec![]).plan_node(4294967298, vec![input_schema()], &serialize) {
        Ok(plan) => plan,
        Err(_) => panic!("the node was not planned"),
    };
    assert_eq!(plan.node_id, 2);
    assert_eq!(plan.operator_id, "stateful_processor_4294967298");
}

#[test]
fn an_unresolved_operation_is_refused() {
    let mut node = sample();
    node.ops[1].value_expr = Some(col("bid.missing"));
    match node.plan_node(7, vec![input_schema()], &serialize) {
        Err(error) => {
            assert_eq!(error.message(), None);
            assert!(matches!(error, PlanError::Refused(_)));
        }
        Ok(_) => panic!("an unknown column was planned"),
    }
}

#[test]
fn an_unresolved_projection_is_refused() {
    let mut node = sample();
    node.final_exprs.push(col("missing"));
    assert!(matches!(
        node.plan_node(7, vec![input_schema()], &serialize),
        Err(PlanError::Refused(_))
    ));
}

#[test]
fn clashing_columns_are_refused() {
    let twice = node(
        vec![desc("m", 0, None, None, "out"), desc("m", 0, None, None, "out")],
        vec![],
    );
    assert!(matches!(
        twice.plan_node(7, vec![input_schema()], &serialize),
        Err(PlanError::Refused(_))
    ));
    let ambiguous = node(vec![desc("m", 0, None, None, "k")], vec![]);
    match ambiguous.plan_node(7, vec![input_schema()], &serialize) {
        Err(PlanError::Refused(error)) => {
            let mut fields: Vec<_> = input_dfschema()
                .iter()
                .map(|(qualifier, field)| (qualifier.cloned(), field.clone()))
                .collect();
            fields.push((None, Arc::new(Field::new("k", DataType::Utf8, true))));
            let expected = DFSchema::new_with_metadata(fields, Default::default()).unwrap_err();
            assert_eq!(error.to_string(), expected.to_string());
        }
        _ => panic!("clashing columns were planned"),
    }
}

#[test]
fn output_fields_are_those_of_the_projection() {
    assert_eq!(
        sample().output_schema(),
        vec![
            Arc::new(Field::new("old", DataType::Utf8, true)),
            Arc::new(Field::new("key", DataType::Utf8, true)),
        ]
    );
}

#[test]
fn a_planned_operator_processes() {
    let mut func = built(planned(&sample()).config);
    assert!(func.check_maps());
    assert!(func.on_start(&parse).is_ok());
    let columns: Vec<ArrayRef> = vec![
        Arc::new(StringArray::from(vec!["a", "a"])),
        Arc::new(StringArray::from(vec!["1", "2"])),
    ];
    let batch = Batch { batch: RecordBatch::try_new(input_schema(), columns).unwrap() };
    let eval = |expr: &Physical, batch: &Batch| expr.evaluate(&batch.batch);
    let describe = |expr: &Physical, schema: &Schema| {
        Ok(ExprField {
            name: expr.to_string(),
            data_type: expr.data_type(schema)?,
            nullable: expr.nullable(schema)?,
        })
    };
    match func.process_batch(&batch, &eval, &describe) {
        Ok(BatchOutcome::Emitted(out)) => {
            let old: ArrayRef = Arc::new(StringArray::from(vec![None, Some("1")]));
            let key: ArrayRef = Arc::new(StringArray::from(vec!["a", "a"]));
            assert_eq!(out.batch.columns(), &[old, key]);
            assert_eq!(out.batch.schema().field(0).name(), "old@2");
        }
        _ => panic!("no batch was emitted"),
    }
    let written: Vec<String> =
        func.handle_checkpoint().into_iter().map(|table| table.map_name).collect();
    assert_eq!(written, vec!["__sp_seen".to_string(), "__sp_last".to_string()]);
}

#[test]
fn a_number_without_a_kind_is_planned_as_a_read_and_refused_by_the_operator() {
    let node = node(vec![desc("m", 9, None, None, "out")], vec![col("out")]);
    let config = planned(&node).config;
    assert!(matches!(refusal(config), ConfigError::UnknownStateOpType(9)));
}

#[test]
fn a_configuration_needs_its_schema() {
    let mut config = config(vec![]);
    config.input_schema = None;
    assert_eq!(
        refusal(config).message(),
        Some("StatefulProcessorOperator missing input_schema".to_string())
    );
}

#[test]
fn a_schema_that_does_not_convert_is_refused() {
    let lost = |_: &Schema| -> Result<Arc<Schema>, String> { Err("lost".to_string()) };
    match StatefulProcessorConstructor.with_config(config(vec![operation(9)]), &lost, &parse) {
        Err(error) => {
            assert_eq!(error.message(), None);
            match error {
                ConfigError::InputSchema(reason) => assert_eq!(reason, "lost"),
                _ => panic!("the reason was lost"),
            }
        }
        Ok(_) => panic!("the configuration was accepted"),
    }
}

#[test]
fn the_input_schema_may_be_any_of_the_engine() {
    let engine = Arc::new((input_schema(), 3usize));
    let plan = match sample().plan_node(1, vec![Arc::clone(&engine)], &serialize) {
        Ok(plan) => plan,
        Err(_) => panic!("the node was not planned"),
    };
    assert_eq!(plan.edges[0].schema, engine);
    let arrow = |schema: &(Arc<Schema>, usize)| -> Result<Arc<Schema>, String> {
        Ok(Arc::clone(&schema.0))
    };
    let func = StatefulProcessorConstructor.with_config(plan.config, &arrow, &parse);
    assert!(func.is_ok());
}

#[test]
fn a_bad_projection_does_not_stop_the_construction() {
    let mut broken = config(vec![operation(0)]);
    broken.final_exprs = vec![vec![0xff]];
    assert!(built(broken).check_maps());
}

#[test]
fn an_unknown_kind_is_refused() {
    let error = refusal(config(vec![operation(0), operation(-1)]));
    assert_eq!(error.message(), Some("unknown StateOpType: -1".to_string()));
}

#[test]
fn bytes_that_are_no_expression_are_refused() {
    let mut bad = operation(0);
    bad.key_expr = vec![0xff];
    let error = refusal(config(vec![bad]));
    assert_eq!(error.message(), None);
    match error {
        ConfigError::Expression(ExprError::Decode(reason)) => {
            let expected = PhysicalExprNode::decode(&[0xff][..]).unwrap_err();
            assert_eq!(reason, expected);
        }
        _ => panic!("the bytes were read"),
    }
}

#[test]
fn an_empty_key_is_no_expression() {
    let mut bad = operation(9);
    bad.key_expr = vec![];
    assert!(matches!(
        refusal(config(vec![bad])),
        ConfigError::Expression(ExprError::Parse(_))
    ));
}

#[test]
fn an_operator_starts_empty() {
    let func = built(config(vec![operation(0)]));
    assert_eq!(func.map_names(), &vec!["m".to_string()]);
    assert_eq!(func.handle_checkpoint(), vec![]);
    assert!(func.check_maps());
}

#[test]
fn a_bad_projection_fails_the_start() {
    let mut broken = config(vec![operation(0)]);
    broken.final_exprs = vec![bytes(&col("bid.k")), vec![0xff]];
    let mut func = built(broken);
    assert!(matches!(func.on_start(&parse), Err(ExprError::Decode(_))));
    let mut empty = config(vec![operation(0)]);
    empty.final_exprs = vec![vec![]];
    let mut func = built(empty);
    assert!(matches!(func.on_start(&parse), Err(ExprError::Parse(_))));
}

#[test]
fn the_projection_is_parsed_against_all_columns() {
    let mut config = config(vec![operation(0), operation(4)]);
    config.final_exprs = vec![bytes(&col("bid.k"))];
    let mut func = built(config);
    let against = |node: &PhysicalExprNode, schema: &Schema| {
        let fields: Vec<&String> = schema.fields().iter().map(|f| f.name()).collect();
        assert_eq!(fields, vec!["k", "v", "out", "out"]);
        assert_eq!(schema.field(2).data_type(), &DataType::Utf8);
        assert_eq!(schema.field(3).data_type(), &DataType::Boolean);
        parse(node, schema)
    };
    assert!(func.on_start(&against).is_ok());
}
