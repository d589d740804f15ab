//! What holds on the way from a plan node to an operator: nothing is lost, nothing is mixed up,
//! and what is refused is refused for a reason.
use std::sync::Arc;

use arrow_schema::Schema;
use datafusion::common::DFSchema;
use datafusion::error::DataFusionError;
use datafusion::logical_expr::{Expr, LogicalPlan};
use datafusion_proto::protobuf::PhysicalExprNode;
use vstd::prelude::*;

use crate::batch_laws::law_new_maps;
use crate::config::{StateOperation, StatefulProcessorOperator};
use crate::constructor::{
    configuration_gives, op_parses, op_refused, operations_give, ops_parse, ops_refused,
    ConfigError,
};
use crate::encoded::{decoded_node, parse_fails, parses, parses_all, ExprError};
use crate::logical::{
    all_names_differ, new_qualified_schema, plan_schema, qualified_fields, QualifiedField,
};
use crate::ops::StateOpType;
use crate::planner::{
    field_names, joined, op_exprs, StatefulOpDesc, StatefulProcessorExtension,
};
use crate::planning::{
    answer_fields, exprs_serialize, exprs_unserialized, op_serializes, op_unserialized,
    ops_serialize, ops_unserialized, prefixed, serializes_all, NodePlan,
};
use crate::processor::{
    exprs_fail, exprs_parse, result_fields, start_gives, StateOp, StatefulProcessorFunc,
};
use crate::schema::{arrow_type, field_name, new_field, new_schema, schema_fields, ColumnType};
use crate::text::{decimal, signed_decimal};

verus! {

/// The kinds have the numbers from zero to four, in this order, and every other number reads as a
/// read.
pub proof fn law_kind_numbers(code: i32)
    ensures
        StateOpType::StateGet.code() == 0,
        StateOpType::StatePut.code() == 1,
        StateOpType::StateUpsert.code() == 2,
        StateOpType::StateUpdate.code() == 3,
        StateOpType::StateDelete.code() == 4,
        0 <= code <= 4 ==> StateOpType::of_code(code).code() == code,
        code < 0 || code > 4 ==> StateOpType::of_code(code) is StateGet,
{
}

/// A map's name gets the five characters of the prefix in front and is not changed otherwise.
pub proof fn law_prefix(name: Seq<char>)
    ensures
        prefixed(name).len() == name.len() + 5,
        prefixed(name) == seq!['_', '_', 's', 'p', '_'] + name,
{
    reveal_strlit("__sp_");
    assert(prefixed(name) =~= seq!['_', '_', 's', 'p', '_'] + name);
}

/// A plan loses no operation and no expression. Every operation of the node, of whatever kind, is
/// configured in its place under its prefixed map name, with its kind's number and its output
/// field. The bytes of its key, its value and its condition are each what the serializer gives for
/// that very expression over the schema of the input, and empty only for want of an expression.
pub proof fn law_plan_keeps_operations<
    I,
    S: Fn(&Expr, &DFSchema) -> Result<Vec<u8>, DataFusionError>,
>(
    node: StatefulProcessorExtension,
    serialize: S,
    input_schema: Arc<I>,
    config: StatefulProcessorOperator<I>,
    i: int,
)
    requires
        node.configures(serialize, input_schema, config),
        0 <= i < node.ops@.len(),
    ensures
        config.operations@.len() == node.ops@.len(),
        config.input_schema == Some(input_schema),
        ({
            let op = node.ops@[i];
            let operation = config.operations@[i];
            let schema = plan_schema(node.input);
            &&& operation.map_name@ == seq!['_', '_', 's', 'p', '_'] + op.map_name@
            &&& operation.op_type == op.op_type
            &&& operation.output_field@ == op.output_field@
            &&& serialize.ensures((&op.key_expr, &schema), Ok(operation.key_expr))
            &&& op.value_expr matches Some(value) ==> serialize.ensures(
                (&value, &schema),
                Ok(operation.value_expr),
            )
            &&& op.value_expr is None ==> operation.value_expr@.len() == 0
            &&& op.condition_expr matches Some(condition) ==> serialize.ensures(
                (&condition, &schema),
                Ok(operation.condition_expr),
            )
            &&& op.condition_expr is None ==> operation.condition_expr@.len() == 0
        }),
{
    assert(op_serializes(serialize, node.ops@[i], plan_schema(node.input), config.operations@[i]));
    law_prefix(node.ops@[i].map_name@);
}

/// Every planned configuration has the same name, and the schema that the node was planned over.
pub proof fn law_plan_name<I, S: Fn(&Expr, &DFSchema) -> Result<Vec<u8>, DataFusionError>>(
    node: StatefulProcessorExtension,
    serialize: S,
    input_schema: Arc<I>,
    config: StatefulProcessorOperator<I>,
)
    requires
        node.configures(serialize, input_schema, config),
    ensures
        config.name@ == "StatefulProcessor"@,
        config.input_schema == Some(input_schema),
        config.operations@.len() == node.ops@.len(),
        config.final_exprs@.len() == node.final_exprs@.len(),
{
}

/// A plan loses no expression of the projection: each is serialized in its place over the schema
/// of the input's fields followed by the fields of the answers.
pub proof fn law_plan_keeps_projection<
    I,
    S: Fn(&Expr, &DFSchema) -> Result<Vec<u8>, DataFusionError>,
>(
    node: StatefulProcessorExtension,
    serialize: S,
    input_schema: Arc<I>,
    config: StatefulProcessorOperator<I>,
    schema: DFSchema,
    i: int,
)
    requires
        node.configures(serialize, input_schema, config),
        new_qualified_schema(
            qualified_fields(plan_schema(node.input)) + answer_fields(node.ops@),
        ) == Ok::<DFSchema, DataFusionError>(schema),
        0 <= i < node.final_exprs@.len(),
    ensures
        config.final_exprs@.len() == node.final_exprs@.len(),
        serialize.ensures((&node.final_exprs@[i], &schema), Ok(config.final_exprs@[i])),
{
    assert(exprs_serialize(serialize, node.final_exprs@, schema, config.final_exprs@));
    let bytes = config.final_exprs@[i];
}

/// A plan is made only where the columns can stand together.
pub proof fn law_planned_columns_stand_together<
    I,
    S: Fn(&Expr, &DFSchema) -> Result<Vec<u8>, DataFusionError>,
>(
    node: StatefulProcessorExtension,
    serialize: S,
    input_schema: Arc<I>,
    config: StatefulProcessorOperator<I>,
    i: int,
    j: int,
)
    requires
        node.configures(serialize, input_schema, config),
        0 <= i < j < qualified_fields(plan_schema(node.input)).len() + node.ops@.len(),
    ensures
        ({
            let fields = qualified_fields(plan_schema(node.input)) + answer_fields(node.ops@);
            &&& fields.len() == qualified_fields(plan_schema(node.input)).len() + node.ops@.len()
            &&& field_name(*fields[i].1) == field_name(*fields[j].1) ==> {
                &&& fields[i].0 is Some
                &&& fields[j].0 is Some
                &&& fields[i].0 != fields[j].0
            }
        }),
{
    assert(all_names_differ(node.intermediate_fields()));
    let fields = node.intermediate_fields();
    assert(fields[i].0 is Some || fields[i].0 is None);
    assert(fields[j].0 is Some || fields[j].0 is None);
}

/// Columns can stand together exactly where any two differ in name, or are both qualified and by
/// different tables.
pub proof fn law_names_differ(fields: Seq<QualifiedField>)
    ensures
        all_names_differ(fields) <==> forall|i: int, j: int|
            0 <= i < j < fields.len() && field_name(*(#[trigger] fields[i]).1) == field_name(
                *(#[trigger] fields[j]).1,
            ) ==> fields[i].0 is Some && fields[j].0 is Some && fields[i].0 != fields[j].0,
{
}

/// The answers' fields are unqualified and nullable, under the operation's output field: strings
/// for reads, puts and upserts and for a number that is no kind's, booleans for updates and
/// deletes.
pub proof fn law_answer_fields(ops: Seq<StatefulOpDesc>, i: int)
    requires
        0 <= i < ops.len(),
    ensures
        answer_fields(ops).len() == ops.len(),
        answer_fields(ops)[i].0 is None,
        *answer_fields(ops)[i].1 == new_field(
            ops[i].output_field@,
            arrow_type(
                if ops[i].op_type == 3 || ops[i].op_type == 4 {
                    ColumnType::Boolean
                } else {
                    ColumnType::Utf8
                },
            ),
            true,
        ),
{
}

/// A plan is refused with the serializer's error on an expression of an operation over the input's
/// schema, or of the projection over the schema with the answers, or with the error of that schema
/// where its columns cannot stand together. It is the first failure: what comes before is
/// serialized.
pub proof fn law_plan_refused<S: Fn(&Expr, &DFSchema) -> Result<Vec<u8>, DataFusionError>>(
    node: StatefulProcessorExtension,
    serialize: S,
    error: DataFusionError,
)
    requires
        node.refused(serialize, error),
    ensures
        ({
            let input = plan_schema(node.input);
            let fields = qualified_fields(input) + answer_fields(node.ops@);
            ||| exists|i: int|
                {
                    &&& 0 <= i < node.ops@.len()
                    &&& exists|before: Seq<StateOperation>|
                        ops_serialize(serialize, node.ops@.take(i), input, before)
                    &&& {
                        let op = #[trigger] node.ops@[i];
                        ||| serialize.ensures((&op.key_expr, &input), Err(error))
                        ||| {
                            &&& exists|key: Vec<u8>| #[trigger]
                                serialize.ensures((&op.key_expr, &input), Ok(key))
                            &&& op.value_expr matches Some(value) && serialize.ensures(
                                (&value, &input),
                                Err(error),
                            )
                        }
                        ||| {
                            &&& exists|key: Vec<u8>| #[trigger]
                                serialize.ensures((&op.key_expr, &input), Ok(key))
                            &&& op.value_expr matches Some(value) ==> exists|bytes: Vec<u8>|
                                #[trigger]
                                serialize.ensures((&value, &input), Ok(bytes))
                            &&& op.condition_expr matches Some(condition) && serialize.ensures(
                                (&condition, &input),
                                Err(error),
                            )
                        }
                    }
                }
            ||| {
                &&& exists|all: Seq<StateOperation>|
                    ops_serialize(serialize, node.ops@, input, all)
                &&& new_qualified_schema(fields) == Err::<DFSchema, DataFusionError>(error)
                &&& !all_names_differ(fields)
            }
            ||| new_qualified_schema(fields) matches Ok(schema) && exists|i: int|
                {
                    &&& exists|all: Seq<StateOperation>|
                        ops_serialize(serialize, node.ops@, input, all)
                    &&& all_names_differ(fields)
                    &&& 0 <= i < node.final_exprs@.len()
                    &&& exists|before: Seq<Vec<u8>>|
                        exprs_serialize(serialize, node.final_exprs@.take(i), schema, before)
                    &&& serialize.ensures((&#[trigger] node.final_exprs@[i], &schema), Err(error))
                }
        }),
{
    let input = plan_schema(node.input);
    let fields = qualified_fields(input) + answer_fields(node.ops@);
    assert(fields == node.intermediate_fields());
    if ops_unserialized(serialize, node.ops@, input, error) {
        let (i, before) = choose|i: int, before: Seq<StateOperation>|
            {
                &&& 0 <= i < node.ops@.len()
                &&& #[trigger] ops_serialize(serialize, node.ops@.take(i), input, before)
                &&& op_unserialized(serialize, node.ops@[i], input, error)
            };
        let op = node.ops@[i];
    } else if all_names_differ(fields) {
        let schema = new_qualified_schema(fields)->Ok_0;
        assert(exprs_unserialized(serialize, node.final_exprs@, schema, error));
        let (i, before) = choose|i: int, before: Seq<Vec<u8>>|
            {
                &&& 0 <= i < node.final_exprs@.len()
                &&& #[trigger] exprs_serialize(
                    serialize,
                    node.final_exprs@.take(i),
                    schema,
                    before,
                )
                &&& serialize.ensures((&node.final_exprs@[i], &schema), Err(error))
            };
        let expr = node.final_exprs@[i];
    }
}

/// Bytes are read as an expression by decoding them and parsing the node against the schema, and
/// fail with the error of the step that fails.
pub proof fn law_bytes_are_read<
    E,
    P: Fn(&PhysicalExprNode, &Schema) -> Result<E, DataFusionError>,
>(parse: P, bytes: Seq<u8>, schema: Schema, expr: E, error: ExprError)
    ensures
        parses(parse, bytes, schema, expr) <==> decoded_node(bytes) is Ok && parse.ensures(
            (&decoded_node(bytes)->Ok_0, &schema),
            Ok(expr),
        ),
        parse_fails(parse, bytes, schema, error) ==> {
            ||| error is Decode && decoded_node(bytes) is Err && decoded_node(bytes)->Err_0
                == error->Decode_0
            ||| error is Parse && decoded_node(bytes) is Ok && parse.ensures(
                (&decoded_node(bytes)->Ok_0, &schema),
                Err(error->Parse_0),
            )
        },
{
}

/// An operator is made from its configuration operation by operation: each has the configured map
/// name, kind and output field, its key is read from the key's bytes, and it has a value, and a
/// condition, exactly where those bytes are not empty, read from them. All are read against the
/// schema of the input. The names and the encoded projection are kept as they are.
pub proof fn law_operator_is_as_configured<
    I,
    X,
    E,
    C: Fn(&I) -> Result<Arc<Schema>, X>,
    P: Fn(&PhysicalExprNode, &Schema) -> Result<E, DataFusionError>,
>(
    convert: C,
    parse: P,
    config: StatefulProcessorOperator<I>,
    made: StatefulProcessorFunc<E>,
    i: int,
)
    requires
        configuration_gives::<I, X, E, C, P>(convert, parse, config, Ok(made)),
        0 <= i < config.operations@.len(),
    ensures
        config.input_schema is Some,
        convert.ensures((&*config.input_schema->Some_0,), Ok(Arc::new(made.input_schema()))),
        made.map_names_view() == config.map_names@,
        made.final_exprs_bytes() == config.final_exprs@,
        made.ops().len() == config.operations@.len(),
        ({
            let operation = config.operations@[i];
            let op = made.ops()[i];
            let schema = made.input_schema();
            &&& op.map_name@ == operation.map_name@
            &&& op.output_field@ == operation.output_field@
            &&& match op.op_type {
                StateOpType::StateGet => operation.op_type == 0,
                StateOpType::StatePut => operation.op_type == 1,
                StateOpType::StateUpsert => operation.op_type == 2,
                StateOpType::StateUpdate => operation.op_type == 3,
                StateOpType::StateDelete => operation.op_type == 4,
            }
            &&& parses(parse, operation.key_expr@, schema, op.key_expr)
            &&& op.value_expr is Some <==> operation.value_expr@.len() > 0
            &&& op.value_expr matches Some(value) ==> parses(
                parse,
                operation.value_expr@,
                schema,
                value,
            )
            &&& op.condition_expr is Some <==> operation.condition_expr@.len() > 0
            &&& op.condition_expr matches Some(condition) ==> parses(
                parse,
                operation.condition_expr@,
                schema,
                condition,
            )
        }),
{
    let schema = choose|schema: Arc<Schema>|
        {
            &&& #[trigger] convert.ensures((&*config.input_schema->Some_0,), Ok(schema))
            &&& operations_give::<I, X, E, P>(parse, config, *schema, Ok(made))
        };
    assert(schema == Arc::new(made.input_schema()));
    assert(op_parses(parse, config.operations@[i], *schema, made.ops()[i]));
}

/// A new operator has a map for each configured name and no other, nothing in any of them, and no
/// projection read yet.
pub proof fn law_operator_starts_empty<
    I,
    X,
    E,
    C: Fn(&I) -> Result<Arc<Schema>, X>,
    P: Fn(&PhysicalExprNode, &Schema) -> Result<E, DataFusionError>,
>(
    convert: C,
    parse: P,
    config: StatefulProcessorOperator<I>,
    made: StatefulProcessorFunc<E>,
    name: Seq<char>,
    key: Seq<char>,
)
    requires
        configuration_gives::<I, X, E, C, P>(convert, parse, config, Ok(made)),
    ensures
        made.map_names_view() == config.map_names@,
        made.final_exprs_bytes() == config.final_exprs@,
        made.final_exprs().len() == 0,
        made.ops().len() == config.operations@.len(),
        made.state().contains_key(name) <==> exists|i: int|
            0 <= i < config.map_names@.len() && (#[trigger] config.map_names@[i])@ == name,
        made.state().contains_key(name) ==> {
            &&& !made.state()[name].entries.contains_key(key)
            &&& !made.state()[name].dirty.contains(key)
        },
{
    let schema = choose|schema: Arc<Schema>|
        {
            &&& #[trigger] convert.ensures((&*config.input_schema->Some_0,), Ok(schema))
            &&& operations_give::<I, X, E, P>(parse, config, *schema, Ok(made))
        };
    law_new_maps(config.map_names@, name, key);
}

/// A configuration is refused for what it lacks: the input schema, one that gives an Arrow schema,
/// an operation's expression that can be read, or a number that is a kind's. It is the first thing
/// wrong: the operations before are made.
pub proof fn law_configuration_refused<
    I,
    X,
    E,
    C: Fn(&I) -> Result<Arc<Schema>, X>,
    P: Fn(&PhysicalExprNode, &Schema) -> Result<E, DataFusionError>,
>(convert: C, parse: P, config: StatefulProcessorOperator<I>, error: ConfigError<X>)
    requires
        configuration_gives::<I, X, E, C, P>(convert, parse, config, Err(error)),
    ensures
        match error {
            ConfigError::MissingInputSchema => config.input_schema is None,
            ConfigError::InputSchema(reason) => config.input_schema matches Some(schema)
                && convert.ensures((&*schema,), Err(reason)),
            ConfigError::Expression(reason) => exists|schema: Arc<Schema>, i: int|
                {
                    &&& #[trigger] convert.ensures((&*config.input_schema->Some_0,), Ok(schema))
                    &&& 0 <= i < config.operations@.len()
                    &&& exists|before: Seq<StateOp<E>>|
                        ops_parse(parse, config.operations@.take(i), *schema, before)
                    &&& {
                        let operation = #[trigger] config.operations@[i];
                        ||| parse_fails(parse, operation.key_expr@, *schema, reason)
                        ||| {
                            &&& exists|key: E| parses(parse, operation.key_expr@, *schema, key)
                            &&& operation.value_expr@.len() > 0
                            &&& parse_fails(parse, operation.value_expr@, *schema, reason)
                        }
                        ||| {
                            &&& exists|key: E| parses(parse, operation.key_expr@, *schema, key)
                            &&& operation.value_expr@.len() > 0 ==> exists|value: E|
                                parses(parse, operation.value_expr@, *schema, value)
                            &&& operation.condition_expr@.len() > 0
                            &&& parse_fails(parse, operation.condition_expr@, *schema, reason)
                        }
                    }
                },
            ConfigError::UnknownStateOpType(code) => {
                &&& code < 0 || code > 4
                &&& exists|schema: Arc<Schema>, i: int|
                    {
                        &&& #[trigger] convert.ensures((&*config.input_schema->Some_0,), Ok(schema))
                        &&& 0 <= i < config.operations@.len()
                        &&& (#[trigger] config.operations@[i]).op_type == code
                        &&& exists|before: Seq<StateOp<E>>|
                            ops_parse(parse, config.operations@.take(i), *schema, before)
                        &&& exists|key: E|
                            parses(parse, config.operations@[i].key_expr@, *schema, key)
                        &&& config.operations@[i].value_expr@.len() > 0 ==> exists|value: E|
                            parses(parse, config.operations@[i].value_expr@, *schema, value)
                        &&& config.operations@[i].condition_expr@.len() > 0 ==> exists|condition: E|
                            parses(parse, config.operations@[i].condition_expr@, *schema, condition)
                    }
            },
        },
{
    if config.input_schema is Some && !(error is InputSchema) {
        let schema = choose|schema: Arc<Schema>|
            {
                &&& #[trigger] convert.ensures((&*config.input_schema->Some_0,), Ok(schema))
                &&& operations_give::<I, X, E, P>(parse, config, *schema, Err(error))
            };
        assert(ops_refused::<X, E, P>(parse, config.operations@, *schema, error));
        let (i, before) = choose|i: int, before: Seq<StateOp<E>>|
            {
                &&& 0 <= i < config.operations@.len()
                &&& #[trigger] ops_parse(parse, config.operations@.take(i), *schema, before)
                &&& op_refused::<X, E, P>(parse, config.operations@[i], *schema, error)
            };
        let operation = config.operations@[i];
        if let ConfigError::UnknownStateOpType(code) = error {
            assert(StateOpType::StateGet.code() != code);
            assert(StateOpType::StatePut.code() != code);
            assert(StateOpType::StateUpsert.code() != code);
            assert(StateOpType::StateUpdate.code() != code);
            assert(StateOpType::StateDelete.code() != code);
        }
    }
}

/// Whether an expression was carried from the plan to the operator: serialized, decoded, and
/// parsed against the operator's schema.
pub open spec fn carried<
    E,
    S: Fn(&Expr, &DFSchema) -> Result<Vec<u8>, DataFusionError>,
    P: Fn(&PhysicalExprNode, &Schema) -> Result<E, DataFusionError>,
>(serialize: S, plan: DFSchema, expr: Expr, parse: P, schema: Schema, made: E) -> bool {
    exists|bytes: Vec<u8>|
        {
            &&& #[trigger] serialize.ensures((&expr, &plan), Ok(bytes))
            &&& parses(parse, bytes@, schema, made)
        }
}

/// From end to end: where the serializer gives no empty bytes, an operator made from a planned
/// configuration has for every operation of the node one with the prefixed map name, the output
/// field and the kind that the number names; its key was carried from the node's; and it has a
/// value, and a condition, exactly where the node's operation has one, carried from it.
pub proof fn law_operator_has_planned_expressions<
    I,
    E,
    S: Fn(&Expr, &DFSchema) -> Result<Vec<u8>, DataFusionError>,
    P: Fn(&PhysicalExprNode, &Schema) -> Result<E, DataFusionError>,
>(
    node: StatefulProcessorExtension,
    serialize: S,
    input_schema: Arc<I>,
    config: StatefulProcessorOperator<I>,
    parse: P,
    schema: Schema,
    ops: Seq<StateOp<E>>,
    i: int,
)
    requires
        node.configures(serialize, input_schema, config),
        ops_parse(parse, config.operations@, schema, ops),
        forall|expr: &Expr, over: &DFSchema, bytes: Vec<u8>| #[trigger]
            serialize.ensures((expr, over), Ok(bytes)) ==> bytes@.len() > 0,
        0 <= i < node.ops@.len(),
    ensures
        ops.len() == node.ops@.len(),
        ops[i].map_name@ == seq!['_', '_', 's', 'p', '_'] + node.ops@[i].map_name@,
        ops[i].output_field@ == node.ops@[i].output_field@,
        match node.ops@[i].op_type {
            0 => ops[i].op_type is StateGet,
            1 => ops[i].op_type is StatePut,
            2 => ops[i].op_type is StateUpsert,
            3 => ops[i].op_type is StateUpdate,
            4 => ops[i].op_type is StateDelete,
            _ => false,
        },
        carried(
            serialize,
            plan_schema(node.input),
            node.ops@[i].key_expr,
            parse,
            schema,
            ops[i].key_expr,
        ),
        ops[i].value_expr is Some <==> node.ops@[i].value_expr is Some,
        ops[i].value_expr is Some ==> carried(
            serialize,
            plan_schema(node.input),
            node.ops@[i].value_expr->Some_0,
            parse,
            schema,
            ops[i].value_expr->Some_0,
        ),
        ops[i].condition_expr is Some <==> node.ops@[i].condition_expr is Some,
        ops[i].condition_expr is Some ==> carried(
            serialize,
            plan_schema(node.input),
            node.ops@[i].condition_expr->Some_0,
            parse,
            schema,
            ops[i].condition_expr->Some_0,
        ),
{
    law_plan_keeps_operations(node, serialize, input_schema, config, i);
    assert(op_parses(parse, config.operations@[i], schema, ops[i]));
}

/// A projection is read expression by expression, each from its own bytes; it is not read where
/// one of them cannot be, with the first such one's error.
pub proof fn law_projection_is_read<
    E,
    P: Fn(&PhysicalExprNode, &Schema) -> Result<E, DataFusionError>,
>(parse: P, encoded: Seq<Vec<u8>>, schema: Schema, exprs: Seq<E>, error: ExprError)
    ensures
        exprs_parse(parse, encoded, schema, exprs) <==> {
            &&& exprs.len() == encoded.len()
            &&& forall|i: int|
                0 <= i < exprs.len() ==> parses(parse, encoded[i]@, schema, #[trigger] exprs[i])
        },
        exprs_fail(parse, encoded, schema, error) ==> exists|i: int|
            {
                &&& 0 <= i < encoded.len()
                &&& parse_fails(parse, (#[trigger] encoded[i])@, schema, error)
                &&& exists|before: Seq<E>| exprs_parse(parse, encoded.take(i), schema, before)
            },
{
    if exprs_fail(parse, encoded, schema, error) {
        let (i, before) = choose|i: int, before: Seq<E>|
            {
                &&& 0 <= i < encoded.len()
                &&& #[trigger] exprs_parse(parse, encoded.take(i), schema, before)
                &&& parse_fails(parse, encoded[i]@, schema, error)
            };
        let bytes = encoded[i];
    }
}

/// A start reads every expression of the projection from its own bytes, against the schema of the
/// input's fields followed by the operations' output fields. It fails only where one cannot be
/// read, and then the projection is as it was; without an encoded projection it cannot fail.
pub proof fn law_start<E, P: Fn(&PhysicalExprNode, &Schema) -> Result<E, DataFusionError>>(
    parse: P,
    before: StatefulProcessorFunc<E>,
    final_exprs: Seq<E>,
    started: Result<(), ExprError>,
)
    requires
        start_gives(parse, before, final_exprs, started),
    ensures
        ({
            let encoded = before.final_exprs_bytes();
            let schema = new_schema(
                schema_fields(before.input_schema()) + result_fields(before.ops()),
            );
            &&& encoded.len() == 0 ==> started is Ok
            &&& encoded.len() == 0 || started is Err ==> final_exprs == before.final_exprs()
            &&& encoded.len() > 0 && started is Ok ==> final_exprs.len() == encoded.len() && forall|
                i: int,
            |
                0 <= i < encoded.len() ==> parses(
                    parse,
                    encoded[i]@,
                    schema,
                    #[trigger] final_exprs[i],
                )
            &&& started is Err ==> exists|i: int|
                {
                    &&& 0 <= i < encoded.len()
                    &&& parse_fails(parse, (#[trigger] encoded[i])@, schema, started->Err_0)
                }
        }),
{
    let encoded = before.final_exprs_bytes();
    let schema = new_schema(schema_fields(before.input_schema()) + result_fields(before.ops()));
    if let Err(error) = started {
        law_projection_is_read(parse, encoded, schema, final_exprs, error);
    }
}

/// A parser or a serializer that takes everything can be used.
pub proof fn law_functions_can_be_used<
    E,
    S: Fn(&Expr, &DFSchema) -> Result<Vec<u8>, DataFusionError>,
    P: Fn(&PhysicalExprNode, &Schema) -> Result<E, DataFusionError>,
>(serialize: S, parse: P)
    ensures
        (forall|expr: &Expr, schema: &DFSchema| #[trigger] serialize.requires((expr, schema)))
            ==> serializes_all(serialize),
        (forall|node: &PhysicalExprNode, schema: &Schema| #[trigger] parse.requires((node, schema)))
            ==> parses_all::<E, P>(parse),
{
}

/// A node lists the key of an operation, then its value and its condition where it has them, then
/// the next operation's, and the projection last.
pub proof fn law_expression_order(
    ops: Seq<StatefulOpDesc>,
    op: StatefulOpDesc,
    node: StatefulProcessorExtension,
)
    ensures
        op_exprs(Seq::empty()) == Seq::<Expr>::empty(),
        op_exprs(ops.push(op)) == op_exprs(ops) + op.exprs(),
        op.exprs()[0] == op.key_expr,
        op.value_expr matches Some(value) ==> op.exprs()[1] == value,
        op.condition_expr matches Some(condition) ==> op.exprs().last() == condition,
        op.exprs().len() == 1 + (if op.value_expr is Some {
            1int
        } else {
            0
        }) + (if op.condition_expr is Some {
            1int
        } else {
            0
        }),
        node.all_exprs() == op_exprs(node.ops@) + node.final_exprs@,
{
    assert(ops.push(op).drop_last() =~= ops);
}

/// An operation of the same shape has the same map, kind and output field, and a value and a
/// condition exactly where the other has.
pub proof fn law_same_shape(op: StatefulOpDesc, other: StatefulOpDesc)
    requires
        op.same_shape(other),
    ensures
        op.map_name@ == other.map_name@,
        op.op_type == other.op_type,
        op.output_field@ == other.output_field@,
        op.value_expr is Some <==> other.value_expr is Some,
        op.condition_expr is Some <==> other.condition_expr is Some,
{
}

/// A node rebuilt with other expressions has the given input and the same schema, lists exactly the
/// given expressions, and has as many operations, each on the same map, of the same kind, with the
/// same output field. Its first operation's key is the first expression.
pub proof fn law_rebuilt(
    node: StatefulProcessorExtension,
    exprs: Seq<Expr>,
    input: LogicalPlan,
    made: StatefulProcessorExtension,
    i: int,
)
    requires
        node.rebuilds(exprs, input, made),
        0 <= i < node.ops@.len(),
    ensures
        made.input == input,
        made.final_schema == node.final_schema,
        made.ops@.len() == node.ops@.len(),
        made.ops@[i].map_name@ == node.ops@[i].map_name@,
        made.ops@[i].op_type == node.ops@[i].op_type,
        made.ops@[i].output_field@ == node.ops@[i].output_field@,
        made.ops@[i].value_expr is Some <==> node.ops@[i].value_expr is Some,
        made.ops@[i].condition_expr is Some <==> node.ops@[i].condition_expr is Some,
        op_exprs(made.ops@) + made.final_exprs@ == exprs,
        ({
            let at = op_exprs(made.ops@.take(i)).len() as int;
            &&& made.ops@[i].key_expr == exprs[at]
            &&& made.ops@[i].value_expr matches Some(value) ==> value == exprs[at + 1]
            &&& made.ops@[i].condition_expr matches Some(condition) ==> condition == exprs[at + (
            if made.ops@[i].value_expr is Some {
                2int
            } else {
                1
            })]
        }),
{
    assert(node.ops@[i].same_shape(made.ops@[i]));
    lemma_exprs_at(made.ops@, i);
    let at = op_exprs(made.ops@.take(i)).len() as int;
    let own = made.ops@[i].exprs();
    assert(own[0] == exprs[at]);
    if made.ops@[i].value_expr is Some {
        assert(own[1] == exprs[at + 1]);
    }
    if made.ops@[i].condition_expr is Some {
        assert(own[own.len() - 1] == exprs[at + own.len() - 1]);
    }
}

/// Where an operation's expressions stand among all of them.
proof fn lemma_exprs_at(ops: Seq<StatefulOpDesc>, i: int)
    requires
        0 <= i < ops.len(),
    ensures
        op_exprs(ops.take(i)).len() + ops[i].exprs().len() <= op_exprs(ops).len(),
        forall|j: int|
            0 <= j < ops[i].exprs().len() ==> #[trigger] ops[i].exprs()[j] == op_exprs(ops)[op_exprs(
                ops.take(i),
            ).len() + j],
    decreases ops.len(),
{
    if i == ops.len() - 1 {
        assert(ops.take(i) =~= ops.drop_last());
    } else {
        lemma_exprs_at(ops.drop_last(), i);
        assert(ops.drop_last().take(i) =~= ops.take(i));
    }
}

/// A planned node is told apart by its index, runs alone, and has one edge forward into it with
/// the schema of the input.
pub proof fn law_node_identity<I>(plan: NodePlan<I>, index: usize, input_schema: Arc<I>)
    requires
        plan.identifies(index, input_schema),
    ensures
        index <= u32::MAX ==> plan.node_id == index,
        plan.operator_id@.len() > 19,
        number_of(plan.operator_id@.skip(19)) == index,
        plan.parallelism == 1,
        plan.edges@.len() == 1,
        plan.edges@[0].kind is Forward,
        plan.edges@[0].schema == input_schema,
        plan.operator_name@ == plan.description@,
{
    reveal_strlit("stateful_processor_");
    law_decimal(index as nat);
    assert(plan.operator_id@.skip(19) =~= decimal(index as nat));
}

/// Names are joined in order with the separator between them and nowhere else.
pub proof fn law_joined(names: Seq<Seq<char>>, name: Seq<char>, separator: Seq<char>)
    ensures
        joined(Seq::empty(), separator) == Seq::<char>::empty(),
        joined(seq![name], separator) == name,
        names.len() > 0 ==> joined(names.push(name), separator) == joined(names, separator)
            + separator + name,
{
    assert(names.push(name).drop_last() =~= names);
}

/// Fields are named in order, each by its own name.
pub proof fn law_field_names(fields: Seq<QualifiedField>, i: int)
    requires
        0 <= i < fields.len(),
    ensures
        field_names(fields).len() == fields.len(),
        field_names(fields)[i] == field_name(*fields[i].1),
{
}

/// The number that decimal digits write.
pub open spec fn number_of(digits: Seq<char>) -> int
    decreases digits.len(),
{
    if digits.len() == 0 {
        0
    } else {
        number_of(digits.drop_last()) * 10 + (digits.last() as int - '0' as int)
    }
}

/// A number is written in decimal digits that write that number, without leading zeros.
pub proof fn law_decimal(n: nat)
    ensures
        number_of(decimal(n)) == n,
        decimal(n).len() > 0,
        decimal(n).len() > 1 ==> decimal(n)[0] != '0',
        forall|i: int| 0 <= i < decimal(n).len() ==> '0' <= #[trigger] decimal(n)[i] <= '9',
        n > 0 ==> decimal(n)[0] != '0',
    decreases n,
{
    if n < 10 {
        let digits = decimal(n);
        assert(digits.drop_last() =~= Seq::empty());
        assert(number_of(digits.drop_last()) == 0);
        assert(digits.last() as int == 48 + n);
    } else {
        law_decimal(n / 10);
        let digits = decimal(n);
        assert(digits.drop_last() =~= decimal(n / 10));
        assert(digits.last() as int == 48 + n % 10);
        assert(digits[0] == decimal(n / 10)[0]);
        assert forall|i: int| 0 <= i < digits.len() implies '0' <= #[trigger] digits[i] <= '9' by {
            if i < digits.len() - 1 {
                assert(digits[i] == decimal(n / 10)[i]);
            }
        }
    }
}

/// An integer is written as its magnitude, with a minus sign in front exactly where it is negative.
pub proof fn law_signed_decimal(n: int)
    ensures
        n >= 0 ==> signed_decimal(n) == decimal(n as nat),
        n < 0 ==> signed_decimal(n) == seq!['-'] + decimal((-n) as nat),
{
}

} // verus!
