//! Making the operator from its configuration.
use std::sync::Arc;

use arrow_schema::Schema;
use datafusion::error::DataFusionError;
use datafusion_proto::protobuf::PhysicalExprNode;
use vstd::prelude::*;

use crate::config::{StateOperation, StatefulProcessorOperator};
use crate::encoded::{parse_expr, parse_fails, parses, parses_all, ExprError};
use crate::ops::StateOpType;
use crate::processor::{empty_maps, name_set, StateOp, StatefulProcessorFunc};
use crate::text::{append_signed_decimal, signed_decimal};

verus! {

/// Why a configuration makes no operator. `X` is why the engine's schema gives no Arrow schema.
pub enum ConfigError<X> {
    /// The configuration has no input schema.
    MissingInputSchema,
    /// The input schema gives no Arrow schema.
    InputSchema(X),
    /// An operation's expression cannot be read.
    Expression(ExprError),
    /// An operation is of no known kind.
    UnknownStateOpType(i32),
}

/// Makes operators from configurations.
pub struct StatefulProcessorConstructor;

/// Whether an encoding may give this optional expression: none where it is empty.
pub open spec fn optional_parses<E, P: Fn(&PhysicalExprNode, &Schema) -> Result<E, DataFusionError>>(
    parse: P,
    bytes: Seq<u8>,
    schema: Schema,
    expr: Option<E>,
) -> bool {
    match expr {
        Some(some_expr) => bytes.len() > 0 && parses(parse, bytes, schema, some_expr),
        None => bytes.len() == 0,
    }
}

/// Whether a configured operation may become this operation.
pub open spec fn op_parses<E, P: Fn(&PhysicalExprNode, &Schema) -> Result<E, DataFusionError>>(
    parse: P,
    operation: StateOperation,
    schema: Schema,
    op: StateOp<E>,
) -> bool {
    &&& op.map_name == operation.map_name
    &&& op.output_field == operation.output_field
    &&& op.op_type.code() == operation.op_type
    &&& parses(parse, operation.key_expr@, schema, op.key_expr)
    &&& optional_parses(parse, operation.value_expr@, schema, op.value_expr)
    &&& optional_parses(parse, operation.condition_expr@, schema, op.condition_expr)
}

/// Whether configured operations may become these operations.
pub open spec fn ops_parse<E, P: Fn(&PhysicalExprNode, &Schema) -> Result<E, DataFusionError>>(
    parse: P,
    operations: Seq<StateOperation>,
    schema: Schema,
    ops: Seq<StateOp<E>>,
) -> bool {
    &&& ops.len() == operations.len()
    &&& forall|i: int|
        0 <= i < ops.len() ==> op_parses(parse, operations[i], schema, #[trigger] ops[i])
}

/// Whether a configured operation may be refused with this error. Its expressions are read
/// before its kind: key, value, condition.
pub open spec fn op_refused<X, E, P: Fn(&PhysicalExprNode, &Schema) -> Result<E, DataFusionError>>(
    parse: P,
    operation: StateOperation,
    schema: Schema,
    error: ConfigError<X>,
) -> bool {
    match error {
        ConfigError::MissingInputSchema => false,
        ConfigError::InputSchema(_) => false,
        ConfigError::Expression(failure) => {
            ||| parse_fails(parse, operation.key_expr@, schema, failure)
            ||| {
                &&& exists|key: E| parses(parse, operation.key_expr@, schema, key)
                &&& operation.value_expr@.len() > 0
                &&& parse_fails(parse, operation.value_expr@, schema, failure)
            }
            ||| {
                &&& exists|key: E| parses(parse, operation.key_expr@, schema, key)
                &&& exists|value: Option<E>|
                    optional_parses(parse, operation.value_expr@, schema, value)
                &&& operation.condition_expr@.len() > 0
                &&& parse_fails(parse, operation.condition_expr@, schema, failure)
            }
        },
        ConfigError::UnknownStateOpType(code) => {
            &&& code == operation.op_type
            &&& forall|op_type: StateOpType| #[trigger] op_type.code() != code
            &&& exists|key: E| parses(parse, operation.key_expr@, schema, key)
            &&& exists|value: Option<E>|
                optional_parses(parse, operation.value_expr@, schema, value)
            &&& exists|condition: Option<E>|
                optional_parses(parse, operation.condition_expr@, schema, condition)
        },
    }
}

/// Whether configured operations may be refused with this error, at the first one that is.
pub open spec fn ops_refused<X, E, P: Fn(&PhysicalExprNode, &Schema) -> Result<E, DataFusionError>>(
    parse: P,
    operations: Seq<StateOperation>,
    schema: Schema,
    error: ConfigError<X>,
) -> bool {
    exists|i: int, before: Seq<StateOp<E>>|
        {
            &&& 0 <= i < operations.len()
            &&& #[trigger] ops_parse(parse, operations.take(i), schema, before)
            &&& op_refused(parse, operations[i], schema, error)
        }
}

/// Reads an expression where its encoding is not empty.
fn parse_optional<E, P: Fn(&PhysicalExprNode, &Schema) -> Result<E, DataFusionError>>(
    bytes: &Vec<u8>,
    schema: &Schema,
    parse: &P,
) -> (expr: Result<Option<E>, ExprError>)
    requires
        parses_all::<E, P>(*parse),
    ensures
        match expr {
            Ok(made) => optional_parses(*parse, bytes@, *schema, made),
            Err(error) => bytes@.len() > 0 && parse_fails(*parse, bytes@, *schema, error),
        },
{
    if bytes.len() == 0 {
        Ok(None)
    } else {
        match parse_expr(bytes, schema, parse) {
            Ok(expr) => Ok(Some(expr)),
            Err(error) => Err(error),
        }
    }
}

/// Makes one operation.
fn parse_op<X, E, P: Fn(&PhysicalExprNode, &Schema) -> Result<E, DataFusionError>>(
    operation: &StateOperation,
    schema: &Schema,
    parse: &P,
) -> (op: Result<StateOp<E>, ConfigError<X>>)
    requires
        parses_all::<E, P>(*parse),
    ensures
        match op {
            Ok(made) => op_parses(*parse, *operation, *schema, made),
            Err(error) => op_refused(*parse, *operation, *schema, error),
        },
{
    let key_expr = match parse_expr(&operation.key_expr, schema, parse) {
        Ok(expr) => expr,
        Err(error) => {
            return Err(ConfigError::Expression(error));
        },
    };
    assert(parses(*parse, operation.key_expr@, *schema, key_expr));
    let value_expr = match parse_optional(&operation.value_expr, schema, parse) {
        Ok(expr) => expr,
        Err(error) => {
            return Err(ConfigError::Expression(error));
        },
    };
    assert(optional_parses(*parse, operation.value_expr@, *schema, value_expr));
    let condition_expr = match parse_optional(&operation.condition_expr, schema, parse) {
        Ok(expr) => expr,
        Err(error) => {
            return Err(ConfigError::Expression(error));
        },
    };
    assert(optional_parses(*parse, operation.condition_expr@, *schema, condition_expr));
    match StateOpType::from_code(operation.op_type) {
        Some(op_type) => Ok(
            StateOp {
                map_name: operation.map_name.clone(),
                op_type,
                key_expr,
                value_expr,
                condition_expr,
                output_field: operation.output_field.clone(),
            },
        ),
        None => Err(ConfigError::UnknownStateOpType(operation.op_type)),
    }
}

/// Makes the operations.
fn parse_ops<X, E, P: Fn(&PhysicalExprNode, &Schema) -> Result<E, DataFusionError>>(
    operations: &Vec<StateOperation>,
    schema: &Schema,
    parse: &P,
) -> (ops: Result<Vec<StateOp<E>>, ConfigError<X>>)
    requires
        parses_all::<E, P>(*parse),
    ensures
        match ops {
            Ok(made) => ops_parse(*parse, operations@, *schema, made@),
            Err(error) => ops_refused(*parse, operations@, *schema, error),
        },
{
    let mut ops: Vec<StateOp<E>> = Vec::with_capacity(operations.len());
    for i in 0..operations.len()
        invariant
            parses_all::<E, P>(*parse),
            ops_parse(*parse, operations@.take(i as int), *schema, ops@),
    {
        match parse_op(&operations[i], schema, parse) {
            Ok(op) => {
                ops.push(op);
            },
            Err(error) => {
                assert(op_refused(*parse, operations@[i as int], *schema, error));
                return Err(error);
            },
        }
    }
    assert(operations@.take(operations@.len() as int) =~= operations@);
    Ok(ops)
}

/// What a configuration may give once the input's Arrow schema is known.
pub open spec fn operations_give<
    I,
    X,
    E,
    P: Fn(&PhysicalExprNode, &Schema) -> Result<E, DataFusionError>,
>(
    parse: P,
    config: StatefulProcessorOperator<I>,
    schema: Schema,
    func: Result<StatefulProcessorFunc<E>, ConfigError<X>>,
) -> bool {
    match func {
        Ok(made) => {
            &&& made.wf()
            &&& ops_parse(parse, config.operations@, schema, made.ops())
            &&& made.map_names_view() == config.map_names@
            &&& made.state() == empty_maps(name_set(config.map_names@))
            &&& made.final_exprs().len() == 0
            &&& made.final_exprs_bytes() == config.final_exprs@
            &&& made.input_schema() == schema
        },
        Err(error) => ops_refused(parse, config.operations@, schema, error),
    }
}

/// What a configuration may give: the operator with nothing in its maps, or an error with its
/// reason. `convert` takes the Arrow schema out of the engine's.
pub open spec fn configuration_gives<
    I,
    X,
    E,
    C: Fn(&I) -> Result<Arc<Schema>, X>,
    P: Fn(&PhysicalExprNode, &Schema) -> Result<E, DataFusionError>,
>(
    convert: C,
    parse: P,
    config: StatefulProcessorOperator<I>,
    func: Result<StatefulProcessorFunc<E>, ConfigError<X>>,
) -> bool {
    match config.input_schema {
        None => func matches Err(ConfigError::MissingInputSchema),
        Some(input_schema) => {
            ||| func matches Err(ConfigError::InputSchema(error)) && convert.ensures(
                (&*input_schema,),
                Err(error),
            )
            ||| exists|schema: Arc<Schema>|
                {
                    &&& #[trigger] convert.ensures((&*input_schema,), Ok(schema))
                    &&& operations_give(parse, config, *schema, func)
                }
        },
    }
}

impl StatefulProcessorConstructor {
    /// Makes the operator that a configuration describes, with nothing in its maps. The
    /// expressions of the final projection stay encoded until the operator starts.
    pub fn with_config<
        I,
        X,
        E,
        C: Fn(&I) -> Result<Arc<Schema>, X>,
        P: Fn(&PhysicalExprNode, &Schema) -> Result<E, DataFusionError>,
    >(&self, config: StatefulProcessorOperator<I>, convert: &C, parse: &P) -> (func: Result<
        StatefulProcessorFunc<E>,
        ConfigError<X>,
    >)
        requires
            config.input_schema matches Some(schema) ==> convert.requires((&*schema,)),
            parses_all::<E, P>(*parse),
        ensures
            configuration_gives(*convert, *parse, config, func),
    {
        let input_schema = match config.input_schema {
            Some(schema) => schema,
            None => {
                return Err(ConfigError::MissingInputSchema);
            },
        };
        let schema = match convert(&*input_schema) {
            Ok(schema) => schema,
            Err(error) => {
                return Err(ConfigError::InputSchema(error));
            },
        };
        assert(convert.ensures((&*input_schema,), Ok(schema)));
        let ops = match parse_ops(&config.operations, &schema, parse) {
            Ok(ops) => ops,
            Err(error) => {
                return Err(error);
            },
        };
        Ok(StatefulProcessorFunc::new(config.map_names, ops, config.final_exprs, schema))
    }
}

impl<X> ConfigError<X> {
    /// The message of an error that the configuration itself gives. The error of a schema or an
    /// expression speaks for itself.
    pub fn message(&self) -> (message: Option<String>)
        ensures
            match self {
                ConfigError::MissingInputSchema => message matches Some(text) && text@
                    == "StatefulProcessorOperator missing input_schema"@,
                ConfigError::UnknownStateOpType(code) => message matches Some(text) && text@
                    == "unknown StateOpType: "@ + signed_decimal(*code as int),
                ConfigError::InputSchema(_) | ConfigError::Expression(_) => message is None,
            },
    {
        match self {
            ConfigError::MissingInputSchema => Some(
                "StatefulProcessorOperator missing input_schema".to_owned(),
            ),
            ConfigError::UnknownStateOpType(code) => {
                let mut text = "unknown StateOpType: ".to_owned();
                append_signed_decimal(&mut text, *code);
                Some(text)
            },
            ConfigError::InputSchema(_) | ConfigError::Expression(_) => None,
        }
    }
}

} // verus!
