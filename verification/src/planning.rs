//! Turning the plan node into the operator's configuration.
use std::sync::Arc;

use datafusion::common::{DFSchema, TableReference};
use datafusion::error::DataFusionError;
use datafusion::logical_expr::Expr;
use vstd::hash_set::StringHashSet;
use vstd::prelude::*;
use vstd::string::StringExecFns;

use crate::config::{StateOperation, StatefulProcessorOperator};
use crate::logical::{
    all_names_differ, list_qualified_fields, make_qualified_schema, new_qualified_schema,
    plan_schema, qualified_fields, schema_of_plan, QualifiedField,
};
use crate::ops::StateOpType;
use crate::planner::{PlanError, StatefulOpDesc, StatefulProcessorExtension};
use crate::processor::{lemma_take_set, name_texts};
use crate::schema::{make_result_field, result_field, share};
use crate::text::{append_decimal, decimal};

verus! {

/// How rows travel along an edge of the dataflow graph.
#[derive(Clone, Copy, Debug, PartialEq, Eq, Structural)]
pub enum EdgeKind {
    /// Each instance hands its rows to one instance.
    Forward,
    /// Rows go to the instance that their key picks.
    Shuffle,
}

/// An edge into a node, for all the columns of its schema.
pub struct EdgePlan<I> {
    pub kind: EdgeKind,
    pub schema: Arc<I>,
}

/// What the dataflow graph gets for a node: the operator's identity and configuration, and the
/// edges into it. `I` is the schema of the input as the engine has it.
pub struct NodePlan<I> {
    pub node_id: u32,
    pub operator_id: String,
    pub operator_name: String,
    pub description: String,
    pub parallelism: usize,
    pub config: StatefulProcessorOperator<I>,
    pub edges: Vec<EdgePlan<I>>,
}

impl<I> NodePlan<I> {
    /// Whether the node is the one of this index, with one edge forward into it.
    pub open spec fn identifies(self, index: usize, input_schema: Arc<I>) -> bool {
        &&& self.node_id == index as u32
        &&& self.operator_id@ == "stateful_processor_"@ + decimal(index as nat)
        &&& self.operator_name@ == "StatefulProcessor"@
        &&& self.description@ == "StatefulProcessor"@
        &&& self.parallelism == 1
        &&& self.edges@.len() == 1
        &&& self.edges@[0].kind == EdgeKind::Forward
        &&& self.edges@[0].schema == input_schema
    }
}

/// A map's name with the prefix that sets it apart from the tables of other operators.
pub open spec fn prefixed(name: Seq<char>) -> Seq<char> {
    "__sp_"@ + name
}

/// The texts in the order in which each first occurs.
pub open spec fn distinct(texts: Seq<Seq<char>>) -> Seq<Seq<char>>
    decreases texts.len(),
{
    if texts.len() == 0 {
        Seq::empty()
    } else {
        let before = distinct(texts.drop_last());
        if texts.drop_last().contains(texts.last()) {
            before
        } else {
            before.push(texts.last())
        }
    }
}

/// The prefixed names of the operations' maps.
pub open spec fn op_map_names(ops: Seq<StatefulOpDesc>) -> Seq<Seq<char>> {
    ops.map_values(|op: StatefulOpDesc| prefixed(op.map_name@))
}

/// Whether the serializer takes every expression and schema.
pub open spec fn serializes_all<S: Fn(&Expr, &DFSchema) -> Result<Vec<u8>, DataFusionError>>(
    serialize: S,
) -> bool {
    forall|expr: &Expr, schema: &DFSchema| #[trigger] serialize.requires((expr, schema))
}

/// Whether an optional expression may be serialized to these bytes: none where there is no
/// expression.
pub open spec fn optional_serializes<S: Fn(&Expr, &DFSchema) -> Result<Vec<u8>, DataFusionError>>(
    serialize: S,
    expr: Option<Expr>,
    schema: DFSchema,
    bytes: Vec<u8>,
) -> bool {
    match expr {
        Some(some_expr) => serialize.ensures((&some_expr, &schema), Ok(bytes)),
        None => bytes@.len() == 0,
    }
}

/// Whether an operation may be configured like this: under its prefixed map name, and with its
/// expressions serialized.
pub open spec fn op_serializes<S: Fn(&Expr, &DFSchema) -> Result<Vec<u8>, DataFusionError>>(
    serialize: S,
    op: StatefulOpDesc,
    schema: DFSchema,
    operation: StateOperation,
) -> bool {
    &&& operation.map_name@ == prefixed(op.map_name@)
    &&& operation.op_type == op.op_type
    &&& operation.output_field == op.output_field
    &&& serialize.ensures((&op.key_expr, &schema), Ok(operation.key_expr))
    &&& optional_serializes(serialize, op.value_expr, schema, operation.value_expr)
    &&& optional_serializes(serialize, op.condition_expr, schema, operation.condition_expr)
}

/// Whether operations may be configured like this.
pub open spec fn ops_serialize<S: Fn(&Expr, &DFSchema) -> Result<Vec<u8>, DataFusionError>>(
    serialize: S,
    ops: Seq<StatefulOpDesc>,
    schema: DFSchema,
    operations: Seq<StateOperation>,
) -> bool {
    &&& operations.len() == ops.len()
    &&& forall|i: int|
        0 <= i < ops.len() ==> op_serializes(serialize, ops[i], schema, #[trigger] operations[i])
}

/// Whether serializing an operation's expressions may fail with this error. They are taken in
/// order: key, value, condition.
pub open spec fn op_unserialized<S: Fn(&Expr, &DFSchema) -> Result<Vec<u8>, DataFusionError>>(
    serialize: S,
    op: StatefulOpDesc,
    schema: DFSchema,
    error: DataFusionError,
) -> bool {
    ||| serialize.ensures((&op.key_expr, &schema), Err(error))
    ||| {
        &&& exists|key: Vec<u8>| #[trigger] serialize.ensures((&op.key_expr, &schema), Ok(key))
        &&& op.value_expr matches Some(value) && serialize.ensures((&value, &schema), Err(error))
    }
    ||| {
        &&& exists|key: Vec<u8>| #[trigger] serialize.ensures((&op.key_expr, &schema), Ok(key))
        &&& exists|value: Vec<u8>| optional_serializes(serialize, op.value_expr, schema, value)
        &&& op.condition_expr matches Some(condition) && serialize.ensures(
            (&condition, &schema),
            Err(error),
        )
    }
}

/// Whether serializing operations may fail with this error, at the first one that fails.
pub open spec fn ops_unserialized<S: Fn(&Expr, &DFSchema) -> Result<Vec<u8>, DataFusionError>>(
    serialize: S,
    ops: Seq<StatefulOpDesc>,
    schema: DFSchema,
    error: DataFusionError,
) -> bool {
    exists|i: int, before: Seq<StateOperation>|
        {
            &&& 0 <= i < ops.len()
            &&& #[trigger] ops_serialize(serialize, ops.take(i), schema, before)
            &&& op_unserialized(serialize, ops[i], schema, error)
        }
}

/// Whether expressions may be serialized to these bytes.
pub open spec fn exprs_serialize<S: Fn(&Expr, &DFSchema) -> Result<Vec<u8>, DataFusionError>>(
    serialize: S,
    exprs: Seq<Expr>,
    schema: DFSchema,
    encoded: Seq<Vec<u8>>,
) -> bool {
    &&& encoded.len() == exprs.len()
    &&& forall|i: int|
        0 <= i < exprs.len() ==> serialize.ensures(
            (&exprs[i], &schema),
            Ok(#[trigger] encoded[i]),
        )
}

/// Whether serializing expressions may fail with this error, at the first one that fails.
pub open spec fn exprs_unserialized<S: Fn(&Expr, &DFSchema) -> Result<Vec<u8>, DataFusionError>>(
    serialize: S,
    exprs: Seq<Expr>,
    schema: DFSchema,
    error: DataFusionError,
) -> bool {
    exists|i: int, before: Seq<Vec<u8>>|
        {
            &&& 0 <= i < exprs.len()
            &&& #[trigger] exprs_serialize(serialize, exprs.take(i), schema, before)
            &&& serialize.ensures((&exprs[i], &schema), Err(error))
        }
}

/// The fields of the operations' answers: unqualified, nullable, each of its operation's kind.
pub open spec fn answer_fields(ops: Seq<StatefulOpDesc>) -> Seq<QualifiedField> {
    ops.map_values(
        |op: StatefulOpDesc|
            (
                None::<TableReference>,
                Arc::new(
                    result_field(
                        op.output_field@,
                        StateOpType::of_code(op.op_type).answers(),
                    ),
                ),
            ),
    )
}

impl StatefulProcessorExtension {
    /// The fields that the final projection is serialized against: those of the input, then
    /// those of the operations' answers.
    pub open spec fn intermediate_fields(self) -> Seq<QualifiedField> {
        qualified_fields(plan_schema(self.input)) + answer_fields(self.ops@)
    }

    /// Whether a configuration is what the node may become over an input of this schema.
    pub open spec fn configures<I, S: Fn(&Expr, &DFSchema) -> Result<Vec<u8>, DataFusionError>>(
        self,
        serialize: S,
        input_schema: Arc<I>,
        config: StatefulProcessorOperator<I>,
    ) -> bool {
        &&& config.name@ == "StatefulProcessor"@
        &&& ops_serialize(serialize, self.ops@, plan_schema(self.input), config.operations@)
        &&& name_texts(config.map_names@) == distinct(op_map_names(self.ops@))
        &&& config.input_schema == Some(input_schema)
        &&& all_names_differ(self.intermediate_fields())
        &&& new_qualified_schema(self.intermediate_fields()) matches Ok(schema) && exprs_serialize(
            serialize,
            self.final_exprs@,
            schema,
            config.final_exprs@,
        )
    }

    /// Whether the node may be refused with this error: an operation is not serialized, or all
    /// are but the names of the columns clash, or they do not but the final projection is not
    /// serialized.
    pub open spec fn refused<S: Fn(&Expr, &DFSchema) -> Result<Vec<u8>, DataFusionError>>(
        self,
        serialize: S,
        error: DataFusionError,
    ) -> bool {
        let input = plan_schema(self.input);
        ||| ops_unserialized(serialize, self.ops@, input, error)
        ||| {
            &&& exists|operations: Seq<StateOperation>|
                ops_serialize(serialize, self.ops@, input, operations)
            &&& !all_names_differ(self.intermediate_fields())
            &&& new_qualified_schema(self.intermediate_fields()) == Err::<DFSchema, _>(error)
        }
        ||| {
            &&& exists|operations: Seq<StateOperation>|
                ops_serialize(serialize, self.ops@, input, operations)
            &&& all_names_differ(self.intermediate_fields())
            &&& new_qualified_schema(self.intermediate_fields()) matches Ok(schema)
                && exprs_unserialized(serialize, self.final_exprs@, schema, error)
        }
    }
}

/// A map's name with its prefix.
fn prefix_name(name: &str) -> (prefixed_name: String)
    ensures
        prefixed_name@ == prefixed(name@),
{
    let mut prefixed_name = "__sp_".to_owned();
    prefixed_name.append(name);
    prefixed_name
}

/// The maps that operations work on, prefixed, each once, in the order in which they first occur.
pub fn collect_map_names(ops: &Vec<StatefulOpDesc>) -> (names: Vec<String>)
    ensures
        name_texts(names@) == distinct(op_map_names(ops@)),
{
    let mut seen = StringHashSet::new();
    let mut names: Vec<String> = Vec::new();
    let ghost all = op_map_names(ops@);
    proof {
        assert(all.take(0) =~= Seq::empty());
        assert(all.take(0).to_set() =~= Set::empty());
        assert(name_texts(names@) =~= Seq::empty());
    }
    for i in 0..ops.len()
        invariant
            all == op_map_names(ops@),
            seen@ == all.take(i as int).to_set(),
            name_texts(names@) == distinct(all.take(i as int)),
    {
        let ghost before = names@;
        let name = prefix_name(ops[i].map_name.as_str());
        proof {
            lemma_take_set(all, i as int);
            assert(all.take(i + 1).drop_last() =~= all.take(i as int));
            assert(all.take(i + 1).last() == name@);
        }
        if seen.insert(name.clone()) {
            names.push(name);
            assert(name_texts(names@) =~= name_texts(before).push(name@));
        } else {
            assert(all.take(i as int).contains(name@));
        }
    }
    assert(all.take(all.len() as int) =~= all);
    names
}

/// Serializes an expression where there is one.
fn serialize_optional<S: Fn(&Expr, &DFSchema) -> Result<Vec<u8>, DataFusionError>>(
    serialize: &S,
    expr: &Option<Expr>,
    schema: &DFSchema,
) -> (bytes: Result<Vec<u8>, DataFusionError>)
    requires
        serializes_all(*serialize),
    ensures
        match bytes {
            Ok(made) => optional_serializes(*serialize, *expr, *schema, made),
            Err(error) => *expr matches Some(some_expr) && serialize.ensures(
                (&some_expr, schema),
                Err(error),
            ),
        },
{
    match expr {
        Some(some_expr) => serialize(some_expr, schema),
        None => Ok(Vec::new()),
    }
}

/// Configures one operation.
fn serialize_op<S: Fn(&Expr, &DFSchema) -> Result<Vec<u8>, DataFusionError>>(
    serialize: &S,
    op: &StatefulOpDesc,
    schema: &DFSchema,
) -> (operation: Result<StateOperation, DataFusionError>)
    requires
        serializes_all(*serialize),
    ensures
        match operation {
            Ok(made) => op_serializes(*serialize, *op, *schema, made),
            Err(error) => op_unserialized(*serialize, *op, *schema, error),
        },
{
    let key_expr = match serialize(&op.key_expr, schema) {
        Ok(bytes) => bytes,
        Err(error) => {
            return Err(error);
        },
    };
    assert(serialize.ensures((&op.key_expr, schema), Ok(key_expr)));
    let value_expr = match serialize_optional(serialize, &op.value_expr, schema) {
        Ok(bytes) => bytes,
        Err(error) => {
            return Err(error);
        },
    };
    assert(optional_serializes(*serialize, op.value_expr, *schema, value_expr));
    let condition_expr = match serialize_optional(serialize, &op.condition_expr, schema) {
        Ok(bytes) => bytes,
        Err(error) => {
            return Err(error);
        },
    };
    Ok(
        StateOperation {
            map_name: prefix_name(op.map_name.as_str()),
            op_type: op.op_type,
            key_expr,
            value_expr,
            condition_expr,
            output_field: op.output_field.clone(),
        },
    )
}

/// Configures the operations.
fn serialize_ops<S: Fn(&Expr, &DFSchema) -> Result<Vec<u8>, DataFusionError>>(
    serialize: &S,
    ops: &Vec<StatefulOpDesc>,
    schema: &DFSchema,
) -> (operations: Result<Vec<StateOperation>, DataFusionError>)
    requires
        serializes_all(*serialize),
    ensures
        match operations {
            Ok(made) => ops_serialize(*serialize, ops@, *schema, made@),
            Err(error) => ops_unserialized(*serialize, ops@, *schema, error),
        },
{
    let mut operations: Vec<StateOperation> = Vec::with_capacity(ops.len());
    for i in 0..ops.len()
        invariant
            serializes_all(*serialize),
            ops_serialize(*serialize, ops@.take(i as int), *schema, operations@),
    {
        match serialize_op(serialize, &ops[i], schema) {
            Ok(operation) => {
                operations.push(operation);
            },
            Err(error) => {
                assert(op_unserialized(*serialize, ops@[i as int], *schema, error));
                return Err(error);
            },
        }
    }
    assert(ops@.take(ops@.len() as int) =~= ops@);
    Ok(operations)
}

/// Serializes expressions.
fn serialize_exprs<S: Fn(&Expr, &DFSchema) -> Result<Vec<u8>, DataFusionError>>(
    serialize: &S,
    exprs: &Vec<Expr>,
    schema: &DFSchema,
) -> (encoded: Result<Vec<Vec<u8>>, DataFusionError>)
    requires
        serializes_all(*serialize),
    ensures
        match encoded {
            Ok(made) => exprs_serialize(*serialize, exprs@, *schema, made@),
            Err(error) => exprs_unserialized(*serialize, exprs@, *schema, error),
        },
{
    let mut encoded: Vec<Vec<u8>> = Vec::with_capacity(exprs.len());
    for i in 0..exprs.len()
        invariant
            serializes_all(*serialize),
            exprs_serialize(*serialize, exprs@.take(i as int), *schema, encoded@),
    {
        match serialize(&exprs[i], schema) {
            Ok(bytes) => {
                encoded.push(bytes);
            },
            Err(error) => {
                assert(serialize.ensures((&exprs@[i as int], schema), Err(error)));
                return Err(error);
            },
        }
    }
    assert(exprs@.take(exprs@.len() as int) =~= exprs@);
    Ok(encoded)
}

/// Appends a field for each operation's answers. An operation of no known kind counts as a read.
fn add_answer_fields(base: Vec<QualifiedField>, ops: &Vec<StatefulOpDesc>) -> (fields: Vec<
    QualifiedField,
>)
    ensures
        fields@ == base@ + answer_fields(ops@),
{
    let mut fields = base;
    let ghost inputs = fields@;
    assert(fields@ =~= inputs + answer_fields(ops@).take(0));
    for i in 0..ops.len()
        invariant
            fields@ == inputs + answer_fields(ops@).take(i as int),
    {
        let op = &ops[i];
        let op_type = match StateOpType::from_code(op.op_type) {
            Some(known) => known,
            None => StateOpType::StateGet,
        };
        proof {
            assert(StateOpType::StateGet.code() == 0);
            assert(StateOpType::StatePut.code() == 1);
            assert(StateOpType::StateUpsert.code() == 2);
            assert(StateOpType::StateUpdate.code() == 3);
            assert(StateOpType::StateDelete.code() == 4);
            assert(op_type == StateOpType::of_code(op.op_type));
        }
        let field = make_result_field(op.output_field.as_str(), op_type.column_type());
        fields.push((None, Arc::new(field)));
        assert(fields@ =~= inputs + answer_fields(ops@).take(i + 1));
    }
    assert(answer_fields(ops@).take(ops@.len() as int) =~= answer_fields(ops@));
    fields
}

impl StatefulProcessorExtension {
    /// Plans the operator. The operations are serialized against the schema of the node's input,
    /// which keeps its table qualifiers; the final projection against that schema with the
    /// operations' answers appended.
    pub fn plan_node<I, S: Fn(&Expr, &DFSchema) -> Result<Vec<u8>, DataFusionError>>(
        &self,
        index: usize,
        input_schemas: Vec<Arc<I>>,
        serialize: &S,
    ) -> (node: Result<NodePlan<I>, PlanError>)
        requires
            serializes_all(*serialize),
        ensures
            match node {
                Ok(plan) => {
                    &&& input_schemas@.len() == 1
                    &&& plan.identifies(index, input_schemas@[0])
                    &&& self.configures(*serialize, input_schemas@[0], plan.config)
                },
                Err(PlanError::SchemaCount(found)) => {
                    &&& input_schemas@.len() != 1
                    &&& found == input_schemas@.len()
                },
                Err(PlanError::Refused(error)) => {
                    &&& input_schemas@.len() == 1
                    &&& self.refused(*serialize, error)
                },
                Err(PlanError::InputCount(_)) => false,
            },
    {
        if input_schemas.len() != 1 {
            return Err(PlanError::SchemaCount(input_schemas.len()));
        }
        let input_schema = share(&input_schemas[0]);
        let input_dfschema = schema_of_plan(&self.input);
        let map_names = collect_map_names(&self.ops);
        let operations = match serialize_ops(serialize, &self.ops, &input_dfschema) {
            Ok(operations) => operations,
            Err(error) => {
                return Err(PlanError::Refused(error));
            },
        };
        assert(ops_serialize(*serialize, self.ops@, plan_schema(self.input), operations@));
        let fields = add_answer_fields(list_qualified_fields(&input_dfschema), &self.ops);
        assert(fields@ == self.intermediate_fields());
        let intermediate_dfschema = match make_qualified_schema(fields) {
            Ok(schema) => schema,
            Err(error) => {
                return Err(PlanError::Refused(error));
            },
        };
        let final_exprs = match serialize_exprs(
            serialize,
            &self.final_exprs,
            &intermediate_dfschema,
        ) {
            Ok(encoded) => encoded,
            Err(error) => {
                return Err(PlanError::Refused(error));
            },
        };
        let config = StatefulProcessorOperator {
            name: "StatefulProcessor".to_owned(),
            operations,
            map_names,
            input_schema: Some(share(&input_schema)),
            final_exprs,
        };
        let mut operator_id = "stateful_processor_".to_owned();
        append_decimal(&mut operator_id, index as u64);
        let mut edges: Vec<EdgePlan<I>> = Vec::with_capacity(1);
        edges.push(EdgePlan { kind: EdgeKind::Forward, schema: input_schema });
        Ok(
            NodePlan {
                node_id: #[verifier::truncate]
                (index as u32),
                operator_id,
                operator_name: "StatefulProcessor".to_owned(),
                description: "StatefulProcessor".to_owned(),
                parallelism: 1,
                config,
                edges,
            },
        )
    }
}

} // verus!
