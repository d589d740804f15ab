//! The plan node that becomes the operator.
use std::sync::Arc;

use arrow_schema::Field;
use datafusion::common::DFSchema;
use datafusion::error::DataFusionError;
use datafusion::logical_expr::{Expr, LogicalPlan};
use vstd::prelude::*;
use vstd::string::StringExecFns;

use crate::logical::{list_qualified_fields, name_of, qualified_fields, QualifiedField};
use crate::schema::{field_name, share};
use crate::text::{append_decimal, decimal};

verus! {

/// One state operation of the plan, such as `state_get('map', key)`.
#[derive(Debug, PartialEq, Eq, Hash, PartialOrd)]
pub struct StatefulOpDesc {
    pub map_name: String,
    /// The number of the operation's kind.
    pub op_type: i32,
    /// The key, over the input.
    pub key_expr: Expr,
    /// The value, for writes, upserts and updates.
    pub value_expr: Option<Expr>,
    /// The condition, for updates.
    pub condition_expr: Option<Expr>,
    /// The name of the column that the operation appends.
    pub output_field: String,
}

/// A step of the plan that runs state operations over its input and projects the result.
#[derive(Debug, PartialEq, Eq, Hash)]
pub struct StatefulProcessorExtension {
    pub input: LogicalPlan,
    pub ops: Vec<StatefulOpDesc>,
    /// The projection, over the input's columns and the columns of answers.
    pub final_exprs: Vec<Expr>,
    /// The schema that the projection makes.
    pub final_schema: Arc<DFSchema>,
}

/// Why a plan node was not made.
pub enum PlanError {
    /// The node takes exactly one input; there were so many.
    InputCount(usize),
    /// The node takes exactly one input schema; there were so many.
    SchemaCount(usize),
    /// An expression or a schema was refused.
    Refused(DataFusionError),
}

impl PlanError {
    /// The message of an error that the node itself gives. What was refused speaks for itself.
    pub fn message(&self) -> (message: Option<String>)
        ensures
            match self {
                PlanError::InputCount(found) => message matches Some(text) && text@
                    == "StatefulProcessorExtension requires exactly one input, found "@ + decimal(
                    *found as nat,
                ),
                PlanError::SchemaCount(found) => message matches Some(text) && text@
                    == "StatefulProcessorExtension requires exactly one input schema, found "@
                    + decimal(*found as nat),
                PlanError::Refused(_) => message is None,
            },
    {
        match self {
            PlanError::InputCount(found) => {
                let mut text =
                    "StatefulProcessorExtension requires exactly one input, found ".to_owned();
                append_decimal(&mut text, *found as u64);
                Some(text)
            },
            PlanError::SchemaCount(found) => {
                let mut text =
                    "StatefulProcessorExtension requires exactly one input schema, found ".to_owned();
                append_decimal(&mut text, *found as u64);
                Some(text)
            },
            PlanError::Refused(_) => None,
        }
    }
}

/// The expression in an optional one, copied.
fn clone_optional(expr: &Option<Expr>) -> (other: Option<Expr>)
    ensures
        other == *expr,
{
    match expr {
        Some(some_expr) => Some(some_expr.clone()),
        None => None,
    }
}

impl Clone for StatefulOpDesc {
    fn clone(&self) -> (other: Self)
        ensures
            other == *self,
    {
        StatefulOpDesc {
            map_name: self.map_name.clone(),
            op_type: self.op_type,
            key_expr: self.key_expr.clone(),
            value_expr: clone_optional(&self.value_expr),
            condition_expr: clone_optional(&self.condition_expr),
            output_field: self.output_field.clone(),
        }
    }
}

impl Clone for StatefulProcessorExtension {
    fn clone(&self) -> (other: Self)
        ensures
            other.input == self.input,
            other.ops@ == self.ops@,
            other.final_exprs@ == self.final_exprs@,
            other.final_schema == self.final_schema,
    {
        let mut ops: Vec<StatefulOpDesc> = Vec::with_capacity(self.ops.len());
        for i in 0..self.ops.len()
            invariant
                ops@ == self.ops@.take(i as int),
        {
            ops.push(self.ops[i].clone());
            assert(ops@ =~= self.ops@.take(i + 1));
        }
        let mut final_exprs: Vec<Expr> = Vec::with_capacity(self.final_exprs.len());
        for i in 0..self.final_exprs.len()
            invariant
                final_exprs@ == self.final_exprs@.take(i as int),
        {
            final_exprs.push(self.final_exprs[i].clone());
            assert(final_exprs@ =~= self.final_exprs@.take(i + 1));
        }
        StatefulProcessorExtension {
            input: self.input.clone(),
            ops,
            final_exprs,
            final_schema: share(&self.final_schema),
        }
    }
}

/// One expression, or none.
pub open spec fn optional_expr(expr: Option<Expr>) -> Seq<Expr> {
    match expr {
        Some(some_expr) => seq![some_expr],
        None => Seq::empty(),
    }
}

impl StatefulOpDesc {
    /// The operation's expressions: key, value, condition.
    pub open spec fn exprs(self) -> Seq<Expr> {
        seq![self.key_expr] + optional_expr(self.value_expr) + optional_expr(self.condition_expr)
    }

    /// Whether another operation differs from this one in no more than what its expressions
    /// are.
    pub open spec fn same_shape(self, other: StatefulOpDesc) -> bool {
        &&& self.map_name == other.map_name
        &&& self.op_type == other.op_type
        &&& self.output_field == other.output_field
        &&& self.value_expr is Some <==> other.value_expr is Some
        &&& self.condition_expr is Some <==> other.condition_expr is Some
    }
}

/// The expressions of operations, in order.
pub open spec fn op_exprs(ops: Seq<StatefulOpDesc>) -> Seq<Expr>
    decreases ops.len(),
{
    if ops.len() == 0 {
        Seq::empty()
    } else {
        op_exprs(ops.drop_last()) + ops.last().exprs()
    }
}

/// Whether operations differ in no more than what their expressions are.
pub open spec fn same_shapes(ops: Seq<StatefulOpDesc>, others: Seq<StatefulOpDesc>) -> bool {
    &&& ops.len() == others.len()
    &&& forall|i: int| 0 <= i < ops.len() ==> (#[trigger] ops[i]).same_shape(others[i])
}

/// The names joined by a separator.
pub open spec fn joined(names: Seq<Seq<char>>, separator: Seq<char>) -> Seq<char>
    decreases names.len(),
{
    if names.len() == 0 {
        Seq::empty()
    } else if names.len() == 1 {
        names[0]
    } else {
        joined(names.drop_last(), separator) + separator + names.last()
    }
}

/// The names of fields.
pub open spec fn field_names(fields: Seq<QualifiedField>) -> Seq<Seq<char>> {
    fields.map_values(|field: QualifiedField| field_name(*field.1))
}

/// A prefix of the operations has no more expressions.
proof fn lemma_op_exprs_take(ops: Seq<StatefulOpDesc>, count: int)
    requires
        0 <= count < ops.len(),
    ensures
        op_exprs(ops.take(count + 1)) == op_exprs(ops.take(count)) + ops[count].exprs(),
        op_exprs(ops.take(count + 1)).len() <= op_exprs(ops).len(),
    decreases ops.len(),
{
    assert(ops.take(count + 1).drop_last() =~= ops.take(count));
    if count + 1 == ops.len() {
        assert(ops.take(count + 1) =~= ops);
    } else {
        lemma_op_exprs_take(ops.drop_last(), count);
        assert(ops.drop_last().take(count + 1) =~= ops.take(count + 1));
    }
}

impl StatefulProcessorExtension {
    /// The name of the node.
    pub fn name(&self) -> (name: &str)
        ensures
            name@ == "StatefulProcessorExtension"@,
    {
        "StatefulProcessorExtension"
    }

    /// The input, as the one input there is.
    pub fn inputs(&self) -> (inputs: Vec<&LogicalPlan>)
        ensures
            inputs@ == seq![&self.input],
    {
        let mut inputs: Vec<&LogicalPlan> = Vec::new();
        inputs.push(&self.input);
        inputs
    }

    /// The schema that the projection makes.
    pub fn schema(&self) -> (schema: &Arc<DFSchema>)
        ensures
            *schema == self.final_schema,
    {
        &self.final_schema
    }

    /// All the node's expressions: those of the operations in order, then the projection.
    pub open spec fn all_exprs(self) -> Seq<Expr> {
        op_exprs(self.ops@) + self.final_exprs@
    }

    /// Whether a node is this one over another input and with other expressions.
    pub open spec fn rebuilds(
        self,
        exprs: Seq<Expr>,
        input: LogicalPlan,
        made: StatefulProcessorExtension,
    ) -> bool {
        &&& made.input == input
        &&& made.final_schema == self.final_schema
        &&& same_shapes(self.ops@, made.ops@)
        &&& made.all_exprs() == exprs
    }

    /// All the node's expressions: those of the operations in order, then the projection.
    pub fn expressions(&self) -> (exprs: Vec<Expr>)
        ensures
            exprs@ == self.all_exprs(),
    {
        let mut exprs: Vec<Expr> = Vec::new();
        for i in 0..self.ops.len()
            invariant
                exprs@ == op_exprs(self.ops@.take(i as int)),
        {
            let ghost before = exprs@;
            let op = &self.ops[i];
            proof {
                lemma_op_exprs_take(self.ops@, i as int);
            }
            exprs.push(op.key_expr.clone());
            if let Some(value) = &op.value_expr {
                exprs.push(value.clone());
            }
            if let Some(condition) = &op.condition_expr {
                exprs.push(condition.clone());
            }
            assert(exprs@ =~= before + op.exprs());
        }
        assert(self.ops@.take(self.ops@.len() as int) =~= self.ops@);
        for i in 0..self.final_exprs.len()
            invariant
                exprs@ == op_exprs(self.ops@) + self.final_exprs@.take(i as int),
        {
            exprs.push(self.final_exprs[i].clone());
            assert(exprs@ =~= op_exprs(self.ops@) + self.final_exprs@.take(i + 1));
        }
        assert(self.final_exprs@.take(self.final_exprs@.len() as int) =~= self.final_exprs@);
        exprs
    }

    /// One line about the node: how many operations there are, and the names of its columns.
    pub fn fmt_for_explain(&self) -> (line: String)
        ensures
            line@ == "StatefulProcessorExtension: ops="@ + decimal(self.ops@.len()) + ", schema=["@
                + joined(field_names(qualified_fields(*self.final_schema)), ", "@) + "]"@,
    {
        let mut line = "StatefulProcessorExtension: ops=".to_owned();
        append_decimal(&mut line, self.ops.len() as u64);
        line.append(", schema=[");
        let ghost prefix = line@;
        let fields = list_qualified_fields(&self.final_schema);
        let ghost names = field_names(fields@);
        for i in 0..fields.len()
            invariant
                names == field_names(fields@),
                line@ == prefix + joined(names.take(i as int), ", "@),
        {
            let ghost before = line@;
            let ghost now = names.take(i + 1);
            assert(now.drop_last() =~= names.take(i as int));
            assert(now.last() == field_name(*fields@[i as int].1));
            if i > 0 {
                line.append(", ");
            }
            let name = name_of(&fields[i].1);
            line.append(name.as_str());
            assert(line@ =~= prefix + joined(now, ", "@));
        }
        assert(names.take(names.len() as int) =~= names);
        line.append("]");
        line
    }

    /// The node over another input and with other expressions, given as
    /// [`expressions`](Self::expressions) lists them.
    pub fn with_exprs_and_inputs(&self, exprs: Vec<Expr>, inputs: Vec<LogicalPlan>) -> (node: Result<
        StatefulProcessorExtension,
        PlanError,
    >)
        requires
            inputs@.len() == 1 ==> op_exprs(self.ops@).len() <= exprs@.len(),
        ensures
            match node {
                Ok(made) => inputs@.len() == 1 && self.rebuilds(exprs@, inputs@[0], made),
                Err(PlanError::InputCount(found)) => inputs@.len() != 1 && found == inputs@.len(),
                Err(_) => false,
            },
    {
        if inputs.len() != 1 {
            return Err(PlanError::InputCount(inputs.len()));
        }
        let count: usize = exprs.len();
        let mut idx: usize = 0;
        let mut new_ops: Vec<StatefulOpDesc> = Vec::with_capacity(self.ops.len());
        assert(exprs@.take(0) =~= Seq::empty());
        for i in 0..self.ops.len()
            invariant
                count == exprs@.len(),
                op_exprs(self.ops@).len() <= count,
                idx <= count,
                idx == op_exprs(self.ops@.take(i as int)).len(),
                same_shapes(self.ops@.take(i as int), new_ops@),
                op_exprs(new_ops@) == exprs@.take(idx as int),
        {
            let op = &self.ops[i];
            let ghost start = idx;
            let ghost ops_before = new_ops@;
            proof {
                lemma_op_exprs_take(self.ops@, i as int);
            }
            let key_expr = exprs[idx].clone();
            idx = idx + 1;
            let value_expr = if op.value_expr.is_some() {
                let value = exprs[idx].clone();
                idx = idx + 1;
                Some(value)
            } else {
                None
            };
            let condition_expr = if op.condition_expr.is_some() {
                let condition = exprs[idx].clone();
                idx = idx + 1;
                Some(condition)
            } else {
                None
            };
            new_ops.push(
                StatefulOpDesc {
                    map_name: op.map_name.clone(),
                    op_type: op.op_type,
                    key_expr,
                    value_expr,
                    condition_expr,
                    output_field: op.output_field.clone(),
                },
            );
            proof {
                assert(new_ops@.drop_last() =~= ops_before);
                assert(exprs@.take(idx as int) =~= exprs@.take(start as int)
                    + new_ops@.last().exprs());
                assert forall|j: int| 0 <= j < i + 1 implies (#[trigger] self.ops@.take(
                    i + 1,
                )[j]).same_shape(new_ops@[j]) by {
                    if j < i {
                        assert(self.ops@.take(i as int)[j].same_shape(ops_before[j]));
                    }
                }
            }
        }
        assert(self.ops@.take(self.ops@.len() as int) =~= self.ops@);
        let mut new_final_exprs: Vec<Expr> = Vec::new();
        for i in idx..count
            invariant
                idx <= count,
                count == exprs@.len(),
                new_final_exprs@ == exprs@.subrange(idx as int, i as int),
        {
            new_final_exprs.push(exprs[i].clone());
            assert(new_final_exprs@ =~= exprs@.subrange(idx as int, i + 1));
        }
        assert(exprs@ =~= exprs@.take(idx as int) + exprs@.subrange(
            idx as int,
            exprs@.len() as int,
        ));
        Ok(
            StatefulProcessorExtension {
                input: inputs[0].clone(),
                ops: new_ops,
                final_exprs: new_final_exprs,
                final_schema: share(&self.final_schema),
            },
        )
    }

    /// The fields of the schema that the projection makes.
    pub fn output_schema(&self) -> (fields: Vec<Arc<Field>>)
        ensures
            fields@ == qualified_fields(*self.final_schema).map_values(
                |field: QualifiedField| field.1,
            ),
    {
        let qualified = list_qualified_fields(&self.final_schema);
        let mut fields: Vec<Arc<Field>> = Vec::with_capacity(qualified.len());
        for i in 0..qualified.len()
            invariant
                fields@.len() == i,
                forall|j: int| 0 <= j < i ==> #[trigger] fields@[j] == qualified@[j].1,
        {
            fields.push(share(&qualified[i].1));
        }
        fields
    }
}

} // verus!
