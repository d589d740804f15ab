//! What holds of the plan node and of the operator made from it.
use std::sync::Arc;

use arrow_schema::Schema;
use datafusion::common::DFSchema;
use datafusion::error::DataFusionError;
use datafusion::logical_expr::Expr;
use datafusion_proto::protobuf::PhysicalExprNode;
use vstd::prelude::*;

use crate::config::StatefulProcessorOperator;
use crate::constructor::{configuration_gives, op_parses, ops_parse, ConfigError};
use crate::logical::{plan_schema, QualifiedField};
use crate::model::maps_known;
use crate::ops::StateOpType;
use crate::planner::{op_exprs, same_shapes, StatefulOpDesc, StatefulProcessorExtension};
use crate::planning::{answer_fields, distinct, op_map_names, op_serializes, prefixed};
use crate::processor::{
    empty_maps, name_set, name_texts, plan_of, result_fields, StateOp, StatefulProcessorFunc,
};

verus! {

/// Different kinds have different numbers, and each number gives its kind back.
pub proof fn law_codes(op_type: StateOpType, other: StateOpType)
    ensures
        op_type.code() == other.code() ==> op_type == other,
        StateOpType::of_code(op_type.code()) == op_type,
{
}

/// Maps with different names keep different names.
pub proof fn law_prefix_is_injective(name: Seq<char>, other: Seq<char>)
    requires
        prefixed(name) == prefixed(other),
    ensures
        name == other,
{
    let n = "__sp_"@.len() as int;
    assert(prefixed(name).skip(n) =~= name);
    assert(prefixed(other).skip(n) =~= other);
}

/// The distinct texts are those that there are, each once, in the order in which they first occur.
pub proof fn law_distinct(texts: Seq<Seq<char>>)
    ensures
        distinct(texts).to_set() == texts.to_set(),
        distinct(texts).no_duplicates(),
        forall|i: int, j: int|
            0 <= i < j < distinct(texts).len() ==> texts.index_of_first(
                #[trigger] distinct(texts)[i],
            )->Some_0 < texts.index_of_first(#[trigger] distinct(texts)[j])->Some_0,
    decreases texts.len(),
{
    let found = distinct(texts);
    if texts.len() == 0 {
        assert(found.to_set() =~= texts.to_set());
    } else {
        let rest = texts.drop_last();
        let last = texts.last();
        law_distinct(rest);
        assert forall|text: Seq<char>| texts.contains(text) <==> #[trigger] found.contains(text) by {
            assert(rest.to_set().contains(text) == distinct(rest).to_set().contains(text));
            if texts.contains(text) && text != last {
                let i = choose|i: int| 0 <= i < texts.len() && texts[i] == text;
                assert(rest[i] == text);
            }
            if found.contains(text) && text != last {
                let j = choose|j: int| 0 <= j < found.len() && found[j] == text;
                assert(distinct(rest)[j] == text);
            }
            if rest.contains(text) {
                let i = choose|i: int| 0 <= i < rest.len() && rest[i] == text;
                assert(texts[i] == text);
                let j = choose|j: int| 0 <= j < distinct(rest).len() && distinct(rest)[j] == text;
                assert(found[j] == text);
            }
            if text == last {
                assert(texts[texts.len() - 1] == text);
                if !rest.contains(text) {
                    assert(found[found.len() - 1] == text);
                }
            }
        }
        assert(found.to_set() =~= texts.to_set());
        assert forall|i: int| 0 <= i < distinct(rest).len() implies texts.index_of_first(
            #[trigger] found[i],
        ) == rest.index_of_first(found[i]) && 0 <= rest.index_of_first(found[i])->Some_0
            < rest.len() && rest.contains(found[i]) by {
            assert(distinct(rest).to_set().contains(distinct(rest)[i]));
            assert(rest.to_set().contains(found[i]));
            rest.index_of_first_ensures(found[i]);
            texts.index_of_first_ensures(found[i]);
            let at = rest.index_of_first(found[i])->Some_0;
            assert(texts[at] == found[i]);
            let first = texts.index_of_first(found[i])->Some_0;
            if first < at {
                assert(rest[first] == found[i]);
            }
        }
        if !rest.contains(last) {
            texts.index_of_first_ensures(last);
            assert(texts[texts.len() - 1] == last);
            let at = texts.index_of_first(last)->Some_0;
            if at < rest.len() {
                assert(rest[at] == last);
            }
        }
        assert forall|i: int, j: int| 0 <= i < j < found.len() implies texts.index_of_first(
            #[trigger] found[i],
        )->Some_0 < texts.index_of_first(#[trigger] found[j])->Some_0 && found[i] != found[j] by {
            if j < distinct(rest).len() {
                assert(found[i] == distinct(rest)[i] && found[j] == distinct(rest)[j]);
            }
        }
    }
}

/// Operations of the same shape have the same number of expressions.
proof fn lemma_same_count(ops: Seq<StatefulOpDesc>, others: Seq<StatefulOpDesc>)
    requires
        same_shapes(ops, others),
    ensures
        op_exprs(ops).len() == op_exprs(others).len(),
    decreases ops.len(),
{
    if ops.len() > 0 {
        assert(ops[ops.len() - 1].same_shape(others[ops.len() - 1]));
        assert forall|i: int| 0 <= i < ops.len() - 1 implies (
        #[trigger] ops.drop_last()[i]).same_shape(others.drop_last()[i]) by {
            assert(ops[i].same_shape(others[i]));
        }
        lemma_same_count(ops.drop_last(), others.drop_last());
    }
}

/// Operations of the same shape with the same expressions are the same.
proof fn lemma_same_ops(ops: Seq<StatefulOpDesc>, others: Seq<StatefulOpDesc>)
    requires
        same_shapes(ops, others),
        op_exprs(ops) == op_exprs(others),
    ensures
        ops == others,
    decreases ops.len(),
{
    if ops.len() > 0 {
        let op = ops.last();
        let other = others.last();
        assert(ops[ops.len() - 1].same_shape(others[ops.len() - 1]));
        assert forall|i: int| 0 <= i < ops.len() - 1 implies (
        #[trigger] ops.drop_last()[i]).same_shape(others.drop_last()[i]) by {
            assert(ops[i].same_shape(others[i]));
        }
        lemma_same_count(ops.drop_last(), others.drop_last());
        let n = op_exprs(ops.drop_last()).len() as int;
        assert(op_exprs(ops).take(n) =~= op_exprs(ops.drop_last()));
        assert(op_exprs(others).take(n) =~= op_exprs(others.drop_last()));
        assert(op_exprs(ops).skip(n) =~= op.exprs());
        assert(op_exprs(others).skip(n) =~= other.exprs());
        lemma_same_ops(ops.drop_last(), others.drop_last());
        let exprs = op.exprs();
        assert(op.key_expr == exprs[0] && other.key_expr == exprs[0]);
        if op.value_expr is Some {
            assert(op.value_expr->Some_0 == exprs[1] && other.value_expr->Some_0 == exprs[1]);
        }
        if op.condition_expr is Some {
            let last = exprs.len() - 1;
            assert(op.condition_expr->Some_0 == exprs[last]);
            assert(other.condition_expr->Some_0 == exprs[last]);
        }
        assert(op == other);
        assert(ops =~= ops.drop_last().push(op));
        assert(others =~= others.drop_last().push(other));
    }
}

/// A node whose expressions are those of another of the same shape has the same operations and
/// the same projection. So a node rebuilt from its own expressions is the node itself.
pub proof fn law_rebuilt_is_same(node: StatefulProcessorExtension, rebuilt: StatefulProcessorExtension)
    requires
        same_shapes(node.ops@, rebuilt.ops@),
        rebuilt.all_exprs() == node.all_exprs(),
    ensures
        rebuilt.ops@ == node.ops@,
        rebuilt.final_exprs@ == node.final_exprs@,
{
    lemma_same_count(node.ops@, rebuilt.ops@);
    let n = op_exprs(node.ops@).len() as int;
    assert(node.all_exprs().take(n) =~= op_exprs(node.ops@));
    assert(rebuilt.all_exprs().take(n) =~= op_exprs(rebuilt.ops@));
    assert(node.all_exprs().skip(n) =~= node.final_exprs@);
    assert(rebuilt.all_exprs().skip(n) =~= rebuilt.final_exprs@);
    lemma_same_ops(node.ops@, rebuilt.ops@);
}

/// An operator made from a planned configuration has the map of every operation, so that it can
/// process rows from the start.
pub proof fn law_planned_maps_known<
    I,
    E,
    S: Fn(&Expr, &DFSchema) -> Result<Vec<u8>, DataFusionError>,
    P: Fn(&PhysicalExprNode, &Schema) -> Result<E, DataFusionError>,
>(
    node: StatefulProcessorExtension,
    serialize: S,
    input_schema: Arc<I>,
    config: StatefulProcessorOperator<I>,
    parse: P,
    schema: Schema,
    ops: Seq<StateOp<E>>,
)
    requires
        node.configures(serialize, input_schema, config),
        ops_parse(parse, config.operations@, schema, ops),
    ensures
        maps_known(empty_maps(name_set(config.map_names@)), plan_of(ops)),
{
    let names = op_map_names(node.ops@);
    law_distinct(names);
    assert forall|i: int| 0 <= i < plan_of(ops).len() implies empty_maps(
        name_set(config.map_names@),
    ).contains_key(#[trigger] plan_of(ops)[i].map) by {
        assert(op_parses(parse, config.operations@[i], schema, ops[i]));
        assert(op_serializes(
            serialize,
            node.ops@[i],
            plan_schema(node.input),
            config.operations@[i],
        ));
        assert(names[i] == plan_of(ops)[i].map);
        assert(names.to_set().contains(names[i]));
    }
}

/// The plan and the operator agree on the columns of answers: the same names, types and
/// nullability, in the same order.
pub proof fn law_answer_columns_agree<
    I,
    E,
    S: Fn(&Expr, &DFSchema) -> Result<Vec<u8>, DataFusionError>,
    P: Fn(&PhysicalExprNode, &Schema) -> Result<E, DataFusionError>,
>(
    node: StatefulProcessorExtension,
    serialize: S,
    input_schema: Arc<I>,
    config: StatefulProcessorOperator<I>,
    parse: P,
    schema: Schema,
    ops: Seq<StateOp<E>>,
)
    requires
        node.configures(serialize, input_schema, config),
        ops_parse(parse, config.operations@, schema, ops),
    ensures
        result_fields(ops) == answer_fields(node.ops@).map_values(
            |field: QualifiedField| field.1,
        ),
{
    let planned = answer_fields(node.ops@).map_values(|field: QualifiedField| field.1);
    assert forall|i: int| 0 <= i < ops.len() implies result_fields(ops)[i] == planned[i] by {
        assert(op_parses(parse, config.operations@[i], schema, ops[i]));
        assert(op_serializes(
            serialize,
            node.ops@[i],
            plan_schema(node.input),
            config.operations@[i],
        ));
        law_codes(ops[i].op_type, ops[i].op_type);
    }
    assert(result_fields(ops) =~= planned);
}

/// Whether a prefixed name is used by an operation before any that uses another one.
pub open spec fn first_named_before(
    ops: Seq<StatefulOpDesc>,
    name: Seq<char>,
    other: Seq<char>,
) -> bool {
    exists|p: int|
        {
            &&& 0 <= p < ops.len()
            &&& prefixed((#[trigger] ops[p]).map_name@) == name
            &&& forall|q: int|
                0 <= q < ops.len() && prefixed((#[trigger] ops[q]).map_name@) == other ==> p < q
        }
}

/// The planned maps are those of the operations, each under its prefixed name and each once, in
/// the order in which the operations first use them.
pub proof fn law_planned_names<I, S: Fn(&Expr, &DFSchema) -> Result<Vec<u8>, DataFusionError>>(
    node: StatefulProcessorExtension,
    serialize: S,
    input_schema: Arc<I>,
    config: StatefulProcessorOperator<I>,
)
    requires
        node.configures(serialize, input_schema, config),
    ensures
        name_texts(config.map_names@).no_duplicates(),
        forall|name: Seq<char>| #[trigger]
            name_set(config.map_names@).contains(name) <==> exists|i: int|
                0 <= i < node.ops@.len() && name == prefixed((#[trigger] node.ops@[i]).map_name@),
        forall|i: int, j: int|
            0 <= i < j < config.map_names@.len() ==> first_named_before(
                node.ops@,
                (#[trigger] config.map_names@[i])@,
                (#[trigger] config.map_names@[j])@,
            ),
{
    let names = op_map_names(node.ops@);
    law_distinct(names);
    assert forall|i: int, j: int| 0 <= i < j < config.map_names@.len() implies first_named_before(
        node.ops@,
        (#[trigger] config.map_names@[i])@,
        (#[trigger] config.map_names@[j])@,
    ) by {
        let found = distinct(names);
        assert(name_texts(config.map_names@)[i] == config.map_names@[i]@);
        assert(name_texts(config.map_names@)[j] == config.map_names@[j]@);
        assert(found.to_set().contains(found[i]) && found.to_set().contains(found[j]));
        assert(names.to_set().contains(found[i]) && names.to_set().contains(found[j]));
        names.index_of_first_ensures(found[i]);
        names.index_of_first_ensures(found[j]);
        let p = names.index_of_first(found[i])->Some_0;
        assert(prefixed(node.ops@[p].map_name@) == config.map_names@[i]@);
        assert forall|q: int|
            0 <= q < node.ops@.len() && prefixed((#[trigger] node.ops@[q]).map_name@)
                == config.map_names@[j]@ implies p < q by {
            assert(names[q] == found[j]);
        }
    }
    assert forall|name: Seq<char>| #[trigger]
        name_set(config.map_names@).contains(name) <==> exists|i: int|
        0 <= i < node.ops@.len() && name == prefixed((#[trigger] node.ops@[i]).map_name@) by {
        assert(name_set(config.map_names@) == names.to_set());
        if names.contains(name) {
            let i = choose|i: int| 0 <= i < names.len() && names[i] == name;
            assert(name == prefixed(node.ops@[i].map_name@));
        }
        if exists|i: int|
            0 <= i < node.ops@.len() && name == prefixed((#[trigger] node.ops@[i]).map_name@) {
            let i = choose|i: int|
                0 <= i < node.ops@.len() && name == prefixed((#[trigger] node.ops@[i]).map_name@);
            assert(names[i] == name);
        }
    }
}

/// Whether an operator is made, and which, does not depend on the final projection, which is only
/// kept: with another one, the same errors may come and the same operators but for it.
pub proof fn law_projection_is_deferred<
    I,
    X,
    E,
    C: Fn(&I) -> Result<Arc<Schema>, X>,
    P: Fn(&PhysicalExprNode, &Schema) -> Result<E, DataFusionError>,
>(
    convert: C,
    parse: P,
    config: StatefulProcessorOperator<I>,
    other: StatefulProcessorOperator<I>,
    error: ConfigError<X>,
    made: StatefulProcessorFunc<E>,
    other_made: StatefulProcessorFunc<E>,
)
    requires
        other.operations@ == config.operations@,
        other.map_names@ == config.map_names@,
        other.input_schema == config.input_schema,
        other_made.wf() == made.wf(),
        other_made.state() == made.state(),
        other_made.map_names_view() == made.map_names_view(),
        other_made.ops() == made.ops(),
        other_made.final_exprs() == made.final_exprs(),
        other_made.input_schema() == made.input_schema(),
        made.final_exprs_bytes() == config.final_exprs@,
        other_made.final_exprs_bytes() == other.final_exprs@,
    ensures
        configuration_gives::<I, X, E, C, P>(convert, parse, config, Err(error))
            == configuration_gives::<I, X, E, C, P>(convert, parse, other, Err(error)),
        configuration_gives::<I, X, E, C, P>(convert, parse, config, Ok(made))
            == configuration_gives::<I, X, E, C, P>(convert, parse, other, Ok(other_made)),
{
}

} // verus!
