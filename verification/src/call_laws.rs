//! What holds of calls: how the result of a call, and what it leaves behind, relate to what it was
//! given.
use std::sync::Arc;

use arrow_schema::{ArrowError, Field, Schema};
use datafusion::common::DFSchema;
use datafusion::error::DataFusionError;
use datafusion::logical_expr::{ColumnarValue, Expr, LogicalPlan};
use datafusion_proto::protobuf::PhysicalExprNode;
use vstd::prelude::*;

use crate::batch_laws::law_new_maps;
use crate::columns::{array_len, boolean_values, utf8_values, Batch};
use crate::config::StatefulProcessorOperator;
use crate::constructor::{configuration_gives, ConfigError, StatefulProcessorConstructor};
use crate::encoded::{decoded_node, parse_expr, ExprError};
use crate::evaluation::{ExprField, ProcessError};
use crate::logical::qualified_fields;
use crate::model::{run_rows, Cell};
use crate::ops::StateOpType;
use crate::planner::{
    field_names, joined, op_exprs, PlanError, StatefulOpDesc, StatefulProcessorExtension,
};
use crate::planning::{collect_map_names, distinct, op_map_names, NodePlan};
use crate::processor::{
    appending_fails, batch_gives, columns_answer, emits, is_checkpoint, is_intermediate,
    name_texts, ops_evaluate, ops_fail, plan_of, rows_of, start_gives, table_description,
    takes_columns, BatchOutcome, StateOp, StatefulProcessorFunc, TableWrites,
};
use crate::results::{extract_boolean, extract_string, EvaluatedOp, ResultColumn};
use crate::schema::ColumnType;
use crate::state::{Answer, MapState, RowArgs, StateMaps};
use crate::state_laws::{key_occurs, law_restored_entries, law_restored_keys};
use crate::text::{append_decimal, append_signed_decimal, decimal, signed_decimal};

verus! {

/// A read of a key answers the string stored under it, null for a tombstone or no entry, whatever
/// is marked, and leaves the map as it was.
pub proof fn law_call_get(map: &mut MapState, args: RowArgs, result: Answer)
    requires
        call_ensures(MapState::apply, (map, StateOpType::StateGet, args), result),
    ensures
        final(map)@ == old(map)@,
        result is Str,
        args.key matches Some(key) ==> {
            &&& result->Str_0 matches Some(text) ==> old(map)@.entries.contains_key(key@)
                && old(map)@.entries[key@] == Some(text@)
            &&& result->Str_0 is None ==> !old(map)@.entries.contains_key(key@)
                || old(map)@.entries[key@] is None
        },
        args.key is None ==> result->Str_0 is None,
{
}

/// A put of a key and a value stores and marks it and answers the value; without either it leaves
/// the map as it was and answers null.
pub proof fn law_call_put(map: &mut MapState, args: RowArgs, result: Answer)
    requires
        call_ensures(MapState::apply, (map, StateOpType::StatePut, args), result),
    ensures
        args.key is Some && args.value is Some ==> {
            let key = args.key->Some_0@;
            let value = args.value->Some_0@;
            &&& final(map)@.entries == old(map)@.entries.insert(key, Some(value))
            &&& final(map)@.dirty == old(map)@.dirty.insert(key)
            &&& result@ == Cell::Str(Some(value))
        },
        args.key is None || args.value is None ==> final(map)@ == old(map)@ && result@ == Cell::Str(
            None,
        ),
{
}

/// An upsert stores and marks its value where its key is not live, and answers it; where the key is
/// live it leaves the map as it was and answers what is live.
pub proof fn law_call_upsert(map: &mut MapState, args: RowArgs, result: Answer)
    requires
        call_ensures(MapState::apply, (map, StateOpType::StateUpsert, args), result),
    ensures
        args.key matches Some(key) ==> {
            let live = old(map)@.entries.contains_key(key@) && old(map)@.entries[key@] is Some;
            &&& live ==> final(map)@ == old(map)@ && result@ == Cell::Str(
                old(map)@.entries[key@],
            )
            &&& !live && args.value is Some ==> {
                &&& final(map)@.entries == old(map)@.entries.insert(
                    key@,
                    Some(args.value->Some_0@),
                )
                &&& final(map)@.dirty == old(map)@.dirty.insert(key@)
                &&& result@ == Cell::Str(Some(args.value->Some_0@))
            }
            &&& !live && args.value is None ==> final(map)@ == old(map)@ && result@ == Cell::Str(
                None,
            )
        },
        args.key is None ==> final(map)@ == old(map)@ && result@ == Cell::Str(None),
{
}

/// An update stores and marks its value and answers true where it has a key, a value and a
/// condition that holds; else it leaves the map as it was and answers false.
pub proof fn law_call_update(map: &mut MapState, args: RowArgs, result: Answer)
    requires
        call_ensures(MapState::apply, (map, StateOpType::StateUpdate, args), result),
    ensures
        ({
            let holds = args.key is Some && args.value is Some && args.condition == Some(true);
            &&& result@ == Cell::Bool(holds)
            &&& holds ==> {
                &&& final(map)@.entries == old(map)@.entries.insert(
                    args.key->Some_0@,
                    Some(args.value->Some_0@),
                )
                &&& final(map)@.dirty == old(map)@.dirty.insert(args.key->Some_0@)
            }
            &&& !holds ==> final(map)@ == old(map)@
        }),
{
}

/// A delete stores and marks a tombstone and answers whether the key was live; without a key it
/// leaves the map as it was and answers false.
pub proof fn law_call_delete(map: &mut MapState, args: RowArgs, result: Answer)
    requires
        call_ensures(MapState::apply, (map, StateOpType::StateDelete, args), result),
    ensures
        args.key matches Some(key) ==> {
            &&& final(map)@.entries == old(map)@.entries.insert(key@, None)
            &&& final(map)@.dirty == old(map)@.dirty.insert(key@)
            &&& result@ == Cell::Bool(
                old(map)@.entries.contains_key(key@) && old(map)@.entries[key@] is Some,
            )
        },
        args.key is None ==> final(map)@ == old(map)@ && result@ == Cell::Bool(false),
{
}

/// Over all the maps: a put, or an update that holds, stores and marks its value in the map that it
/// names, a delete a tombstone, whatever was there and whatever was marked, and no other map
/// changes.
pub proof fn law_call_writes_own_map(
    maps: &mut StateMaps,
    name: &str,
    op_type: StateOpType,
    args: RowArgs,
    result: Answer,
)
    requires
        call_ensures(StateMaps::apply, (maps, name, op_type, args), result),
        old(maps)@.contains_key(name@),
        args.key is Some,
        op_type is StateDelete || args.value is Some && (op_type is StatePut
            || op_type is StateUpdate && args.condition == Some(true)),
    ensures
        final(maps)@.dom() == old(maps)@.dom(),
        forall|other: Seq<char>|
            other != name@ && #[trigger] old(maps)@.contains_key(other) ==> final(maps)@[other]
                == old(maps)@[other],
        final(maps)@[name@].entries == old(maps)@[name@].entries.insert(
            args.key->Some_0@,
            if op_type is StateDelete {
                None
            } else {
                Some(args.value->Some_0@)
            },
        ),
        final(maps)@[name@].dirty == old(maps)@[name@].dirty.insert(args.key->Some_0@),
        op_type is StatePut ==> result@ == Cell::Str(Some(args.value->Some_0@)),
        op_type is StateUpdate ==> result@ == Cell::Bool(true),
{
    assert(final(maps)@.dom() =~= old(maps)@.dom());
}

/// Over all the maps: a read answers by the map that it names and changes none.
pub proof fn law_call_reads_own_map(
    maps: &mut StateMaps,
    name: &str,
    args: RowArgs,
    result: Answer,
)
    requires
        call_ensures(StateMaps::apply, (maps, name, StateOpType::StateGet, args), result),
        old(maps)@.contains_key(name@),
    ensures
        final(maps)@ == old(maps)@,
        args.key matches Some(key) ==> {
            &&& old(maps)@[name@].entries.contains_key(key@) ==> result@ == Cell::Str(
                old(maps)@[name@].entries[key@],
            )
            &&& !old(maps)@[name@].entries.contains_key(key@) ==> result@ == Cell::Str(None)
        },
{
    assert(final(maps)@ =~= old(maps)@);
}

/// Rows run over the maps as they were, every operation over its own columns, and each answer
/// stands in its operation's column. Nothing of the configuration changes.
pub proof fn law_call_process_rows<E>(
    func: &mut StatefulProcessorFunc<E>,
    num_rows: usize,
    evaluated: &Vec<EvaluatedOp>,
    columns: Vec<ResultColumn>,
)
    requires
        call_ensures(
            StatefulProcessorFunc::<E>::process_rows,
            (func, num_rows, evaluated),
            columns,
        ),
    ensures
        final(func).ops() == old(func).ops(),
        final(func).map_names_view() == old(func).map_names_view(),
        final(func).final_exprs() == old(func).final_exprs(),
        final(func).final_exprs_bytes() == old(func).final_exprs_bytes(),
        final(func).input_schema() == old(func).input_schema(),
        final(func).state() == run_rows(
            old(func).state(),
            plan_of(old(func).ops()),
            rows_of(old(func).ops(), evaluated@, num_rows),
        ),
        columns_answer(old(func).state(), old(func).ops(), evaluated@, num_rows, columns@),
{
}

/// A batch gives what it gives of the maps as they were, and nothing of the configuration changes.
pub proof fn law_call_process_batch<
    E,
    F: Fn(&E, &Batch) -> Result<ColumnarValue, DataFusionError>,
    G: Fn(&E, &Schema) -> Result<ExprField, DataFusionError>,
>(
    func: &mut StatefulProcessorFunc<E>,
    batch: &Batch,
    eval: &F,
    describe: &G,
    outcome: Result<BatchOutcome, ProcessError>,
)
    requires
        call_ensures(
            StatefulProcessorFunc::<E>::process_batch::<F, G>,
            (func, batch, eval, describe),
            outcome,
        ),
    ensures
        final(func).ops() == old(func).ops(),
        final(func).map_names_view() == old(func).map_names_view(),
        final(func).final_exprs() == old(func).final_exprs(),
        final(func).final_exprs_bytes() == old(func).final_exprs_bytes(),
        final(func).input_schema() == old(func).input_schema(),
        batch_gives(*eval, *describe, *old(func), *batch, final(func).state(), outcome),
{
}

/// Whether an entry is the last of its key.
pub open spec fn is_last_entry(entries: Seq<(String, Option<String>)>, i: int) -> bool {
    &&& 0 <= i < entries.len()
    &&& forall|j: int| i < j < entries.len() ==> (#[trigger] entries[j]).0@ != entries[i].0@
}

/// Taking a map over from its table leaves it with the last of the given entries under each given
/// key, nothing under any other key, and its marks as they were; no other map changes.
pub proof fn law_call_restore_map<E>(
    func: &mut StatefulProcessorFunc<E>,
    map_name: &str,
    entries: Vec<(String, Option<String>)>,
    i: int,
    key: Seq<char>,
)
    requires
        call_ensures(
            StatefulProcessorFunc::<E>::restore_map,
            (func, map_name, entries),
            (),
        ),
        old(func).state().contains_key(map_name@),
    ensures
        final(func).state().dom() == old(func).state().dom(),
        forall|other: Seq<char>|
            other != map_name@ && #[trigger] old(func).state().contains_key(other)
                ==> final(func).state()[other] == old(func).state()[other],
        final(func).state()[map_name@].dirty == old(func).state()[map_name@].dirty,
        final(func).state()[map_name@].entries.contains_key(key) <==> key_occurs(entries@, key),
        is_last_entry(entries@, i) ==> match entries@[i].1 {
            Some(value) => final(func).state()[map_name@].entries[entries@[i].0@] == Some(value@),
            None => final(func).state()[map_name@].entries[entries@[i].0@] is None,
        },
        final(func).ops() == old(func).ops(),
        final(func).map_names_view() == old(func).map_names_view(),
        final(func).final_exprs() == old(func).final_exprs(),
        final(func).final_exprs_bytes() == old(func).final_exprs_bytes(),
{
    law_restored_keys(entries@, key);
    if is_last_entry(entries@, i) {
        law_restored_entries(entries@, i);
    }
    assert(final(func).state().dom() =~= old(func).state().dom());
}

/// Finishing a checkpoint forgets every mark and no entry.
pub proof fn law_call_finish_checkpoint<E>(
    func: &mut StatefulProcessorFunc<E>,
    name: Seq<char>,
    key: Seq<char>,
)
    requires
        call_ensures(StatefulProcessorFunc::<E>::finish_checkpoint, (func,), ()),
    ensures
        final(func).state().contains_key(name) <==> old(func).state().contains_key(name),
        old(func).state().contains_key(name) ==> {
            &&& final(func).state()[name].entries == old(func).state()[name].entries
            &&& !final(func).state()[name].dirty.contains(key)
        },
        final(func).ops() == old(func).ops(),
        final(func).map_names_view() == old(func).map_names_view(),
        final(func).final_exprs() == old(func).final_exprs(),
        final(func).final_exprs_bytes() == old(func).final_exprs_bytes(),
{
}

/// A checkpoint's writes are those that the maps call for, table by table in the order of the
/// names.
pub proof fn law_call_handle_checkpoint<E>(
    func: StatefulProcessorFunc<E>,
    writes: Vec<TableWrites>,
)
    requires
        call_ensures(StatefulProcessorFunc::<E>::handle_checkpoint, (&func,), writes),
    ensures
        is_checkpoint(func.state(), name_texts(func.map_names_view()), writes@),
{
}

/// A start reads the projection and leaves the maps, their names and the operations as they were.
pub proof fn law_call_on_start<
    E,
    P: Fn(&PhysicalExprNode, &Schema) -> Result<E, DataFusionError>,
>(func: &mut StatefulProcessorFunc<E>, parse: &P, started: Result<(), ExprError>)
    requires
        call_ensures(StatefulProcessorFunc::<E>::on_start::<P>, (func, parse), started),
    ensures
        final(func).state() == old(func).state(),
        final(func).ops() == old(func).ops(),
        final(func).map_names_view() == old(func).map_names_view(),
        final(func).final_exprs_bytes() == old(func).final_exprs_bytes(),
        final(func).input_schema() == old(func).input_schema(),
        start_gives(*parse, *old(func), final(func).final_exprs(), started),
{
}

/// An operator, or the reason why there is none, comes of a configuration and of nothing else.
pub proof fn law_call_with_config<
    I,
    X,
    E,
    C: Fn(&I) -> Result<Arc<Schema>, X>,
    P: Fn(&PhysicalExprNode, &Schema) -> Result<E, DataFusionError>,
>(
    constructor: StatefulProcessorConstructor,
    config: StatefulProcessorOperator<I>,
    convert: &C,
    parse: &P,
    func: Result<StatefulProcessorFunc<E>, ConfigError<X>>,
)
    requires
        call_ensures(
            StatefulProcessorConstructor::with_config::<I, X, E, C, P>,
            (&constructor, config, convert, parse),
            func,
        ),
    ensures
        configuration_gives(*convert, *parse, config, func),
{
}

/// There is a table for every map, in the order of the names, under the map's name and with the
/// map's own description.
pub proof fn law_call_tables<E>(
    func: StatefulProcessorFunc<E>,
    tables: Vec<(String, String)>,
    i: int,
)
    requires
        call_ensures(StatefulProcessorFunc::<E>::tables, (&func,), tables),
        0 <= i < func.map_names_view().len(),
    ensures
        tables@.len() == func.map_names_view().len(),
        tables@[i].0@ == func.map_names_view()[i]@,
        tables@[i].1@ == table_description(func.map_names_view()[i]@),
{
    let table = tables@[i];
}

/// A node is planned over exactly one input schema, and refused with the number of them otherwise.
pub proof fn law_call_plan_node<I, S: Fn(&Expr, &DFSchema) -> Result<Vec<u8>, DataFusionError>>(
    node: StatefulProcessorExtension,
    index: usize,
    input_schemas: Vec<Arc<I>>,
    serialize: &S,
    plan: Result<NodePlan<I>, PlanError>,
)
    requires
        call_ensures(
            StatefulProcessorExtension::plan_node::<I, S>,
            (&node, index, input_schemas, serialize),
            plan,
        ),
    ensures
        input_schemas@.len() != 1 ==> plan is Err && plan->Err_0 is SchemaCount
            && plan->Err_0->SchemaCount_0 == input_schemas@.len(),
        input_schemas@.len() == 1 && plan is Ok ==> plan->Ok_0.identifies(index, input_schemas@[0])
            && node.configures(*serialize, input_schemas@[0], plan->Ok_0.config),
        input_schemas@.len() == 1 && plan is Err ==> plan->Err_0 is Refused && node.refused(
            *serialize,
            plan->Err_0->Refused_0,
        ),
{
}

/// A node is rebuilt over exactly one input, and refused with the number of them otherwise.
pub proof fn law_call_with_exprs_and_inputs(
    node: StatefulProcessorExtension,
    exprs: Vec<Expr>,
    inputs: Vec<LogicalPlan>,
    made: Result<StatefulProcessorExtension, PlanError>,
)
    requires
        call_ensures(
            StatefulProcessorExtension::with_exprs_and_inputs,
            (&node, exprs, inputs),
            made,
        ),
    ensures
        inputs@.len() == 1 ==> made is Ok && node.rebuilds(exprs@, inputs@[0], made->Ok_0),
        inputs@.len() != 1 ==> made is Err && made->Err_0 is InputCount && made->Err_0->InputCount_0
            == inputs@.len(),
{
}

/// A node lists its expressions operation by operation, and the projection last.
pub proof fn law_call_expressions(node: StatefulProcessorExtension, exprs: Vec<Expr>)
    requires
        call_ensures(StatefulProcessorExtension::expressions, (&node,), exprs),
    ensures
        exprs@ == op_exprs(node.ops@) + node.final_exprs@,
{
}

/// A node puts out the fields of its schema, all of them and in order.
pub proof fn law_call_output_schema(
    node: StatefulProcessorExtension,
    fields: Vec<Arc<Field>>,
    i: int,
)
    requires
        call_ensures(StatefulProcessorExtension::output_schema, (&node,), fields),
        0 <= i < qualified_fields(*node.final_schema).len(),
    ensures
        fields@.len() == qualified_fields(*node.final_schema).len(),
        fields@[i] == qualified_fields(*node.final_schema)[i].1,
{
}

/// A node has its one input, and the schema that it was given.
pub proof fn law_call_input_and_schema(
    node: StatefulProcessorExtension,
    inputs: Vec<&LogicalPlan>,
    schema: &Arc<DFSchema>,
)
    requires
        call_ensures(StatefulProcessorExtension::inputs, (&node,), inputs),
        call_ensures(StatefulProcessorExtension::schema, (&node,), schema),
    ensures
        inputs@.len() == 1,
        *inputs@[0] == node.input,
        *schema == node.final_schema,
{
}

/// The maps that a plan names are the operations', prefixed and each once.
pub proof fn law_call_collect_map_names(ops: Vec<StatefulOpDesc>, names: Vec<String>)
    requires
        call_ensures(collect_map_names, (&ops,), names),
    ensures
        name_texts(names@) == distinct(op_map_names(ops@)),
{
}

/// A number from zero to four names a kind, and no other number does.
pub proof fn law_call_from_code(code: i32, kind: Option<StateOpType>)
    requires
        call_ensures(StateOpType::from_code, (code,), kind),
    ensures
        code == 0 ==> kind == Some(StateOpType::StateGet),
        code == 1 ==> kind == Some(StateOpType::StatePut),
        code == 2 ==> kind == Some(StateOpType::StateUpsert),
        code == 3 ==> kind == Some(StateOpType::StateUpdate),
        code == 4 ==> kind == Some(StateOpType::StateDelete),
        code < 0 || code > 4 ==> kind is None,
{
    assert(StateOpType::StateGet.code() == 0);
    assert(StateOpType::StatePut.code() == 1);
    assert(StateOpType::StateUpsert.code() == 2);
    assert(StateOpType::StateUpdate.code() == 3);
    assert(StateOpType::StateDelete.code() == 4);
}

/// Reads, puts and upserts get a column of strings, updates and deletes one of booleans.
pub proof fn law_call_column_type(op_type: StateOpType, column_type: ColumnType)
    requires
        call_ensures(StateOpType::column_type, (op_type,), column_type),
    ensures
        column_type is Boolean <==> op_type is StateUpdate || op_type is StateDelete,
{
}

/// A slot of a column of strings is read as its string, a null slot and any other column as null;
/// likewise for booleans.
pub proof fn law_call_extract(
    array: ColumnarValue,
    row: usize,
    text: Option<String>,
    value: Option<bool>,
)
    requires
        call_ensures(extract_string, (&array, row), text),
        call_ensures(extract_boolean, (&array, row), value),
    ensures
        utf8_values(array) matches Some(slots) ==> match slots[row as int] {
            Some(slot) => text is Some && text->Some_0@ == slot,
            None => text is None,
        },
        utf8_values(array) is None ==> text is None,
        boolean_values(array) matches Some(slots) ==> value == slots[row as int],
        boolean_values(array) is None ==> value is None,
{
}

/// A map's marked entries are listed each once and as they are; its live values are those of its
/// entries.
pub proof fn law_call_map_reads(
    map: MapState,
    entries: Vec<(String, Option<String>)>,
    key: &str,
    live: Option<&String>,
    dirty: bool,
)
    requires
        call_ensures(MapState::dirty_entries, (&map,), entries),
        call_ensures(MapState::live, (&map, key), live),
        call_ensures(MapState::has_dirty, (&map,), dirty),
    ensures
        key_occurs(entries@, key@) <==> map@.dirty.contains(key@) && map@.entries.contains_key(
            key@,
        ),
        live is Some <==> map@.entries.contains_key(key@) && map@.entries[key@] is Some,
        live matches Some(text) ==> map@.entries[key@] == Some(text@),
        map@.dirty.contains(key@) ==> dirty,
{
    law_restored_keys(entries@, key@);
}

/// A slot written to a map holds what was written and is marked; every other key keeps its entry
/// and its mark.
pub proof fn law_call_write(
    map: &mut MapState,
    key: String,
    value: Option<String>,
    other: Seq<char>,
)
    requires
        call_ensures(MapState::write, (map, key, value), ()),
    ensures
        final(map)@.entries.contains_key(key@),
        value matches Some(text) ==> final(map)@.entries[key@] == Some(text@),
        value is None ==> final(map)@.entries[key@] is None,
        final(map)@.dirty.contains(key@),
        other != key@ ==> {
            &&& final(map)@.entries.contains_key(other) <==> old(map)@.entries.contains_key(other)
            &&& final(map)@.entries[other] == old(map)@.entries[other]
            &&& final(map)@.dirty.contains(other) <==> old(map)@.dirty.contains(other)
        },
{
}

/// A new map has no entry and no mark.
pub proof fn law_call_new_map(map: MapState, key: Seq<char>)
    requires
        call_ensures(MapState::new, (), map),
    ensures
        !map@.entries.contains_key(key),
        !map@.dirty.contains(key),
{
}

/// Clearing the marks of a map leaves none and keeps the entries.
pub proof fn law_call_clear_dirty(map: &mut MapState, key: Seq<char>)
    requires
        call_ensures(MapState::clear_dirty, (map,), ()),
    ensures
        !final(map)@.dirty.contains(key),
        final(map)@.entries == old(map)@.entries,
{
}

/// Restoring a map leaves the last of the given entries under each given key and nothing under any
/// other, and keeps the marks.
pub proof fn law_call_restore(
    map: &mut MapState,
    entries: Vec<(String, Option<String>)>,
    i: int,
    key: Seq<char>,
)
    requires
        call_ensures(MapState::restore, (map, entries), ()),
    ensures
        final(map)@.dirty == old(map)@.dirty,
        final(map)@.entries.contains_key(key) <==> key_occurs(entries@, key),
        is_last_entry(entries@, i) ==> match entries@[i].1 {
            Some(value) => final(map)@.entries[entries@[i].0@] == Some(value@),
            None => final(map)@.entries[entries@[i].0@] is None,
        },
{
    law_restored_keys(entries@, key);
    if is_last_entry(entries@, i) {
        law_restored_entries(entries@, i);
    }
}

/// There are no maps at first; a map that is added is empty, and adding one changes no other and
/// none that there is already.
pub proof fn law_call_add_map(
    start: StateMaps,
    maps: &mut StateMaps,
    name: &str,
    other: Seq<char>,
    key: Seq<char>,
)
    requires
        call_ensures(StateMaps::new, (), start),
        call_ensures(StateMaps::add_map, (maps, name), ()),
    ensures
        !start@.contains_key(other),
        final(maps)@.contains_key(other) <==> old(maps)@.contains_key(other) || other == name@,
        old(maps)@.contains_key(other) ==> final(maps)@[other] == old(maps)@[other],
        !old(maps)@.contains_key(name@) ==> {
            &&& !final(maps)@[name@].entries.contains_key(key)
            &&& !final(maps)@[name@].dirty.contains(key)
        },
{
}

/// A map is found under its name exactly where there is one, and is the one of that name.
pub proof fn law_call_find_map(
    maps: StateMaps,
    name: &str,
    known: bool,
    map: Option<&MapState>,
)
    requires
        call_ensures(StateMaps::contains, (&maps, name), known),
        call_ensures(StateMaps::map, (&maps, name), map),
    ensures
        known <==> maps@.contains_key(name@),
        map is Some <==> maps@.contains_key(name@),
        map matches Some(found) ==> found@ == maps@[name@],
{
}

/// Clearing the marks of all maps leaves none in any and keeps every map's entries.
pub proof fn law_call_clear_all(maps: &mut StateMaps, name: Seq<char>, key: Seq<char>)
    requires
        call_ensures(StateMaps::clear_dirty, (maps,), ()),
    ensures
        final(maps)@.contains_key(name) <==> old(maps)@.contains_key(name),
        old(maps)@.contains_key(name) ==> {
            &&& final(maps)@[name].entries == old(maps)@[name].entries
            &&& !final(maps)@[name].dirty.contains(key)
        },
{
}

/// Restoring one of the maps changes that map alone, adding it where there was none.
pub proof fn law_call_restore_one(
    maps: &mut StateMaps,
    name: &str,
    entries: Vec<(String, Option<String>)>,
    other: Seq<char>,
    key: Seq<char>,
)
    requires
        call_ensures(StateMaps::restore, (maps, name, entries), ()),
    ensures
        final(maps)@.contains_key(other) <==> old(maps)@.contains_key(other) || other == name@,
        other != name@ && old(maps)@.contains_key(other) ==> final(maps)@[other]
            == old(maps)@[other],
        final(maps)@[name@].entries.contains_key(key) <==> key_occurs(entries@, key),
        final(maps)@[name@].dirty.contains(key) <==> old(maps)@.contains_key(name@)
            && old(maps)@[name@].dirty.contains(key),
{
    law_restored_keys(entries@, key);
}

/// The string in a column's slot, where the column holds strings.
pub open spec fn slot_text(column: ColumnarValue, row: int) -> Option<Seq<char>> {
    if utf8_values(column) is Some {
        utf8_values(column)->Some_0[row]
    } else {
        None
    }
}

/// A row's key is the key column's slot; its value, for a put, an upsert or an update, the value
/// column's; its condition, for an update, the condition column's.
pub proof fn law_call_row_args(
    evaluated: EvaluatedOp,
    op_type: StateOpType,
    row: usize,
    args: RowArgs,
)
    requires
        call_ensures(EvaluatedOp::row_args, (&evaluated, op_type, row), args),
    ensures
        args@.key == slot_text(evaluated.key_array, row as int),
        evaluated.value_array matches Some(values) ==> {
            &&& op_type is StatePut || op_type is StateUpsert || op_type is StateUpdate
                ==> args@.value == slot_text(values, row as int)
            &&& op_type is StateGet || op_type is StateDelete ==> args@.value is None
        },
        evaluated.value_array is None ==> args@.value is None,
        evaluated.condition_array matches Some(conditions) ==> {
            &&& op_type is StateUpdate && boolean_values(conditions) is Some ==> args@.condition
                == boolean_values(conditions)->Some_0[row as int]
            &&& boolean_values(conditions) is None ==> args@.condition is None
            &&& !(op_type is StateUpdate) ==> args@.condition is None
        },
        evaluated.condition_array is None ==> args@.condition is None,
{
}

/// A new column of answers holds none and takes those of its kind; an answer that is added stands
/// at the end, and those before it stay.
pub proof fn law_call_column(
    kind: ColumnType,
    start: ResultColumn,
    column: &mut ResultColumn,
    answer: Answer,
    i: int,
)
    requires
        call_ensures(ResultColumn::new, (kind,), start),
        call_ensures(ResultColumn::push, (column, answer), ()),
    ensures
        start.cells().len() == 0,
        start is Str <==> kind is Utf8,
        final(column).cells().len() == old(column).cells().len() + 1,
        0 <= i < old(column).cells().len() ==> final(column).cells()[i] == old(column).cells()[i],
        answer matches Answer::Str(Some(text)) ==> final(column).cells().last() == Cell::Str(
            Some(text@),
        ),
        answer matches Answer::Str(None) ==> final(column).cells().last() == Cell::Str(None),
        answer matches Answer::Bool(value) ==> final(column).cells().last() == Cell::Bool(value),
        (*final(column)) is Str <==> (*old(column)) is Str,
{
}

/// The array of a column of answers has a slot for each, which holds it.
pub proof fn law_call_finish(column: ResultColumn, array: ColumnarValue, i: int)
    requires
        call_ensures(ResultColumn::finish, (&column,), array),
    ensures
        column matches ResultColumn::Str(cells) ==> {
            &&& array_len(array) == Some(cells@.len())
            &&& utf8_values(array) is Some
            &&& 0 <= i < cells@.len() ==> match cells@[i] {
                Some(text) => utf8_values(array)->Some_0[i] == Some(text@),
                None => utf8_values(array)->Some_0[i] is None,
            }
        },
        column matches ResultColumn::Bool(cells) ==> {
            &&& array_len(array) == Some(cells@.len())
            &&& boolean_values(array) is Some
            &&& 0 <= i < cells@.len() ==> boolean_values(array)->Some_0[i] == Some(cells@[i])
        },
{
}

/// Every operation has its map exactly where that is said of the processor.
pub proof fn law_call_check_maps<E>(func: StatefulProcessorFunc<E>, known: bool)
    requires
        call_ensures(StatefulProcessorFunc::<E>::check_maps, (&func,), known),
    ensures
        known <==> forall|i: int|
            0 <= i < func.ops().len() ==> func.state().contains_key(
                (#[trigger] func.ops()[i]).map_name@,
            ),
{
    let plan = plan_of(func.ops());
    if known {
        assert forall|i: int| 0 <= i < func.ops().len() implies func.state().contains_key(
            (#[trigger] func.ops()[i]).map_name@,
        ) by {
            assert(func.state().contains_key(plan[i].map));
        }
    } else {
        let i = choose|i: int|
            0 <= i < plan.len() && !func.state().contains_key(#[trigger] plan[i].map);
        assert(!func.state().contains_key(func.ops()[i].map_name@));
    }
}

/// Columns are long enough exactly where every column of strings or booleans that is read has a
/// slot for each row.
pub proof fn law_call_check_reaches(
    evaluated: EvaluatedOp,
    op_type: StateOpType,
    rows: usize,
    reach: bool,
)
    requires
        call_ensures(EvaluatedOp::check_reaches, (&evaluated, op_type, rows), reach),
    ensures
        reach <==> {
            &&& utf8_values(evaluated.key_array) matches Some(cells) ==> rows <= cells.len()
            &&& (op_type is StatePut || op_type is StateUpsert || op_type is StateUpdate)
                && evaluated.value_array is Some ==> (utf8_values(
                evaluated.value_array->Some_0,
            ) matches Some(cells) ==> rows <= cells.len())
            &&& op_type is StateUpdate && evaluated.condition_array is Some ==> (boolean_values(
                evaluated.condition_array->Some_0,
            ) matches Some(cells) ==> rows <= cells.len())
        },
{
}

/// The columns of all operations are long enough exactly where each one's are.
pub proof fn law_call_check_evaluated<E>(
    func: StatefulProcessorFunc<E>,
    evaluated: Vec<EvaluatedOp>,
    num_rows: usize,
    reach: bool,
)
    requires
        call_ensures(
            StatefulProcessorFunc::<E>::check_evaluated,
            (&func, &evaluated, num_rows),
            reach,
        ),
        evaluated@.len() == func.ops().len(),
    ensures
        reach <==> forall|i: int|
            0 <= i < func.ops().len() ==> (#[trigger] evaluated@[i]).reaches(
                func.ops()[i].op_type,
                num_rows,
            ),
{
}

/// A new processor has the given names, operations, encoded projection and schema, a map without
/// entries or marks for each name and no other map, and no projection yet.
pub proof fn law_call_new<E>(
    map_names: Vec<String>,
    ops: Vec<StateOp<E>>,
    final_exprs_bytes: Vec<Vec<u8>>,
    input_schema: Arc<Schema>,
    func: StatefulProcessorFunc<E>,
    name: Seq<char>,
    key: Seq<char>,
)
    requires
        call_ensures(
            StatefulProcessorFunc::<E>::new,
            (map_names, ops, final_exprs_bytes, input_schema),
            func,
        ),
    ensures
        func.map_names_view() == map_names@,
        func.ops() == ops@,
        func.final_exprs_bytes() == final_exprs_bytes@,
        func.input_schema() == *input_schema,
        func.final_exprs().len() == 0,
        func.state().contains_key(name) <==> exists|i: int|
            0 <= i < map_names@.len() && (#[trigger] map_names@[i])@ == name,
        func.state().contains_key(name) ==> {
            &&& !func.state()[name].entries.contains_key(key)
            &&& !func.state()[name].dirty.contains(key)
        },
{
    law_new_maps(map_names@, name, key);
}

/// A processor's maps' names are the configured ones, and its own name is always the same.
pub proof fn law_call_names<E>(
    func: StatefulProcessorFunc<E>,
    names: &Vec<String>,
    name: String,
)
    requires
        call_ensures(StatefulProcessorFunc::<E>::map_names, (&func,), names),
        call_ensures(StatefulProcessorFunc::<E>::name, (&func,), name),
    ensures
        names@ == func.map_names_view(),
        name@ == "stateful_processor"@,
{
}

/// A batch's operations are evaluated all, or the first failure is handed back.
pub proof fn law_call_evaluate_ops<
    E,
    F: Fn(&E, &Batch) -> Result<ColumnarValue, DataFusionError>,
>(
    func: StatefulProcessorFunc<E>,
    batch: &Batch,
    eval: &F,
    evaluated: Result<Vec<EvaluatedOp>, DataFusionError>,
)
    requires
        call_ensures(
            StatefulProcessorFunc::<E>::evaluate_ops::<F>,
            (&func, batch, eval),
            evaluated,
        ),
    ensures
        evaluated matches Ok(columns) ==> ops_evaluate(*eval, func.ops(), *batch, columns@),
        evaluated matches Err(error) ==> ops_fail(*eval, func.ops(), *batch, error),
{
}

/// The answers are appended to a batch exactly where their fields can stand beside its own.
pub proof fn law_call_intermediate_batch<E>(
    func: StatefulProcessorFunc<E>,
    batch: &Batch,
    columns: &Vec<ResultColumn>,
    made: Result<Batch, ArrowError>,
)
    requires
        call_ensures(
            StatefulProcessorFunc::<E>::intermediate_batch,
            (&func, batch, columns),
            made,
        ),
    ensures
        made is Ok <==> takes_columns(func.ops(), *batch),
        made matches Ok(intermediate) ==> is_intermediate(
            func.ops(),
            *batch,
            columns@,
            intermediate,
        ),
        made matches Err(error) ==> appending_fails(func.ops(), *batch, columns@, error),
{
}

/// The batch that goes out is made of the processor's own operations and projection.
pub proof fn law_call_emit_batch<
    E,
    F: Fn(&E, &Batch) -> Result<ColumnarValue, DataFusionError>,
    G: Fn(&E, &Schema) -> Result<ExprField, DataFusionError>,
>(
    func: StatefulProcessorFunc<E>,
    batch: &Batch,
    columns: &Vec<ResultColumn>,
    eval: &F,
    describe: &G,
    emitted: Result<Batch, ProcessError>,
)
    requires
        call_ensures(
            StatefulProcessorFunc::<E>::emit_batch::<F, G>,
            (&func, batch, columns, eval, describe),
            emitted,
        ),
    ensures
        emits(
            *eval,
            *describe,
            func.ops(),
            func.final_exprs(),
            *batch,
            columns@,
            emitted,
        ),
{
}

/// Bytes give the expression that the parser makes of the node they decode to, or the first of the
/// two failures.
pub proof fn law_call_parse_expr<
    E,
    P: Fn(&PhysicalExprNode, &Schema) -> Result<E, DataFusionError>,
>(bytes: Vec<u8>, schema: &Schema, parse: &P, expr: Result<E, ExprError>)
    requires
        call_ensures(parse_expr::<E, P>, (&bytes, schema, parse), expr),
    ensures
        decoded_node(bytes@) matches Ok(node) ==> match expr {
            Ok(made) => parse.ensures((&node, schema), Ok(made)),
            Err(ExprError::Parse(failure)) => parse.ensures((&node, schema), Err(failure)),
            Err(ExprError::Decode(_)) => false,
        },
        decoded_node(bytes@) matches Err(failure) ==> expr is Err && expr->Err_0
            == ExprError::Decode(failure),
{
}

/// The messages of the errors that a configuration gives.
pub proof fn law_call_config_message<X>(error: ConfigError<X>, message: Option<String>)
    requires
        call_ensures(ConfigError::<X>::message, (&error,), message),
    ensures
        error is MissingInputSchema ==> message is Some && message->Some_0@
            == "StatefulProcessorOperator missing input_schema"@,
        error matches ConfigError::UnknownStateOpType(code) ==> message is Some && message->Some_0@
            == "unknown StateOpType: "@ + signed_decimal(code as int),
        error is InputSchema || error is Expression ==> message is None,
{
}

/// The messages of the errors that a plan node gives.
pub proof fn law_call_plan_message(error: PlanError, message: Option<String>)
    requires
        call_ensures(PlanError::message, (&error,), message),
    ensures
        error matches PlanError::InputCount(found) ==> message is Some && message->Some_0@
            == "StatefulProcessorExtension requires exactly one input, found "@ + decimal(
            found as nat,
        ),
        error matches PlanError::SchemaCount(found) ==> message is Some && message->Some_0@
            == "StatefulProcessorExtension requires exactly one input schema, found "@ + decimal(
            found as nat,
        ),
        error is Refused ==> message is None,
{
}

/// A node's name, and the line that explains it.
pub proof fn law_call_explain(node: StatefulProcessorExtension, name: &str, line: String)
    requires
        call_ensures(StatefulProcessorExtension::name, (&node,), name),
        call_ensures(StatefulProcessorExtension::fmt_for_explain, (&node,), line),
    ensures
        name@ == "StatefulProcessorExtension"@,
        line@ == "StatefulProcessorExtension: ops="@ + decimal(node.ops@.len()) + ", schema=["@
            + joined(field_names(qualified_fields(*node.final_schema)), ", "@) + "]"@,
{
}

/// A number is appended in decimal after what is there.
pub proof fn law_call_append_decimal(out: &mut String, n: u64)
    requires
        call_ensures(append_decimal, (out, n), ()),
    ensures
        final(out)@ == old(out)@ + decimal(n as nat),
{
}

/// An integer is appended in decimal after what is there.
pub proof fn law_call_append_signed_decimal(out: &mut String, n: i32)
    requires
        call_ensures(append_signed_decimal, (out, n), ()),
    ensures
        final(out)@ == old(out)@ + signed_decimal(n as int),
{
}

} // verus!
