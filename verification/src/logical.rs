//! Logical expressions, plans and qualified schemas.
use std::collections::HashMap;
use std::sync::Arc;

use arrow_schema::Field;
use datafusion::common::{DFSchema, TableReference};
use datafusion::error::DataFusionError;
use datafusion::logical_expr::{Expr, LogicalPlan};
use vstd::prelude::*;

use crate::schema::field_name;

verus! {

/// The outside type [`Expr`].
#[verifier::external_type_specification]
#[verifier::external_body]
pub struct ExExpr(Expr);

/// The outside type [`LogicalPlan`].
#[verifier::external_type_specification]
#[verifier::external_body]
pub struct ExLogicalPlan(LogicalPlan);

/// The outside type [`DFSchema`].
#[verifier::external_type_specification]
#[verifier::external_body]
pub struct ExDFSchema(DFSchema);

/// The outside type [`TableReference`].
#[verifier::external_type_specification]
#[verifier::external_body]
pub struct ExTableReference(TableReference);

/// A field with the table that qualifies it, if one does.
pub type QualifiedField = (Option<TableReference>, Arc<Field>);

/// The schema of a plan's output.
pub uninterp spec fn plan_schema(plan: LogicalPlan) -> DFSchema;

/// The fields of a qualified schema, in order.
pub uninterp spec fn qualified_fields(schema: DFSchema) -> Seq<QualifiedField>;

/// The qualified schema that `DFSchema::new_with_metadata` makes of fields and no metadata, or why
/// it makes none.
pub uninterp spec fn new_qualified_schema(fields: Seq<QualifiedField>) -> Result<
    DFSchema,
    DataFusionError,
>;

/// Whether two fields can stand in one qualified schema: they differ in name, or both are
/// qualified and by different tables.
pub open spec fn names_differ(a: QualifiedField, b: QualifiedField) -> bool {
    ||| field_name(*a.1) != field_name(*b.1)
    ||| a.0 is Some && b.0 is Some && a.0 != b.0
}

/// Whether any two fields can stand in one qualified schema.
pub open spec fn all_names_differ(fields: Seq<QualifiedField>) -> bool {
    forall|i: int, j: int|
        0 <= i < j < fields.len() ==> names_differ(#[trigger] fields[i], #[trigger] fields[j])
}

/// `Expr::clone`: the same expression.
pub assume_specification[ <Expr as Clone>::clone ](expr: &Expr) -> (other: Expr)
    ensures
        other == *expr,
;

/// `LogicalPlan::clone`: the same plan.
pub assume_specification[ <LogicalPlan as Clone>::clone ](plan: &LogicalPlan) -> (other:
    LogicalPlan)
    ensures
        other == *plan,
;

/// `LogicalPlan::schema`: the schema of a plan's output, shared.
#[verifier::external_body]
pub(crate) fn schema_of_plan(plan: &LogicalPlan) -> (schema: Arc<DFSchema>)
    ensures
        *schema == plan_schema(*plan),
{
    plan.schema().clone()
}

/// `DFSchema::iter`: the fields of a qualified schema, each with its qualifier.
#[verifier::external_body]
pub(crate) fn list_qualified_fields(schema: &DFSchema) -> (fields: Vec<QualifiedField>)
    ensures
        fields@ == qualified_fields(*schema),
{
    schema.iter().map(|(qualifier, field)| (qualifier.cloned(), field.clone())).collect()
}

/// `DFSchema::new_with_metadata`, with no metadata: a qualified schema of exactly these fields,
/// made exactly when their names can stand together. The error depends on the fields alone.
#[verifier::external_body]
pub(crate) fn make_qualified_schema(fields: Vec<QualifiedField>) -> (schema: Result<
    DFSchema,
    DataFusionError,
>)
    ensures
        schema is Ok <==> all_names_differ(fields@),
        schema == new_qualified_schema(fields@),
        schema is Ok ==> qualified_fields(schema->Ok_0) == fields@,
{
    DFSchema::new_with_metadata(fields, HashMap::new())
}

/// `Field::name`: the name of a field, copied.
#[verifier::external_body]
pub(crate) fn name_of(field: &Field) -> (name: String)
    ensures
        name@ == field_name(*field),
{
    field.name().clone()
}

} // verus!
