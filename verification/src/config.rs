//! The configuration that a plan hands to the operator.
use std::sync::Arc;

use vstd::prelude::*;

verus! {

/// One state operation with its expressions encoded. An empty encoding stands for no expression.
pub struct StateOperation {
    pub map_name: String,
    /// The number of the operation's kind.
    pub op_type: i32,
    pub key_expr: Vec<u8>,
    pub value_expr: Vec<u8>,
    pub condition_expr: Vec<u8>,
    pub output_field: String,
}

/// Everything that the operator is made from. `I` is the schema of the input as the engine has it:
/// an Arrow schema and whatever else the engine keeps with one.
pub struct StatefulProcessorOperator<I> {
    pub name: String,
    pub operations: Vec<StateOperation>,
    pub map_names: Vec<String>,
    pub input_schema: Option<Arc<I>>,
    pub final_exprs: Vec<Vec<u8>>,
}

} // verus!
