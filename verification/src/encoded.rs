//! Physical expressions as bytes.
use arrow_schema::Schema;
use datafusion::error::DataFusionError;
use datafusion_proto::protobuf::PhysicalExprNode;
use prost::{DecodeError, Message};
use vstd::prelude::*;

verus! {

/// The outside type [`PhysicalExprNode`].
#[verifier::external_type_specification]
#[verifier::external_body]
pub struct ExPhysicalExprNode(PhysicalExprNode);

/// The outside type [`DecodeError`].
#[verifier::external_type_specification]
#[verifier::external_body]
pub struct ExDecodeError(DecodeError);

/// The expression node that bytes decode to, or the error where they decode to none.
pub uninterp spec fn decoded_node(bytes: Seq<u8>) -> Result<PhysicalExprNode, DecodeError>;

/// Why bytes gave no expression.
pub enum ExprError {
    /// The bytes are no expression node.
    Decode(DecodeError),
    /// The node is no expression over the schema.
    Parse(DataFusionError),
}

/// Whether bytes may give this expression over a schema.
pub open spec fn parses<E, P: Fn(&PhysicalExprNode, &Schema) -> Result<E, DataFusionError>>(
    parse: P,
    bytes: Seq<u8>,
    schema: Schema,
    expr: E,
) -> bool {
    decoded_node(bytes) matches Ok(node) && parse.ensures((&node, &schema), Ok(expr))
}

/// Whether bytes may give this error in place of an expression.
pub open spec fn parse_fails<E, P: Fn(&PhysicalExprNode, &Schema) -> Result<E, DataFusionError>>(
    parse: P,
    bytes: Seq<u8>,
    schema: Schema,
    error: ExprError,
) -> bool {
    match error {
        ExprError::Decode(failure) => decoded_node(bytes) == Err::<PhysicalExprNode, _>(failure),
        ExprError::Parse(failure) => decoded_node(bytes) matches Ok(node) && parse.ensures(
            (&node, &schema),
            Err(failure),
        ),
    }
}

/// Whether the parser takes every node and schema.
pub open spec fn parses_all<E, P: Fn(&PhysicalExprNode, &Schema) -> Result<E, DataFusionError>>(
    parse: P,
) -> bool {
    forall|node: &PhysicalExprNode, schema: &Schema| #[trigger] parse.requires((node, schema))
}

/// `Message::decode` of a `PhysicalExprNode`: the node that the bytes encode, or why they encode
/// none. What a node holds is not stated; that the same bytes give the same node or error is.
#[verifier::external_body]
pub(crate) fn decode_node(bytes: &Vec<u8>) -> (node: Result<PhysicalExprNode, DecodeError>)
    ensures
        node == decoded_node(bytes@),
{
    PhysicalExprNode::decode(bytes.as_slice())
}

/// Decodes an expression and parses it against a schema.
pub fn parse_expr<E, P: Fn(&PhysicalExprNode, &Schema) -> Result<E, DataFusionError>>(
    bytes: &Vec<u8>,
    schema: &Schema,
    parse: &P,
) -> (expr: Result<E, ExprError>)
    requires
        parses_all::<E, P>(*parse),
    ensures
        match expr {
            Ok(made) => parses(*parse, bytes@, *schema, made),
            Err(error) => parse_fails(*parse, bytes@, *schema, error),
        },
{
    match decode_node(bytes) {
        Ok(node) => match parse(&node, schema) {
            Ok(expr) => Ok(expr),
            Err(error) => Err(ExprError::Parse(error)),
        },
        Err(error) => Err(ExprError::Decode(error)),
    }
}

} // verus!
