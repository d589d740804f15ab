//! The state operations and what each one answers with.
use vstd::prelude::*;

use crate::schema::ColumnType;

verus! {

/// The kind of a state operation.
#[derive(Clone, Copy, Debug, PartialEq, Eq, Hash, Structural)]
pub enum StateOpType {
    /// Reads a key.
    StateGet,
    /// Writes a key.
    StatePut,
    /// Writes a key that has no live value, and answers with the value that is live afterwards.
    StateUpsert,
    /// Writes a key where a condition holds.
    StateUpdate,
    /// Deletes a key.
    StateDelete,
}

/// Whether a number names no kind.
pub open spec fn names_no_kind(code: i32) -> bool {
    forall|op_type: StateOpType| #[trigger] op_type.code() != code
}

impl StateOpType {
    /// The number by which a plan names the kind.
    pub open spec fn code(self) -> i32 {
        match self {
            StateOpType::StateGet => 0,
            StateOpType::StatePut => 1,
            StateOpType::StateUpsert => 2,
            StateOpType::StateUpdate => 3,
            StateOpType::StateDelete => 4,
        }
    }

    /// The kind that a number names, a read where it names none.
    pub open spec fn of_code(code: i32) -> StateOpType {
        if code == 1 {
            StateOpType::StatePut
        } else if code == 2 {
            StateOpType::StateUpsert
        } else if code == 3 {
            StateOpType::StateUpdate
        } else if code == 4 {
            StateOpType::StateDelete
        } else {
            StateOpType::StateGet
        }
    }

    /// What a column of answers holds.
    pub open spec fn answers(self) -> ColumnType {
        match self {
            StateOpType::StateGet | StateOpType::StatePut | StateOpType::StateUpsert => {
                ColumnType::Utf8
            },
            StateOpType::StateUpdate | StateOpType::StateDelete => ColumnType::Boolean,
        }
    }

    /// The kind that a number names.
    pub fn from_code(code: i32) -> (kind: Option<StateOpType>)
        ensures
            kind is Some ==> kind->Some_0.code() == code,
            kind is None ==> names_no_kind(code),
    {
        match code {
            0 => Some(StateOpType::StateGet),
            1 => Some(StateOpType::StatePut),
            2 => Some(StateOpType::StateUpsert),
            3 => Some(StateOpType::StateUpdate),
            4 => Some(StateOpType::StateDelete),
            _ => None,
        }
    }

    /// What a column of answers holds: strings for reads, writes and upserts, booleans for
    /// updates and deletes.
    pub fn column_type(self) -> (column_type: ColumnType)
        ensures
            column_type == self.answers(),
    {
        match self {
            StateOpType::StateGet | StateOpType::StatePut | StateOpType::StateUpsert => {
                ColumnType::Utf8
            },
            StateOpType::StateUpdate | StateOpType::StateDelete => ColumnType::Boolean,
        }
    }
}

} // verus!
