//! The columns that operations read and the columns of answers that they make.
use datafusion::logical_expr::ColumnarValue;
use vstd::prelude::*;
use vstd::utf8::encode_utf8;

use crate::columns::{
    append_boolean, array_len, array_null_count, array_type, as_boolean_array, as_string_array,
    boolean_builder, boolean_is_null, boolean_pending, boolean_value, boolean_values, column_len,
    finish_booleans, utf8_bytes, utf8_pending, utf8_values, Utf8Builder,
};
use crate::model::{Cell, OpArgs};
use crate::ops::StateOpType;
use crate::schema::{arrow_type, ColumnType};
use crate::state::{text_of, Answer, RowArgs};

verus! {

/// The columns that one operation's expressions gave for a batch.
pub struct EvaluatedOp {
    pub key_array: ColumnarValue,
    pub value_array: Option<ColumnarValue>,
    pub condition_array: Option<ColumnarValue>,
}

/// A column of answers.
#[derive(Debug, PartialEq, Eq)]
pub enum ResultColumn {
    /// Strings, null where there is no answer.
    Str(Vec<Option<String>>),
    /// Booleans.
    Bool(Vec<bool>),
}

/// The string in a slot of a string column; `None` for a null slot and for a column that holds
/// no strings.
pub open spec fn string_at(column: ColumnarValue, row: int) -> Option<Seq<char>> {
    match utf8_values(column) {
        Some(cells) => cells[row],
        None => None,
    }
}

/// The boolean in a slot of a boolean column; `None` for a null slot and for a column that holds
/// no booleans.
pub open spec fn boolean_at(column: ColumnarValue, row: int) -> Option<bool> {
    match boolean_values(column) {
        Some(cells) => cells[row],
        None => None,
    }
}

/// Whether a column, where it holds strings, has at least so many.
pub open spec fn strings_reach(column: ColumnarValue, rows: usize) -> bool {
    utf8_values(column) matches Some(cells) ==> rows <= cells.len()
}

/// Whether a column, where it holds booleans, has at least so many.
pub open spec fn booleans_reach(column: ColumnarValue, rows: usize) -> bool {
    boolean_values(column) matches Some(cells) ==> rows <= cells.len()
}

/// Whether an operation reads its value column.
pub open spec fn reads_value(op_type: StateOpType) -> bool {
    op_type is StatePut || op_type is StateUpsert || op_type is StateUpdate
}

impl EvaluatedOp {
    /// Whether the columns that the operation reads have at least so many slots.
    pub open spec fn reaches(self, op_type: StateOpType, rows: usize) -> bool {
        &&& strings_reach(self.key_array, rows)
        &&& reads_value(op_type) ==> (self.value_array matches Some(values) ==> strings_reach(
            values,
            rows,
        ))
        &&& op_type is StateUpdate ==> (self.condition_array matches Some(conditions)
            ==> booleans_reach(conditions, rows))
    }

    /// What the operation reads of a row.
    pub open spec fn args(self, op_type: StateOpType, row: int) -> OpArgs {
        OpArgs {
            key: string_at(self.key_array, row),
            value: match self.value_array {
                Some(values) if reads_value(op_type) => string_at(values, row),
                _ => None,
            },
            condition: match self.condition_array {
                Some(conditions) if op_type is StateUpdate => boolean_at(conditions, row),
                _ => None,
            },
        }
    }
}

/// The string in a slot of a string column; `None` for a null slot and for a column that holds
/// no strings.
pub fn extract_string(array: &ColumnarValue, row: usize) -> (text: Option<String>)
    requires
        utf8_values(*array) matches Some(cells) ==> row < cells.len(),
    ensures
        text_of(text) == string_at(*array, row as int),
{
    match as_string_array(array) {
        Some(strings) => {
            if strings.is_null(row) {
                None
            } else {
                Some(strings.value(row))
            }
        },
        None => None,
    }
}

/// The boolean in a slot of a boolean column; `None` for a null slot and for a column that holds
/// no booleans.
pub fn extract_boolean(array: &ColumnarValue, row: usize) -> (value: Option<bool>)
    requires
        boolean_values(*array) matches Some(cells) ==> row < cells.len(),
    ensures
        value == boolean_at(*array, row as int),
{
    match as_boolean_array(array) {
        Some(booleans) => {
            if boolean_is_null(&booleans, row) {
                None
            } else {
                Some(boolean_value(&booleans, row))
            }
        },
        None => None,
    }
}

/// Whether a column, where it holds strings, has at least so many.
fn check_strings(array: &ColumnarValue, rows: usize) -> (reach: bool)
    ensures
        reach == strings_reach(*array, rows),
{
    match (as_string_array(array), column_len(array)) {
        (Some(_), Some(len)) => rows <= len,
        _ => true,
    }
}

/// Whether a column, where it holds booleans, has at least so many.
fn check_booleans(array: &ColumnarValue, rows: usize) -> (reach: bool)
    ensures
        reach == booleans_reach(*array, rows),
{
    match (as_boolean_array(array), column_len(array)) {
        (Some(_), Some(len)) => rows <= len,
        _ => true,
    }
}

impl EvaluatedOp {
    /// Whether the columns that an operation of this kind reads have at least so many slots.
    pub fn check_reaches(&self, op_type: StateOpType, rows: usize) -> (reach: bool)
        ensures
            reach == self.reaches(op_type, rows),
    {
        if !check_strings(&self.key_array, rows) {
            return false;
        }
        match op_type {
            StateOpType::StatePut | StateOpType::StateUpsert | StateOpType::StateUpdate => {
                if let Some(values) = &self.value_array {
                    if !check_strings(values, rows) {
                        return false;
                    }
                }
            },
            _ => {},
        }
        match op_type {
            StateOpType::StateUpdate => {
                if let Some(conditions) = &self.condition_array {
                    return check_booleans(conditions, rows);
                }
            },
            _ => {},
        }
        true
    }

    /// What an operation of this kind reads of a row.
    pub fn row_args(&self, op_type: StateOpType, row: usize) -> (args: RowArgs)
        requires
            row < usize::MAX,
            self.reaches(op_type, (row + 1) as usize),
        ensures
            args@ == self.args(op_type, row as int),
    {
        let key = extract_string(&self.key_array, row);
        let value = match op_type {
            StateOpType::StatePut | StateOpType::StateUpsert | StateOpType::StateUpdate => {
                match &self.value_array {
                    Some(values) => extract_string(values, row),
                    None => None,
                }
            },
            _ => None,
        };
        let condition = match op_type {
            StateOpType::StateUpdate => match &self.condition_array {
                Some(conditions) => extract_boolean(conditions, row),
                None => None,
            },
            _ => None,
        };
        RowArgs { key, value, condition }
    }
}

/// The texts of a column of strings.
pub open spec fn texts(cells: Seq<Option<String>>) -> Seq<Option<Seq<char>>> {
    cells.map_values(|cell: Option<String>| text_of(cell))
}

/// The slots of a column of booleans, none of them null.
pub open spec fn filled(cells: Seq<bool>) -> Seq<Option<bool>> {
    cells.map_values(|cell: bool| Some(cell))
}

impl ResultColumn {
    /// What the column holds.
    pub open spec fn kind(self) -> ColumnType {
        match self {
            ResultColumn::Str(_) => ColumnType::Utf8,
            ResultColumn::Bool(_) => ColumnType::Boolean,
        }
    }

    /// The answers.
    pub open spec fn cells(self) -> Seq<Cell> {
        match self {
            ResultColumn::Str(cells) => cells@.map_values(
                |cell: Option<String>| Cell::Str(text_of(cell)),
            ),
            ResultColumn::Bool(cells) => cells@.map_values(|cell: bool| Cell::Bool(cell)),
        }
    }

    /// Whether the strings are few enough for the 32-bit offsets of a string array.
    pub open spec fn fits(self) -> bool {
        self matches ResultColumn::Str(cells) ==> utf8_bytes(texts(cells@)) <= i32::MAX
    }

    /// Whether an array holds exactly these answers.
    pub open spec fn is_held_by(self, array: ColumnarValue) -> bool {
        &&& array_len(array) == Some(self.cells().len())
        &&& array_type(array) == arrow_type(self.kind())
        &&& match self {
            ResultColumn::Str(cells) => utf8_values(array) == Some(texts(cells@)),
            ResultColumn::Bool(cells) => {
                &&& boolean_values(array) == Some(filled(cells@))
                &&& array_null_count(array) == 0
            },
        }
    }

    /// A column without answers yet.
    pub fn new(kind: ColumnType) -> (column: ResultColumn)
        ensures
            column.kind() == kind,
            column.cells() == Seq::<Cell>::empty(),
    {
        match kind {
            ColumnType::Utf8 => {
                let column = ResultColumn::Str(Vec::new());
                assert(column.cells() =~= Seq::<Cell>::empty());
                column
            },
            ColumnType::Boolean => {
                let column = ResultColumn::Bool(Vec::new());
                assert(column.cells() =~= Seq::<Cell>::empty());
                column
            },
        }
    }

    /// Appends an answer of the column's kind.
    pub fn push(&mut self, answer: Answer)
        requires
            old(self).kind() == (match answer {
                Answer::Str(_) => ColumnType::Utf8,
                Answer::Bool(_) => ColumnType::Boolean,
            }),
        ensures
            final(self).kind() == old(self).kind(),
            final(self).cells() == old(self).cells().push(answer@),
    {
        let ghost before = *self;
        match answer {
            Answer::Str(text) => if let ResultColumn::Str(cells) = self {
                cells.push(text);
            },
            Answer::Bool(value) => if let ResultColumn::Bool(cells) = self {
                cells.push(value);
            },
        }
        assert(self.cells() =~= before.cells().push(answer@));
    }

    /// Whether the strings are few enough for the 32-bit offsets of a string array.
    pub fn check_fits(&self) -> (fits: bool)
        ensures
            fits == self.fits(),
    {
        match self {
            ResultColumn::Bool(_) => true,
            ResultColumn::Str(cells) => {
                let limit: u64 = 0x7fff_ffff;
                let mut total: u64 = 0;
                for i in 0..cells.len()
                    invariant
                        *self == ResultColumn::Str(*cells),
                        total <= limit,
                        limit == i32::MAX,
                        total == utf8_bytes(texts(cells@).take(i as int)),
                {
                    let ghost now = texts(cells@).take(i + 1);
                    assert(now.drop_last() =~= texts(cells@).take(i as int));
                    assert(now.last() == text_of(cells@[i as int]));
                    if let Some(text) = &cells[i] {
                        let size: u64 = text.as_str().as_bytes().len() as u64;
                        assert(size == encode_utf8(text@).len());
                        if size > limit - total {
                            proof {
                                lemma_bytes_prefix(texts(cells@), i + 1);
                            }
                            return false;
                        }
                        total = total + size;
                    }
                }
                assert(texts(cells@).take(cells@.len() as int) =~= texts(cells@));
                true
            },
        }
    }

    /// Builds the array of the answers.
    pub fn finish(&self) -> (array: ColumnarValue)
        requires
            self.fits(),
        ensures
            self.is_held_by(array),
    {
        match self {
            ResultColumn::Str(cells) => {
                let mut builder = Utf8Builder::new();
                assert(texts(cells@).take(0) =~= Seq::empty());
                for i in 0..cells.len()
                    invariant
                        utf8_bytes(texts(cells@)) <= i32::MAX,
                        utf8_pending(builder) == texts(cells@).take(i as int),
                {
                    let ghost now = texts(cells@).take(i + 1);
                    proof {
                        lemma_bytes_prefix(texts(cells@), i + 1);
                        assert(now =~= texts(cells@).take(i as int).push(text_of(cells@[i as int])));
                    }
                    match &cells[i] {
                        Some(text) => builder.append_value(text.as_str()),
                        None => builder.append_null(),
                    }
                }
                assert(texts(cells@).take(cells@.len() as int) =~= texts(cells@));
                builder.finish()
            },
            ResultColumn::Bool(cells) => {
                let mut builder = boolean_builder();
                assert(filled(cells@).take(0) =~= Seq::empty());
                for i in 0..cells.len()
                    invariant
                        boolean_pending(builder) == filled(cells@).take(i as int),
                {
                    assert(filled(cells@).take(i + 1) =~= filled(cells@).take(i as int).push(
                        Some(cells@[i as int]),
                    ));
                    append_boolean(&mut builder, cells[i]);
                }
                assert(filled(cells@).take(cells@.len() as int) =~= filled(cells@));
                finish_booleans(&mut builder)
            },
        }
    }
}

/// A prefix takes no more bytes than the whole.
proof fn lemma_bytes_prefix(cells: Seq<Option<Seq<char>>>, count: int)
    requires
        0 <= count <= cells.len(),
    ensures
        utf8_bytes(cells.take(count)) <= utf8_bytes(cells),
    decreases cells.len(),
{
    if count == cells.len() {
        assert(cells.take(count) =~= cells);
    } else {
        lemma_bytes_prefix(cells.drop_last(), count);
        assert(cells.drop_last().take(count) =~= cells.take(count));
    }
}

} // verus!
