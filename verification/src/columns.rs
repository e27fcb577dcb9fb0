use vstd::prelude::*;
use arrow::array::ArrayRef;
use arrow::array::ListBuilder;
use arrow::array::StringBuilder;
use arrow::array::TimestampSecondBuilder;
use arrow::datatypes::Schema;
use arrow::error::ArrowError;
use arrow::record_batch::RecordBatch;
use std::sync::Arc;
use crate::record::list_bytes;
use crate::record::text_bytes;
use crate::record::texts_of;
use crate::record::Row;
use crate::schema::schema_fields;
use crate::schema::ColumnKind;
use crate::schema::FieldShape;

verus! {

/// The largest offset that a column of texts can hold: the sum of the bytes of
/// its values, and for a list column also the number of its items.
pub const COLUMN_CAPACITY: usize = 0x7fff_ffff;

/// A finished table of rows: arrow's `RecordBatch`.
#[verifier::external_body]
pub struct LogBatch {
    pub(crate) inner: RecordBatch,
}

/// arrow's `ArrowError`, carried through as it comes.
#[verifier::external_type_specification]
#[verifier::external_body]
pub struct ExArrowError(ArrowError);

/// A growable column of texts: arrow's `StringBuilder`.
#[verifier::external_body]
pub struct Utf8Column {
    pub(crate) inner: StringBuilder,
}

/// A growable column of timestamps in seconds: arrow's `TimestampSecondBuilder`.
#[verifier::external_body]
pub struct TimestampColumn {
    pub(crate) inner: TimestampSecondBuilder,
}

/// A growable column of lists of texts: arrow's `ListBuilder` over a `StringBuilder`.
#[verifier::external_body]
pub struct Utf8ListColumn {
    pub(crate) inner: ListBuilder<StringBuilder>,
}

/// The values that were appended to a column of texts, oldest first.
pub uninterp spec fn utf8_column_values(column: Utf8Column) -> Seq<Seq<char>>;

/// The values that were appended to a column of timestamps, oldest first.
pub uninterp spec fn timestamp_column_values(column: TimestampColumn) -> Seq<i64>;

/// The lists that were appended to a column of lists, oldest first.
pub uninterp spec fn utf8_list_column_values(column: Utf8ListColumn) -> Seq<Seq<Seq<char>>>;

/// The rows that a record batch holds, first row first: its nine columns read
/// across, none of them with a null.
pub uninterp spec fn log_batch_rows(batch: LogBatch) -> Seq<Row>;

/// The number of items in all lists of a list column together.
pub open spec fn nested_items(lists: Seq<Seq<Seq<char>>>) -> nat
    decreases lists.len(),
{
    if lists.len() == 0 {
        0
    } else {
        nested_items(lists.drop_last()) + lists.last().len()
    }
}

/// The number of bytes of all items in all lists of a list column together.
pub open spec fn nested_bytes(lists: Seq<Seq<Seq<char>>>) -> nat
    decreases lists.len(),
{
    if lists.len() == 0 {
        0
    } else {
        nested_bytes(lists.drop_last()) + list_bytes(lists.last())
    }
}

/// What a row adds to one of the eight offsets that can run out: the bytes of
/// its hash (0), message (1), author name (2) and e-mail (3), committer name
/// (4) and e-mail (5), the bytes of its parent hashes (6), and their number (7).
pub open spec fn cell_cost(row: Row, offset: int) -> nat {
    if offset == 0 {
        text_bytes(row.0)
    } else if offset == 1 {
        text_bytes(row.1)
    } else if offset == 2 {
        text_bytes(row.2.0)
    } else if offset == 3 {
        text_bytes(row.2.1)
    } else if offset == 4 {
        text_bytes(row.3.0)
    } else if offset == 5 {
        text_bytes(row.3.1)
    } else if offset == 6 {
        list_bytes(row.4)
    } else {
        row.4.len()
    }
}

/// What all rows together add to one of the eight offsets.
pub open spec fn column_cost(rows: Seq<Row>, offset: int) -> nat
    decreases rows.len(),
{
    if rows.len() == 0 {
        0
    } else {
        column_cost(rows.drop_last(), offset) + cell_cost(rows.last(), offset)
    }
}

/// Where no row adds more than `most` to an offset, all rows together add at
/// most `most` for each row.
pub proof fn column_cost_bound(rows: Seq<Row>, offset: int, most: nat)
    requires
        forall|i: int| 0 <= i < rows.len() ==> cell_cost(#[trigger] rows[i], offset) <= most,
    ensures
        column_cost(rows, offset) <= rows.len() * most,
    decreases rows.len(),
{
    if rows.len() > 0 {
        let shorter = rows.drop_last();
        assert forall|i: int| 0 <= i < shorter.len() implies cell_cost(
            #[trigger] shorter[i],
            offset,
        ) <= most by {
            assert(shorter[i] == rows[i]);
        }
        column_cost_bound(shorter, offset, most);
        assert(shorter.len() * most + most == rows.len() * most) by (nonlinear_arith)
            requires
                shorter.len() + 1 == rows.len(),
        ;
    }
}

/// The rows fit into the columns: none of the eight offsets passes the
/// capacity.
pub open spec fn rows_fit(rows: Seq<Row>) -> bool {
    &&& column_cost(rows, 0) <= COLUMN_CAPACITY
    &&& column_cost(rows, 1) <= COLUMN_CAPACITY
    &&& column_cost(rows, 2) <= COLUMN_CAPACITY
    &&& column_cost(rows, 3) <= COLUMN_CAPACITY
    &&& column_cost(rows, 4) <= COLUMN_CAPACITY
    &&& column_cost(rows, 5) <= COLUMN_CAPACITY
    &&& column_cost(rows, 6) <= COLUMN_CAPACITY
    &&& column_cost(rows, 7) <= COLUMN_CAPACITY
}

/// Row `i` of nine columns of equal length, read across.
pub open spec fn row_at(
    hashes: Seq<Seq<char>>,
    messages: Seq<Seq<char>>,
    author_names: Seq<Seq<char>>,
    author_emails: Seq<Seq<char>>,
    author_times: Seq<i64>,
    committer_names: Seq<Seq<char>>,
    committer_emails: Seq<Seq<char>>,
    committer_times: Seq<i64>,
    parents: Seq<Seq<Seq<char>>>,
    i: int,
) -> Row {
    (
        hashes[i],
        messages[i],
        (author_names[i], author_emails[i], author_times[i]),
        (committer_names[i], committer_emails[i], committer_times[i]),
        parents[i],
    )
}

/// Nine columns have one length.
pub open spec fn same_length(
    first: Seq<Seq<char>>,
    second: Seq<Seq<char>>,
    third: Seq<Seq<char>>,
    fourth: Seq<Seq<char>>,
    fifth: Seq<i64>,
    sixth: Seq<Seq<char>>,
    seventh: Seq<Seq<char>>,
    eighth: Seq<i64>,
    ninth: Seq<Seq<Seq<char>>>,
) -> bool {
    &&& second.len() == first.len()
    &&& third.len() == first.len()
    &&& fourth.len() == first.len()
    &&& fifth.len() == first.len()
    &&& sixth.len() == first.len()
    &&& seventh.len() == first.len()
    &&& eighth.len() == first.len()
    &&& ninth.len() == first.len()
}

/// Nine columns read across, row by row.
pub open spec fn rows_across(
    first: Seq<Seq<char>>,
    second: Seq<Seq<char>>,
    third: Seq<Seq<char>>,
    fourth: Seq<Seq<char>>,
    fifth: Seq<i64>,
    sixth: Seq<Seq<char>>,
    seventh: Seq<Seq<char>>,
    eighth: Seq<i64>,
    ninth: Seq<Seq<Seq<char>>>,
) -> Seq<Row> {
    Seq::new(
        first.len(),
        |i: int| row_at(first, second, third, fourth, fifth, sixth, seventh, eighth, ninth, i),
    )
}

/// The fields are nine, and their kinds are those of four columns of texts,
/// one of timestamps, two of texts, one of timestamps and one of lists of
/// texts with nullable items, in this order.
pub open spec fn batch_layout(fields: Seq<FieldShape>) -> bool {
    &&& fields.len() == 9
    &&& fields[0].1 == ColumnKind::Utf8
    &&& fields[1].1 == ColumnKind::Utf8
    &&& fields[2].1 == ColumnKind::Utf8
    &&& fields[3].1 == ColumnKind::Utf8
    &&& fields[4].1 == ColumnKind::TimestampSecond
    &&& fields[5].1 == ColumnKind::Utf8
    &&& fields[6].1 == ColumnKind::Utf8
    &&& fields[7].1 == ColumnKind::TimestampSecond
    &&& fields[8].1 == (ColumnKind::Utf8List { item_nullable: true })
}

/// The nine columns of a commit log, one builder for each field of the schema.
pub struct ColumnSet {
    pub commit_hash: Utf8Column,
    pub message: Utf8Column,
    pub author_name: Utf8Column,
    pub author_email: Utf8Column,
    pub author_timestamp: TimestampColumn,
    pub committer_name: Utf8Column,
    pub committer_email: Utf8Column,
    pub committer_timestamp: TimestampColumn,
    pub parent_hashes: Utf8ListColumn,
}

impl ColumnSet {
    /// The number of values in the first column.
    pub open spec fn height(&self) -> nat {
        utf8_column_values(self.commit_hash).len()
    }

    /// All nine columns have the same length.
    pub open spec fn aligned(&self) -> bool {
        same_length(
            utf8_column_values(self.commit_hash),
            utf8_column_values(self.message),
            utf8_column_values(self.author_name),
            utf8_column_values(self.author_email),
            timestamp_column_values(self.author_timestamp),
            utf8_column_values(self.committer_name),
            utf8_column_values(self.committer_email),
            timestamp_column_values(self.committer_timestamp),
            utf8_list_column_values(self.parent_hashes),
        )
    }

    /// The columns read across, row by row, in the order of the schema.
    pub open spec fn rows(&self) -> Seq<Row> {
        rows_across(
            utf8_column_values(self.commit_hash),
            utf8_column_values(self.message),
            utf8_column_values(self.author_name),
            utf8_column_values(self.author_email),
            timestamp_column_values(self.author_timestamp),
            utf8_column_values(self.committer_name),
            utf8_column_values(self.committer_email),
            timestamp_column_values(self.committer_timestamp),
            utf8_list_column_values(self.parent_hashes),
        )
    }
}

/// `StringBuilder::new`: the builder it returns holds no value.
#[verifier::external_body]
pub(crate) fn utf8_column_new() -> (column: Utf8Column)
    ensures
        utf8_column_values(column) == Seq::<Seq<char>>::empty(),
{
    Utf8Column { inner: StringBuilder::new() }
}

/// `StringBuilder::append_value`: the value is added behind those that the
/// builder holds. The call panics where the bytes of all values together pass
/// the largest 32-bit offset, so those inputs are left out.
#[verifier::external_body]
pub(crate) fn utf8_column_push(column: &mut Utf8Column, value: &str)
    requires
        list_bytes(utf8_column_values(*old(column))) + text_bytes(value@) <= COLUMN_CAPACITY,
    ensures
        utf8_column_values(*final(column)) == utf8_column_values(*old(column)).push(value@),
{
    column.inner.append_value(value);
}

/// `TimestampSecondBuilder::new`: the builder it returns holds no value.
#[verifier::external_body]
pub(crate) fn timestamp_column_new() -> (column: TimestampColumn)
    ensures
        timestamp_column_values(column) == Seq::<i64>::empty(),
{
    TimestampColumn { inner: TimestampSecondBuilder::new() }
}

/// `TimestampSecondBuilder::append_value`: the value is added behind those that
/// the builder holds.
#[verifier::external_body]
pub(crate) fn timestamp_column_push(column: &mut TimestampColumn, seconds: i64)
    ensures
        timestamp_column_values(*final(column)) == timestamp_column_values(*old(column)).push(
            seconds,
        ),
{
    column.inner.append_value(seconds);
}

/// `ListBuilder::new` over `StringBuilder::new`: the builder it returns holds no list.
#[verifier::external_body]
pub(crate) fn utf8_list_column_new() -> (column: Utf8ListColumn)
    ensures
        utf8_list_column_values(column) == Seq::<Seq<Seq<char>>>::empty(),
{
    Utf8ListColumn { inner: ListBuilder::new(StringBuilder::new()) }
}

/// `ListBuilder::append_value`: one list with the given items, in their order
/// and none of them null, is added behind the lists that the builder holds. The
/// call panics where the items of all lists together, or their bytes, pass the
/// largest 32-bit offset, so those inputs are left out.
#[verifier::external_body]
pub(crate) fn utf8_list_column_push(column: &mut Utf8ListColumn, items: &Vec<String>)
    requires
        nested_items(utf8_list_column_values(*old(column))) + items.len() <= COLUMN_CAPACITY,
        nested_bytes(utf8_list_column_values(*old(column))) + list_bytes(texts_of(items@))
            <= COLUMN_CAPACITY,
    ensures
        utf8_list_column_values(*final(column)) == utf8_list_column_values(*old(column)).push(
            texts_of(items@),
        ),
{
    column.inner.append_value(items.iter().map(Some));
}

/// `finish` on each of nine builders, then `RecordBatch::try_new` with the
/// arrays in the order of the parameters. A batch that comes back holds, row
/// by row, what the builders held. One comes back wherever the builders have
/// one length and the schema has nine fields of their kinds: arrow refuses
/// only a wrong number of columns, a null in a column that may hold none
/// (these builders hold no null), unequal lengths, and a type that differs
/// from the field's.
#[verifier::external_body]
pub(crate) fn assemble_batch(
    schema: &Schema,
    mut c0: Utf8Column,
    mut c1: Utf8Column,
    mut c2: Utf8Column,
    mut c3: Utf8Column,
    mut c4: TimestampColumn,
    mut c5: Utf8Column,
    mut c6: Utf8Column,
    mut c7: TimestampColumn,
    mut c8: Utf8ListColumn,
) -> (outcome: Result<LogBatch, ArrowError>)
    ensures
        outcome matches Ok(batch) ==> log_batch_rows(batch) == rows_across(
            utf8_column_values(c0),
            utf8_column_values(c1),
            utf8_column_values(c2),
            utf8_column_values(c3),
            timestamp_column_values(c4),
            utf8_column_values(c5),
            utf8_column_values(c6),
            timestamp_column_values(c7),
            utf8_list_column_values(c8),
        ),
        (schema_fields(*schema) matches Some(fields) && batch_layout(fields)) && same_length(
            utf8_column_values(c0),
            utf8_column_values(c1),
            utf8_column_values(c2),
            utf8_column_values(c3),
            timestamp_column_values(c4),
            utf8_column_values(c5),
            utf8_column_values(c6),
            timestamp_column_values(c7),
            utf8_list_column_values(c8),
        ) ==> outcome is Ok,
{
    let arrays: Vec<ArrayRef> = vec![
        Arc::new(c0.inner.finish()),
        Arc::new(c1.inner.finish()),
        Arc::new(c2.inner.finish()),
        Arc::new(c3.inner.finish()),
        Arc::new(c4.inner.finish()),
        Arc::new(c5.inner.finish()),
        Arc::new(c6.inner.finish()),
        Arc::new(c7.inner.finish()),
        Arc::new(c8.inner.finish()),
    ];
    RecordBatch::try_new(Arc::new(schema.clone()), arrays).map(|inner| LogBatch { inner })
}

/// `ArrowError`'s `to_string`: the error's message.
#[verifier::external_body]
pub(crate) fn arrow_error_text(error: &ArrowError) -> (text: String) {
    error.to_string()
}

} // verus!
