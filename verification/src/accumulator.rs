use vstd::prelude::*;
use arrow::datatypes::Schema;
use arrow::error::ArrowError;
use crate::columns::arrow_error_text;
use crate::columns::assemble_batch;
use crate::columns::batch_layout;
use crate::columns::log_batch_rows;
use crate::columns::cell_cost;
use crate::columns::column_cost;
use crate::columns::nested_bytes;
use crate::columns::nested_items;
use crate::columns::rows_fit;
use crate::columns::timestamp_column_new;
use crate::columns::timestamp_column_push;
use crate::columns::timestamp_column_values;
use crate::columns::utf8_column_new;
use crate::columns::utf8_column_push;
use crate::columns::utf8_column_values;
use crate::columns::utf8_list_column_new;
use crate::columns::utf8_list_column_push;
use crate::columns::utf8_list_column_values;
use crate::columns::ColumnSet;
use crate::columns::LogBatch;
use crate::columns::COLUMN_CAPACITY;
use crate::message::message_text;
use crate::message::message_text_of;
use crate::record::list_bytes;
use crate::record::text_bytes;
use crate::record::texts_of;
use crate::record::CommitRecord;
use crate::record::Row;
use crate::schema::commit_log_fields;
use crate::schema::schema_fields;

verus! {

/// Why no stream was produced.
#[derive(Clone, Debug, PartialEq, Eq)]
pub enum StreamError {
    /// The rows together take more than a column can hold.
    CapacityExceeded,
    /// The columnar encoder refused the data; the text is its message.
    Encoding(String),
}

/// The row that a commit becomes.
pub open spec fn row_of(record: CommitRecord, trim_message: bool) -> Row {
    (
        record.id@,
        message_text_of(record.message@, trim_message),
        record.author.cells(),
        record.committer.cells(),
        texts_of(record.parents@),
    )
}

/// The number of bytes of a text.
pub fn byte_len(text: &str) -> (n: usize)
    ensures
        n == text_bytes(text@),
{
    text.as_bytes().len()
}

/// The parent list of a row has one hash for each parent of the commit, in
/// the commit's order; a commit without parents gives an empty list.
pub proof fn row_keeps_parents(record: CommitRecord, trim_message: bool)
    ensures
        row_of(record, trim_message).4.len() == record.parents@.len(),
        forall|i: int|
            0 <= i < record.parents@.len() ==> #[trigger] row_of(record, trim_message).4[i]
                == record.parents@[i]@,
{
}

/// `total + extra`, where that stays within the capacity of a column.
pub fn add_within(total: usize, extra: usize) -> (sum: Option<usize>)
    ensures
        sum is Some <==> total + extra <= COLUMN_CAPACITY,
        sum matches Some(s) ==> s == total + extra,
{
    if total <= COLUMN_CAPACITY && extra <= COLUMN_CAPACITY - total {
        Some(total + extra)
    } else {
        None
    }
}

/// `total` and the bytes of a list of texts, where that stays within the
/// capacity of a column.
pub fn add_list_within(total: usize, items: &Vec<String>) -> (sum: Option<usize>)
    ensures
        sum is Some <==> total + list_bytes(texts_of(items@)) <= COLUMN_CAPACITY,
        sum matches Some(s) ==> s == total + list_bytes(texts_of(items@)),
{
    let mut acc: usize = total;
    let mut i: usize = 0;
    assert(texts_of(items@).take(0) =~= Seq::<Seq<char>>::empty());
    while i < items.len()
        invariant
            i <= items.len(),
            acc == total + list_bytes(texts_of(items@).take(i as int)),
            acc <= COLUMN_CAPACITY || i == 0,
        decreases items.len() - i,
    {
        proof {
            let upto = texts_of(items@).take(i + 1);
            assert(upto.drop_last() =~= texts_of(items@).take(i as int));
            assert(upto.last() == items@[i as int]@);
            lemma_list_bytes_prefix(texts_of(items@), i + 1);
        }
        match add_within(acc, byte_len(items[i].as_str())) {
            Some(s) => {
                acc = s;
            },
            None => {
                return None;
            },
        }
        i = i + 1;
    }
    assert(texts_of(items@).take(i as int) =~= texts_of(items@));
    if acc <= COLUMN_CAPACITY {
        Some(acc)
    } else {
        None
    }
}

/// The first `n` texts of a list take no more bytes than the whole list.
pub proof fn lemma_list_bytes_prefix(texts: Seq<Seq<char>>, n: int)
    requires
        0 <= n <= texts.len(),
    ensures
        list_bytes(texts.take(n)) <= list_bytes(texts),
    decreases texts.len(),
{
    if n == texts.len() {
        assert(texts.take(n) =~= texts);
    } else {
        lemma_list_bytes_prefix(texts.drop_last(), n);
        assert(texts.drop_last().take(n) =~= texts.take(n));
    }
}

/// How much of each of the eight offsets is taken.
#[derive(Clone, Copy, Debug)]
pub struct Usage {
    pub commit_hash: usize,
    pub message: usize,
    pub author_name: usize,
    pub author_email: usize,
    pub committer_name: usize,
    pub committer_email: usize,
    pub parent_bytes: usize,
    pub parent_items: usize,
}

impl Usage {
    /// The counters are what the rows cost.
    pub open spec fn counts(self, rows: Seq<Row>) -> bool {
        &&& self.commit_hash == column_cost(rows, 0)
        &&& self.message == column_cost(rows, 1)
        &&& self.author_name == column_cost(rows, 2)
        &&& self.author_email == column_cost(rows, 3)
        &&& self.committer_name == column_cost(rows, 4)
        &&& self.committer_email == column_cost(rows, 5)
        &&& self.parent_bytes == column_cost(rows, 6)
        &&& self.parent_items == column_cost(rows, 7)
    }

    /// The counters are what the columns hold.
    pub open spec fn measures(self, c: ColumnSet) -> bool {
        &&& self.commit_hash == list_bytes(utf8_column_values(c.commit_hash))
        &&& self.message == list_bytes(utf8_column_values(c.message))
        &&& self.author_name == list_bytes(utf8_column_values(c.author_name))
        &&& self.author_email == list_bytes(utf8_column_values(c.author_email))
        &&& self.committer_name == list_bytes(utf8_column_values(c.committer_name))
        &&& self.committer_email == list_bytes(utf8_column_values(c.committer_email))
        &&& self.parent_bytes == nested_bytes(utf8_list_column_values(c.parent_hashes))
        &&& self.parent_items == nested_items(utf8_list_column_values(c.parent_hashes))
    }

    /// No counter is past the capacity.
    pub open spec fn within(self) -> bool {
        &&& self.commit_hash <= COLUMN_CAPACITY
        &&& self.message <= COLUMN_CAPACITY
        &&& self.author_name <= COLUMN_CAPACITY
        &&& self.author_email <= COLUMN_CAPACITY
        &&& self.committer_name <= COLUMN_CAPACITY
        &&& self.committer_email <= COLUMN_CAPACITY
        &&& self.parent_bytes <= COLUMN_CAPACITY
        &&& self.parent_items <= COLUMN_CAPACITY
    }

    /// One more row leaves every counter within the capacity.
    pub open spec fn room_for(self, row: Row) -> bool {
        &&& self.commit_hash + cell_cost(row, 0) <= COLUMN_CAPACITY
        &&& self.message + cell_cost(row, 1) <= COLUMN_CAPACITY
        &&& self.author_name + cell_cost(row, 2) <= COLUMN_CAPACITY
        &&& self.author_email + cell_cost(row, 3) <= COLUMN_CAPACITY
        &&& self.committer_name + cell_cost(row, 4) <= COLUMN_CAPACITY
        &&& self.committer_email + cell_cost(row, 5) <= COLUMN_CAPACITY
        &&& self.parent_bytes + cell_cost(row, 6) <= COLUMN_CAPACITY
        &&& self.parent_items + cell_cost(row, 7) <= COLUMN_CAPACITY
    }

    /// `after` is these counters with the cost of one more row.
    pub open spec fn grown_by(self, row: Row, after: Usage) -> bool {
        &&& after.commit_hash == self.commit_hash + cell_cost(row, 0)
        &&& after.message == self.message + cell_cost(row, 1)
        &&& after.author_name == self.author_name + cell_cost(row, 2)
        &&& after.author_email == self.author_email + cell_cost(row, 3)
        &&& after.committer_name == self.committer_name + cell_cost(row, 4)
        &&& after.committer_email == self.committer_email + cell_cost(row, 5)
        &&& after.parent_bytes == self.parent_bytes + cell_cost(row, 6)
        &&& after.parent_items == self.parent_items + cell_cost(row, 7)
    }

    /// The counters with one more commit, where each stays within the
    /// capacity of its column; `text` is the commit's message as it is written.
    pub fn with_row(&self, record: &CommitRecord, text: &String) -> (sum: Option<Usage>)
        ensures
            sum is Some <==> self.room_for(
                (record.id@, text@, record.author.cells(), record.committer.cells(), texts_of(
                    record.parents@,
                )),
            ),
            sum matches Some(after) ==> self.grown_by(
                (record.id@, text@, record.author.cells(), record.committer.cells(), texts_of(
                    record.parents@,
                )),
                after,
            ),
    {
        let commit_hash = add_within(self.commit_hash, byte_len(record.id.as_str()));
        let message = add_within(self.message, byte_len(text.as_str()));
        let author_name = add_within(self.author_name, byte_len(record.author.name.as_str()));
        let author_email = add_within(self.author_email, byte_len(record.author.email.as_str()));
        let committer_name = add_within(
            self.committer_name,
            byte_len(record.committer.name.as_str()),
        );
        let committer_email = add_within(
            self.committer_email,
            byte_len(record.committer.email.as_str()),
        );
        let parent_bytes = add_list_within(self.parent_bytes, &record.parents);
        let parent_items = add_within(self.parent_items, record.parents.len());
        match (commit_hash, message, author_name, author_email) {
            (Some(commit_hash), Some(message), Some(author_name), Some(author_email)) => {
                match (committer_name, committer_email, parent_bytes, parent_items) {
                    (
                        Some(committer_name),
                        Some(committer_email),
                        Some(parent_bytes),
                        Some(parent_items),
                    ) => Some(
                        Usage {
                            commit_hash,
                            message,
                            author_name,
                            author_email,
                            committer_name,
                            committer_email,
                            parent_bytes,
                            parent_items,
                        },
                    ),
                    _ => None,
                }
            },
            _ => None,
        }
    }
}

/// `after` is `before` with one cell of `row` appended to each column.
pub open spec fn appended(before: ColumnSet, after: ColumnSet, row: Row) -> bool {
    &&& utf8_column_values(after.commit_hash) == utf8_column_values(before.commit_hash).push(
        row.0,
    )
    &&& utf8_column_values(after.message) == utf8_column_values(before.message).push(row.1)
    &&& utf8_column_values(after.author_name) == utf8_column_values(before.author_name).push(
        row.2.0,
    )
    &&& utf8_column_values(after.author_email) == utf8_column_values(before.author_email).push(
        row.2.1,
    )
    &&& timestamp_column_values(after.author_timestamp) == timestamp_column_values(
        before.author_timestamp,
    ).push(row.2.2)
    &&& utf8_column_values(after.committer_name) == utf8_column_values(
        before.committer_name,
    ).push(row.3.0)
    &&& utf8_column_values(after.committer_email) == utf8_column_values(
        before.committer_email,
    ).push(row.3.1)
    &&& timestamp_column_values(after.committer_timestamp) == timestamp_column_values(
        before.committer_timestamp,
    ).push(row.3.2)
    &&& utf8_list_column_values(after.parent_hashes) == utf8_list_column_values(
        before.parent_hashes,
    ).push(row.4)
}

/// Appending one cell to each of nine aligned columns appends one row.
pub proof fn lemma_appended_rows(before: ColumnSet, after: ColumnSet, row: Row)
    requires
        before.aligned(),
        appended(before, after, row),
    ensures
        after.aligned(),
        after.rows() == before.rows().push(row),
{
    assert(after.rows() =~= before.rows().push(row));
}

/// One more row adds its cost to each of the eight offsets.
pub proof fn lemma_pushed_cost(rows: Seq<Row>, row: Row, offset: int)
    ensures
        column_cost(rows.push(row), offset) == column_cost(rows, offset) + cell_cost(row, offset),
{
    assert(rows.push(row).drop_last() =~= rows);
}

/// With one more row, counters that grew by the row's cost still count the rows.
pub proof fn lemma_counts_grow(rows: Seq<Row>, row: Row, used: Usage, after: Usage)
    requires
        used.counts(rows),
        used.grown_by(row, after),
    ensures
        after.counts(rows.push(row)),
{
    lemma_pushed_cost(rows, row, 0);
    lemma_pushed_cost(rows, row, 1);
    lemma_pushed_cost(rows, row, 2);
    lemma_pushed_cost(rows, row, 3);
    lemma_pushed_cost(rows, row, 4);
    lemma_pushed_cost(rows, row, 5);
    lemma_pushed_cost(rows, row, 6);
    lemma_pushed_cost(rows, row, 7);
}

/// Counters that count the rows have room for one more row exactly where the
/// rows with that row fit.
pub proof fn lemma_room_is_fit(rows: Seq<Row>, row: Row, used: Usage)
    requires
        used.counts(rows),
    ensures
        used.room_for(row) <==> rows_fit(rows.push(row)),
{
    lemma_pushed_cost(rows, row, 0);
    lemma_pushed_cost(rows, row, 1);
    lemma_pushed_cost(rows, row, 2);
    lemma_pushed_cost(rows, row, 3);
    lemma_pushed_cost(rows, row, 4);
    lemma_pushed_cost(rows, row, 5);
    lemma_pushed_cost(rows, row, 6);
    lemma_pushed_cost(rows, row, 7);
}

/// With one more cell in each column, counters that grew by the row's cost
/// still measure the columns.
pub proof fn lemma_measures_grow(
    before: ColumnSet,
    after: ColumnSet,
    row: Row,
    used: Usage,
    grown: Usage,
)
    requires
        used.measures(before),
        appended(before, after, row),
        used.grown_by(row, grown),
    ensures
        grown.measures(after),
{
    lemma_pushed_bytes(utf8_column_values(before.commit_hash), row.0);
    lemma_pushed_bytes(utf8_column_values(before.message), row.1);
    lemma_pushed_bytes(utf8_column_values(before.author_name), row.2.0);
    lemma_pushed_bytes(utf8_column_values(before.author_email), row.2.1);
    lemma_pushed_bytes(utf8_column_values(before.committer_name), row.3.0);
    lemma_pushed_bytes(utf8_column_values(before.committer_email), row.3.1);
    let lists = utf8_list_column_values(before.parent_hashes);
    assert(lists.push(row.4).drop_last() =~= lists);
}

/// Nine columns that grow together, one row at a time.
pub struct ColumnAccumulator {
    columns: ColumnSet,
    used: Usage,
}

impl View for ColumnAccumulator {
    type V = Seq<Row>;

    /// The rows appended so far, oldest first.
    closed spec fn view(&self) -> Seq<Row> {
        self.columns.rows()
    }
}

impl ColumnAccumulator {
    /// The columns have one length, and what they hold is counted and within
    /// the capacity.
    pub closed spec fn wf(&self) -> bool {
        &&& self.columns.aligned()
        &&& self.used.counts(self.columns.rows())
        &&& self.used.measures(self.columns)
        &&& self.used.within()
    }

    /// The nine columns.
    pub closed spec fn column_set(&self) -> ColumnSet {
        self.columns
    }

    /// In a well-formed accumulator the nine columns have one length, the
    /// number of rows, and the rows are the columns read across. With no row
    /// every column has length 0.
    pub proof fn columns_have_equal_length(&self)
        requires
            self.wf(),
        ensures
            self.column_set().aligned(),
            self.column_set().height() == self@.len(),
            self@ == self.column_set().rows(),
    {
    }

    /// The rows of a well-formed accumulator fit into the columns.
    pub proof fn rows_fit_columns(&self)
        requires
            self.wf(),
        ensures
            rows_fit(self@),
    {
    }

    /// An accumulator without rows.
    pub fn new() -> (acc: ColumnAccumulator)
        ensures
            acc.wf(),
            acc@ == Seq::<Row>::empty(),
    {
        let columns = ColumnSet {
            commit_hash: utf8_column_new(),
            message: utf8_column_new(),
            author_name: utf8_column_new(),
            author_email: utf8_column_new(),
            author_timestamp: timestamp_column_new(),
            committer_name: utf8_column_new(),
            committer_email: utf8_column_new(),
            committer_timestamp: timestamp_column_new(),
            parent_hashes: utf8_list_column_new(),
        };
        assert(columns.rows() =~= Seq::<Row>::empty());
        let used = Usage {
            commit_hash: 0,
            message: 0,
            author_name: 0,
            author_email: 0,
            committer_name: 0,
            committer_email: 0,
            parent_bytes: 0,
            parent_items: 0,
        };
        ColumnAccumulator { columns, used }
    }

    /// Appends the row of one commit to every column. The row is refused, and
    /// nothing changes, exactly where the rows with it would not fit.
    pub fn append_row(&mut self, record: &CommitRecord, trim_message: bool) -> (outcome: Result<
        (),
        StreamError,
    >)
        requires
            old(self).wf(),
        ensures
            final(self).wf(),
            outcome is Ok <==> rows_fit(old(self)@.push(row_of(*record, trim_message))),
            outcome is Ok ==> final(self)@ == old(self)@.push(row_of(*record, trim_message)),
            outcome is Err ==> outcome == Err::<(), StreamError>(StreamError::CapacityExceeded)
                && final(self)@ == old(self)@,
    {
        let text = message_text(&record.message, trim_message);
        let ghost row = row_of(*record, trim_message);
        let ghost before = self.columns;
        proof {
            lemma_room_is_fit(before.rows(), row, self.used);
        }
        match self.used.with_row(record, &text) {
            None => Err(StreamError::CapacityExceeded),
            Some(grown) => {
                utf8_column_push(&mut self.columns.commit_hash, record.id.as_str());
                utf8_column_push(&mut self.columns.message, text.as_str());
                utf8_column_push(&mut self.columns.author_name, record.author.name.as_str());
                utf8_column_push(&mut self.columns.author_email, record.author.email.as_str());
                timestamp_column_push(&mut self.columns.author_timestamp, record.author.seconds);
                utf8_column_push(&mut self.columns.committer_name, record.committer.name.as_str());
                utf8_column_push(
                    &mut self.columns.committer_email,
                    record.committer.email.as_str(),
                );
                timestamp_column_push(
                    &mut self.columns.committer_timestamp,
                    record.committer.seconds,
                );
                utf8_list_column_push(&mut self.columns.parent_hashes, &record.parents);
                proof {
                    lemma_appended_rows(before, self.columns, row);
                    lemma_counts_grow(before.rows(), row, self.used, grown);
                    lemma_measures_grow(before, self.columns, row, self.used, grown);
                }
                self.used = grown;
                Ok(())
            },
        }
    }

    /// Closes the columns and makes one batch of them, the columns in the
    /// order of the schema's fields. With the schema of the commit log a batch
    /// always comes back; it holds the rows of the accumulator, in their order.
    pub fn finish(self, schema: &Schema) -> (outcome: Result<LogBatch, StreamError>)
        requires
            self.wf(),
        ensures
            schema_fields(*schema) == Some(commit_log_fields()) ==> outcome is Ok,
            outcome matches Ok(batch) ==> log_batch_rows(batch) == self@,
            outcome matches Err(e) ==> e is Encoding,
    {
        proof {
            commit_log_fields_fit_layout();
        }
        let c = self.columns;
        encoder_outcome(
            assemble_batch(
                schema,
                c.commit_hash,
                c.message,
                c.author_name,
                c.author_email,
                c.author_timestamp,
                c.committer_name,
                c.committer_email,
                c.committer_timestamp,
                c.parent_hashes,
            ),
        )
    }
}

/// The nine fields of the commit log have the kinds of the nine columns, in
/// their order.
pub proof fn commit_log_fields_fit_layout()
    ensures
        batch_layout(commit_log_fields()),
{
}

/// A list of texts with one more text takes the bytes of both.
pub proof fn lemma_pushed_bytes(texts: Seq<Seq<char>>, text: Seq<char>)
    ensures
        list_bytes(texts.push(text)) == list_bytes(texts) + text_bytes(text),
{
    assert(texts.push(text).drop_last() =~= texts);
}

/// What the encoder's answer becomes: its value is handed on, its error is
/// kept as text.
pub fn encoder_outcome<T>(answer: Result<T, ArrowError>) -> (outcome: Result<T, StreamError>)
    ensures
        answer matches Ok(value) ==> outcome == Ok::<T, StreamError>(value),
        answer is Err ==> (outcome matches Err(e) && e is Encoding),
        outcome is Ok <==> answer is Ok,
{
    match answer {
        Ok(value) => Ok(value),
        Err(error) => Err(StreamError::Encoding(arrow_error_text(&error))),
    }
}

} // verus!
