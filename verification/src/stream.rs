use vstd::prelude::*;
use arrow::datatypes::Schema;
use arrow::error::ArrowError;
use arrow::ipc::writer::StreamWriter;
use crate::accumulator::encoder_outcome;
use crate::accumulator::row_of;
use crate::accumulator::ColumnAccumulator;
use crate::accumulator::StreamError;
use crate::columns::column_cost;
use crate::columns::log_batch_rows;
use crate::columns::rows_fit;
use crate::columns::LogBatch;
use crate::filter::FilterConfig;
use crate::record::CommitRecord;
use crate::record::Row;
use crate::schema::commit_log_fields;
use crate::schema::get_arrow_schema;
use crate::schema::schema_fields;
use crate::schema::FieldShape;

verus! {

/// The bytes of the streaming container that holds a schema of the given
/// fields and nothing else (no metadata), then one batch of the given rows,
/// then the end-of-stream marker.
pub uninterp spec fn ipc_stream_bytes(fields: Seq<FieldShape>, rows: Seq<Row>) -> Seq<u8>;

/// `StreamWriter::try_new` on an empty `Vec`, `write` of one batch, then
/// `into_inner`, which writes the end-of-stream marker. For a schema that
/// holds nothing but its fields, bytes that come back are the stream of those
/// fields and of the batch's rows. For the schema of the commit log they always
/// come back: the writer fails only on a dictionary or run-end column, on
/// compression, on a closed writer and where the sink fails, and here there
/// is none of these and the sink is a `Vec`.
#[verifier::external_body]
pub(crate) fn encode_stream(schema: &Schema, batch: &LogBatch) -> (outcome: Result<
    Vec<u8>,
    ArrowError,
>)
    ensures
        outcome matches Ok(bytes) ==> (schema_fields(*schema) matches Some(fields) ==> bytes@
            == ipc_stream_bytes(fields, log_batch_rows(*batch))),
        schema_fields(*schema) == Some(commit_log_fields()) ==> outcome is Ok,
{
    let mut writer = StreamWriter::try_new(Vec::new(), schema)?;
    writer.write(&batch.inner)?;
    writer.into_inner()
}

/// The commits that pass the filters, in traversal order.
pub open spec fn accepted(commits: Seq<CommitRecord>, config: FilterConfig) -> Seq<CommitRecord> {
    commits.filter(|c: CommitRecord| config.accepts(c))
}

/// The commits that go into the output: the first `max_count` of those that
/// pass the filters, or all of them where they are fewer.
pub open spec fn kept(commits: Seq<CommitRecord>, config: FilterConfig) -> Seq<CommitRecord> {
    let passing = accepted(commits, config);
    if passing.len() <= config.max_count {
        passing
    } else {
        passing.take(config.max_count as int)
    }
}

/// The rows of the output, first row first.
pub open spec fn selected_rows(commits: Seq<CommitRecord>, config: FilterConfig) -> Seq<Row> {
    Seq::new(kept(commits, config).len(), |i: int| row_of(kept(commits, config)[i], config.trim_message))
}

/// The rows after one more commit was visited: its row is appended where the
/// commit passes the filters and the rows are fewer than `max_count`; else
/// nothing changes.
pub open spec fn rows_after(rows: Seq<Row>, config: FilterConfig, record: CommitRecord) -> Seq<
    Row,
> {
    if rows.len() < config.max_count && config.accepts(record) {
        rows.push(row_of(record, config.trim_message))
    } else {
        rows
    }
}

/// Every row of the output is the row of a commit that passes the filters:
/// its author has the wanted name, where one is set, and its author time lies
/// within the bounds that are set.
pub proof fn selected_rows_pass_filter(commits: Seq<CommitRecord>, config: FilterConfig, i: int)
    requires
        0 <= i < selected_rows(commits, config).len(),
    ensures
        selected_rows(commits, config)[i] == row_of(kept(commits, config)[i], config.trim_message),
        config.accepts(kept(commits, config)[i]),
        config.author_passes(selected_rows(commits, config)[i].2.0),
        config.time_passes(selected_rows(commits, config)[i].2.2),
{
    let pred = |c: CommitRecord| config.accepts(c);
    commits.lemma_filter_pred(pred, i);
}

/// The output never has more than `max_count` rows, and has exactly
/// `max_count` unless fewer commits pass the filters: then it has all of them.
pub proof fn row_count_is_capped(commits: Seq<CommitRecord>, config: FilterConfig)
    ensures
        selected_rows(commits, config).len() <= config.max_count,
        selected_rows(commits, config).len() <= commits.len(),
        accepted(commits, config).len() >= config.max_count ==> selected_rows(
            commits,
            config,
        ).len() == config.max_count,
        accepted(commits, config).len() < config.max_count ==> selected_rows(commits, config).len()
            == accepted(commits, config).len(),
{
    commits.lemma_filter_len(|c: CommitRecord| config.accepts(c));
}

/// The place in the traversal of the commit that passes the filters as the
/// `i`-th to do so, counted from 0.
pub open spec fn source_index(commits: Seq<CommitRecord>, config: FilterConfig, i: int) -> int
    decreases commits.len(),
{
    if commits.len() == 0 {
        0
    } else if i < accepted(commits.drop_last(), config).len() {
        source_index(commits.drop_last(), config, i)
    } else {
        commits.len() - 1
    }
}

/// The `i`-th commit that passes the filters stands at `source_index` in the
/// traversal.
pub proof fn lemma_source_index(commits: Seq<CommitRecord>, config: FilterConfig, i: int)
    requires
        0 <= i < accepted(commits, config).len(),
    ensures
        0 <= source_index(commits, config, i) < commits.len(),
        commits[source_index(commits, config, i)] == accepted(commits, config)[i],
    decreases commits.len(),
{
    reveal(Seq::filter);
    if commits.len() > 0 && i < accepted(commits.drop_last(), config).len() {
        lemma_source_index(commits.drop_last(), config, i);
    }
}

/// Of two commits that pass the filters, the earlier one stands earlier in
/// the traversal.
pub proof fn lemma_source_index_increases(
    commits: Seq<CommitRecord>,
    config: FilterConfig,
    i: int,
    j: int,
)
    requires
        0 <= i < j < accepted(commits, config).len(),
    ensures
        source_index(commits, config, i) < source_index(commits, config, j),
    decreases commits.len(),
{
    reveal(Seq::filter);
    if commits.len() > 0 {
        if j < accepted(commits.drop_last(), config).len() {
            lemma_source_index_increases(commits.drop_last(), config, i, j);
        } else {
            lemma_source_index(commits.drop_last(), config, i);
        }
    }
}

/// Rows stand in traversal order: each row is the row of a commit of the
/// traversal, and of two rows the upper one comes from the commit that was
/// visited first.
pub proof fn rows_keep_traversal_order(
    commits: Seq<CommitRecord>,
    config: FilterConfig,
    i: int,
    j: int,
)
    requires
        0 <= i < j < selected_rows(commits, config).len(),
    ensures
        0 <= source_index(commits, config, i) < source_index(commits, config, j) < commits.len(),
        selected_rows(commits, config)[i] == row_of(
            commits[source_index(commits, config, i)],
            config.trim_message,
        ),
        selected_rows(commits, config)[j] == row_of(
            commits[source_index(commits, config, j)],
            config.trim_message,
        ),
{
    lemma_source_index(commits, config, i);
    lemma_source_index(commits, config, j);
    lemma_source_index_increases(commits, config, i, j);
}

/// Rows grow at the end: visiting one more commit leaves the rows of the
/// commits before it as they are, and at most appends its own row behind
/// them.
pub proof fn rows_grow_at_the_end(
    commits: Seq<CommitRecord>,
    config: FilterConfig,
    next: CommitRecord,
)
    ensures
        selected_rows(commits.push(next), config) == rows_after(
            selected_rows(commits, config),
            config,
            next,
        ),
{
    reveal(Seq::filter);
    assert(commits.push(next).drop_last() =~= commits);
    let before = kept(commits, config);
    let after = kept(commits.push(next), config);
    if config.accepts(next) && accepted(commits, config).len() < config.max_count {
        assert(after =~= before.push(next));
    } else {
        assert(after =~= before);
    }
    assert(selected_rows(commits.push(next), config) =~= rows_after(
        selected_rows(commits, config),
        config,
        next,
    ));
}

/// With no commit visited there is no row.
pub proof fn no_commits_no_rows(config: FilterConfig)
    ensures
        selected_rows(Seq::<CommitRecord>::empty(), config) == Seq::<Row>::empty(),
{
    reveal(Seq::filter);
    assert(selected_rows(Seq::<CommitRecord>::empty(), config) =~= Seq::<Row>::empty());
}

/// The rows of the first `n` commits are the first rows of the whole output.
pub proof fn lemma_prefix_rows(commits: Seq<CommitRecord>, config: FilterConfig, n: int)
    requires
        0 <= n <= commits.len(),
    ensures
        selected_rows(commits.take(n), config).len() <= selected_rows(commits, config).len(),
        selected_rows(commits, config).take(selected_rows(commits.take(n), config).len() as int)
            == selected_rows(commits.take(n), config),
        selected_rows(commits.take(n), config).len() >= config.max_count ==> selected_rows(
            commits,
            config,
        ) == selected_rows(commits.take(n), config),
    decreases commits.len() - n,
{
    let part = selected_rows(commits.take(n), config);
    if n == commits.len() {
        assert(commits.take(n) =~= commits);
        assert(part.take(part.len() as int) =~= part);
    } else {
        rows_grow_at_the_end(commits.take(n), config, commits[n]);
        assert(commits.take(n).push(commits[n]) =~= commits.take(n + 1));
        lemma_prefix_rows(commits, config, n + 1);
        let more = selected_rows(commits.take(n + 1), config);
        let all = selected_rows(commits, config);
        assert(all.take(more.len() as int).take(part.len() as int) =~= all.take(
            part.len() as int,
        ));
        assert(more.take(part.len() as int) =~= part);
        row_count_is_capped(commits.take(n + 1), config);
    }
}

/// The first `n` rows add no more to an offset than all rows.
pub proof fn lemma_column_cost_prefix(rows: Seq<Row>, n: int, offset: int)
    requires
        0 <= n <= rows.len(),
    ensures
        column_cost(rows.take(n), offset) <= column_cost(rows, offset),
    decreases rows.len(),
{
    if n == rows.len() {
        assert(rows.take(n) =~= rows);
    } else {
        lemma_column_cost_prefix(rows.drop_last(), n, offset);
        assert(rows.drop_last().take(n) =~= rows.take(n));
    }
}

/// Where all rows fit into the columns, the first `n` of them fit too.
pub proof fn lemma_rows_fit_prefix(rows: Seq<Row>, n: int)
    requires
        0 <= n <= rows.len(),
        rows_fit(rows),
    ensures
        rows_fit(rows.take(n)),
{
    lemma_column_cost_prefix(rows, n, 0);
    lemma_column_cost_prefix(rows, n, 1);
    lemma_column_cost_prefix(rows, n, 2);
    lemma_column_cost_prefix(rows, n, 3);
    lemma_column_cost_prefix(rows, n, 4);
    lemma_column_cost_prefix(rows, n, 5);
    lemma_column_cost_prefix(rows, n, 6);
    lemma_column_cost_prefix(rows, n, 7);
}

/// What the caller of [`LogCollector::offer`] does next.
#[derive(Clone, Copy, Debug, PartialEq, Eq, Structural)]
pub enum Step {
    /// Hand over the next commit of the traversal, if there is one.
    Continue,
    /// The rows are complete: end the traversal.
    Stop,
}

/// Takes the commits of a traversal one at a time and gathers the rows of the
/// output.
pub struct LogCollector {
    config: FilterConfig,
    columns: ColumnAccumulator,
    taken: usize,
}

impl LogCollector {
    /// The rows are counted, and are no more than `max_count`.
    pub closed spec fn wf(&self) -> bool {
        &&& self.columns.wf()
        &&& self.taken == self.columns@.len()
        &&& self.taken <= self.config.max_count
    }

    /// The rows gathered so far, first row first.
    pub closed spec fn rows(&self) -> Seq<Row> {
        self.columns@
    }

    /// The configuration that the collector was made with.
    pub closed spec fn config(&self) -> FilterConfig {
        self.config
    }

    /// The step that follows when `rows` are gathered.
    pub open spec fn step_for(rows: Seq<Row>, config: FilterConfig) -> Step {
        if rows.len() < config.max_count {
            Step::Continue
        } else {
            Step::Stop
        }
    }

    /// The rows of a well-formed collector are at most `max_count`, and fit
    /// into the columns.
    pub proof fn rows_are_bounded(&self)
        requires
            self.wf(),
        ensures
            self.rows().len() <= self.config().max_count,
            rows_fit(self.rows()),
    {
        self.columns.rows_fit_columns();
    }

    /// A collector without rows.
    pub fn new(config: FilterConfig) -> (collector: LogCollector)
        ensures
            collector.wf(),
            collector.config() == config,
            collector.rows() == Seq::<Row>::empty(),
    {
        LogCollector { config, columns: ColumnAccumulator::new(), taken: 0 }
    }

    /// Whether the traversal goes on or ends here.
    pub fn next_step(&self) -> (step: Step)
        requires
            self.wf(),
        ensures
            step == Self::step_for(self.rows(), self.config()),
    {
        if self.taken < self.config.max_count {
            Step::Continue
        } else {
            Step::Stop
        }
    }

    /// Takes the next commit of the traversal. Its row is appended where the
    /// commit passes the filters and the rows are not yet `max_count`; the
    /// answer says whether the traversal goes on. The commit is refused, and
    /// nothing changes, exactly where the rows with its row would not fit into
    /// the columns.
    pub fn offer(&mut self, record: &CommitRecord) -> (outcome: Result<Step, StreamError>)
        requires
            old(self).wf(),
        ensures
            final(self).wf(),
            final(self).config() == old(self).config(),
            outcome is Err <==> !rows_fit(
                rows_after(old(self).rows(), old(self).config(), *record),
            ),
            outcome matches Ok(step) ==> final(self).rows() == rows_after(
                old(self).rows(),
                old(self).config(),
                *record,
            ) && step == Self::step_for(final(self).rows(), final(self).config()),
            outcome matches Err(e) ==> e is CapacityExceeded && final(self).rows() == old(
                self,
            ).rows(),
    {
        proof {
            self.columns.rows_fit_columns();
        }
        if self.taken < self.config.max_count && self.config.accept(record) {
            match self.columns.append_row(record, self.config.trim_message) {
                Ok(()) => {
                    self.taken = self.taken + 1;
                },
                Err(error) => {
                    return Err(error);
                },
            }
        }
        Ok(self.next_step())
    }

    /// Closes the rows and encodes them as one stream: the schema, one batch,
    /// the end-of-stream marker. The bytes always come back, and are the
    /// stream of the gathered rows.
    pub fn finish(self) -> (outcome: Result<Vec<u8>, StreamError>)
        requires
            self.wf(),
        ensures
            outcome matches Ok(bytes) && bytes@ == ipc_stream_bytes(
                commit_log_fields(),
                self.rows(),
            ),
    {
        let schema = get_arrow_schema();
        match self.columns.finish(&schema) {
            Ok(batch) => encoder_outcome(encode_stream(&schema, &batch)),
            Err(error) => Err(error),
        }
    }
}

/// Gathers the rows of a traversal that is held in memory, and ends early
/// once the rows are complete.
pub fn collect_rows(commits: &Vec<CommitRecord>, config: FilterConfig) -> (outcome: Result<
    LogCollector,
    StreamError,
>)
    ensures
        outcome is Err <==> !rows_fit(selected_rows(commits@, config)),
        outcome matches Ok(collector) ==> collector.wf() && collector.config() == config
            && collector.rows() == selected_rows(commits@, config),
        outcome matches Err(e) ==> e is CapacityExceeded,
{
    let mut collector = LogCollector::new(config);
    let mut i: usize = 0;
    let mut step = collector.next_step();
    proof {
        no_commits_no_rows(config);
        assert(commits@.take(0) =~= Seq::<CommitRecord>::empty());
    }
    while i < commits.len() && step == Step::Continue
        invariant
            i <= commits.len(),
            collector.wf(),
            collector.config() == config,
            collector.rows() == selected_rows(commits@.take(i as int), config),
            step == LogCollector::step_for(collector.rows(), config),
        decreases commits.len() - i,
    {
        proof {
            rows_grow_at_the_end(commits@.take(i as int), config, commits@[i as int]);
            assert(commits@.take(i as int).push(commits@[i as int]) =~= commits@.take(i + 1));
            lemma_prefix_rows(commits@, config, i + 1);
            let part = selected_rows(commits@.take(i + 1), config);
            if rows_fit(selected_rows(commits@, config)) {
                lemma_rows_fit_prefix(selected_rows(commits@, config), part.len() as int);
            }
        }
        match collector.offer(&commits[i]) {
            Ok(next) => {
                step = next;
            },
            Err(error) => {
                return Err(error);
            },
        }
        i = i + 1;
    }
    proof {
        lemma_prefix_rows(commits@, config, i as int);
        collector.rows_are_bounded();
        if i == commits.len() {
            assert(commits@.take(i as int) =~= commits@);
        } else {
            assert(step == Step::Stop);
            assert(collector.rows().len() >= config.max_count);
        }
        assert(collector.rows() == selected_rows(commits@, config));
    }
    Ok(collector)
}

/// Writes the log of a traversal that is held in memory behind what `wtr`
/// holds: the stream of the first `config.max_count` commits that pass the
/// filters. It fails only where the rows do not fit into the columns, and
/// then leaves `wtr` as it was.
pub fn write_log_stream(commits: &Vec<CommitRecord>, wtr: &mut Vec<u8>, config: FilterConfig) -> (outcome:
    Result<(), StreamError>)
    ensures
        outcome is Ok <==> rows_fit(selected_rows(commits@, config)),
        outcome matches Err(e) ==> e is CapacityExceeded,
        outcome is Ok ==> final(wtr)@ == old(wtr)@ + ipc_stream_bytes(
            commit_log_fields(),
            selected_rows(commits@, config),
        ),
        outcome is Err ==> final(wtr)@ == old(wtr)@,
{
    match collect_rows(commits, config) {
        Ok(collector) => match collector.finish() {
            Ok(bytes) => {
                let mut bytes = bytes;
                wtr.append(&mut bytes);
                Ok(())
            },
            Err(error) => Err(error),
        },
        Err(error) => Err(error),
    }
}

/// Writes the log of a traversal that is held in memory, with the filters as
/// they are typed: see [`write_log_stream`] and [`FilterConfig::of_arguments`].
pub fn log2arrow_ipc_stream_writer(
    commits: &Vec<CommitRecord>,
    wtr: &mut Vec<u8>,
    trim_message: bool,
    max_count: usize,
    author_filter: Option<String>,
    since: Option<String>,
    until: Option<String>,
) -> (outcome: Result<(), StreamError>)
    ensures
        outcome is Ok <==> rows_fit(
            selected_rows(
                commits@,
                FilterConfig::of_arguments(trim_message, max_count, author_filter, since, until),
            ),
        ),
        outcome matches Err(e) ==> e is CapacityExceeded,
        outcome is Ok ==> final(wtr)@ == old(wtr)@ + ipc_stream_bytes(
            commit_log_fields(),
            selected_rows(
                commits@,
                FilterConfig::of_arguments(trim_message, max_count, author_filter, since, until),
            ),
        ),
        outcome is Err ==> final(wtr)@ == old(wtr)@,
{
    let config = FilterConfig::new(trim_message, max_count, author_filter, since, until);
    write_log_stream(commits, wtr, config)
}

} // verus!
