use std::io::Cursor;
use std::sync::Arc;

use arrow::array::{Array, ListArray, StringArray, TimestampSecondArray};
use arrow::datatypes::{DataType, Field, Schema, TimeUnit};
use arrow::ipc::reader::StreamReader;
use arrow::record_batch::RecordBatch;

use rs_git_log2arrow_ipc_stream::accumulator::{
    add_list_within, add_within, byte_len, ColumnAccumulator, StreamError, Usage,
};
use rs_git_log2arrow_ipc_stream::columns::COLUMN_CAPACITY;
use rs_git_log2arrow_ipc_stream::filter::{parse_bound, FilterConfig, DEFAULT_MAX_COUNT};
use rs_git_log2arrow_ipc_stream::message::{message_text, trimmed_length};
use rs_git_log2arrow_ipc_stream::record::{CommitRecord, Signature};
use rs_git_log2arrow_ipc_stream::schema::get_arrow_schema;
use rs_git_log2arrow_ipc_stream::stream::{
    collect_rows, log2arrow_ipc_stream_writer, write_log_stream, LogCollector, Step,
};

const C1: &str = "1111111111111111111111111111111111111111";
const C2: &str = "2222222222222222222222222222222222222222";
const C3: &str = "3333333333333333333333333333333333333333";

fn person(name: &str, seconds: i64) -> Signature {
    Signature {
        name: name.to_string(),
        email: format!("{}@example.com", name.to_lowercase()),
        seconds,
    }
}

fn commit(id: &str, message: &[u8], author: &str, seconds: i64, parents: &[&str]) -> CommitRecord {
    CommitRecord {
        id: id.to_string(),
        message: message.to_vec(),
        author: person(author, seconds),
        committer: person("Carol", seconds + 5),
        parents: parents.iter().map(|p| p.to_string()).collect(),
    }
}

/// C1 is the oldest, C3 the head; the traversal starts at the head.
fn three_commits() -> Vec<CommitRecord> {
    vec![
        commit(C3, b"third\n", "Alice", 3000, &[C2]),
        commit(C2, b"second\n", "Bob", 2000, &[C1]),
        commit(C1, b"first\n", "Alice", 1000, &[]),
    ]
}

fn expected_schema() -> Schema {
    Schema::new(vec![
        Field::new("commit_hash", DataType::Utf8, false),
        Field::new("message", DataType::Utf8, false),
        Field::new("author_name", DataType::Utf8, false),
        Field::new("author_email", DataType::Utf8, false),
        Field::new("author_timestamp", DataType::Timestamp(TimeUnit::Second, None), false),
        Field::new("committer_name", DataType::Utf8, false),
        Field::new("committer_email", DataType::Utf8, false),
        Field::new("committer_timestamp", DataType::Timestamp(TimeUnit::Second, None), false),
        Field::new(
            "parent_hashes",
            DataType::List(Arc::new(Field::new("item", DataType::Utf8, true))),
            false,
        ),
    ])
}

fn decode(bytes: &[u8]) -> (Schema, Vec<RecordBatch>) {
    let reader = StreamReader::try_new(Cursor::new(bytes.to_vec()), None).unwrap();
    let schema = reader.schema().as_ref().clone();
    let batches: Vec<RecordBatch> = reader.map(|b| b.unwrap()).collect();
    (schema, batches)
}

fn texts(batch: &RecordBatch, column: usize) -> Vec<String> {
    let array = batch.column(column).as_any().downcast_ref::<StringArray>().unwrap();
    (0..array.len()).map(|i| array.value(i).to_string()).collect()
}

fn times(batch: &RecordBatch, column: usize) -> Vec<i64> {
    let array = batch.column(column).as_any().downcast_ref::<TimestampSecondArray>().unwrap();
    (0..array.len()).map(|i| array.value(i)).collect()
}

fn lists(batch: &RecordBatch, column: usize) -> Vec<Vec<String>> {
    let array = batch.column(column).as_any().downcast_ref::<ListArray>().unwrap();
    (0..array.len())
        .map(|i| {
            assert!(array.is_valid(i));
            let items = array.value(i);
            let items = items.as_any().downcast_ref::<StringArray>().unwrap();
            (0..items.len()).map(|j| items.value(j).to_string()).collect()
        })
        .collect()
}

fn run(
    commits: &Vec<CommitRecord>,
    trim: bool,
    max_count: usize,
    author: Option<&str>,
    since: Option<&str>,
    until: Option<&str>,
) -> RecordBatch {
    let mut out: Vec<u8> = Vec::new();
    log2arrow_ipc_stream_writer(
        commits,
        &mut out,
        trim,
        max_count,
        author.map(|s| s.to_string()),
        since.map(|s| s.to_string()),
        until.map(|s| s.to_string()),
    )
    .unwrap();
    let (schema, batches) = decode(&out);
    assert_eq!(schema, expected_schema());
    assert_eq!(batches.len(), 1);
    let batch = batches[0].clone();
    assert_eq!(batch.schema().as_ref(), &expected_schema());
    assert_eq!(batch.num_columns(), 9);
    for column in batch.columns() {
        assert_eq!(column.len(), batch.num_rows());
        assert_eq!(column.null_count(), 0);
    }
    batch
}

#[test]
fn schema_has_the_nine_fields_in_order() {
    assert_eq!(get_arrow_schema(), expected_schema());
    assert_eq!(get_arrow_schema(), get_arrow_schema());
    let schema = get_arrow_schema();
    let names: Vec<&str> = schema.fields().iter().map(|f| f.name().as_str()).collect();
    assert_eq!(
        names,
        vec![
            "commit_hash",
            "message",
            "author_name",
            "author_email",
            "author_timestamp",
            "committer_name",
            "committer_email",
            "committer_timestamp",
            "parent_hashes"
        ]
    );
    assert!(schema.fields().iter().all(|f| !f.is_nullable()));
}

#[test]
fn three_commits_without_filters_give_three_rows_head_first() {
    let batch = run(&three_commits(), false, 10, None, None, None);
    assert_eq!(batch.num_rows(), 3);
    assert_eq!(texts(&batch, 0), vec![C3, C2, C1]);
    assert_eq!(texts(&batch, 1), vec!["third\n", "second\n", "first\n"]);
    assert_eq!(texts(&batch, 2), vec!["Alice", "Bob", "Alice"]);
    assert_eq!(
        texts(&batch, 3),
        vec!["alice@example.com", "bob@example.com", "alice@example.com"]
    );
    assert_eq!(times(&batch, 4), vec![3000, 2000, 1000]);
    assert_eq!(texts(&batch, 5), vec!["Carol", "Carol", "Carol"]);
    assert_eq!(
        texts(&batch, 6),
        vec!["carol@example.com", "carol@example.com", "carol@example.com"]
    );
    assert_eq!(times(&batch, 7), vec![3005, 2005, 1005]);
    assert_eq!(
        lists(&batch, 8),
        vec![vec![C2.to_string()], vec![C1.to_string()], Vec::<String>::new()]
    );
}

#[test]
fn author_filter_keeps_only_the_exact_name() {
    let batch = run(&three_commits(), false, 10, Some("Bob"), None, None);
    assert_eq!(batch.num_rows(), 1);
    assert_eq!(texts(&batch, 0), vec![C2]);
    assert_eq!(texts(&batch, 2), vec!["Bob"]);

    assert_eq!(run(&three_commits(), false, 10, Some("bob"), None, None).num_rows(), 0);
    assert_eq!(run(&three_commits(), false, 10, Some("Bo"), None, None).num_rows(), 0);
    assert_eq!(run(&three_commits(), false, 10, Some("Bob "), None, None).num_rows(), 0);
}

#[test]
fn max_count_one_gives_the_most_recent_commit() {
    let batch = run(&three_commits(), false, 1, None, None, None);
    assert_eq!(batch.num_rows(), 1);
    assert_eq!(texts(&batch, 0), vec![C3]);
    assert_eq!(lists(&batch, 8), vec![vec![C2.to_string()]]);
}

#[test]
fn since_after_every_commit_gives_an_empty_batch() {
    let batch = run(&three_commits(), false, 10, None, Some("2100-01-01T00:00:00Z"), None);
    assert_eq!(batch.num_rows(), 0);
    assert_eq!(texts(&batch, 0), Vec::<String>::new());
    assert_eq!(lists(&batch, 8), Vec::<Vec<String>>::new());
}

#[test]
fn max_count_zero_gives_an_empty_batch() {
    let batch = run(&three_commits(), false, 0, None, None, None);
    assert_eq!(batch.num_rows(), 0);
}

#[test]
fn rejected_commits_do_not_use_up_the_count() {
    let batch = run(&three_commits(), false, 1, Some("Bob"), None, None);
    assert_eq!(texts(&batch, 0), vec![C2]);
    let batch = run(&three_commits(), false, 2, Some("Alice"), None, None);
    assert_eq!(texts(&batch, 0), vec![C3, C1]);
    let batch = run(&three_commits(), false, 1, Some("Alice"), None, None);
    assert_eq!(texts(&batch, 0), vec![C3]);
}

#[test]
fn time_bounds_are_inclusive() {
    // 1970-01-01T00:33:20Z is 2000 seconds after the epoch.
    let batch = run(&three_commits(), false, 10, None, Some("1970-01-01T00:33:20Z"), None);
    assert_eq!(texts(&batch, 0), vec![C3, C2]);
    let batch = run(&three_commits(), false, 10, None, None, Some("1970-01-01T00:33:20Z"));
    assert_eq!(texts(&batch, 0), vec![C2, C1]);
    let batch = run(
        &three_commits(),
        false,
        10,
        None,
        Some("1970-01-01T00:33:20Z"),
        Some("1970-01-01T00:33:20Z"),
    );
    assert_eq!(texts(&batch, 0), vec![C2]);
    let batch = run(&three_commits(), false, 10, None, Some("1970-01-01T00:33:21Z"), None);
    assert_eq!(texts(&batch, 0), vec![C3]);
    let batch = run(&three_commits(), false, 10, None, None, Some("1970-01-01T00:33:19Z"));
    assert_eq!(texts(&batch, 0), vec![C1]);
}

#[test]
fn a_date_that_does_not_parse_is_ignored() {
    let batch = run(&three_commits(), false, 10, None, Some("yesterday"), Some("2024-13-01"));
    assert_eq!(texts(&batch, 0), vec![C3, C2, C1]);
    assert_eq!(parse_bound(&Some("yesterday".to_string())), None);
    assert_eq!(parse_bound(&Some("".to_string())), None);
    assert_eq!(parse_bound(&Some("2024-01-01".to_string())), None);
    assert_eq!(parse_bound(&None), None);
}

#[test]
fn dates_are_read_as_seconds_since_the_epoch() {
    assert_eq!(parse_bound(&Some("1970-01-01T00:00:00Z".to_string())), Some(0));
    assert_eq!(parse_bound(&Some("2024-01-01T00:00:00Z".to_string())), Some(1704067200));
    assert_eq!(parse_bound(&Some("2024-01-01T09:00:00+09:00".to_string())), Some(1704067200));
    assert_eq!(parse_bound(&Some("1969-12-31T23:59:59Z".to_string())), Some(-1));
    let config = FilterConfig::new(
        true,
        7,
        Some("Bob".to_string()),
        Some("1970-01-01T00:00:10Z".to_string()),
        Some("nonsense".to_string()),
    );
    assert_eq!(config.since, Some(10));
    assert_eq!(config.until, None);
    assert_eq!(config.author, Some("Bob".to_string()));
    assert_eq!(config.max_count, 7);
    assert!(config.trim_message);
}

#[test]
fn accept_applies_every_filter_that_is_set() {
    let bob = commit(C2, b"m", "Bob", 2000, &[]);
    let open = FilterConfig::with_bounds(false, 1024, None, None, None);
    assert!(open.accept(&bob));
    let named = FilterConfig::with_bounds(false, 1024, Some("Bob".to_string()), None, None);
    assert!(named.accept(&bob));
    let other = FilterConfig::with_bounds(false, 1024, Some("Alice".to_string()), None, None);
    assert!(!other.accept(&bob));
    assert!(FilterConfig::with_bounds(false, 1, None, Some(2000), Some(2000)).accept(&bob));
    assert!(!FilterConfig::with_bounds(false, 1, None, Some(2001), None).accept(&bob));
    assert!(!FilterConfig::with_bounds(false, 1, None, None, Some(1999)).accept(&bob));
    assert!(!FilterConfig::with_bounds(false, 1, Some("Bob".to_string()), Some(2001), None)
        .accept(&bob));
    // The committer's time plays no part.
    let mut late = bob.clone();
    late.committer.seconds = 9000;
    assert!(FilterConfig::with_bounds(false, 1, None, None, Some(2000)).accept(&late));
}

#[test]
fn trimming_removes_exactly_the_trailing_newlines() {
    assert_eq!(message_text(&b"hello\n".to_vec(), true), "hello");
    assert_eq!(message_text(&b"hello\n\n\n".to_vec(), true), "hello");
    assert_eq!(message_text(&b"hello\n\nworld\n".to_vec(), true), "hello\n\nworld");
    assert_eq!(message_text(&b"\n\n".to_vec(), true), "");
    assert_eq!(message_text(&b"".to_vec(), true), "");
    assert_eq!(message_text(&b"hello".to_vec(), true), "hello");
    assert_eq!(message_text(&b"hello \n".to_vec(), true), "hello ");
    assert_eq!(message_text(&b"hello\r\n".to_vec(), true), "hello");
    assert_eq!(message_text(&b"hello\n\r\n\r".to_vec(), true), "hello");
    assert_eq!(message_text(&b"hello\t\n".to_vec(), true), "hello\t");
    assert_eq!(message_text(&b"a\rb\n".to_vec(), true), "a\rb");
    assert_eq!(message_text(&b"\nhello".to_vec(), true), "\nhello");
    assert_eq!(trimmed_length(b"hello\n\n"), 5);
    assert_eq!(trimmed_length(b"\n"), 0);
    assert_eq!(trimmed_length(b"a\nb"), 3);
    assert_eq!(trimmed_length(b"a\r\n"), 1);
    assert_eq!(trimmed_length(b"a \n"), 2);
}

#[test]
fn without_trimming_the_message_is_kept() {
    assert_eq!(message_text(&b"hello\n\n".to_vec(), false), "hello\n\n");
    assert_eq!(message_text(&b"".to_vec(), false), "");
    let batch = run(&three_commits(), true, 10, None, None, None);
    assert_eq!(texts(&batch, 1), vec!["third", "second", "first"]);
}

#[test]
fn invalid_utf8_is_replaced_not_refused() {
    assert_eq!(message_text(&vec![b'a', 0xff, b'b', b'\n'], false), "a\u{fffd}b\n");
    assert_eq!(message_text(&vec![b'a', 0xff, b'b', b'\n'], true), "a\u{fffd}b");
    assert_eq!(message_text(&"gr\u{fc}\u{df}e\n".as_bytes().to_vec(), true), "gr\u{fc}\u{df}e");
    let commits = vec![commit(C1, &[0xc3, 0x28, b'\n'], "Alice", 1, &[])];
    let batch = run(&commits, true, 10, None, None, None);
    assert_eq!(texts(&batch, 1), vec!["\u{fffd}("]);
}

#[test]
fn merge_commit_keeps_its_parents_in_order() {
    let commits = vec![
        commit(C3, b"merge", "Alice", 3000, &[C2, C1]),
        commit(C2, b"left", "Bob", 2000, &[]),
        commit(C1, b"right", "Bob", 1000, &[]),
    ];
    let batch = run(&commits, false, 10, None, None, None);
    assert_eq!(
        lists(&batch, 8),
        vec![vec![C2.to_string(), C1.to_string()], Vec::<String>::new(), Vec::<String>::new()]
    );
    let reversed = vec![commit(C3, b"merge", "Alice", 3000, &[C1, C2])];
    let batch = run(&reversed, false, 10, None, None, None);
    assert_eq!(lists(&batch, 8), vec![vec![C1.to_string(), C2.to_string()]]);
}

#[test]
fn rows_keep_the_order_of_the_traversal() {
    let commits = vec![
        commit(C1, b"a", "Alice", 1000, &[]),
        commit(C3, b"b", "Alice", 3000, &[]),
        commit(C2, b"c", "Alice", 2000, &[]),
        commit(C1, b"d", "Alice", 500, &[]),
    ];
    let batch = run(&commits, false, 10, None, None, None);
    assert_eq!(texts(&batch, 0), vec![C1, C3, C2, C1]);
    assert_eq!(times(&batch, 4), vec![1000, 3000, 2000, 500]);
    let batch = run(&commits, false, 2, None, Some("1970-01-01T00:16:40Z"), None);
    assert_eq!(texts(&batch, 1), vec!["a", "b"]);
}

#[test]
fn no_commits_give_a_valid_empty_stream() {
    let batch = run(&Vec::new(), false, 1024, None, None, None);
    assert_eq!(batch.num_rows(), 0);
}

#[test]
fn the_stream_is_written_behind_what_the_sink_holds() {
    let mut plain: Vec<u8> = Vec::new();
    let config = FilterConfig::with_bounds(false, 10, None, None, None);
    assert_eq!(write_log_stream(&three_commits(), &mut plain, config.clone()), Ok(()));
    assert!(!plain.is_empty());
    let mut sink: Vec<u8> = vec![1, 2, 3];
    assert_eq!(write_log_stream(&three_commits(), &mut sink, config), Ok(()));
    assert_eq!(&sink[..3], &[1, 2, 3]);
    assert_eq!(&sink[3..], &plain[..]);
    let (_, batches) = decode(&plain);
    assert_eq!(batches.len(), 1);
    assert_eq!(batches[0].num_rows(), 3);
}

#[test]
fn the_same_input_gives_the_same_bytes() {
    let mut first: Vec<u8> = Vec::new();
    let mut second: Vec<u8> = Vec::new();
    let config = FilterConfig::with_bounds(true, 2, None, None, None);
    write_log_stream(&three_commits(), &mut first, config.clone()).unwrap();
    write_log_stream(&three_commits(), &mut second, config).unwrap();
    assert_eq!(first, second);
}

#[test]
fn collector_takes_commits_one_at_a_time() {
    let config = FilterConfig::with_bounds(false, 2, Some("Alice".to_string()), None, None);
    let mut collector = LogCollector::new(config);
    assert_eq!(collector.next_step(), Step::Continue);
    let commits = three_commits();
    assert_eq!(collector.offer(&commits[0]), Ok(Step::Continue));
    assert_eq!(collector.offer(&commits[1]), Ok(Step::Continue));
    assert_eq!(collector.offer(&commits[2]), Ok(Step::Stop));
    // A full collector takes no further row.
    assert_eq!(collector.offer(&commits[0]), Ok(Step::Stop));
    let bytes = collector.finish().unwrap();
    let (schema, batches) = decode(&bytes);
    assert_eq!(schema, expected_schema());
    assert_eq!(texts(&batches[0], 0), vec![C3, C1]);
}

#[test]
fn collector_with_no_room_stops_at_once() {
    let collector = LogCollector::new(FilterConfig::with_bounds(false, 0, None, None, None));
    assert_eq!(collector.next_step(), Step::Stop);
    let (_, batches) = decode(&collector.finish().unwrap());
    assert_eq!(batches[0].num_rows(), 0);
}

#[test]
fn collect_rows_matches_the_stepwise_traversal() {
    let config = FilterConfig::with_bounds(true, 2, None, None, None);
    let collector = collect_rows(&three_commits(), config).unwrap();
    assert_eq!(collector.next_step(), Step::Stop);
    let (_, batches) = decode(&collector.finish().unwrap());
    assert_eq!(texts(&batches[0], 0), vec![C3, C2]);
    assert_eq!(texts(&batches[0], 1), vec!["third", "second"]);
}

#[test]
fn accumulator_appends_rows_in_lock_step() {
    let mut columns = ColumnAccumulator::new();
    let commits = three_commits();
    assert_eq!(columns.append_row(&commits[2], true), Ok(()));
    assert_eq!(columns.append_row(&commits[0], false), Ok(()));
    let batch = columns.finish(&get_arrow_schema());
    assert!(batch.is_ok());
}

#[test]
fn costs_are_counted_in_bytes_and_items() {
    assert_eq!(byte_len("abc"), 3);
    assert_eq!(byte_len("gr\u{fc}n"), 5);
    assert_eq!(byte_len(""), 0);
    assert_eq!(add_within(3, 4), Some(7));
    assert_eq!(add_within(COLUMN_CAPACITY, 0), Some(COLUMN_CAPACITY));
    assert_eq!(add_within(COLUMN_CAPACITY - 1, 1), Some(COLUMN_CAPACITY));
    assert_eq!(add_within(COLUMN_CAPACITY, 1), None);
    assert_eq!(add_within(usize::MAX, 1), None);
    assert_eq!(add_within(1, usize::MAX), None);
    let items = vec!["ab".to_string(), "".to_string(), "cde".to_string()];
    assert_eq!(add_list_within(10, &items), Some(15));
    assert_eq!(add_list_within(0, &Vec::new()), Some(0));
    assert_eq!(add_list_within(COLUMN_CAPACITY - 5, &items), Some(COLUMN_CAPACITY));
    assert_eq!(add_list_within(COLUMN_CAPACITY - 4, &items), None);
    assert_eq!(COLUMN_CAPACITY, 2147483647);
}

fn no_usage() -> Usage {
    Usage {
        commit_hash: 0,
        message: 0,
        author_name: 0,
        author_email: 0,
        committer_name: 0,
        committer_email: 0,
        parent_bytes: 0,
        parent_items: 0,
    }
}

#[test]
fn a_row_costs_its_texts_and_its_parents() {
    let record = commit("abcd", b"xyz\n", "Bob", 1, &["aa", "bbb"]);
    let text = "xyz".to_string();
    let grown = no_usage().with_row(&record, &text).unwrap();
    assert_eq!(grown.commit_hash, 4);
    assert_eq!(grown.message, 3);
    assert_eq!(grown.author_name, 3);
    assert_eq!(grown.author_email, 15);
    assert_eq!(grown.committer_name, 5);
    assert_eq!(grown.committer_email, 17);
    assert_eq!(grown.parent_bytes, 5);
    assert_eq!(grown.parent_items, 2);
    let twice = grown.with_row(&record, &text).unwrap();
    assert_eq!(twice.author_email, 30);
    assert_eq!(twice.parent_items, 4);
}

#[test]
fn a_row_is_refused_where_one_column_would_overflow() {
    let record = commit("abcd", b"xyz\n", "Bob", 1, &["aa", "bbb"]);
    let text = "xyz".to_string();
    let mut used = no_usage();
    used.message = COLUMN_CAPACITY - 3;
    assert_eq!(used.with_row(&record, &text).unwrap().message, COLUMN_CAPACITY);
    used.message = COLUMN_CAPACITY - 2;
    assert!(used.with_row(&record, &text).is_none());
    let mut used = no_usage();
    used.parent_items = COLUMN_CAPACITY - 1;
    assert!(used.with_row(&record, &text).is_none());
    used.parent_items = COLUMN_CAPACITY - 2;
    assert_eq!(used.with_row(&record, &text).unwrap().parent_items, COLUMN_CAPACITY);
    let mut used = no_usage();
    used.parent_bytes = COLUMN_CAPACITY - 4;
    assert!(used.with_row(&record, &text).is_none());
    let mut used = no_usage();
    used.commit_hash = COLUMN_CAPACITY;
    assert!(used.with_row(&record, &text).is_none());
    // The columns are counted one by one: a full column leaves room in none.
    let mut used = no_usage();
    used.author_name = COLUMN_CAPACITY - 3;
    used.committer_name = COLUMN_CAPACITY - 5;
    used.author_email = COLUMN_CAPACITY - 15;
    used.committer_email = COLUMN_CAPACITY - 17;
    assert!(used.with_row(&record, &text).is_some());
}

#[test]
fn the_default_count_is_1024() {
    assert_eq!(DEFAULT_MAX_COUNT, 1024);
}

#[test]
fn a_schema_of_another_shape_is_refused_by_the_encoder() {
    let mut columns = ColumnAccumulator::new();
    assert_eq!(columns.append_row(&three_commits()[0], false), Ok(()));
    let other = Schema::new(vec![Field::new("only", DataType::Utf8, false)]);
    match columns.finish(&other) {
        Err(StreamError::Encoding(text)) => assert!(!text.is_empty()),
        _ => panic!("a batch of nine columns cannot have a schema of one field"),
    }
    let mut columns = ColumnAccumulator::new();
    assert_eq!(columns.append_row(&three_commits()[0], false), Ok(()));
    let mut fields: Vec<Field> = expected_schema().fields().iter().map(|f| f.as_ref().clone()).collect();
    fields.swap(3, 4);
    assert!(matches!(columns.finish(&Schema::new(fields)), Err(StreamError::Encoding(_))));
}

#[test]
fn the_writer_succeeds_wherever_the_rows_fit() {
    let commits = three_commits();
    for max_count in [0usize, 1, 2, 3, 10] {
        for trim in [false, true] {
            for author in [None, Some("Bob"), Some("Nobody")] {
                let mut out: Vec<u8> = Vec::new();
                let outcome = log2arrow_ipc_stream_writer(
                    &commits,
                    &mut out,
                    trim,
                    max_count,
                    author.map(|a| a.to_string()),
                    Some("not a date".to_string()),
                    None,
                );
                assert_eq!(outcome, Ok(()));
                let (schema, batches) = decode(&out);
                assert_eq!(schema, expected_schema());
                assert_eq!(batches.len(), 1);
            }
        }
    }
    let collector = LogCollector::new(FilterConfig::with_bounds(false, 5, None, None, None));
    assert!(collector.finish().is_ok());
}

#[test]
fn stream_errors_can_be_told_apart() {
    assert_ne!(StreamError::CapacityExceeded, StreamError::Encoding("x".to_string()));
    assert_eq!(StreamError::Encoding("x".to_string()), StreamError::Encoding("x".to_string()));
}

#[test]
fn the_crate_root_offers_the_schema_and_the_writer() {
    assert_eq!(rs_git_log2arrow_ipc_stream::get_arrow_schema(), expected_schema());
    let mut out: Vec<u8> = Vec::new();
    let outcome = rs_git_log2arrow_ipc_stream::log2arrow_ipc_stream_writer(
        &three_commits(),
        &mut out,
        true,
        DEFAULT_MAX_COUNT,
        Some("Alice".to_string()),
        None,
        Some("1970-01-01T00:16:40+00:00".to_string()),
    );
    assert_eq!(outcome, Ok(()));
    let (_, batches) = decode(&out);
    assert_eq!(texts(&batches[0], 0), vec![C1]);
    assert_eq!(texts(&batches[0], 1), vec!["first"]);
    assert_eq!(lists(&batches[0], 8), vec![Vec::<String>::new()]);
}
