use vstd::prelude::*;
use chrono::DateTime;
use crate::record::CommitRecord;

verus! {

/// The seconds since the Unix epoch that an RFC 3339 timestamp stands for, or
/// `None` where the text is no such timestamp.
pub uninterp spec fn rfc3339_seconds(text: Seq<char>) -> Option<i64>;

/// `DateTime::parse_from_rfc3339` and `DateTime::timestamp`: the seconds of the
/// instant that the text names, `None` where chrono does not accept the text.
#[verifier::external_body]
pub(crate) fn parse_rfc3339_seconds(text: &str) -> (seconds: Option<i64>)
    ensures
        seconds == rfc3339_seconds(text@),
{
    DateTime::parse_from_rfc3339(text).ok().map(|instant| instant.timestamp())
}

/// The bound that a date argument stands for. A text that is no RFC 3339
/// timestamp gives no bound, as if the argument were absent.
pub open spec fn bound_of(text: Option<String>) -> Option<i64> {
    match text {
        Some(t) => rfc3339_seconds(t@),
        None => None,
    }
}

/// Reads a date argument: see [`bound_of`].
pub fn parse_bound(text: &Option<String>) -> (bound: Option<i64>)
    ensures
        bound == bound_of(*text),
{
    match text {
        Some(t) => parse_rfc3339_seconds(t.as_str()),
        None => None,
    }
}

/// The number of rows that a log has at most where no other is asked for.
pub const DEFAULT_MAX_COUNT: usize = 1024;

/// Which commits are kept, how many, and how their messages are written.
#[derive(Clone, Debug)]
pub struct FilterConfig {
    /// Keep only commits whose author has exactly this name.
    pub author: Option<String>,
    /// Keep only commits whose author time is at or after this.
    pub since: Option<i64>,
    /// Keep only commits whose author time is at or before this.
    pub until: Option<i64>,
    /// The largest number of rows.
    pub max_count: usize,
    /// Whether trailing newline characters are taken off the messages.
    pub trim_message: bool,
}

impl FilterConfig {
    /// The configuration that the five arguments stand for.
    pub open spec fn of_arguments(
        trim_message: bool,
        max_count: usize,
        author: Option<String>,
        since: Option<String>,
        until: Option<String>,
    ) -> FilterConfig {
        FilterConfig {
            author,
            since: bound_of(since),
            until: bound_of(until),
            max_count,
            trim_message,
        }
    }

    /// Builds a configuration from bounds that are already numbers.
    pub fn with_bounds(
        trim_message: bool,
        max_count: usize,
        author: Option<String>,
        since: Option<i64>,
        until: Option<i64>,
    ) -> (config: FilterConfig)
        ensures
            config == (FilterConfig { author, since, until, max_count, trim_message }),
    {
        FilterConfig { author, since, until, max_count, trim_message }
    }

    /// Builds a configuration from arguments as they are typed: the two dates
    /// as RFC 3339 text.
    pub fn new(
        trim_message: bool,
        max_count: usize,
        author: Option<String>,
        since: Option<String>,
        until: Option<String>,
    ) -> (config: FilterConfig)
        ensures
            config == FilterConfig::of_arguments(trim_message, max_count, author, since, until),
    {
        let since_bound = parse_bound(&since);
        let until_bound = parse_bound(&until);
        FilterConfig::with_bounds(trim_message, max_count, author, since_bound, until_bound)
    }

    /// The author filter lets the name pass.
    pub open spec fn author_passes(&self, name: Seq<char>) -> bool {
        match self.author {
            Some(wanted) => name == wanted@,
            None => true,
        }
    }

    /// The two bounds let the time pass: neither before `since` nor after `until`.
    pub open spec fn time_passes(&self, seconds: i64) -> bool {
        &&& (self.since matches Some(since) ==> seconds >= since)
        &&& (self.until matches Some(until) ==> seconds <= until)
    }

    /// The commit passes every filter that is set.
    pub open spec fn accepts(&self, record: CommitRecord) -> bool {
        self.author_passes(record.author.name@) && self.time_passes(record.author.seconds)
    }

    /// Decides whether a commit is kept.
    pub fn accept(&self, record: &CommitRecord) -> (kept: bool)
        ensures
            kept == self.accepts(*record),
    {
        if let Some(wanted) = &self.author {
            if !(record.author.name == *wanted) {
                return false;
            }
        }
        if let Some(since) = self.since {
            if record.author.seconds < since {
                return false;
            }
        }
        if let Some(until) = self.until {
            if record.author.seconds > until {
                return false;
            }
        }
        true
    }
}

} // verus!
