use vstd::prelude::*;
use git2::Oid;

verus! {

#[verifier::external_type_specification]
#[verifier::external_body]
pub struct ExOid(Oid);

/// A moment recorded in a commit: seconds since the Unix epoch, the
/// timezone offset in minutes, and the sign written with the offset.
#[derive(Debug, Clone, Copy, PartialEq, Eq, Structural)]
pub struct CommitTime {
    pub seconds: i64,
    pub offset_minutes: i32,
    pub sign: char,
}

impl CommitTime {
    /// A commit time from its seconds and offset; the sign is `-` for a
    /// negative offset and `+` otherwise.
    pub fn new(seconds: i64, offset_minutes: i32) -> (time: Self)
        ensures
            time.seconds == seconds,
            time.offset_minutes == offset_minutes,
            time.sign == if offset_minutes < 0 { '-' } else { '+' },
    {
        CommitTime { seconds, offset_minutes, sign: if offset_minutes < 0 { '-' } else { '+' } }
    }
}

/// A single commit entry in the log
#[derive(Debug)]
pub struct LogEntry {
    pub oid: Oid,
    pub short_hash: String,
    pub summary: String,
    /// Full commit message (body included), not just the summary line.
    pub message: String,
    pub author_name: String,
    pub author_email: String,
    /// Author time.
    pub time: CommitTime,
    pub committer_name: String,
    pub committer_email: String,
    pub committer_time: CommitTime,
}

impl Clone for LogEntry {
    fn clone(&self) -> (copy: Self)
        ensures
            copy.oid == self.oid,
            copy.short_hash@ == self.short_hash@,
            copy.summary@ == self.summary@,
            copy.message@ == self.message@,
            copy.author_name@ == self.author_name@,
            copy.author_email@ == self.author_email@,
            copy.time == self.time,
            copy.committer_name@ == self.committer_name@,
            copy.committer_email@ == self.committer_email@,
            copy.committer_time == self.committer_time,
    {
        LogEntry {
            oid: self.oid,
            short_hash: self.short_hash.clone(),
            summary: self.summary.clone(),
            message: self.message.clone(),
            author_name: self.author_name.clone(),
            author_email: self.author_email.clone(),
            time: self.time,
            committer_name: self.committer_name.clone(),
            committer_email: self.committer_email.clone(),
            committer_time: self.committer_time,
        }
    }
}

/// The committer differs from the author in name, email or time.
pub open spec fn distinct_committer(entry: &LogEntry) -> bool {
    ||| entry.committer_name@ != entry.author_name@
    ||| entry.committer_email@ != entry.author_email@
    ||| entry.committer_time != entry.time
}

impl LogEntry {
    /// True when the committer differs from the author (name, email, or time),
    /// as happens for rebased / cherry-picked / amended commits.
    pub fn has_distinct_committer(&self) -> (distinct: bool)
        ensures
            distinct == distinct_committer(self),
    {
        self.committer_name != self.author_name || self.committer_email != self.author_email
            || self.committer_time != self.time
    }
}

/// State for the log view's data
#[derive(Debug)]
pub struct LogData {
    pub entries: Vec<LogEntry>,
    pub branch_name: String,
    pub has_more: bool,
    pub total_loaded: usize,
}

impl LogData {
    pub fn new(branch_name: String) -> (data: Self)
        ensures
            data.entries@.len() == 0,
            data.branch_name == branch_name,
            data.has_more,
            data.total_loaded == 0,
    {
        Self { entries: Vec::new(), branch_name, has_more: true, total_loaded: 0 }
    }
}

} // verus!
