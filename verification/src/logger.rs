//! The dashboard's log: the newest line first.
use std::collections::VecDeque;

use vstd::prelude::*;
use vstd::string::StringExecFns;

use crate::display::{moment_exists, moment_string, moment_text, plain_pattern, utc_moment_exists};

verus! {

broadcast use vstd::std_specs::vecdeque::group_vec_dequeue_axioms;

/// Reads the system clock (`std::time::SystemTime::now`), converts the
/// reading with chrono's `From<SystemTime> for DateTime<Utc>`, which also
/// handles a clock set before the Unix epoch, and returns its `timestamp()`
/// in whole seconds. The reading itself is not stated. The conversion makes
/// the moment with `timestamp_opt`, which fails (and the conversion panics)
/// only for a clock reading outside chrono's range of about 262 000 years
/// either side of year 0; every moment it returns is therefore one that
/// chrono holds, which is what is stated.
#[verifier::external_body]
fn utc_now() -> (r: i64)
    ensures
        utc_moment_exists(r),
{
    chrono::DateTime::<chrono::Utc>::from(std::time::SystemTime::now()).timestamp()
}

/// A moment that chrono holds, in whole seconds since the Unix epoch.
pub struct Moment {
    secs: i64,
}

impl Moment {
    #[verifier::type_invariant]
    spec fn in_range(self) -> bool {
        utc_moment_exists(self.secs)
    }

    /// The moment's seconds since the Unix epoch.
    pub closed spec fn seconds(self) -> i64 {
        self.secs
    }

    /// The moment `secs` seconds after the Unix epoch, where chrono holds it.
    pub fn from_timestamp(secs: i64) -> (r: Option<Moment>)
        ensures
            r is Some <==> utc_moment_exists(secs),
            r matches Some(m) ==> m.seconds() == secs,
    {
        if moment_exists(secs) {
            Some(Moment { secs })
        } else {
            None
        }
    }

    /// The clock's reading.
    pub fn now() -> (r: Moment) {
        Moment { secs: utc_now() }
    }

    /// The moment's seconds since the Unix epoch.
    pub fn timestamp(&self) -> (r: i64)
        ensures
            r == self.seconds(),
            utc_moment_exists(r),
    {
        proof {
            use_type_invariant(self);
        }
        self.secs
    }
}

/// A line of the log: a message and when it was written.
pub enum Log {
    Info(String, Moment),
}

/// The pattern of the moments in the log, such as `05/03/2025 14:03:09`.
pub open spec fn log_pattern() -> Seq<char> {
    "%d/%m/%Y %H:%M:%S"@
}

/// How a log line is shown: `[INFO]`, the moment, then the message.
pub open spec fn log_text(message: Seq<char>, at: i64) -> Seq<char> {
    "[INFO] "@ + moment_text(at, log_pattern()) + " "@ + message
}

/// A log line's message.
pub open spec fn log_message(l: Log) -> Seq<char> {
    match l {
        Log::Info(m, _) => m@,
    }
}

/// A log line as shown.
pub open spec fn log_line_text(l: Log) -> Seq<char> {
    match l {
        Log::Info(m, at) => log_text(m@, at.seconds()),
    }
}

/// The log pattern is plain.
proof fn lemma_log_pattern_plain()
    ensures
        plain_pattern(log_pattern()),
{
    reveal_strlit("%d/%m/%Y %H:%M:%S");
}

impl Log {
    /// The line as shown.
    pub fn text(&self) -> (r: String)
        ensures
            r@ == log_line_text(*self),
    {
        match self {
            Log::Info(m, at) => {
                let mut r = String::from_str("[INFO] ");
                let secs = at.timestamp();
                proof {
                    lemma_log_pattern_plain();
                }
                let moment = moment_string(secs, "%d/%m/%Y %H:%M:%S");
                r.append(moment.as_str());
                r.append(" ");
                r.append(m.as_str());
                r
            },
        }
    }
}

/// The dashboard's log, newest line first.
pub struct DashboardLogger {
    pub logs: VecDeque<Log>,
}

impl DashboardLogger {
    /// An empty log.
    pub fn new() -> (r: DashboardLogger)
        ensures
            r.logs@ == Seq::<Log>::empty(),
    {
        DashboardLogger { logs: VecDeque::new() }
    }

    /// Writes a line with the message, stamped with the clock's reading, in
    /// front of the others.
    pub fn info(&mut self, msg: &str)
        ensures
            final(self).logs@.len() == old(self).logs@.len() + 1,
            log_message(final(self).logs@[0]) == msg@,
            final(self).logs@.drop_first() == old(self).logs@,
    {
        let at = Moment::now();
        self.logs.push_front(Log::Info(String::from_str(msg), at));
        assert(self.logs@.drop_first() =~= old(self).logs@);
    }

    /// The lines as shown, newest first.
    pub fn lines(&self) -> (r: Vec<String>)
        ensures
            r@.len() == self.logs@.len(),
            forall|i: int| 0 <= i < r@.len() ==> (#[trigger] r@[i])@ == log_line_text(self.logs@[i]),
    {
        let mut r: Vec<String> = Vec::new();
        let mut i: usize = 0;
        while i < self.logs.len()
            invariant
                i <= self.logs@.len(),
                r@.len() == i,
                forall|k: int| 0 <= k < i ==> (#[trigger] r@[k])@ == log_line_text(self.logs@[k]),
            decreases self.logs@.len() - i,
        {
            r.push(self.logs[i].text());
            i = i + 1;
        }
        r
    }

    /// The newest line's message, or nothing when the log is empty.
    pub fn first_message(&self) -> (r: String)
        ensures
            self.logs@.len() == 0 ==> r@ == Seq::<char>::empty(),
            self.logs@.len() > 0 ==> r@ == log_message(self.logs@[0]),
    {
        if self.logs.len() == 0 {
            String::new()
        } else {
            match &self.logs[0] {
                Log::Info(m, _) => m.clone(),
            }
        }
    }
}

} // verus!
