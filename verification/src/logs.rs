//! Log entries: reading plain-text log lines, filtering by level and worker,
//! and formatting for display; choosing the lines a tail shows.
//!
//! Structured (JSON) log lines are read by the caller, which hands the entry
//! it obtained to `LogEntry::parse`.

use vstd::prelude::*;
use crate::text::{
    find_char, find_char_from, find_exec, first_occurrence, occurs_at, path_join, path_join_exec, push_str,
    str_eq, string_from_chars_range, trim, trim_exec, chars_of,
};
use crate::types::clock_reading;

verus! {

/// A log entry.
#[derive(Debug, Clone, PartialEq, Eq)]
pub struct LogEntry {
    /// When it was written (RFC 3339).
    pub timestamp: String,
    /// Its level (TRACE, DEBUG, INFO, WARN, ERROR).
    pub level: String,
    /// The worker it concerns, if any.
    pub worker_id: Option<String>,
    /// Its target (module path).
    pub target: String,
    /// Its message.
    pub message: String,
    /// More fields, each with its value written as JSON.
    pub fields: Vec<(String, String)>,
}

/// Whether a character is alphanumeric, as `char::is_alphanumeric` decides
/// (Unicode Alphabetic or Numeric).
pub uninterp spec fn alphanumeric(c: char) -> bool;

/// Whether a character is alphanumeric.
///
/// Trusted: it calls `char::is_alphanumeric`; the claim is only that the
/// result is `alphanumeric(c)`.
#[verifier::external_body]
fn is_alphanumeric(c: char) -> (r: bool)
    ensures
        r == alphanumeric(c),
{
    c.is_alphanumeric()
}

/// A string in upper case, as `str::to_uppercase` gives it.
pub uninterp spec fn uppercase(s: Seq<char>) -> Seq<char>;

/// A string in upper case.
///
/// Trusted: it calls `str::to_uppercase`; the claim is only that the result is
/// `uppercase(s)`.
#[verifier::external_body]
fn to_uppercase(s: &str) -> (r: String)
    ensures
        r@ == uppercase(s@),
{
    s.to_uppercase()
}

/// The RFC 3339 text that chrono writes for the time `secs` seconds and `nanos`
/// nanoseconds after the Unix epoch (UTC), or `None` where chrono cannot
/// represent that time.
pub uninterp spec fn rfc3339_at(secs: i64, nanos: u32) -> Option<Seq<char>>;

/// The RFC 3339 text of a time given in Unix seconds and nanoseconds.
///
/// Trusted: it calls `DateTime::<Utc>::from_timestamp`, which returns `None` for a
/// time out of chrono's range, and `DateTime::to_rfc3339` on the result; the claim
/// is only that the result is `rfc3339_at(secs, nanos)`.
#[verifier::external_body]
fn rfc3339_from_timestamp(secs: i64, nanos: u32) -> (r: Option<String>)
    ensures
        match r {
            Some(t) => rfc3339_at(secs, nanos) == Some(t@),
            None => rfc3339_at(secs, nanos) is None,
        },
{
    match chrono::DateTime::<chrono::Utc>::from_timestamp(secs, nanos) {
        Some(t) => Some(t.to_rfc3339()),
        None => None,
    }
}

/// The RFC 3339 text of the epoch, used when the clock's reading cannot be written.
pub open spec fn epoch_text() -> Seq<char> {
    "1970-01-01T00:00:00+00:00"@
}

/// The current time in RFC 3339 form: the clock's reading, to the nanosecond,
/// as chrono writes it, or the epoch where chrono cannot represent it.
fn now_rfc3339() -> (r: String)
    ensures
        exists|secs: i64, nanos: u32| secs >= 0 && nanos < 1_000_000_000 && (
            rfc3339_at(secs, nanos) == Some(r@) || r@ == epoch_text() && rfc3339_at(secs, nanos) is None),
{
    let (clock_secs, nanos) = clock_reading();
    let secs: i64 = if clock_secs <= 0x7FFF_FFFF_FFFF_FFFF { clock_secs as i64 } else { 0x7FFF_FFFF_FFFF_FFFF };
    match rfc3339_from_timestamp(secs, nanos) {
        Some(t) => t,
        None => String::from_str("1970-01-01T00:00:00+00:00"),
    }
}

/// The worker id named in a message: the alphanumeric run after the first
/// "worker_id=", else the text between the first "[W" and the next "]".
pub open spec fn worker_id_in(message: Seq<char>) -> Option<Seq<char>> {
    match first_occurrence(message, "worker_id="@) {
        Some(idx) => {
            let start = idx + 10;
            let rest = message.skip(start);
            Some(rest.take(alnum_run(rest)))
        },
        None => match first_occurrence(message, "[W"@) {
            Some(start) => match find_char(message.skip(start), ']') {
                Some(end) => Some(message.subrange(start + 1, start + end)),
                None => None,
            },
            None => None,
        },
    }
}

/// The length of the run of alphanumeric characters at the start of `s`.
pub open spec fn alnum_run(s: Seq<char>) -> int
    decreases s.len(),
{
    if s.len() > 0 && alphanumeric(s[0]) { 1 + alnum_run(s.drop_first()) } else { 0 }
}

proof fn lemma_alnum_run(s: Seq<char>, k: int)
    requires
        0 <= k <= s.len(),
        forall|j: int| 0 <= j < k ==> alphanumeric(#[trigger] s[j]),
        k == s.len() || !alphanumeric(s[k]),
    ensures
        alnum_run(s) == k,
    decreases k,
{
    if k > 0 {
        assert(alphanumeric(s[0]));
        lemma_alnum_run(s.drop_first(), k - 1);
    }
}

/// The alphanumeric run of `message` from `start`.
fn alnum_run_from(message: &str, start: usize) -> (r: String)
    requires
        start <= message@.len(),
    ensures
        r@ == message@.skip(start as int).take(alnum_run(message@.skip(start as int))),
{
    let cs = chars_of(message);
    let ghost rest = message@.skip(start as int);
    let mut end = start;
    while end < cs.len() && is_alphanumeric(cs[end])
        invariant
            start <= end <= cs@.len(),
            cs@ == message@,
            rest == message@.skip(start as int),
            forall|j: int| 0 <= j < end - start ==> alphanumeric(#[trigger] rest[j]),
        decreases cs.len() - end,
    {
        assert(rest[end - start] == cs@[end as int]);
        end += 1;
    }
    proof { lemma_alnum_run(rest, (end - start) as int); }
    let w = string_from_chars_range(&cs, start, end);
    assert(w@ =~= rest.take(alnum_run(rest)));
    w
}

/// The text between position `start` (a "[") and the next "]" of `message`.
fn bracketed_from(message: &str, start: usize) -> (r: Option<String>)
    requires
        start < message@.len(),
        message@[start as int] == '[',
    ensures
        match r {
            Some(w) => match find_char(message@.skip(start as int), ']') {
                Some(end) => w@ == message@.subrange(start + 1, start + end),
                None => false,
            },
            None => find_char(message@.skip(start as int), ']') is None,
        },
{
    let cs = chars_of(message);
    proof { crate::text::lemma_find_char_range(cs@.skip(start as int), ']'); }
    match find_char_from(&cs, ']', start) {
        Some(e) => {
            assert(cs@.skip(start as int)[0] == '[');
            assert(e != start);
            let w = string_from_chars_range(&cs, start + 1, e);
            Some(w)
        },
        None => None,
    }
}

/// The worker id named in a message (see `worker_id_in`).
pub fn extract_worker_id(message: &str) -> (r: Option<String>)
    ensures
        match r {
            Some(w) => worker_id_in(message@) == Some(w@),
            None => worker_id_in(message@) is None,
        },
{
    match find_exec(message, "worker_id=") {
        Some(idx) => {
            proof { reveal_strlit("worker_id="); }
            let n = chars_of(message).len();
            assert(idx + 10 <= n);
            Some(alnum_run_from(message, idx + 10))
        },
        None => match find_exec(message, "[W") {
            Some(start) => {
                proof { reveal_strlit("[W"); }
                assert(message@.subrange(start as int, start + 2) == "[W"@);
                assert(message@.subrange(start as int, start + 2)[0] == message@[start as int]);
                bracketed_from(message, start)
            },
            None => None,
        },
    }
}

/// A plain log line "DATE TIME LEVEL target: message" split at its first three
/// spaces (as `splitn(4, ' ')` does), if it has three.
pub open spec fn plain_parts(line: Seq<char>) -> Option<(Seq<char>, Seq<char>, Seq<char>, Seq<char>)> {
    match find_char(line, ' ') {
        None => None,
        Some(i0) => {
            let r0 = line.skip(i0 + 1);
            match find_char(r0, ' ') {
                None => None,
                Some(i1) => {
                    let r1 = r0.skip(i1 + 1);
                    match find_char(r1, ' ') {
                        None => None,
                        Some(i2) => Some((line.take(i0), r0.take(i1), r1.take(i2), r1.skip(i2 + 1))),
                    }
                },
            }
        },
    }
}

/// The target and message of the rest of a plain log line ("target: message"):
/// split at its first ": " (a module path such as "a::b" stays whole) and
/// trimmed, or "unknown" and the whole rest.
pub open spec fn target_and_message(rest: Seq<char>) -> (Seq<char>, Seq<char>) {
    match first_occurrence(rest, ": "@) {
        Some(c) => (trim(rest.take(c)), trim(rest.skip(c + 2))),
        None => ("unknown"@, rest),
    }
}

/// `e` is what a plain log line with the given parts reads as.
pub open spec fn reads_as(e: LogEntry, date: Seq<char>, time: Seq<char>, level: Seq<char>, rest: Seq<char>) -> bool {
    let (target, message) = target_and_message(rest);
    &&& e.timestamp@ == date + "T"@ + time
    &&& e.level@ == level
    &&& e.target@ == target
    &&& e.message@ == message
    &&& match e.worker_id {
        Some(w) => worker_id_in(message) == Some(w@),
        None => worker_id_in(message) is None,
    }
    &&& e.fields@.len() == 0
}

/// `e` is what a malformed log line reads as: the line as an INFO message of
/// an unknown target (stamped with the current time).
pub open spec fn reads_as_malformed(e: LogEntry, line: Seq<char>) -> bool {
    &&& e.level@ == "INFO"@
    &&& e.worker_id is None
    &&& e.target@ == "unknown"@
    &&& e.message@ == line
    &&& e.fields@.len() == 0
}

/// The position of the first `c` in `s` from `from`, as a `usize`.
fn find_char_in(s: &Vec<char>, c: char, from: usize) -> (r: Option<usize>)
    requires
        from <= s@.len(),
    ensures
        match r {
            Some(i) => from <= i < s@.len() && find_char(s@.skip(from as int), c) == Some(i - from),
            None => find_char(s@.skip(from as int), c) is None,
        },
{
    proof { crate::text::lemma_find_char_range(s@.skip(from as int), c); }
    find_char_from(s, c, from)
}

impl LogEntry {
    /// The entry a log line stands for: `structured` when the line was a
    /// structured (JSON) entry, else the plain-text reading of the line.
    pub fn parse(line: &str, structured: Option<LogEntry>) -> (r: LogEntry)
        ensures
            match structured {
                Some(e) => r == e,
                None => match plain_parts(line@) {
                    Some((date, time, level, rest)) => reads_as(r, date, time, level, rest),
                    None => reads_as_malformed(r, line@),
                },
            },
    {
        match structured {
            Some(e) => e,
            None => Self::parse_plain(line),
        }
    }

    /// The plain-text reading of a log line.
    fn parse_plain(line: &str) -> (r: LogEntry)
        ensures
            match plain_parts(line@) {
                Some((date, time, level, rest)) => reads_as(r, date, time, level, rest),
                None => reads_as_malformed(r, line@),
            },
    {
        let cs = chars_of(line);
        let n = cs.len();
        let ghost l = line@;
        let i0 = find_char_in(&cs, ' ', 0);
        assert(l.skip(0) =~= l);
        if let Some(i0) = i0 {
            let i1 = find_char_in(&cs, ' ', i0 + 1);
            let ghost r0 = l.skip(i0 + 1);
            if let Some(i1) = i1 {
                let i2 = find_char_in(&cs, ' ', i1 + 1);
                let ghost r1 = r0.skip((i1 - i0) as int);
                assert(r1 =~= l.skip(i1 + 1));
                if let Some(i2) = i2 {
                    assert(r0.take((i1 - i0 - 1) as int) =~= l.subrange(i0 + 1, i1 as int));
                    assert(r1.take((i2 - i1 - 1) as int) =~= l.subrange(i1 + 1, i2 as int));
                    assert(r1.skip((i2 - i1) as int) =~= l.skip(i2 + 1));
                    assert(l.take(i0 as int) =~= l.subrange(0, i0 as int));
                    let date = crate::text::string_from_chars_range(&cs, 0, i0);
                    let time = crate::text::string_from_chars_range(&cs, i0 + 1, i1);
                    let level = crate::text::string_from_chars_range(&cs, i1 + 1, i2);
                    let rest = crate::text::string_from_chars_range(&cs, i2 + 1, n);
                    assert(rest@ =~= l.skip(i2 + 1));
                    let mut timestamp = date;
                    push_str(&mut timestamp, "T");
                    push_str(&mut timestamp, time.as_str());
                    let (target, message) = Self::split_rest(rest.as_str());
                    let worker_id = extract_worker_id(message.as_str());
                    return LogEntry { timestamp, level, worker_id, target, message, fields: Vec::new() };
                }
                assert(plain_parts(l) is None);
            } else {
                assert(plain_parts(l) is None);
            }
        } else {
            assert(plain_parts(l) is None);
        }
        LogEntry {
            timestamp: now_rfc3339(),
            level: String::from_str("INFO"),
            worker_id: None,
            target: String::from_str("unknown"),
            message: line.to_owned(),
            fields: Vec::new(),
        }
    }

    /// The target and message of the rest of a plain log line.
    fn split_rest(rest: &str) -> (r: (String, String))
        ensures
            (r.0@, r.1@) == target_and_message(rest@),
    {
        let cs = chars_of(rest);
        let n = cs.len();
        match find_exec(rest, ": ") {
            Some(c) => {
                proof { reveal_strlit(": "); }
                assert(c + 2 <= n);
                let t = crate::text::string_from_chars_range(&cs, 0, c);
                let m = crate::text::string_from_chars_range(&cs, c + 2, n);
                assert(t@ =~= rest@.take(c as int));
                assert(m@ =~= rest@.skip(c + 2));
                (trim_exec(t.as_str()), trim_exec(m.as_str()))
            },
            None => (String::from_str("unknown"), rest.to_owned()),
        }
    }
}

/// An optional string's text.
pub open spec fn opt_text(s: Option<&str>) -> Option<Seq<char>> {
    match s { Some(t) => Some(t@), None => None }
}

/// Whether an entry passes the filters: its level equals the level filter
/// ignoring case, and it names the filtered worker.
pub open spec fn passes(e: LogEntry, level_filter: Option<Seq<char>>, worker_filter: Option<Seq<char>>) -> bool {
    &&& match level_filter { Some(l) => uppercase(e.level@) == uppercase(l), None => true }
    &&& match worker_filter {
        Some(w) => match e.worker_id { Some(id) => id@ == w, None => false },
        None => true,
    }
}

/// An entry passes a worker filter only if it names that worker: a line of no
/// worker, or of another worker, is not shown under a worker's filter; with no
/// filters every entry passes.
pub proof fn lemma_worker_filter_needs_worker(e: LogEntry, level_filter: Option<Seq<char>>, worker_filter: Option<Seq<char>>)
    ensures
        passes(e, level_filter, worker_filter) && worker_filter is Some ==>
            e.worker_id is Some && e.worker_id->0@ == worker_filter->0,
        worker_filter is Some && e.worker_id is None ==> !passes(e, level_filter, worker_filter),
        level_filter is None && worker_filter is None ==> passes(e, level_filter, worker_filter),
{
}

/// A level in the terminal color of its kind (TRACE magenta, DEBUG cyan, INFO
/// green, WARN yellow, ERROR red; others unchanged).
pub open spec fn colorized(level: Seq<char>) -> Seq<char> {
    let u = uppercase(level);
    if u == "TRACE"@ {
        "\x1b[35m"@ + level + "\x1b[0m"@
    } else if u == "DEBUG"@ {
        "\x1b[36m"@ + level + "\x1b[0m"@
    } else if u == "INFO"@ {
        "\x1b[32m"@ + level + "\x1b[0m"@
    } else if u == "WARN"@ {
        "\x1b[33m"@ + level + "\x1b[0m"@
    } else if u == "ERROR"@ {
        "\x1b[31m"@ + level + "\x1b[0m"@
    } else {
        level
    }
}

/// How an entry is displayed: "TIMESTAMP LEVEL [WORKER] target: message".
pub open spec fn display_text(e: LogEntry, colored: bool) -> Seq<char> {
    e.timestamp@ + " "@ + (if colored { colorized(e.level@) } else { e.level@ })
        + (match e.worker_id { Some(w) => " ["@ + w@ + "]"@, None => Seq::empty() })
        + " "@ + e.target@ + ": "@ + e.message@
}

/// A level in the terminal color of its kind (see `colorized`).
pub fn colorize_level(level: &str) -> (r: String)
    ensures
        r@ == colorized(level@),
{
    let u = to_uppercase(level);
    let code: &str = if str_eq(u.as_str(), "TRACE") {
        "\x1b[35m"
    } else if str_eq(u.as_str(), "DEBUG") {
        "\x1b[36m"
    } else if str_eq(u.as_str(), "INFO") {
        "\x1b[32m"
    } else if str_eq(u.as_str(), "WARN") {
        "\x1b[33m"
    } else if str_eq(u.as_str(), "ERROR") {
        "\x1b[31m"
    } else {
        return level.to_owned();
    };
    let mut r = String::new();
    push_str(&mut r, code);
    push_str(&mut r, level);
    push_str(&mut r, "\x1b[0m");
    r
}

impl LogEntry {
    /// Whether the entry passes the filters (see `passes`).
    pub fn matches_filter(&self, level_filter: Option<&str>, worker_filter: Option<&str>) -> (r: bool)
        ensures
            r == passes(*self, opt_text(level_filter), opt_text(worker_filter)),
            r && worker_filter is Some ==> self.worker_id is Some && self.worker_id->0@ == worker_filter->0@,
            worker_filter is Some && self.worker_id is Some && self.worker_id->0@ != worker_filter->0@ ==> !r,
            r && level_filter is Some ==> uppercase(self.level@) == uppercase(level_filter->0@),
            level_filter is None && worker_filter is None ==> r,
    {
        if let Some(l) = level_filter {
            let want = to_uppercase(l);
            let have = to_uppercase(self.level.as_str());
            if !str_eq(have.as_str(), want.as_str()) {
                return false;
            }
        }
        if let Some(w) = worker_filter {
            match &self.worker_id {
                Some(id) => {
                    if !str_eq(id.as_str(), w) {
                        return false;
                    }
                },
                None => return false,
            }
        }
        true
    }

    /// The entry as displayed (see `display_text`).
    pub fn format(&self, colored: bool) -> (r: String)
        ensures
            r@ == display_text(*self, colored),
    {
        let mut r = String::new();
        push_str(&mut r, self.timestamp.as_str());
        push_str(&mut r, " ");
        if colored {
            let c = colorize_level(self.level.as_str());
            push_str(&mut r, c.as_str());
        } else {
            push_str(&mut r, self.level.as_str());
        }
        match &self.worker_id {
            Some(w) => {
                push_str(&mut r, " [");
                push_str(&mut r, w.as_str());
                push_str(&mut r, "]");
            },
            None => {},
        }
        push_str(&mut r, " ");
        push_str(&mut r, self.target.as_str());
        push_str(&mut r, ": ");
        push_str(&mut r, self.message.as_str());
        assert(r@ =~= display_text(*self, colored));
        r
    }
}

/// Whether standard output is a terminal.
///
/// Trusted: it calls `atty::is(atty::Stream::Stdout)`; nothing is stated of the
/// answer, which depends on how the process was started.
#[verifier::external_body]
fn stdout_is_terminal() -> bool {
    atty::is(atty::Stream::Stdout)
}

/// Shows a log file's entries, filtered.
#[derive(Debug, Clone)]
pub struct LogViewer {
    log_path: String,
    level_filter: Option<String>,
    worker_filter: Option<String>,
    colored: bool,
}

/// An optional string's text.
pub open spec fn opt_string(s: Option<String>) -> Option<Seq<char>> {
    match s { Some(t) => Some(t@), None => None }
}

impl LogViewer {
    /// The log file shown.
    pub closed spec fn spec_log_path(&self) -> Seq<char> {
        self.log_path@
    }

    /// The level filter.
    pub closed spec fn spec_level_filter(&self) -> Option<Seq<char>> {
        opt_string(self.level_filter)
    }

    /// The worker filter.
    pub closed spec fn spec_worker_filter(&self) -> Option<Seq<char>> {
        opt_string(self.worker_filter)
    }

    /// Whether levels are colored.
    pub closed spec fn spec_colored(&self) -> bool {
        self.colored
    }

    /// A viewer of `log_path` without filters, colored when standard output
    /// is a terminal.
    pub fn new(log_path: String) -> (v: Self)
        ensures
            v.spec_log_path() == log_path@,
            v.spec_level_filter() is None,
            v.spec_worker_filter() is None,
    {
        LogViewer { log_path, level_filter: None, worker_filter: None, colored: stdout_is_terminal() }
    }

    /// The viewer with the level filter `level`.
    pub fn with_level_filter(self, level: Option<String>) -> (v: Self)
        ensures
            v.spec_level_filter() == opt_string(level),
            v.spec_log_path() == self.spec_log_path(),
            v.spec_worker_filter() == self.spec_worker_filter(),
            v.spec_colored() == self.spec_colored(),
    {
        LogViewer { level_filter: level, ..self }
    }

    /// The viewer with the worker filter `worker`.
    pub fn with_worker_filter(self, worker: Option<String>) -> (v: Self)
        ensures
            v.spec_worker_filter() == opt_string(worker),
            v.spec_log_path() == self.spec_log_path(),
            v.spec_level_filter() == self.spec_level_filter(),
            v.spec_colored() == self.spec_colored(),
    {
        LogViewer { worker_filter: worker, ..self }
    }

    /// The viewer with colored levels or not.
    pub fn with_colored(self, colored: bool) -> (v: Self)
        ensures
            v.spec_colored() == colored,
            v.spec_log_path() == self.spec_log_path(),
            v.spec_level_filter() == self.spec_level_filter(),
            v.spec_worker_filter() == self.spec_worker_filter(),
    {
        LogViewer { colored, ..self }
    }

    /// The log file shown.
    pub fn log_path(&self) -> (r: &str)
        ensures
            r@ == self.spec_log_path(),
    {
        self.log_path.as_str()
    }

    /// Whether levels are colored.
    pub fn colored(&self) -> (r: bool)
        ensures
            r == self.spec_colored(),
    {
        self.colored
    }

    /// Whether an entry passes this viewer's filters.
    pub fn shows(&self, entry: &LogEntry) -> (r: bool)
        ensures
            r == passes(*entry, self.spec_level_filter(), self.spec_worker_filter()),
    {
        let lf: Option<&str> = match &self.level_filter { Some(l) => Some(l.as_str()), None => None };
        let wf: Option<&str> = match &self.worker_filter { Some(w) => Some(w.as_str()), None => None };
        entry.matches_filter(lf, wf)
    }

    /// The lines a tail of `count` shows for the entries of a log (oldest
    /// entry first): the latest `count` entries that pass the filters,
    /// displayed, latest first.
    pub fn tail_lines(&self, entries: &Vec<LogEntry>, count: usize) -> (r: Vec<String>)
        ensures
            r@.map_values(|l: String| l@) == tail_text(entries@, self.spec_level_filter(), self.spec_worker_filter(), self.spec_colored(), count as int),
    {
        let ghost lf = self.spec_level_filter();
        let ghost wf = self.spec_worker_filter();
        let ghost c = self.spec_colored();
        let mut out: Vec<String> = Vec::new();
        let mut i: usize = entries.len();
        while i > 0 && out.len() < count
            invariant
                i <= entries@.len(),
                out@.len() <= count,
                lf == self.spec_level_filter(),
                wf == self.spec_worker_filter(),
                c == self.spec_colored(),
                out@.map_values(|l: String| l@) == shown_latest(entries@.subrange(i as int, entries@.len() as int), lf, wf, c),
            decreases i,
        {
            i -= 1;
            let ghost before = out@.map_values(|l: String| l@);
            let e = &entries[i];
            let ghost whole = entries@.subrange(i as int, entries@.len() as int);
            assert(whole.drop_first() =~= entries@.subrange(i as int + 1, entries@.len() as int));
            assert(whole[0] == *e);
            if self.shows(e) {
                let line = e.format(self.colored);
                out.push(line);
                assert(out@.map_values(|l: String| l@) =~= before.push(display_text(*e, c)));
            }
        }
        proof {
            lemma_shown_latest_prefix(entries@, i as int, lf, wf, c);
            if i == 0 {
                assert(entries@.subrange(0, entries@.len() as int) =~= entries@);
            }
            assert(out@.map_values(|l: String| l@) =~= tail_text(entries@, lf, wf, c, count as int));
        }
        out
    }
}

/// The displayed entries of a log that pass the filters, latest first.
pub open spec fn shown_latest(es: Seq<LogEntry>, lf: Option<Seq<char>>, wf: Option<Seq<char>>, colored: bool) -> Seq<Seq<char>>
    decreases es.len(),
{
    if es.len() == 0 {
        Seq::empty()
    } else {
        let rest = shown_latest(es.drop_first(), lf, wf, colored);
        if passes(es[0], lf, wf) { rest.push(display_text(es[0], colored)) } else { rest }
    }
}

/// What a tail of `count` shows: the first `count` of `shown_latest`.
pub open spec fn tail_text(es: Seq<LogEntry>, lf: Option<Seq<char>>, wf: Option<Seq<char>>, colored: bool, count: int) -> Seq<Seq<char>> {
    let all = shown_latest(es, lf, wf, colored);
    if all.len() <= count { all } else { all.take(count) }
}

proof fn lemma_shown_latest_prefix(es: Seq<LogEntry>, i: int, lf: Option<Seq<char>>, wf: Option<Seq<char>>, colored: bool)
    requires
        0 <= i <= es.len(),
    ensures
        shown_latest(es.subrange(i, es.len() as int), lf, wf, colored).len() <= shown_latest(es, lf, wf, colored).len(),
        shown_latest(es.subrange(i, es.len() as int), lf, wf, colored)
            == shown_latest(es, lf, wf, colored).take(shown_latest(es.subrange(i, es.len() as int), lf, wf, colored).len() as int),
    decreases i,
{
    if i == 0 {
        assert(es.subrange(0, es.len() as int) =~= es);
        let all = shown_latest(es, lf, wf, colored);
        assert(all.take(all.len() as int) =~= all);
    } else {
        lemma_shown_latest_prefix(es, i - 1, lf, wf, colored);
        let a = es.subrange(i, es.len() as int);
        let b = es.subrange(i - 1, es.len() as int);
        assert(b.drop_first() =~= a);
        let fa = shown_latest(a, lf, wf, colored);
        let fb = shown_latest(b, lf, wf, colored);
        let all = shown_latest(es, lf, wf, colored);
        if passes(b[0], lf, wf) {
            assert(fa =~= fb.take(fa.len() as int));
            assert(fa =~= all.take(fb.len() as int).take(fa.len() as int));
        }
    }
}

/// The log file of the daemon of the project whose beads directory is `beads_dir`.
pub fn get_log_path(beads_dir: &str) -> (r: String)
    ensures
        r@ == path_join(beads_dir@, "workers.log"@),
{
    path_join_exec(beads_dir, "workers.log")
}

} // verus!
