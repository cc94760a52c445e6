//! The status of the worker system: what is known of the orchestrator and the
//! workers, project statistics from the issues file, recent activity, and the
//! human-readable status report.
//!
//! Reading files and probing processes is left to the caller, which hands the
//! contents read to the functions here.

use vstd::prelude::*;
use crate::ranking::{first_best, ranked, lemma_ranked_step};
use crate::text::{
    decimal, fixed_text, is_space, lines, lines_exec, parse_unsigned, parse_unsigned_exec, push_char,
    push_decimal, push_fixed, push_str, starts_with_exec, trim, trim_exec, words, words_exec,
};
use crate::types::unix_seconds;

verus! {

/// Activity entries kept for the status.
pub const RECENT_ACTIVITY_LEN: usize = 10;

/// Bytes in a mebibyte.
pub const BYTES_PER_MB: u64 = 1048576;

/// Issue counts of a project.
#[derive(Debug, Clone, Copy, PartialEq, Eq, Structural)]
pub struct ProjectStats {
    /// Open issues.
    pub open_issues: usize,
    /// Open issues that nothing blocks.
    pub ready_issues: usize,
    /// Open issues that something blocks.
    pub blocked_issues: usize,
    /// Issues in progress.
    pub in_progress_issues: usize,
    /// Closed issues.
    pub closed_issues: usize,
}

/// No issues of any kind.
pub open spec fn no_issues() -> ProjectStats {
    ProjectStats { open_issues: 0, ready_issues: 0, blocked_issues: 0, in_progress_issues: 0, closed_issues: 0 }
}

impl Default for ProjectStats {
    fn default() -> (s: Self)
        ensures
            s == no_issues(),
    {
        ProjectStats { open_issues: 0, ready_issues: 0, blocked_issues: 0, in_progress_issues: 0, closed_issues: 0 }
    }
}

/// Something that happened in the worker system.
#[derive(Debug, Clone, PartialEq, Eq)]
pub struct ActivityEntry {
    /// When it happened (Unix seconds).
    pub timestamp: u64,
    /// What happened (e.g. "task_started", "task_completed", "task_failed").
    pub activity_type: String,
    /// The worker involved.
    pub worker_id: Option<String>,
    /// The issue involved.
    pub issue_id: Option<String>,
    /// More details.
    pub details: Option<String>,
}

/// What is known of the orchestrator's health.
#[derive(Debug, Clone, PartialEq, Eq)]
pub struct OrchestratorHealth {
    /// Whether it responds.
    pub responsive: bool,
    /// Its socket path.
    pub socket_path: Option<String>,
    /// Whether the socket exists.
    pub socket_exists: bool,
    /// Its uptime in seconds, if known.
    pub uptime_seconds: Option<u64>,
    /// Its memory use in bytes, if known.
    pub memory_bytes: Option<u64>,
    /// Its CPU use in percent, if known, as the bit pattern of an IEEE 754 double.
    pub cpu_percent_bits: Option<u64>,
}

impl Default for OrchestratorHealth {
    fn default() -> (h: Self)
        ensures
            !h.responsive,
            h.socket_path is None,
            !h.socket_exists,
            h.uptime_seconds is None,
            h.memory_bytes is None,
            h.cpu_percent_bits is None,
    {
        OrchestratorHealth {
            responsive: false,
            socket_path: None,
            socket_exists: false,
            uptime_seconds: None,
            memory_bytes: None,
            cpu_percent_bits: None,
        }
    }
}

/// The status of the worker system.
#[derive(Debug, Clone)]
pub struct WorkerStatus {
    /// Whether the orchestrator runs.
    pub orchestrator_running: bool,
    /// The orchestrator's process id, if it runs.
    pub orchestrator_pid: Option<u32>,
    /// Active workers.
    pub worker_count: usize,
    /// The workers' process ids.
    pub worker_pids: Vec<u32>,
    /// Issue counts.
    pub project_stats: ProjectStats,
    /// Recent activity, latest first.
    pub recent_activity: Vec<ActivityEntry>,
    /// Orchestrator health.
    pub orchestrator_health: OrchestratorHealth,
    /// When the status was taken (Unix seconds).
    pub timestamp: u64,
}

/// `s` is the empty status taken at `now`: nothing runs, nothing is known.
pub open spec fn is_empty_status(s: WorkerStatus, now: u64) -> bool {
    &&& !s.orchestrator_running
    &&& s.orchestrator_pid is None
    &&& s.worker_count == 0
    &&& s.worker_pids@.len() == 0
    &&& s.project_stats == no_issues()
    &&& s.recent_activity@.len() == 0
    &&& !s.orchestrator_health.responsive
    &&& s.orchestrator_health.socket_path is None
    &&& !s.orchestrator_health.socket_exists
    &&& s.orchestrator_health.uptime_seconds is None
    &&& s.orchestrator_health.memory_bytes is None
    &&& s.orchestrator_health.cpu_percent_bits is None
    &&& s.timestamp == now
}

impl WorkerStatus {
    /// The empty status taken at `now`.
    pub fn new_at(now: u64) -> (s: Self)
        ensures
            is_empty_status(s, now),
    {
        WorkerStatus {
            orchestrator_running: false,
            orchestrator_pid: None,
            worker_count: 0,
            worker_pids: Vec::new(),
            project_stats: ProjectStats::default(),
            recent_activity: Vec::new(),
            orchestrator_health: OrchestratorHealth::default(),
            timestamp: now,
        }
    }

    /// The empty status taken now: its time is the clock's reading in whole
    /// Unix seconds.
    pub fn new() -> (s: Self)
        ensures
            is_empty_status(s, s.timestamp),
            s.timestamp <= u64::MAX / 1000,
    {
        Self::new_at(unix_seconds())
    }
}

// ============================================================================
// Putting the probes together
// ============================================================================

/// The process ids, in order, of the probed processes found running.
pub open spec fn running_pids(probed: Seq<(u32, bool)>) -> Seq<u32>
    decreases probed.len(),
{
    if probed.len() == 0 {
        Seq::empty()
    } else {
        let prev = running_pids(probed.drop_last());
        if probed.last().1 { prev.push(probed.last().0) } else { prev }
    }
}

/// What the probes of the orchestrator found: its health figures, which count
/// only when it runs.
pub struct HealthProbes {
    /// Its uptime in seconds, if it could be read.
    pub uptime_seconds: Option<u64>,
    /// Its memory use in bytes, if it could be read.
    pub memory_bytes: Option<u64>,
    /// Its CPU use in percent, if it could be read, as the bit pattern of an IEEE 754 double.
    pub cpu_percent_bits: Option<u64>,
}

/// The status taken at `now` from what was probed: the orchestrator (the process
/// id in its PID file, if one was read, and whether that process runs), its socket
/// path and whether the socket exists, its health figures, the worker process ids
/// listed (each with whether it runs), the project's issue counts and the recent
/// activity. The orchestrator runs when its listed process runs; it is then
/// responsive and its health figures count, else they are unknown. The workers
/// are the listed processes that run, in order.
pub fn status_from_probes(
    now: u64,
    orchestrator: Option<(u32, bool)>,
    socket_path: String,
    socket_exists: bool,
    health: HealthProbes,
    workers: Vec<(u32, bool)>,
    project_stats: ProjectStats,
    recent_activity: Vec<ActivityEntry>,
) -> (s: WorkerStatus)
    ensures
        s.orchestrator_running == (orchestrator matches Some((_, true))),
        s.orchestrator_pid == match orchestrator {
            Some((pid, true)) => Some(pid),
            _ => None::<u32>,
        },
        s.orchestrator_health.responsive == s.orchestrator_running,
        s.orchestrator_health.socket_path == Some(socket_path),
        s.orchestrator_health.socket_exists == socket_exists,
        s.orchestrator_health.uptime_seconds == if s.orchestrator_running { health.uptime_seconds } else { None },
        s.orchestrator_health.memory_bytes == if s.orchestrator_running { health.memory_bytes } else { None },
        s.orchestrator_health.cpu_percent_bits == if s.orchestrator_running { health.cpu_percent_bits } else { None },
        s.worker_pids@ == running_pids(workers@),
        s.worker_count == s.worker_pids@.len(),
        s.project_stats == project_stats,
        s.recent_activity == recent_activity,
        s.timestamp == now,
{
    let running_pid: Option<u32> = match orchestrator {
        Some((pid, true)) => Some(pid),
        _ => None,
    };
    let running = running_pid.is_some();
    let mut pids: Vec<u32> = Vec::new();
    let mut i: usize = 0;
    while i < workers.len()
        invariant
            i <= workers@.len(),
            pids@ == running_pids(workers@.take(i as int)),
            pids@.len() <= i,
        decreases workers.len() - i,
    {
        assert(workers@.take(i as int + 1).drop_last() =~= workers@.take(i as int));
        let (pid, alive) = workers[i];
        if alive {
            pids.push(pid);
        }
        i += 1;
    }
    assert(workers@.take(i as int) =~= workers@);
    let count = pids.len();
    WorkerStatus {
        orchestrator_running: running,
        orchestrator_pid: running_pid,
        worker_count: count,
        worker_pids: pids,
        project_stats,
        recent_activity,
        orchestrator_health: OrchestratorHealth {
            responsive: running,
            socket_path: Some(socket_path),
            socket_exists,
            uptime_seconds: if running { health.uptime_seconds } else { None },
            memory_bytes: if running { health.memory_bytes } else { None },
            cpu_percent_bits: if running { health.cpu_percent_bits } else { None },
        },
        timestamp: now,
    }
}

// ============================================================================
// Reading what the caller read
// ============================================================================

/// A process id written in a file: the text, trimmed, as a `u32`.
pub open spec fn pid_in(text: Seq<char>) -> Option<nat> {
    parse_unsigned(trim(text), u32::MAX as nat)
}

/// The process id in the orchestrator's PID file.
pub fn parse_pid(text: &str) -> (r: Option<u32>)
    ensures
        match r {
            Some(p) => pid_in(text@) == Some(p as nat),
            None => pid_in(text@) is None,
        },
{
    let t = trim_exec(text);
    match parse_unsigned_exec(t.as_str(), 0xFFFF_FFFF) {
        Some(v) => Some(v as u32),
        None => None,
    }
}

/// The process ids found on the lines of a file, in order; lines that do not
/// hold one are skipped.
pub open spec fn pids_on_lines(ls: Seq<Seq<char>>) -> Seq<u32>
    decreases ls.len(),
{
    if ls.len() == 0 {
        Seq::empty()
    } else {
        let prev = pids_on_lines(ls.drop_last());
        match pid_in(ls.last()) {
            Some(p) => prev.push(p as u32),
            None => prev,
        }
    }
}

/// The process ids listed in the workers' PID file, one per line.
pub fn pid_candidates(content: &str) -> (r: Vec<u32>)
    ensures
        r@ == pids_on_lines(lines(content@)),
{
    let ls = lines_exec(content);
    let ghost lv = ls@.map_values(|l: String| l@);
    let mut out: Vec<u32> = Vec::new();
    let mut i: usize = 0;
    while i < ls.len()
        invariant
            i <= ls@.len(),
            lv == ls@.map_values(|l: String| l@),
            out@ == pids_on_lines(lv.take(i as int)),
        decreases ls.len() - i,
    {
        assert(lv.take(i as int + 1).drop_last() =~= lv.take(i as int));
        assert(lv[i as int] == ls@[i as int]@);
        match parse_pid(ls[i].as_str()) {
            Some(p) => out.push(p),
            None => {},
        }
        i += 1;
    }
    assert(lv.take(i as int) =~= lv);
    out
}

/// The resident memory in a process's status text: the second word of the
/// first line that starts with "VmRSS:" and has two words, in kilobytes,
/// times 1024 (`None` when that word is not a number or the product does not
/// fit); zero when there is no such line.
pub open spec fn memory_in(ls: Seq<Seq<char>>) -> Option<nat>
    decreases ls.len(),
{
    if ls.len() == 0 {
        Some(0)
    } else {
        let l = ls[0];
        let ws = words(l);
        if l.len() >= 6 && l.take(6) == "VmRSS:"@ && ws.len() >= 2 {
            match parse_unsigned(ws[1], u64::MAX as nat) {
                Some(kb) => if kb * 1024 <= u64::MAX { Some(kb * 1024) } else { None },
                None => None,
            }
        } else {
            memory_in(ls.drop_first())
        }
    }
}

/// The resident memory, in bytes, in a process's status text (see `memory_in`).
pub fn memory_from_status(content: &str) -> (r: Option<u64>)
    ensures
        match r {
            Some(v) => memory_in(lines(content@)) == Some(v as nat),
            None => memory_in(lines(content@)) is None,
        },
{
    let ls = lines_exec(content);
    let ghost lv = ls@.map_values(|l: String| l@);
    proof { reveal_strlit("VmRSS:"); }
    assert(lv.skip(0) =~= lv);
    let mut i: usize = 0;
    while i < ls.len()
        invariant
            i <= ls@.len(),
            lv == ls@.map_values(|l: String| l@),
            lv == lines(content@),
            "VmRSS:"@.len() == 6,
            memory_in(lv) == memory_in(lv.skip(i as int)),
        decreases ls.len() - i,
    {
        let l = ls[i].as_str();
        let ghost rest = lv.skip(i as int);
        assert(rest[0] == l@);
        assert(rest.drop_first() =~= lv.skip(i as int + 1));
        if starts_with_exec(l, "VmRSS:") {
            let ws = words_exec(l);
            if ws.len() >= 2 {
                assert(ws@.map_values(|w: String| w@)[1] == ws@[1]@);
                assert(rest.len() > 0);
                assert(l@.len() >= 6 && l@.take(6) == "VmRSS:"@);
                assert(words(rest[0]).len() >= 2);
                let ghost w1 = words(rest[0])[1];
                assert(w1 == ws@[1]@);
                let parsed = parse_unsigned_exec(ws[1].as_str(), u64::MAX);
                assert(memory_in(rest) == match parse_unsigned(w1, u64::MAX as nat) {
                    Some(kb) => if kb * 1024 <= u64::MAX { Some(kb * 1024) } else { None },
                    None => None,
                });
                return match parsed {
                    Some(kb) => if kb <= u64::MAX / 1024 {
                        assert(memory_in(rest) == Some((kb * 1024) as nat));
                        Some(kb * 1024)
                    } else {
                        None
                    },
                    None => None,
                };
            }
        }
        i += 1;
    }
    assert(lv.skip(i as int) =~= Seq::<Seq<char>>::empty());
    Some(0)
}

/// What `serde_json` makes of a line of the issues file: `None` when the line
/// is not JSON; else the issue's "status" (`None` when absent or not a string)
/// and the number of entries of its "blocked_by" list (`None` when absent or not
/// a list).
pub uninterp spec fn json_issue_summary(line: Seq<char>) -> Option<(Option<Seq<char>>, Option<nat>)>;

/// The status and the number of blockers of the issue on a line of the issues
/// file, as far as the line gives them.
///
/// Trusted: it calls `serde_json::from_str` into a `serde_json::Value`, then
/// `Value::get`, `Value::as_str` and `Value::as_array`; the claim is only that the
/// result is `json_issue_summary` of the line.
#[verifier::external_body]
fn issue_summary(line: &str) -> (r: Option<(Option<String>, Option<usize>)>)
    ensures
        match r {
            Some((status, blocked)) => json_issue_summary(line@) == Some((
                match status { Some(t) => Some(t@), None => None },
                match blocked { Some(n) => Some(n as nat), None => None },
            )),
            None => json_issue_summary(line@) is None,
        },
{
    match serde_json::from_str::<serde_json::Value>(line) {
        Ok(v) => Some((
            v.get("status").and_then(|s| s.as_str()).map(|s| s.to_string()),
            v.get("blocked_by").and_then(|b| b.as_array()).map(|a| a.len()),
        )),
        Err(_) => None,
    }
}

/// Issue counts after one more line of the issues file: blank lines and lines
/// that are not JSON are skipped; an open issue is ready when nothing blocks
/// it, else blocked; other statuses than open, in progress and closed are not
/// counted.
pub open spec fn count_issue(s: ProjectStats, line: Seq<char>) -> ProjectStats {
    if trim(line).len() == 0 {
        s
    } else {
        match json_issue_summary(line) {
            None => s,
            Some((status_field, blocked_field)) => {
                // A missing or non-string status counts as none of the kinds; a
                // missing or non-list "blocked_by" as no blockers.
                let status = match status_field { Some(t) => t, None => Seq::<char>::empty() };
                let blocked: nat = match blocked_field { Some(n) => n, None => 0 };
                if status == "open"@ {
                if blocked == 0 {
                    ProjectStats { open_issues: (s.open_issues + 1) as usize, ready_issues: (s.ready_issues + 1) as usize, ..s }
                } else {
                    ProjectStats { open_issues: (s.open_issues + 1) as usize, blocked_issues: (s.blocked_issues + 1) as usize, ..s }
                }
            } else if status == "in_progress"@ {
                ProjectStats { in_progress_issues: (s.in_progress_issues + 1) as usize, ..s }
            } else if status == "closed"@ {
                ProjectStats { closed_issues: (s.closed_issues + 1) as usize, ..s }
            } else {
                s
            }},
        }
    }
}

/// Issue counts of the given lines of the issues file.
pub open spec fn stats_of_lines(ls: Seq<Seq<char>>) -> ProjectStats
    decreases ls.len(),
{
    if ls.len() == 0 { no_issues() } else { count_issue(stats_of_lines(ls.drop_last()), ls.last()) }
}

/// The issue counts of the issues file's content.
pub fn project_stats_from(content: &str) -> (r: ProjectStats)
    ensures
        r == stats_of_lines(lines(content@)),
{
    let ls = lines_exec(content);
    let ghost lv = ls@.map_values(|l: String| l@);
    let mut stats = ProjectStats::default();
    let mut i: usize = 0;
    while i < ls.len()
        invariant
            i <= ls@.len(),
            lv == ls@.map_values(|l: String| l@),
            stats == stats_of_lines(lv.take(i as int)),
            stats.open_issues + stats.in_progress_issues + stats.closed_issues <= i,
            stats.ready_issues + stats.blocked_issues == stats.open_issues,
        decreases ls.len() - i,
    {
        assert(lv.take(i as int + 1).drop_last() =~= lv.take(i as int));
        assert(lv[i as int] == ls@[i as int]@);
        let line = ls[i].as_str();
        let t = trim_exec(line);
        if !t.as_str().is_empty() {
            match issue_summary(line) {
                Some((status_field, blocked_field)) => {
                    let status: String = match status_field {
                        Some(t) => t,
                        None => String::new(),
                    };
                    let blocked: usize = match blocked_field {
                        Some(n) => n,
                        None => 0,
                    };
                    if crate::text::str_eq(status.as_str(), "open") {
                        stats.open_issues = stats.open_issues + 1;
                        if blocked == 0 {
                            stats.ready_issues = stats.ready_issues + 1;
                        } else {
                            stats.blocked_issues = stats.blocked_issues + 1;
                        }
                    } else if crate::text::str_eq(status.as_str(), "in_progress") {
                        stats.in_progress_issues = stats.in_progress_issues + 1;
                    } else if crate::text::str_eq(status.as_str(), "closed") {
                        stats.closed_issues = stats.closed_issues + 1;
                    }
                },
                None => {},
            }
        }
        i += 1;
    }
    assert(lv.take(i as int) =~= lv);
    stats
}

/// `a` comes before `b` in the recent activity: it is more recent.
pub open spec fn more_recent(a: ActivityEntry, b: ActivityEntry) -> bool {
    a.timestamp > b.timestamp
}

/// The `RECENT_ACTIVITY_LEN` most recent entries, latest first; entries with
/// the same time keep their order.
pub fn latest_activity(entries: Vec<ActivityEntry>) -> (r: Vec<ActivityEntry>)
    ensures
        r@ == ranked(entries@, |a: ActivityEntry, b: ActivityEntry| more_recent(a, b), RECENT_ACTIVITY_LEN as nat),
{
    let ghost f = |a: ActivityEntry, b: ActivityEntry| more_recent(a, b);
    let ghost all = entries@;
    let mut rest = entries;
    let mut out: Vec<ActivityEntry> = Vec::new();
    let mut k: usize = 0;
    while k < RECENT_ACTIVITY_LEN && rest.len() > 0
        invariant
            f == (|a: ActivityEntry, b: ActivityEntry| more_recent(a, b)),
            k <= RECENT_ACTIVITY_LEN,
            out@ + ranked(rest@, f, (RECENT_ACTIVITY_LEN - k) as nat) == ranked(all, f, RECENT_ACTIVITY_LEN as nat),
        decreases RECENT_ACTIVITY_LEN - k,
    {
        let ghost ws = rest@;
        let mut b: usize = 0;
        let mut i: usize = 1;
        while i < rest.len()
            invariant
                1 <= i <= rest@.len(),
                ws == rest@,
                f == (|a: ActivityEntry, b: ActivityEntry| more_recent(a, b)),
                b == first_best(ws, f, i as int),
                b < i,
            decreases rest.len() - i,
        {
            if rest[i].timestamp > rest[b].timestamp {
                b = i;
            }
            i += 1;
        }
        proof { lemma_ranked_step(ws, f, (RECENT_ACTIVITY_LEN - k) as nat); }
        let e = rest.remove(b);
        out.push(e);
        proof {
            assert(out@ + ranked(rest@, f, (RECENT_ACTIVITY_LEN - k - 1) as nat)
                =~= out@.drop_last() + (seq![ws[b as int]] + ranked(ws.remove(b as int), f, (RECENT_ACTIVITY_LEN - k - 1) as nat)));
        }
        k += 1;
    }
    proof {
        assert(ranked(rest@, f, (RECENT_ACTIVITY_LEN - k) as nat) =~= Seq::<ActivityEntry>::empty());
        assert(out@ + Seq::<ActivityEntry>::empty() =~= out@);
    }
    out
}

/// How long ago `timestamp` was at `now`: seconds under a minute, minutes
/// under an hour, hours under a day, else days (a time after `now` counts as
/// now).
pub open spec fn ago_text(timestamp: u64, now: u64) -> Seq<char> {
    let diff: nat = if now >= timestamp { (now - timestamp) as nat } else { 0 };
    if diff < 60 {
        decimal(diff) + "s ago"@
    } else if diff < 3600 {
        decimal(diff / 60) + "m ago"@
    } else if diff < 86400 {
        decimal(diff / 3600) + "h ago"@
    } else {
        decimal(diff / 86400) + "d ago"@
    }
}

/// How long ago `timestamp` was at `now` (see `ago_text`).
pub fn format_timestamp_at(timestamp: u64, now: u64) -> (r: String)
    ensures
        r@ == ago_text(timestamp, now),
{
    let diff = now.saturating_sub(timestamp);
    let mut r = String::new();
    if diff < 60 {
        push_decimal(&mut r, diff);
        push_str(&mut r, "s ago");
    } else if diff < 3600 {
        push_decimal(&mut r, diff / 60);
        push_str(&mut r, "m ago");
    } else if diff < 86400 {
        push_decimal(&mut r, diff / 3600);
        push_str(&mut r, "h ago");
    } else {
        push_decimal(&mut r, diff / 86400);
        push_str(&mut r, "d ago");
    }
    r
}

/// How long ago `timestamp` was, now.
pub fn format_timestamp(timestamp: u64) -> (r: String)
    ensures
        exists|now: u64| r@ == ago_text(timestamp, now),
{
    format_timestamp_at(timestamp, unix_seconds())
}

/// The uptime line of the status report.
pub open spec fn uptime_line(up: u64) -> Seq<char> {
    "  Uptime: "@ + decimal((up / 3600) as nat) + "h "@ + decimal(((up % 3600) / 60) as nat) + "m "@
        + decimal((up % 60) as nat) + "s\n"@
}

/// The memory line of the status report (mebibytes with two decimals).
pub open spec fn memory_line(m: u64) -> Seq<char> {
    "  Memory: "@ + fixed_text(m as nat, BYTES_PER_MB as nat, 2) + " MB\n"@
}

/// The lines on a running orchestrator.
pub open spec fn running_lines(st: WorkerStatus) -> Seq<char> {
    "  Status: Running (PID: "@ + decimal(st.orchestrator_pid.unwrap() as nat) + ")\n"@
        + (match st.orchestrator_health.uptime_seconds { Some(up) => uptime_line(up), None => Seq::empty() })
        + (match st.orchestrator_health.memory_bytes { Some(m) => memory_line(m), None => Seq::empty() })
}

/// The socket line of the status report.
pub open spec fn socket_line(h: OrchestratorHealth) -> Seq<char> {
    match h.socket_path {
        Some(p) => "  Socket: "@ + p@ + " ("@ + (if h.socket_exists { "exists"@ } else { "missing"@ }) + ")\n"@,
        None => Seq::empty(),
    }
}

/// The orchestrator section of the status report.
pub open spec fn orchestrator_section(st: WorkerStatus) -> Seq<char> {
    "=== Beads Workers Status ===\n\n"@ + "Orchestrator:\n"@
        + (if st.orchestrator_running { running_lines(st) } else { "  Status: Not running\n"@ })
        + socket_line(st.orchestrator_health)
        + "\n"@
}

/// Process ids separated by ", ".
pub open spec fn pid_list(ps: Seq<u32>) -> Seq<char>
    decreases ps.len(),
{
    if ps.len() == 0 {
        Seq::empty()
    } else if ps.len() == 1 {
        decimal(ps[0] as nat)
    } else {
        pid_list(ps.drop_last()) + ", "@ + decimal(ps.last() as nat)
    }
}

/// The lines on the workers.
pub open spec fn worker_count_lines(st: WorkerStatus, detailed: bool) -> Seq<char> {
    "Workers: "@ + decimal(st.worker_count as nat) + "\n"@
        + (if st.worker_pids@.len() > 0 && detailed { "  PIDs: "@ + pid_list(st.worker_pids@) + "\n"@ } else { Seq::empty() })
        + "\n"@
}

/// The project statistics lines.
pub open spec fn project_lines(ps: ProjectStats) -> Seq<char> {
    "Project Statistics:\n"@
        + "  Open: "@ + decimal(ps.open_issues as nat) + " ("@ + decimal(ps.ready_issues as nat) + " ready, "@
        + decimal(ps.blocked_issues as nat) + " blocked)\n"@
        + "  In Progress: "@ + decimal(ps.in_progress_issues as nat) + "\n"@
        + "  Closed: "@ + decimal(ps.closed_issues as nat) + "\n"@
        + "\n"@
}

/// The workers and project sections of the status report.
pub open spec fn workers_section(st: WorkerStatus, detailed: bool) -> Seq<char> {
    worker_count_lines(st, detailed) + project_lines(st.project_stats)
}

/// An activity's line in the status report, at `now`.
pub open spec fn activity_line(a: ActivityEntry, now: u64) -> Seq<char> {
    "  ["@ + ago_text(a.timestamp, now) + "] "@ + a.activity_type@
        + (match a.issue_id { Some(i) => " - "@ + i@, None => Seq::empty() })
        + (match a.worker_id { Some(w) => " (worker: "@ + w@ + ")"@, None => Seq::empty() })
        + "\n"@
}

/// The lines of several activities.
pub open spec fn activity_lines(acts: Seq<ActivityEntry>, now: u64) -> Seq<char>
    decreases acts.len(),
{
    if acts.len() == 0 { Seq::empty() } else { activity_lines(acts.drop_last(), now) + activity_line(acts.last(), now) }
}

/// The activity section of the status report, at `now`.
pub open spec fn activity_section(st: WorkerStatus, detailed: bool, now: u64) -> Seq<char> {
    if st.recent_activity@.len() > 0 && detailed {
        "Recent Activity:\n"@ + activity_lines(st.recent_activity@, now)
    } else if st.recent_activity@.len() == 0 {
        "Recent Activity: None\n"@
    } else {
        Seq::empty()
    }
}

/// The human-readable status report at `now`; the detailed one adds the
/// workers' process ids and the recent activity.
pub open spec fn status_report(st: WorkerStatus, detailed: bool, now: u64) -> Seq<char> {
    orchestrator_section(st) + workers_section(st, detailed) + activity_section(st, detailed, now)
}

fn push_uptime_line(out: &mut String, up: u64)
    ensures
        final(out)@ == old(out)@ + uptime_line(up),
{
    push_str(out, "  Uptime: ");
    push_decimal(out, up / 3600);
    push_str(out, "h ");
    push_decimal(out, (up % 3600) / 60);
    push_str(out, "m ");
    push_decimal(out, up % 60);
    push_str(out, "s\n");
    assert(final(out)@ =~= old(out)@ + uptime_line(up));
}

fn push_memory_line(out: &mut String, m: u64)
    ensures
        final(out)@ == old(out)@ + memory_line(m),
{
    push_str(out, "  Memory: ");
    push_fixed(out, m as u128, BYTES_PER_MB as u128, 2);
    push_str(out, " MB\n");
    assert(final(out)@ =~= old(out)@ + memory_line(m));
}

fn push_running_lines(out: &mut String, st: &WorkerStatus)
    requires
        st.orchestrator_pid is Some,
    ensures
        final(out)@ == old(out)@ + running_lines(*st),
{
    let pid = match st.orchestrator_pid { Some(p) => p, None => 0 };
    push_str(out, "  Status: Running (PID: ");
    push_decimal(out, pid as u64);
    push_str(out, ")\n");
    let ghost s1 = out@;
    match st.orchestrator_health.uptime_seconds {
        Some(up) => push_uptime_line(out, up),
        None => {},
    }
    let ghost s2 = out@;
    match st.orchestrator_health.memory_bytes {
        Some(m) => push_memory_line(out, m),
        None => {},
    }
    assert(final(out)@ =~= old(out)@ + running_lines(*st));
}

fn push_socket_line(out: &mut String, h: &OrchestratorHealth)
    ensures
        final(out)@ == old(out)@ + socket_line(*h),
{
    match &h.socket_path {
        Some(p) => {
            push_str(out, "  Socket: ");
            push_str(out, p.as_str());
            push_str(out, " (");
            if h.socket_exists {
                push_str(out, "exists");
            } else {
                push_str(out, "missing");
            }
            push_str(out, ")\n");
        },
        None => {},
    }
    assert(final(out)@ =~= old(out)@ + socket_line(*h));
}

fn push_orchestrator_section(out: &mut String, st: &WorkerStatus)
    requires
        st.orchestrator_running ==> st.orchestrator_pid is Some,
    ensures
        final(out)@ == old(out)@ + orchestrator_section(*st),
{
    push_str(out, "=== Beads Workers Status ===\n\n");
    push_str(out, "Orchestrator:\n");
    if st.orchestrator_running {
        push_running_lines(out, st);
    } else {
        push_str(out, "  Status: Not running\n");
    }
    push_socket_line(out, &st.orchestrator_health);
    push_str(out, "\n");
    assert(final(out)@ =~= old(out)@ + orchestrator_section(*st));
}

fn push_worker_count_lines(out: &mut String, st: &WorkerStatus, detailed: bool)
    ensures
        final(out)@ == old(out)@ + worker_count_lines(*st, detailed),
{
    push_str(out, "Workers: ");
    push_decimal(out, st.worker_count as u64);
    push_str(out, "\n");
    let ghost s1 = out@;
    if st.worker_pids.len() > 0 && detailed {
        push_str(out, "  PIDs: ");
        let ghost s2 = out@;
        let ps = &st.worker_pids;
        push_decimal(out, ps[0] as u64);
        assert(ps@.take(1) =~= seq![ps@[0]]);
        let mut i: usize = 1;
        while i < ps.len()
            invariant
                1 <= i <= ps@.len(),
                out@ == s2 + pid_list(ps@.take(i as int)),
            decreases ps.len() - i,
        {
            push_str(out, ", ");
            push_decimal(out, ps[i] as u64);
            assert(ps@.take(i as int + 1).drop_last() =~= ps@.take(i as int));
            assert(out@ =~= s2 + pid_list(ps@.take(i as int + 1)));
            i += 1;
        }
        assert(ps@.take(i as int) =~= ps@);
        push_str(out, "\n");
    }
    push_str(out, "\n");
    assert(final(out)@ =~= old(out)@ + worker_count_lines(*st, detailed));
}

fn push_project_lines(out: &mut String, ps: &ProjectStats)
    ensures
        final(out)@ == old(out)@ + project_lines(*ps),
{
    push_str(out, "Project Statistics:\n");
    push_str(out, "  Open: ");
    push_decimal(out, ps.open_issues as u64);
    push_str(out, " (");
    push_decimal(out, ps.ready_issues as u64);
    push_str(out, " ready, ");
    push_decimal(out, ps.blocked_issues as u64);
    push_str(out, " blocked)\n");
    let ghost s1 = out@;
    push_str(out, "  In Progress: ");
    push_decimal(out, ps.in_progress_issues as u64);
    push_str(out, "\n");
    push_str(out, "  Closed: ");
    push_decimal(out, ps.closed_issues as u64);
    push_str(out, "\n");
    push_str(out, "\n");
    assert(final(out)@ =~= old(out)@ + project_lines(*ps));
}

fn push_workers_section(out: &mut String, st: &WorkerStatus, detailed: bool)
    ensures
        final(out)@ == old(out)@ + workers_section(*st, detailed),
{
    push_worker_count_lines(out, st, detailed);
    push_project_lines(out, &st.project_stats);
    assert(final(out)@ =~= old(out)@ + workers_section(*st, detailed));
}

fn push_activity_section(out: &mut String, st: &WorkerStatus, detailed: bool, now: u64)
    ensures
        final(out)@ == old(out)@ + activity_section(*st, detailed, now),
{
    let ghost s0 = out@;
    let acts = &st.recent_activity;
    if acts.len() > 0 && detailed {
        push_str(out, "Recent Activity:\n");
        let ghost s1 = out@;
        let mut i: usize = 0;
        while i < acts.len()
            invariant
                i <= acts@.len(),
                out@ == s1 + activity_lines(acts@.take(i as int), now),
            decreases acts.len() - i,
        {
            let a = &acts[i];
            let ghost s2 = out@;
            push_str(out, "  [");
            let t = format_timestamp_at(a.timestamp, now);
            push_str(out, t.as_str());
            push_str(out, "] ");
            push_str(out, a.activity_type.as_str());
            match &a.issue_id {
                Some(id) => {
                    push_str(out, " - ");
                    push_str(out, id.as_str());
                },
                None => {},
            }
            match &a.worker_id {
                Some(w) => {
                    push_str(out, " (worker: ");
                    push_str(out, w.as_str());
                    push_str(out, ")");
                },
                None => {},
            }
            push_str(out, "\n");
            assert(out@ =~= s2 + activity_line(*a, now));
            assert(acts@.take(i as int + 1).drop_last() =~= acts@.take(i as int));
            i += 1;
        }
        assert(acts@.take(i as int) =~= acts@);
    } else if acts.len() == 0 {
        push_str(out, "Recent Activity: None\n");
    }
    assert(out@ =~= s0 + activity_section(*st, detailed, now));
}

/// The human-readable status report at `now` (see `status_report`).
pub fn format_status_at(status: &WorkerStatus, detailed: bool, now: u64) -> (r: String)
    requires
        status.orchestrator_running ==> status.orchestrator_pid is Some,
    ensures
        r@ == status_report(*status, detailed, now),
{
    let mut out = String::new();
    push_orchestrator_section(&mut out, status);
    push_workers_section(&mut out, status, detailed);
    push_activity_section(&mut out, status, detailed, now);
    assert(out@ =~= status_report(*status, detailed, now));
    out
}

/// The human-readable status report now.
pub fn format_status(status: &WorkerStatus, detailed: bool) -> (r: String)
    requires
        status.orchestrator_running ==> status.orchestrator_pid is Some,
    ensures
        exists|now: u64| r@ == status_report(*status, detailed, now),
{
    format_status_at(status, detailed, unix_seconds())
}

} // verus!
