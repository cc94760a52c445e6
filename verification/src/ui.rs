//! The live dashboard and the plain status display: what they show, as text
//! with terminal colors, and how the dashboard reacts to keys.
//!
//! The terminal itself (raw mode, cursor, reading keys, printing) is driven
//! by the caller, which prints the segments built here.

use vstd::prelude::*;
use crate::text::{
    chars_of, decimal, pad_right, push_decimal, push_padded, push_str, string_from_chars_range,
    utf8_len, utf8_width, utf8_width_exec,
};
use crate::types::{WorkerInfo, WorkerState, unix_seconds};

verus! {

/// Bytes of a task id shown before it is cut.
pub const TASK_LABEL_BYTES: usize = 22;

/// Counts shown by the dashboard.
#[derive(Debug, Clone, Copy, PartialEq, Eq, Structural)]
pub struct DashboardStats {
    /// Registered workers.
    pub total_workers: usize,
    /// Idle workers.
    pub idle_workers: usize,
    /// Working workers.
    pub working_workers: usize,
    /// Waiting workers.
    pub waiting_workers: usize,
    /// Disconnected workers.
    pub disconnected_workers: usize,
    /// Tasks completed.
    pub total_tasks_completed: u64,
    /// Tasks failed.
    pub total_tasks_failed: u64,
    /// Tasks waiting in the queue.
    pub tasks_in_queue: usize,
}

impl Default for DashboardStats {
    fn default() -> (s: Self)
        ensures
            s == (DashboardStats {
                total_workers: 0,
                idle_workers: 0,
                working_workers: 0,
                waiting_workers: 0,
                disconnected_workers: 0,
                total_tasks_completed: 0,
                total_tasks_failed: 0,
                tasks_in_queue: 0,
            }),
    {
        DashboardStats {
            total_workers: 0,
            idle_workers: 0,
            working_workers: 0,
            waiting_workers: 0,
            disconnected_workers: 0,
            total_tasks_completed: 0,
            total_tasks_failed: 0,
            tasks_in_queue: 0,
        }
    }
}

/// A terminal color.
#[derive(Debug, Clone, Copy, PartialEq, Eq, Structural)]
pub enum TermColor {
    Cyan,
    Yellow,
    Green,
    Blue,
    Magenta,
    Red,
    DarkGrey,
}

/// Text printed in one color (or the terminal's own color).
#[derive(Debug, Clone, PartialEq, Eq)]
pub struct Segment {
    /// The color, if any.
    pub color: Option<TermColor>,
    /// The text.
    pub text: String,
}

impl View for Segment {
    type V = (Option<TermColor>, Seq<char>);

    open spec fn view(&self) -> (Option<TermColor>, Seq<char>) {
        (self.color, self.text@)
    }
}

/// The key codes the dashboard tells apart.
#[derive(Debug, Clone, Copy, PartialEq, Eq, Structural)]
pub enum KeyPress {
    /// A character key.
    Char(char),
    /// The escape key.
    Esc,
    /// Any other key.
    Other,
}

/// A key event: the key and whether Control was held.
#[derive(Debug, Clone, Copy, PartialEq, Eq, Structural)]
pub struct KeyInput {
    /// The key.
    pub code: KeyPress,
    /// Whether Control was held.
    pub control: bool,
}

/// Whether a key ends the dashboard: q or Q, Control-C, or Escape.
pub open spec fn quits(key: KeyInput) -> bool {
    match key.code {
        KeyPress::Char(c) => c == 'q' || c == 'Q' || (c == 'c' && key.control),
        KeyPress::Esc => true,
        KeyPress::Other => false,
    }
}

/// The name the dashboard shows for a state.
pub open spec fn state_label(state: WorkerState) -> Seq<char> {
    match state {
        WorkerState::Idle => "Idle"@,
        WorkerState::Working => "Working"@,
        WorkerState::Waiting => "Waiting"@,
        WorkerState::ShuttingDown => "Shutting Down"@,
        WorkerState::Disconnected => "Disconnected"@,
    }
}

/// The name of a state as its `Debug` form writes it.
pub open spec fn state_debug_name(state: WorkerState) -> Seq<char> {
    match state {
        WorkerState::Idle => "Idle"@,
        WorkerState::Working => "Working"@,
        WorkerState::Waiting => "Waiting"@,
        WorkerState::ShuttingDown => "ShuttingDown"@,
        WorkerState::Disconnected => "Disconnected"@,
    }
}

/// The color of a state on the dashboard.
pub open spec fn state_color(state: WorkerState) -> TermColor {
    match state {
        WorkerState::Idle => TermColor::Green,
        WorkerState::Working => TermColor::Blue,
        WorkerState::Waiting => TermColor::Yellow,
        WorkerState::ShuttingDown => TermColor::Magenta,
        WorkerState::Disconnected => TermColor::Red,
    }
}

/// The name of a state as its `Debug` form writes it.
pub fn debug_name(state: WorkerState) -> (r: String)
    ensures
        r@ == state_debug_name(state),
{
    match state {
        WorkerState::Idle => String::from_str("Idle"),
        WorkerState::Working => String::from_str("Working"),
        WorkerState::Waiting => String::from_str("Waiting"),
        WorkerState::ShuttingDown => String::from_str("ShuttingDown"),
        WorkerState::Disconnected => String::from_str("Disconnected"),
    }
}

/// Whether a text has a character boundary `bytes` bytes into it.
pub open spec fn has_boundary(s: Seq<char>, bytes: nat) -> bool {
    exists|k: int| 0 <= k <= s.len() && utf8_len(#[trigger] s.take(k)) == bytes
}

/// The characters of `s` that take its first `bytes` bytes.
pub open spec fn chars_in_bytes(s: Seq<char>, bytes: nat) -> int {
    choose|k: int| 0 <= k <= s.len() && utf8_len(#[trigger] s.take(k)) == bytes
}

/// A task id cuts cleanly for display: if it is longer than
/// `TASK_LABEL_BYTES` bytes, a character ends there.
pub open spec fn cuts_cleanly(task: Option<String>) -> bool {
    match task {
        Some(t) => utf8_len(t@) > TASK_LABEL_BYTES ==> has_boundary(t@, TASK_LABEL_BYTES as nat),
        None => true,
    }
}

/// How the current task shows in a table: "-" for none; an id longer than
/// `TASK_LABEL_BYTES` bytes cut there and followed by "...".
pub open spec fn task_label(task: Option<String>) -> Seq<char> {
    match task {
        Some(t) => if utf8_len(t@) > TASK_LABEL_BYTES {
            t@.take(chars_in_bytes(t@, TASK_LABEL_BYTES as nat)) + "..."@
        } else {
            t@
        },
        None => "-"@,
    }
}

proof fn lemma_utf8_len_take(s: Seq<char>, k: int)
    requires
        0 <= k < s.len(),
    ensures
        utf8_len(s.take(k + 1)) == utf8_len(s.take(k)) + utf8_width(s[k]),
{
    assert(s.take(k + 1).drop_last() =~= s.take(k));
}

proof fn lemma_utf8_len_monotone(s: Seq<char>, a: int, b: int)
    requires
        0 <= a <= b <= s.len(),
    ensures
        utf8_len(s.take(a)) + (b - a) <= utf8_len(s.take(b)),
    decreases b - a,
{
    if a < b {
        lemma_utf8_len_monotone(s, a, b - 1);
        lemma_utf8_len_take(s, b - 1);
    }
}

/// How the current task shows in a table (see `task_label`).
pub fn task_label_exec(task: &Option<String>) -> (r: String)
    requires
        cuts_cleanly(*task),
    ensures
        r@ == task_label(*task),
{
    match task {
        None => String::from_str("-"),
        Some(t) => {
            let cs = chars_of(t.as_str());
            let ghost s = t@;
            let mut total: usize = 0;
            let mut i: usize = 0;
            while i < cs.len() && total <= TASK_LABEL_BYTES
                invariant
                    i <= cs@.len(),
                    cs@ == s,
                    total == utf8_len(s.take(i as int)),
                    total <= TASK_LABEL_BYTES + 4,
                decreases cs.len() - i,
            {
                proof { lemma_utf8_len_take(s, i as int); }
                total = total + utf8_width_exec(cs[i]);
                i += 1;
            }
            if total <= TASK_LABEL_BYTES {
                assert(i == cs@.len());
                assert(s.take(i as int) =~= s);
                return t.clone();
            }
            proof {
                lemma_utf8_len_monotone(s, i as int, s.len() as int);
                assert(s.take(s.len() as int) =~= s);
            }
            let mut bytes: usize = 0;
            let mut k: usize = 0;
            while bytes < TASK_LABEL_BYTES
                invariant
                    k <= cs@.len(),
                    cs@ == s,
                    utf8_len(s) > TASK_LABEL_BYTES,
                    bytes == utf8_len(s.take(k as int)),
                    bytes <= TASK_LABEL_BYTES + 3,
                    k > 0 ==> utf8_len(s.take(k - 1)) < TASK_LABEL_BYTES,
                decreases cs.len() - k,
            {
                if k == cs.len() {
                    assert(s.take(k as int) =~= s);
                    assert(false);
                }
                assert(k < cs.len());
                proof { lemma_utf8_len_take(s, k as int); }
                bytes = bytes + utf8_width_exec(cs[k]);
                k += 1;
            }
            proof {
                let kk = chars_in_bytes(s, TASK_LABEL_BYTES as nat);
                assert(has_boundary(s, TASK_LABEL_BYTES as nat));
                assert(0 <= kk <= s.len() && utf8_len(s.take(kk)) == TASK_LABEL_BYTES);
                if kk < k {
                    lemma_utf8_len_monotone(s, kk, (k - 1) as int);
                    lemma_utf8_len_take(s, (k - 1) as int);
                    assert(utf8_len(s.take((k - 1) as int)) < TASK_LABEL_BYTES);
                }
                if kk > k {
                    lemma_utf8_len_monotone(s, k as int, kk);
                }
                assert(kk == k);
            }
            let mut r = string_from_chars_range(&cs, 0, k);
            assert(r@ =~= s.take(k as int));
            push_str(&mut r, "...");
            r
        },
    }
}

/// `n` copies of `c`.
pub open spec fn rule(c: char, n: nat) -> Seq<char> {
    Seq::new(n, |i: int| c)
}

/// Appends `n` copies of `c`.
fn push_rule(s: &mut String, c: char, n: usize)
    ensures
        final(s)@ == old(s)@ + rule(c, n as nat),
{
    let ghost s0 = s@;
    let mut i: usize = 0;
    while i < n
        invariant
            i <= n,
            s@ == s0 + rule(c, i as nat),
        decreases n - i,
    {
        crate::text::push_char(s, c);
        assert(rule(c, (i + 1) as nat) =~= rule(c, i as nat).push(c));
        i += 1;
    }
}

/// The heavy rule of the headers.
pub open spec fn heavy_rule() -> Seq<char> {
    rule('\u{2550}', 79) + "\n"@
}

/// The light rule under section titles.
pub open spec fn light_rule() -> Seq<char> {
    rule('\u{2500}', 79) + "\n"@
}

/// The column titles of the worker table.
pub open spec fn table_header() -> Seq<char> {
    pad_right("Worker ID"@, 12) + " "@ + pad_right("State"@, 15) + " "@ + pad_right("Current Task"@, 25) + " "@
        + pad_right("Completed"@, 10) + " "@ + pad_right("Failed"@, 10) + "\n"@
}

/// The worker counts line.
pub open spec fn worker_counts_line(st: DashboardStats) -> Seq<char> {
    "  Total Workers: "@ + decimal(st.total_workers as nat) + "  |  Idle: "@ + decimal(st.idle_workers as nat)
        + "  |  Working: "@ + decimal(st.working_workers as nat) + "  |  Waiting: "@ + decimal(st.waiting_workers as nat)
        + "  |  Disconnected: "@ + decimal(st.disconnected_workers as nat) + "\n"@
}

/// The task counts line.
pub open spec fn task_counts_line(st: DashboardStats) -> Seq<char> {
    "  Tasks Completed: "@ + decimal(st.total_tasks_completed as nat) + "  |  Tasks Failed: "@
        + decimal(st.total_tasks_failed as nat) + "  |  Queue: "@ + decimal(st.tasks_in_queue as nat) + "\n"@
}

/// The columns after the state in a worker's table row.
pub open spec fn row_tail(w: WorkerInfo) -> Seq<char> {
    " "@ + pad_right(task_label(w.current_task), 25) + " "@ + pad_right(decimal(w.tasks_completed as nat), 10) + " "@
        + pad_right(decimal(w.tasks_failed as nat), 10) + "\n"@
}

/// A worker's row on the dashboard: id, state in its color, the rest.
pub open spec fn dashboard_row(w: WorkerInfo) -> Seq<(Option<TermColor>, Seq<char>)> {
    seq![
        (None, pad_right(w.worker_id@, 12) + " "@),
        (Some(state_color(w.state)), pad_right(state_label(w.state), 15)),
        (None, row_tail(w)),
    ]
}

/// The rows of several workers on the dashboard.
pub open spec fn dashboard_rows(ws: Seq<WorkerInfo>) -> Seq<(Option<TermColor>, Seq<char>)>
    decreases ws.len(),
{
    if ws.len() == 0 { Seq::empty() } else { dashboard_rows(ws.drop_last()) + dashboard_row(ws.last()) }
}

/// The task ids of all workers cut cleanly.
pub open spec fn all_cut_cleanly(ws: Seq<WorkerInfo>) -> bool {
    forall|i: int| 0 <= i < ws.len() ==> cuts_cleanly(#[trigger] ws[i].current_task)
}

/// The dashboard's screen: header, counts, worker table and footer.
pub open spec fn dashboard_screen(st: DashboardStats, ws: Seq<WorkerInfo>, refresh_secs: u64) -> Seq<(Option<TermColor>, Seq<char>)> {
    seq![
        (Some(TermColor::Cyan), heavy_rule() + "                        BEADS WORKERS - LIVE DASHBOARD                         \n"@ + heavy_rule()),
        (None, "\n"@),
        (Some(TermColor::Yellow), "SYSTEM OVERVIEW\n"@),
        (None, light_rule()),
        (None, worker_counts_line(st) + task_counts_line(st) + "\n\n"@),
        (Some(TermColor::Yellow), "WORKER STATUS\n"@),
        (None, light_rule()),
        (None, table_header() + rule('\u{2500}', 81) + "\n"@),
    ]
        + (if ws.len() == 0 { seq![(None, "\n  No workers connected.\n\n"@)] } else { dashboard_rows(ws) })
        + seq![
            (None, "\n\n"@),
            (None, light_rule()),
            (Some(TermColor::DarkGrey), "Press 'q' or Ctrl+C to quit  |  Refreshing every "@ + decimal(refresh_secs as nat) + "s\n"@),
        ]
}

/// The views of segments.
pub open spec fn segment_views(v: Seq<Segment>) -> Seq<(Option<TermColor>, Seq<char>)> {
    v.map_values(|s: Segment| s@)
}

fn push_segment(v: &mut Vec<Segment>, color: Option<TermColor>, text: String)
    ensures
        segment_views(final(v)@) == segment_views(old(v)@).push((color, text@)),
{
    v.push(Segment { color, text });
    assert(segment_views(final(v)@) =~= segment_views(old(v)@).push((color, text@)));
}

fn push_table_header(s: &mut String)
    ensures
        final(s)@ == old(s)@ + table_header(),
{
    push_padded(s, "Worker ID", 12);
    push_str(s, " ");
    push_padded(s, "State", 15);
    push_str(s, " ");
    push_padded(s, "Current Task", 25);
    push_str(s, " ");
    push_padded(s, "Completed", 10);
    push_str(s, " ");
    push_padded(s, "Failed", 10);
    push_str(s, "\n");
    assert(final(s)@ =~= old(s)@ + table_header());
}

fn push_worker_counts_line(s: &mut String, st: &DashboardStats)
    ensures
        final(s)@ == old(s)@ + worker_counts_line(*st),
{
    push_str(s, "  Total Workers: ");
    push_decimal(s, st.total_workers as u64);
    push_str(s, "  |  Idle: ");
    push_decimal(s, st.idle_workers as u64);
    push_str(s, "  |  Working: ");
    push_decimal(s, st.working_workers as u64);
    push_str(s, "  |  Waiting: ");
    push_decimal(s, st.waiting_workers as u64);
    push_str(s, "  |  Disconnected: ");
    push_decimal(s, st.disconnected_workers as u64);
    push_str(s, "\n");
    assert(final(s)@ =~= old(s)@ + worker_counts_line(*st));
}

fn push_task_counts_line(s: &mut String, st: &DashboardStats)
    ensures
        final(s)@ == old(s)@ + task_counts_line(*st),
{
    push_str(s, "  Tasks Completed: ");
    push_decimal(s, st.total_tasks_completed);
    push_str(s, "  |  Tasks Failed: ");
    push_decimal(s, st.total_tasks_failed);
    push_str(s, "  |  Queue: ");
    push_decimal(s, st.tasks_in_queue as u64);
    push_str(s, "\n");
    assert(final(s)@ =~= old(s)@ + task_counts_line(*st));
}

fn push_row_tail(s: &mut String, w: &WorkerInfo)
    requires
        cuts_cleanly(w.current_task),
    ensures
        final(s)@ == old(s)@ + row_tail(*w),
{
    let task = task_label_exec(&w.current_task);
    let done = crate::text::to_decimal(w.tasks_completed);
    let failed = crate::text::to_decimal(w.tasks_failed);
    push_str(s, " ");
    push_padded(s, task.as_str(), 25);
    push_str(s, " ");
    push_padded(s, done.as_str(), 10);
    push_str(s, " ");
    push_padded(s, failed.as_str(), 10);
    push_str(s, "\n");
    assert(final(s)@ =~= old(s)@ + row_tail(*w));
}

fn state_label_exec(state: WorkerState) -> (r: String)
    ensures
        r@ == state_label(state),
{
    match state {
        WorkerState::Idle => String::from_str("Idle"),
        WorkerState::Working => String::from_str("Working"),
        WorkerState::Waiting => String::from_str("Waiting"),
        WorkerState::ShuttingDown => String::from_str("Shutting Down"),
        WorkerState::Disconnected => String::from_str("Disconnected"),
    }
}

fn state_color_exec(state: WorkerState) -> (r: TermColor)
    ensures
        r == state_color(state),
{
    match state {
        WorkerState::Idle => TermColor::Green,
        WorkerState::Working => TermColor::Blue,
        WorkerState::Waiting => TermColor::Yellow,
        WorkerState::ShuttingDown => TermColor::Magenta,
        WorkerState::Disconnected => TermColor::Red,
    }
}

/// The dashboard.
#[derive(Debug, Clone, Copy, PartialEq, Eq, Structural)]
pub struct Dashboard {
    refresh_interval_secs: u64,
    running: bool,
}

impl Dashboard {
    /// Seconds between refreshes.
    pub closed spec fn spec_refresh_secs(&self) -> u64 {
        self.refresh_interval_secs
    }

    /// Whether the dashboard runs.
    pub closed spec fn spec_running(&self) -> bool {
        self.running
    }

    /// A dashboard refreshing every `refresh_interval` seconds, not yet running.
    pub fn new(refresh_interval: u64) -> (d: Self)
        ensures
            d.spec_refresh_secs() == refresh_interval,
            !d.spec_running(),
    {
        Dashboard { refresh_interval_secs: refresh_interval, running: false }
    }

    /// Seconds between refreshes.
    pub fn refresh_interval_secs(&self) -> (r: u64)
        ensures
            r == self.spec_refresh_secs(),
    {
        self.refresh_interval_secs
    }

    /// Whether the dashboard runs.
    pub fn is_running(&self) -> (r: bool)
        ensures
            r == self.spec_running(),
    {
        self.running
    }

    /// Marks the dashboard as running.
    pub fn start(&mut self)
        ensures
            final(self).spec_running(),
            final(self).spec_refresh_secs() == old(self).spec_refresh_secs(),
    {
        self.running = true;
    }

    /// The name the dashboard shows for a state.
    pub fn format_worker_state(&self, state: WorkerState) -> (r: String)
        ensures
            r@ == state_label(state),
    {
        state_label_exec(state)
    }

    /// Reacts to a key: a quitting key stops the dashboard and is reported.
    pub fn handle_key_event(&mut self, key: KeyInput) -> (quit: bool)
        ensures
            quit == quits(key),
            final(self).spec_running() == (old(self).spec_running() && !quits(key)),
            final(self).spec_refresh_secs() == old(self).spec_refresh_secs(),
    {
        let q = match key.code {
            KeyPress::Char(c) => c == 'q' || c == 'Q' || (c == 'c' && key.control),
            KeyPress::Esc => true,
            KeyPress::Other => false,
        };
        if q {
            self.running = false;
        }
        q
    }

    /// The screen for the given counts and workers (see `dashboard_screen`).
    pub fn screen(&self, stats: &DashboardStats, workers: &Vec<WorkerInfo>) -> (r: Vec<Segment>)
        requires
            all_cut_cleanly(workers@),
        ensures
            segment_views(r@) == dashboard_screen(*stats, workers@, self.spec_refresh_secs()),
    {
        let mut v: Vec<Segment> = Vec::new();
        let mut head = String::new();
        push_rule(&mut head, '\u{2550}', 79);
        push_str(&mut head, "\n");
        push_str(&mut head, "                        BEADS WORKERS - LIVE DASHBOARD                         \n");
        push_rule(&mut head, '\u{2550}', 79);
        push_str(&mut head, "\n");
        assert(head@ =~= heavy_rule() + "                        BEADS WORKERS - LIVE DASHBOARD                         \n"@ + heavy_rule());
        push_segment(&mut v, Some(TermColor::Cyan), head);
        push_segment(&mut v, None, String::from_str("\n"));
        push_segment(&mut v, Some(TermColor::Yellow), String::from_str("SYSTEM OVERVIEW\n"));
        let mut rule1 = String::new();
        push_rule(&mut rule1, '\u{2500}', 79);
        push_str(&mut rule1, "\n");
        assert(rule1@ =~= light_rule());
        push_segment(&mut v, None, rule1);
        let mut counts = String::new();
        push_worker_counts_line(&mut counts, stats);
        push_task_counts_line(&mut counts, stats);
        push_str(&mut counts, "\n\n");
        assert(counts@ =~= worker_counts_line(*stats) + task_counts_line(*stats) + "\n\n"@);
        push_segment(&mut v, None, counts);
        push_segment(&mut v, Some(TermColor::Yellow), String::from_str("WORKER STATUS\n"));
        let mut rule2 = String::new();
        push_rule(&mut rule2, '\u{2500}', 79);
        push_str(&mut rule2, "\n");
        assert(rule2@ =~= light_rule());
        push_segment(&mut v, None, rule2);
        let mut titles = String::new();
        push_table_header(&mut titles);
        push_rule(&mut titles, '\u{2500}', 81);
        push_str(&mut titles, "\n");
        assert(titles@ =~= table_header() + rule('\u{2500}', 81) + "\n"@);
        push_segment(&mut v, None, titles);
        let ghost prefix = segment_views(v@);
        let ghost first = dashboard_screen(*stats, workers@, self.spec_refresh_secs());
        assert(prefix =~= seq![
            (Some(TermColor::Cyan), heavy_rule() + "                        BEADS WORKERS - LIVE DASHBOARD                         \n"@ + heavy_rule()),
            (None, "\n"@),
            (Some(TermColor::Yellow), "SYSTEM OVERVIEW\n"@),
            (None, light_rule()),
            (None, worker_counts_line(*stats) + task_counts_line(*stats) + "\n\n"@),
            (Some(TermColor::Yellow), "WORKER STATUS\n"@),
            (None, light_rule()),
            (None, table_header() + rule('\u{2500}', 81) + "\n"@),
        ]);
        if workers.len() == 0 {
            push_segment(&mut v, None, String::from_str("\n  No workers connected.\n\n"));
        } else {
            let mut i: usize = 0;
            while i < workers.len()
                invariant
                    i <= workers@.len(),
                    all_cut_cleanly(workers@),
                    segment_views(v@) == prefix + dashboard_rows(workers@.take(i as int)),
                decreases workers.len() - i,
            {
                let w = &workers[i];
                assert(cuts_cleanly(workers@[i as int].current_task));
                let mut idcell = String::new();
                push_padded(&mut idcell, w.worker_id.as_str(), 12);
                push_str(&mut idcell, " ");
                push_segment(&mut v, None, idcell);
                let label = state_label_exec(w.state);
                let mut statecell = String::new();
                push_padded(&mut statecell, label.as_str(), 15);
                push_segment(&mut v, Some(state_color_exec(w.state)), statecell);
                let mut tail = String::new();
                push_row_tail(&mut tail, w);
                push_segment(&mut v, None, tail);
                assert(workers@.take(i as int + 1).drop_last() =~= workers@.take(i as int));
                assert(segment_views(v@) =~= prefix + dashboard_rows(workers@.take(i as int + 1)));
                i += 1;
            }
            assert(workers@.take(i as int) =~= workers@);
        }
        let ghost middle = segment_views(v@);
        assert(middle == prefix + (if workers@.len() == 0 { seq![(None, "\n  No workers connected.\n\n"@)] } else { dashboard_rows(workers@) }));
        push_segment(&mut v, None, String::from_str("\n\n"));
        let mut rule3 = String::new();
        push_rule(&mut rule3, '\u{2500}', 79);
        push_str(&mut rule3, "\n");
        push_segment(&mut v, None, rule3);
        let mut help = String::new();
        push_str(&mut help, "Press 'q' or Ctrl+C to quit  |  Refreshing every ");
        push_decimal(&mut help, self.refresh_interval_secs);
        push_str(&mut help, "s\n");
        assert(rule3@ =~= light_rule());
        assert(help@ =~= "Press 'q' or Ctrl+C to quit  |  Refreshing every "@ + decimal(self.spec_refresh_secs() as nat) + "s\n"@);
        push_segment(&mut v, Some(TermColor::DarkGrey), help);
        assert(segment_views(v@) =~= dashboard_screen(*stats, workers@, self.spec_refresh_secs()));
        v
    }
}

/// A worker's row in the plain status display.
pub open spec fn plain_row(w: WorkerInfo) -> Seq<char> {
    pad_right(w.worker_id@, 12) + " "@ + pad_right(state_debug_name(w.state), 15) + row_tail(w)
}

/// The rows of several workers in the plain status display.
pub open spec fn plain_rows(ws: Seq<WorkerInfo>) -> Seq<char>
    decreases ws.len(),
{
    if ws.len() == 0 { Seq::empty() } else { plain_rows(ws.drop_last()) + plain_row(ws.last()) }
}

/// The worker table of the plain status display.
pub open spec fn plain_table(ws: Seq<WorkerInfo>) -> Seq<char> {
    "WORKER STATUS\n"@ + light_rule() + table_header() + light_rule()
        + (if ws.len() == 0 { "  No workers connected.\n"@ } else { plain_rows(ws) })
        + "\n"@
}

/// The plain (non-live) status display; the detailed one adds the worker table.
pub open spec fn status_display(st: DashboardStats, ws: Seq<WorkerInfo>, detailed: bool) -> Seq<char> {
    heavy_rule() + "                         BEADS WORKERS - STATUS                                \n"@ + heavy_rule() + "\n"@
        + "SYSTEM OVERVIEW\n"@ + light_rule() + worker_counts_line(st) + task_counts_line(st) + "\n"@
        + (if detailed { plain_table(ws) } else { Seq::empty() })
        + light_rule()
}

fn push_plain_table(s: &mut String, workers: &Vec<WorkerInfo>)
    requires
        all_cut_cleanly(workers@),
    ensures
        final(s)@ == old(s)@ + plain_table(workers@),
{
    let ghost s0 = s@;
    push_str(s, "WORKER STATUS\n");
    push_rule(s, '\u{2500}', 79);
    push_str(s, "\n");
    push_table_header(s);
    push_rule(s, '\u{2500}', 79);
    push_str(s, "\n");
    let ghost s1 = s@;
    assert(s1 =~= s0 + "WORKER STATUS\n"@ + light_rule() + table_header() + light_rule());
    if workers.len() == 0 {
        push_str(s, "  No workers connected.\n");
    } else {
        let mut i: usize = 0;
        while i < workers.len()
            invariant
                i <= workers@.len(),
                all_cut_cleanly(workers@),
                s@ == s1 + plain_rows(workers@.take(i as int)),
            decreases workers.len() - i,
        {
            let w = &workers[i];
            assert(cuts_cleanly(workers@[i as int].current_task));
            let ghost before = s@;
            push_padded(s, w.worker_id.as_str(), 12);
            push_str(s, " ");
            let name = debug_name(w.state);
            push_padded(s, name.as_str(), 15);
            push_row_tail(s, w);
            assert(s@ =~= before + plain_row(*w));
            assert(workers@.take(i as int + 1).drop_last() =~= workers@.take(i as int));
            i += 1;
        }
        assert(workers@.take(i as int) =~= workers@);
    }
    push_str(s, "\n");
    assert(s@ =~= s0 + plain_table(workers@));
}

/// The plain status display (see `status_display`).
pub fn display_status_text(stats: &DashboardStats, workers: &Vec<WorkerInfo>, detailed: bool) -> (r: String)
    requires
        detailed ==> all_cut_cleanly(workers@),
    ensures
        r@ == status_display(*stats, workers@, detailed),
{
    let mut s = String::new();
    push_rule(&mut s, '\u{2550}', 79);
    push_str(&mut s, "\n");
    push_str(&mut s, "                         BEADS WORKERS - STATUS                                \n");
    push_rule(&mut s, '\u{2550}', 79);
    push_str(&mut s, "\n");
    push_str(&mut s, "\n");
    let ghost s1 = s@;
    assert(s1 =~= heavy_rule() + "                         BEADS WORKERS - STATUS                                \n"@ + heavy_rule() + "\n"@);
    push_str(&mut s, "SYSTEM OVERVIEW\n");
    push_rule(&mut s, '\u{2500}', 79);
    push_str(&mut s, "\n");
    push_worker_counts_line(&mut s, stats);
    push_task_counts_line(&mut s, stats);
    push_str(&mut s, "\n");
    let ghost s2 = s@;
    assert(s2 =~= s1 + "SYSTEM OVERVIEW\n"@ + light_rule() + worker_counts_line(*stats) + task_counts_line(*stats) + "\n"@);
    if detailed {
        push_plain_table(&mut s, workers);
    }
    push_rule(&mut s, '\u{2500}', 79);
    push_str(&mut s, "\n");
    assert(s@ =~= status_display(*stats, workers@, detailed));
    s
}

/// The counts the dashboard shows until it is connected to an orchestrator.
pub open spec fn sample_stats() -> DashboardStats {
    DashboardStats {
        total_workers: 5,
        idle_workers: 2,
        working_workers: 2,
        waiting_workers: 1,
        disconnected_workers: 0,
        total_tasks_completed: 42,
        total_tasks_failed: 3,
        tasks_in_queue: 7,
    }
}

/// The state of the `i`-th sample worker.
pub open spec fn sample_state(i: int) -> WorkerState {
    if i % 4 == 0 {
        WorkerState::Idle
    } else if i % 4 == 1 {
        WorkerState::Working
    } else if i % 4 == 2 {
        WorkerState::Waiting
    } else {
        WorkerState::Idle
    }
}

impl Dashboard {
    /// The counts shown until the dashboard is connected to an orchestrator.
    pub fn fetch_stats(&self) -> (r: DashboardStats)
        ensures
            r == sample_stats(),
    {
        DashboardStats {
            total_workers: 5,
            idle_workers: 2,
            working_workers: 2,
            waiting_workers: 1,
            disconnected_workers: 0,
            total_tasks_completed: 42,
            total_tasks_failed: 3,
            tasks_in_queue: 7,
        }
    }

    /// The workers shown until the dashboard is connected to an orchestrator:
    /// W1 to W5, registered at `now`, with states by number, a task for those
    /// working, and `10 i` completed and `i` failed tasks.
    pub fn fetch_workers_at(&self, now: u64) -> (r: Vec<WorkerInfo>)
        ensures
            r@.len() == 5,
            forall|k: int| 0 <= k < 5 ==> {
                let w = #[trigger] r@[k];
                let i = k + 1;
                &&& w.worker_id@ == seq!['W'] + decimal(i as nat)
                &&& w.state == sample_state(i)
                &&& (w.state == WorkerState::Working) == (w.current_task is Some)
                &&& w.current_task is Some ==> w.current_task.unwrap()@ == "beads-workers-abc-"@ + decimal(i as nat)
                &&& w.tasks_completed == 10 * i
                &&& w.tasks_failed == i
                &&& w.registered_at == now
                &&& w.last_seen == now
            },
    {
        let mut workers: Vec<WorkerInfo> = Vec::new();
        let mut i: u64 = 1;
        while i <= 5
            invariant
                1 <= i <= 6,
                workers@.len() == i - 1,
                forall|k: int| 0 <= k < i - 1 ==> {
                    let w = #[trigger] workers@[k];
                    let n = k + 1;
                    &&& w.worker_id@ == seq!['W'] + decimal(n as nat)
                    &&& w.state == sample_state(n)
                    &&& (w.state == WorkerState::Working) == (w.current_task is Some)
                    &&& w.current_task is Some ==> w.current_task.unwrap()@ == "beads-workers-abc-"@ + decimal(n as nat)
                    &&& w.tasks_completed == 10 * n
                    &&& w.tasks_failed == n
                    &&& w.registered_at == now
                    &&& w.last_seen == now
                },
            decreases 6 - i,
        {
            let mut id = String::new();
            crate::text::push_char(&mut id, 'W');
            push_decimal(&mut id, i);
            let mut worker = WorkerInfo::new_at(id, now);
            worker.state = if i % 4 == 0 {
                WorkerState::Idle
            } else if i % 4 == 1 {
                WorkerState::Working
            } else if i % 4 == 2 {
                WorkerState::Waiting
            } else {
                WorkerState::Idle
            };
            if worker.state == WorkerState::Working {
                let mut task = String::new();
                push_str(&mut task, "beads-workers-abc-");
                push_decimal(&mut task, i);
                worker.current_task = Some(task);
            }
            worker.tasks_completed = i * 10;
            worker.tasks_failed = i;
            workers.push(worker);
            i += 1;
        }
        workers
    }

    /// The sample workers, registered now.
    pub fn fetch_workers(&self) -> (r: Vec<WorkerInfo>)
        ensures
            r@.len() == 5,
    {
        self.fetch_workers_at(unix_seconds())
    }
}

} // verus!
