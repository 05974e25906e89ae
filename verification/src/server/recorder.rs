//! The bookkeeping of the call recorder, which appends one JSON line per tool call to
//! `history.jsonl` (and per failure to `errors.jsonl`) in the server's directory and
//! keeps those files short. Writing the files is the application's part.

use vstd::prelude::*;

verus! {

broadcast use vstd::string::group_string_axioms;

/// File of the call history.
pub const HISTORY_FILE: &'static str = "history.jsonl";
/// File of the recent errors.
pub const ERRORS_FILE: &'static str = "errors.jsonl";
/// Lines kept in the history file.
pub const MAX_HISTORY_LINES: usize = 1000;
/// Lines kept in the errors file.
pub const MAX_ERROR_LINES: usize = 20;
/// Files are shortened on every hundredth write.
pub const TRUNCATE_EVERY_N_WRITES: u32 = 100;

/// One line of `history.jsonl`.
#[derive(Debug)]
pub struct HistoryEntry {
    pub ts: i64,
    pub tool: String,
    /// The call's arguments as JSON text.
    pub args_json: String,
    pub out_chars: usize,
    pub tokens_est: usize,
    pub status: String,
}

/// One line of `errors.jsonl`.
#[derive(Debug)]
pub struct ErrorEntry {
    pub ts: i64,
    pub tool: String,
    pub status: String,
    pub message: String,
}

/// Where the recorder writes, and how many writes each file has had.
#[derive(Debug)]
pub struct Recorder {
    dir: String,
    history_writes: u32,
    error_writes: u32,
}

/// Whether the write that follows `writes_before` earlier writes is one that shortens the
/// file (the counter wraps around like the atomic counter it models).
pub open spec fn truncation_due_spec(writes_before: u32) -> bool {
    (if writes_before == u32::MAX {
        0
    } else {
        writes_before + 1
    }) % 100 == 0
}

/// Whether the write that follows `writes_before` earlier writes shortens the file.
pub fn truncation_due(writes_before: u32) -> (b: bool)
    ensures
        b == truncation_due_spec(writes_before),
{
    writes_before.wrapping_add(1) % TRUNCATE_EVERY_N_WRITES == 0
}

impl Recorder {
    /// A recorder rooted at `dir` (which must exist), with no writes yet.
    pub fn new(dir: String) -> (r: Recorder)
        ensures
            r.dir_spec() == dir@,
            r.history_writes_spec() == 0,
            r.error_writes_spec() == 0,
    {
        Recorder { dir, history_writes: 0, error_writes: 0 }
    }

    pub closed spec fn dir_spec(&self) -> Seq<char> {
        self.dir@
    }

    pub closed spec fn history_writes_spec(&self) -> u32 {
        self.history_writes
    }

    pub closed spec fn error_writes_spec(&self) -> u32 {
        self.error_writes
    }

    /// The directory the files live in.
    pub fn dir(&self) -> (d: &str)
        ensures
            d@ == self.dir_spec(),
    {
        self.dir.as_str()
    }

    /// Counts one history write; true when this write should shorten the history file
    /// to its last [`MAX_HISTORY_LINES`] lines.
    pub fn maybe_truncate_history(&mut self) -> (due: bool)
        ensures
            due == truncation_due_spec(old(self).history_writes_spec()),
            final(self).history_writes_spec() == (if old(self).history_writes_spec() == u32::MAX {
                0
            } else {
                old(self).history_writes_spec() + 1
            }),
            final(self).error_writes_spec() == old(self).error_writes_spec(),
            final(self).dir_spec() == old(self).dir_spec(),
    {
        let n = self.history_writes;
        self.history_writes = n.wrapping_add(1);
        truncation_due(n)
    }

    /// Counts one error write; true when this write should shorten the errors file to
    /// its last [`MAX_ERROR_LINES`] lines.
    pub fn maybe_truncate_errors(&mut self) -> (due: bool)
        ensures
            due == truncation_due_spec(old(self).error_writes_spec()),
            final(self).error_writes_spec() == (if old(self).error_writes_spec() == u32::MAX {
                0
            } else {
                old(self).error_writes_spec() + 1
            }),
            final(self).history_writes_spec() == old(self).history_writes_spec(),
            final(self).dir_spec() == old(self).dir_spec(),
    {
        let n = self.error_writes;
        self.error_writes = n.wrapping_add(1);
        truncation_due(n)
    }
}

/// The lines to write back when shortening a file to its last `max` lines; `None` when
/// the file is short enough already.
pub fn lines_to_keep(lines: &Vec<String>, max: usize) -> (r: Option<Vec<String>>)
    ensures
        lines@.len() <= max ==> r is None,
        lines@.len() > max ==> (r matches Some(kept) && kept@ == lines@.skip(lines@.len() - max)),
{
    let n = lines.len();
    if n <= max {
        return None;
    }
    let mut kept: Vec<String> = Vec::new();
    let start = n - max;
    for i in start..n
        invariant
            start == n - max,
            n == lines@.len(),
            kept@ == lines@.subrange(start as int, i as int),
    {
        kept.push(lines[i].clone());
        assert(lines@.subrange(start as int, i + 1) =~= lines@.subrange(start as int, i as int).push(
            lines@[i as int],
        ));
    }
    assert(lines@.subrange(start as int, n as int) =~= lines@.skip(start as int));
    Some(kept)
}

/// The lines the two files keep when the server starts: each file is shortened to its
/// last [`MAX_HISTORY_LINES`] and [`MAX_ERROR_LINES`] lines (`None` where it is short
/// enough already).
pub fn startup_cut(history_lines: &Vec<String>, error_lines: &Vec<String>) -> (r: (
    Option<Vec<String>>,
    Option<Vec<String>>,
))
    ensures
        history_lines@.len() <= MAX_HISTORY_LINES ==> r.0 is None,
        history_lines@.len() > MAX_HISTORY_LINES ==> (r.0 matches Some(k) && k@
            == history_lines@.skip(history_lines@.len() - MAX_HISTORY_LINES)),
        error_lines@.len() <= MAX_ERROR_LINES ==> r.1 is None,
        error_lines@.len() > MAX_ERROR_LINES ==> (r.1 matches Some(k) && k@ == error_lines@.skip(
            error_lines@.len() - MAX_ERROR_LINES,
        )),
{
    (lines_to_keep(history_lines, MAX_HISTORY_LINES), lines_to_keep(error_lines, MAX_ERROR_LINES))
}

// ---------------------------------------------------------------------------
// Laws
// ---------------------------------------------------------------------------

/// Of every hundred consecutive writes counted from zero, exactly the hundredth shortens
/// the file.
pub proof fn law_truncation_every_hundred(k: u32)
    requires
        k < u32::MAX,
    ensures
        truncation_due_spec(k) <==> (k + 1) % 100 == 0,
{
}

/// The lines of a file and the recorder's write counter after one more write of `line`:
/// the line is appended, and on a write that is due the file is cut to its last `max`
/// lines.
pub open spec fn file_step(max: nat, lines: Seq<Seq<char>>, writes: u32, line: Seq<char>) -> (
    Seq<Seq<char>>,
    u32,
) {
    let appended = lines.push(line);
    let kept = if truncation_due_spec(writes) && appended.len() > max {
        appended.skip(appended.len() - max)
    } else {
        appended
    };
    (kept, if writes == u32::MAX {
        0
    } else {
        (writes + 1) as u32
    })
}

/// Lines and counter after a fresh recorder writes `written`, in order, to a file that
/// held `start`.
pub open spec fn file_after(max: nat, start: Seq<Seq<char>>, written: Seq<Seq<char>>) -> (
    Seq<Seq<char>>,
    u32,
)
    decreases written.len(),
{
    if written.len() == 0 {
        (start, 0)
    } else {
        let p = file_after(max, start, written.drop_last());
        file_step(max, p.0, p.1, written.last())
    }
}

/// Writes since the last write that was due, for a counter value.
pub open spec fn since_due(k: u32) -> nat {
    if k <= 4294967199 {
        (k % 100) as nat
    } else {
        (k - 4294967200) as nat
    }
}

proof fn lemma_file_bound(max: nat, start: Seq<Seq<char>>, written: Seq<Seq<char>>)
    requires
        start.len() <= max,
        max > 0,
    ensures
        file_after(max, start, written).0.len() <= max + since_due(file_after(max, start, written).1),
        since_due(file_after(max, start, written).1) <= 99,
        written.len() > 0 ==> file_after(max, start, written).0.last() == written.last(),
    decreases written.len(),
{
    if written.len() > 0 {
        lemma_file_bound(max, start, written.drop_last());
        let p = file_after(max, start, written.drop_last());
        let k = p.1;
        if k < 4294967199 {
            assert((k + 1) % 100 == 0 || (k + 1) % 100 == k % 100 + 1);
        }
        let appended = p.0.push(written.last());
        if truncation_due_spec(k) && appended.len() > max {
            let kept = appended.skip(appended.len() - max);
            assert(kept.last() == appended.last());
        }
    }
}

proof fn lemma_file_exact(max: nat, start: Seq<Seq<char>>, written: Seq<Seq<char>>)
    requires
        start.len() + written.len() <= max,
    ensures
        file_after(max, start, written).0 == start + written,
    decreases written.len(),
{
    if written.len() > 0 {
        lemma_file_exact(max, start, written.drop_last());
        assert(start + written =~= (start + written.drop_last()).push(written.last()));
    }
}

/// A file that the recorder writes never grows past its limit by more than 99 lines,
/// however many writes it gets, provided it starts within the limit (as the cut at
/// start-up ensures), and its last line is always the last one written; as long as it
/// stays within the limit, it holds what it held and then every line written, in order:
/// the history file, starting empty, holds exactly the `n` records after `n <= 1000`
/// writes and never more than 1099 lines.
pub proof fn law_file_stays_bounded(max: nat, start: Seq<Seq<char>>, written: Seq<Seq<char>>)
    requires
        start.len() <= max,
        max > 0,
    ensures
        file_after(max, start, written).0.len() <= max + 99,
        written.len() > 0 ==> file_after(max, start, written).0.last() == written.last(),
        start.len() + written.len() <= max ==> file_after(max, start, written).0 == start
            + written,
{
    lemma_file_bound(max, start, written);
    if start.len() + written.len() <= max {
        lemma_file_exact(max, start, written);
    }
}

} // verus!
