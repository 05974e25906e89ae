//! Usage summaries of the recorded tool calls and errors.

use vstd::prelude::*;
use crate::outside::{opt_view, local_day, local_today, day_key, day_key_of, utc_day, chrono_min_day,
    chrono_max_day};
use crate::text::{Separator, split, is_blank, split_exec, is_blank_exec, string_of};

verus! {

broadcast use vstd::string::group_string_axioms;

/// One recorded tool call.
#[derive(Debug)]
pub struct HistoryRow {
    /// Unix time of the call, in seconds.
    pub ts: i64,
    pub tool: String,
    /// The call's `page_id` argument, when it had a string one.
    pub args_page_id: Option<String>,
    /// The call's arguments as compact JSON text.
    pub args_json: String,
    pub out_chars: usize,
    pub tokens_est: usize,
    pub status: String,
}

/// Copies an optional string exactly.
pub fn clone_opt_exact(o: &Option<String>) -> (r: Option<String>)
    ensures
        r == *o,
{
    match o {
        Some(s) => Some(s.clone()),
        None => None,
    }
}

impl HistoryRow {
    /// An identical copy of the row.
    pub fn copy(&self) -> (r: HistoryRow)
        ensures
            r == *self,
    {
        HistoryRow {
            ts: self.ts,
            tool: self.tool.clone(),
            args_page_id: clone_opt_exact(&self.args_page_id),
            args_json: self.args_json.clone(),
            out_chars: self.out_chars,
            tokens_est: self.tokens_est,
            status: self.status.clone(),
        }
    }
}

/// One recorded tool error.
#[derive(Debug)]
pub struct ErrorRow {
    pub ts: i64,
    pub tool: String,
    pub status: String,
    pub message: String,
}

impl ErrorRow {
    /// An identical copy of the row.
    pub fn copy(&self) -> (r: ErrorRow)
        ensures
            r == *self,
    {
        ErrorRow {
            ts: self.ts,
            tool: self.tool.clone(),
            status: self.status.clone(),
            message: self.message.clone(),
        }
    }
}

/// Calls and estimated tokens of one local calendar day.
#[derive(Debug)]
pub struct DayBucket {
    /// `YYYY-MM-DD` in the user's local time zone.
    pub date: String,
    pub calls: usize,
    pub tokens: usize,
}

/// The monitor tab's summary of the last seven days.
#[derive(Debug)]
pub struct StatsSummary {
    pub today_calls: usize,
    pub today_tokens: usize,
    pub today_errors: usize,
    pub last_call_ts: Option<i64>,
    /// Seven entries, oldest first, covering the last seven calendar days including
    /// today. Days without calls have zero counts.
    pub seven_day_tokens: Vec<DayBucket>,
    /// At most twenty errors, newest first.
    pub recent_errors: Vec<ErrorRow>,
}

/// How many of the first `k` days equal `d`.
pub open spec fn calls_on(days: Seq<i32>, d: int, k: int) -> nat
    decreases k,
{
    if k <= 0 {
        0
    } else {
        calls_on(days, d, k - 1) + if days[k - 1] == d {
            1nat
        } else {
            0nat
        }
    }
}

/// Estimated tokens of the first `k` rows whose day is `d`.
pub open spec fn tokens_on(rows: Seq<HistoryRow>, days: Seq<i32>, d: int, k: int) -> nat
    decreases k,
{
    if k <= 0 {
        0
    } else {
        tokens_on(rows, days, d, k - 1) + if days[k - 1] == d {
            rows[k - 1].tokens_est as nat
        } else {
            0nat
        }
    }
}

/// Estimated tokens of the first `k` rows.
pub open spec fn tokens_total(rows: Seq<HistoryRow>, k: int) -> nat
    decreases k,
{
    if k <= 0 {
        0
    } else {
        tokens_total(rows, k - 1) + rows[k - 1].tokens_est as nat
    }
}

/// The latest timestamp of the first `k` rows.
pub open spec fn max_ts(rows: Seq<HistoryRow>, k: int) -> Option<i64>
    decreases k,
{
    if k <= 0 {
        None
    } else {
        match max_ts(rows, k - 1) {
            Some(m) => if rows[k - 1].ts > m {
                Some(rows[k - 1].ts)
            } else {
                Some(m)
            },
            None => Some(rows[k - 1].ts),
        }
    }
}

/// Index of the first error older than `e` in a newest-first sequence.
pub open spec fn insert_pos(s: Seq<ErrorRow>, e: ErrorRow, i: int) -> int
    decreases s.len() - i,
{
    if 0 <= i < s.len() && s[i].ts >= e.ts {
        insert_pos(s, e, i + 1)
    } else {
        i
    }
}

/// The errors sorted newest first; errors with equal timestamps keep their order (the
/// result of a stable sort by descending timestamp).
pub open spec fn sort_newest_first(s: Seq<ErrorRow>) -> Seq<ErrorRow>
    decreases s.len(),
{
    if s.len() == 0 {
        seq![]
    } else {
        let sorted = sort_newest_first(s.drop_last());
        let k = insert_pos(sorted, s.last(), 0);
        sorted.take(k).push(s.last()) + sorted.skip(k)
    }
}

/// The newest twenty errors, newest first.
pub open spec fn recent_errors_spec(errors: Seq<ErrorRow>) -> Seq<ErrorRow> {
    let sorted = sort_newest_first(errors);
    if sorted.len() <= 20 {
        sorted
    } else {
        sorted.take(20)
    }
}

/// The summary, given each row's local day, today's local day and the keys of the seven
/// days ending today (oldest first).
pub open spec fn summary_matches(
    s: StatsSummary,
    history: Seq<HistoryRow>,
    history_days: Seq<i32>,
    errors: Seq<ErrorRow>,
    error_days: Seq<i32>,
    today: int,
    week_keys: Seq<Seq<char>>,
) -> bool {
    let n = history.len() as int;
    &&& s.today_calls == calls_on(history_days, today, n)
    &&& s.today_tokens == tokens_on(history, history_days, today, n)
    &&& s.today_errors == calls_on(error_days, today, errors.len() as int)
    &&& s.last_call_ts == max_ts(history, n)
    &&& s.seven_day_tokens@.len() == 7
    &&& forall|j: int|
        0 <= j < 7 ==> {
            let b = #[trigger] s.seven_day_tokens@[j];
            &&& b.date@ == week_keys[j]
            &&& b.calls == calls_on(history_days, today - (6 - j), n)
            &&& b.tokens == tokens_on(history, history_days, today - (6 - j), n)
        }
    &&& s.recent_errors@ == recent_errors_spec(errors)
}

proof fn lemma_tokens_on_bound(rows: Seq<HistoryRow>, days: Seq<i32>, d: int, k: int)
    ensures
        tokens_on(rows, days, d, k) <= tokens_total(rows, k),
        calls_on(days, d, k) <= if k < 0 {
            0
        } else {
            k
        },
    decreases k,
{
    if k > 0 {
        lemma_tokens_on_bound(rows, days, d, k - 1);
    }
}

proof fn lemma_insert_pos(s: Seq<ErrorRow>, e: ErrorRow, i: int)
    requires
        0 <= i <= s.len(),
    ensures
        i <= insert_pos(s, e, i) <= s.len(),
    decreases s.len() - i,
{
    if i < s.len() && s[i].ts >= e.ts {
        lemma_insert_pos(s, e, i + 1);
    }
}

proof fn lemma_sort_len(s: Seq<ErrorRow>)
    ensures
        sort_newest_first(s).len() == s.len(),
    decreases s.len(),
{
    if s.len() > 0 {
        lemma_sort_len(s.drop_last());
        lemma_insert_pos(sort_newest_first(s.drop_last()), s.last(), 0);
    }
}

/// Counts for one day over all rows.
fn day_counts(history: &Vec<HistoryRow>, days: &Vec<i32>, d: i32) -> (r: (usize, usize))
    requires
        days@.len() == history@.len(),
        tokens_total(history@, history@.len() as int) <= usize::MAX,
    ensures
        r.0 == calls_on(days@, d as int, history@.len() as int),
        r.1 == tokens_on(history@, days@, d as int, history@.len() as int),
{
    let n = history.len();
    let mut calls: usize = 0;
    let mut tokens: usize = 0;
    for i in 0..n
        invariant
            n == history@.len(),
            days@.len() == n,
            tokens_total(history@, n as int) <= usize::MAX,
            calls == calls_on(days@, d as int, i as int),
            tokens == tokens_on(history@, days@, d as int, i as int),
    {
        proof {
            lemma_tokens_on_bound(history@, days@, d as int, i + 1);
            lemma_total_mono(history@, i + 1, n as int);
        }
        if days[i] == d {
            calls = calls + 1;
            tokens = tokens + history[i].tokens_est;
        }
    }
    (calls, tokens)
}

proof fn lemma_total_mono(rows: Seq<HistoryRow>, k: int, m: int)
    requires
        k <= m,
    ensures
        tokens_total(rows, k) <= tokens_total(rows, m),
    decreases m - k,
{
    if k < m {
        lemma_total_mono(rows, k, m - 1);
    }
}

/// The errors sorted newest first (stable).
fn sort_errors(errors: &Vec<ErrorRow>) -> (r: Vec<ErrorRow>)
    ensures
        r@ == sort_newest_first(errors@),
{
    let mut sorted: Vec<ErrorRow> = Vec::new();
    let n = errors.len();
    for i in 0..n
        invariant
            n == errors@.len(),
            sorted@ == sort_newest_first(errors@.take(i as int)),
    {
        let e = errors[i].copy();
        let ghost pre = sorted@;
        assert(errors@.take(i + 1).drop_last() =~= errors@.take(i as int));
        assert(errors@.take(i + 1).last() == e);
        let mut k: usize = 0;
        while k < sorted.len() && sorted[k].ts >= e.ts
            invariant
                sorted@ == pre,
                k <= sorted@.len(),
                insert_pos(pre, e, 0) == insert_pos(pre, e, k as int),
            decreases sorted@.len() - k,
        {
            k = k + 1;
        }
        sorted.insert(k, e);
        assert(sorted@ =~= pre.take(k as int).push(e) + pre.skip(k as int));
    }
    assert(errors@.take(n as int) =~= errors@);
    sorted
}

/// The summary of the last seven days, given each row's local calendar day (as a day
/// number), today's local day, and the `YYYY-MM-DD` keys of the seven days ending today,
/// oldest first.
pub fn summarize_days(
    history: &Vec<HistoryRow>,
    history_days: &Vec<i32>,
    errors: &Vec<ErrorRow>,
    error_days: &Vec<i32>,
    today: i32,
    week_keys: Vec<String>,
) -> (s: StatsSummary)
    requires
        history_days@.len() == history@.len(),
        error_days@.len() == errors@.len(),
        week_keys@.len() == 7,
        today >= i32::MIN + 6,
        tokens_total(history@, history@.len() as int) <= usize::MAX,
    ensures
        summary_matches(
            s,
            history@,
            history_days@,
            errors@,
            error_days@,
            today as int,
            week_keys@.map_values(|k: String| k@),
        ),
{
    let n = history.len();
    let (today_calls, today_tokens) = day_counts(history, history_days, today);
    let mut today_errors: usize = 0;
    let m = errors.len();
    for i in 0..m
        invariant
            m == errors@.len(),
            error_days@.len() == m,
            today_errors == calls_on(error_days@, today as int, i as int),
            today_errors <= i,
    {
        if error_days[i] == today {
            today_errors = today_errors + 1;
        }
    }
    let mut last: Option<i64> = None;
    for i in 0..n
        invariant
            n == history@.len(),
            last == max_ts(history@, i as int),
    {
        let ts = history[i].ts;
        last = match last {
            Some(cur) => if ts > cur {
                Some(ts)
            } else {
                Some(cur)
            },
            None => Some(ts),
        };
    }
    let ghost keys = week_keys@.map_values(|k: String| k@);
    let mut buckets: Vec<DayBucket> = Vec::new();
    let mut keys_left = week_keys;
    let mut j: usize = 0;
    while j < 7
        invariant
            j <= 7,
            keys_left@.len() == 7 - j,
            forall|t: int| 0 <= t < 7 - j ==> keys_left@[t]@ == keys[t + j],
            keys.len() == 7,
            buckets@.len() == j,
            n == history@.len(),
            history_days@.len() == n,
            today >= i32::MIN + 6,
            tokens_total(history@, n as int) <= usize::MAX,
            forall|t: int|
                0 <= t < j ==> {
                    let b = #[trigger] buckets@[t];
                    &&& b.date@ == keys[t]
                    &&& b.calls == calls_on(history_days@, today - (6 - t), n as int)
                    &&& b.tokens == tokens_on(history@, history_days@, today - (6 - t), n as int)
                },
        decreases 7 - j,
    {
        let d: i32 = today - (6 - j as i32);
        let (calls, tokens) = day_counts(history, history_days, d);
        let ghost before = keys_left@;
        let date = keys_left.remove(0);
        assert forall|t: int| 0 <= t < 7 - (j + 1) implies keys_left@[t]@ == keys[t + j + 1] by {
            assert(keys_left@[t] == before[t + 1]);
        }
        buckets.push(DayBucket { date, calls, tokens });
        j = j + 1;
    }
    let sorted = sort_errors(errors);
    proof {
        lemma_sort_len(errors@);
    }
    let mut recent: Vec<ErrorRow> = Vec::new();
    let take = if sorted.len() <= 20 { sorted.len() } else { 20 };
    for i in 0..take
        invariant
            take <= sorted@.len(),
            recent@ == sorted@.take(i as int),
    {
        recent.push(sorted[i].copy());
        assert(sorted@.take(i + 1) =~= sorted@.take(i as int).push(sorted@[i as int]));
    }
    assert(sorted@.take(take as int) =~= recent_errors_spec(errors@));
    StatsSummary {
        today_calls,
        today_tokens,
        today_errors,
        last_call_ts: last,
        seven_day_tokens: buckets,
        recent_errors: recent,
    }
}

/// Every day of the seven ending on the local day of `ts` lies in chrono's calendar,
/// whatever the time zone.
pub open spec fn week_in_calendar(ts: int) -> bool {
    chrono_min_day() + 8 <= utc_day(ts) <= chrono_max_day() - 1
}

/// A timestamp whose local day chrono can compute in every time zone.
pub open spec fn day_computable(ts: int) -> bool {
    chrono_min_day() + 1 <= utc_day(ts) <= chrono_max_day() - 1
}

/// `d` is the UTC day of `ts` or a neighbour of it (the local day in some time zone).
pub open spec fn near_day(d: int, ts: int) -> bool {
    utc_day(ts) - 1 <= d <= utc_day(ts) + 1
}

/// The monitor tab's summary of the last seven days at `now_ts`, in the machine's local
/// time zone. A timestamp whose local day cannot be computed counts as the current
/// moment. The summary is owed whenever the seven days ending on the local day of
/// `now_ts` lie in chrono's calendar; today and each row's day are the UTC day of its
/// timestamp or a neighbour (the local time zone decides which).
pub fn summarize(history: &Vec<HistoryRow>, errors: &Vec<ErrorRow>, now_ts: i64) -> (r: Option<
    StatsSummary,
>)
    requires
        tokens_total(history@, history@.len() as int) <= usize::MAX,
    ensures
        r matches Some(s) ==> exists|hd: Seq<i32>, ed: Seq<i32>, today: int, keys: Seq<Seq<char>>|
            {
                &&& hd.len() == history@.len()
                &&& ed.len() == errors@.len()
                &&& keys.len() == 7
                &&& forall|j: int| 0 <= j < 7 ==> day_key_of((today - (6 - j)) as i32) == Some(#[trigger] keys[j])
                &&& day_computable(now_ts as int) ==> near_day(today, now_ts as int)
                &&& forall|i: int| 0 <= i < history@.len() && day_computable(history@[i].ts as int)
                    ==> near_day(#[trigger] hd[i] as int, history@[i].ts as int)
                &&& forall|i: int| 0 <= i < errors@.len() && day_computable(errors@[i].ts as int)
                    ==> near_day(#[trigger] ed[i] as int, errors@[i].ts as int)
                &&& #[trigger] summary_matches(s, history@, hd, errors@, ed, today, keys)
            },
        week_in_calendar(now_ts as int) ==> r is Some,
        r matches Some(s) ==> s.seven_day_tokens@.len() == 7 && s.recent_errors@
            == recent_errors_spec(errors@) && s.last_call_ts == max_ts(
            history@,
            history@.len() as int,
        ),
{
    let local_now = local_day(now_ts);
    let today = match local_now {
        Some(d) => d,
        None => local_today(),
    };
    assert(day_computable(now_ts as int) ==> near_day(today as int, now_ts as int));
    if today < i32::MIN + 6 {
        return None;
    }
    let mut history_days: Vec<i32> = Vec::new();
    for i in 0..history.len()
        invariant
            history_days@.len() == i,
            forall|t: int|
                0 <= t < i && day_computable(history@[t].ts as int) ==> near_day(
                    #[trigger] history_days@[t] as int,
                    history@[t].ts as int,
                ),
    {
        let d = match local_day(history[i].ts) {
            Some(d) => d,
            None => local_today(),
        };
        history_days.push(d);
    }
    let mut error_days: Vec<i32> = Vec::new();
    for i in 0..errors.len()
        invariant
            error_days@.len() == i,
            forall|t: int|
                0 <= t < i && day_computable(errors@[t].ts as int) ==> near_day(
                    #[trigger] error_days@[t] as int,
                    errors@[t].ts as int,
                ),
    {
        let d = match local_day(errors[i].ts) {
            Some(d) => d,
            None => local_today(),
        };
        error_days.push(d);
    }
    let mut week_keys: Vec<String> = Vec::new();
    for j in 0..7
        invariant
            week_keys@.len() == j,
            today >= i32::MIN + 6,
            day_computable(now_ts as int) ==> near_day(today as int, now_ts as int),
            forall|t: int|
                0 <= t < j ==> day_key_of((today - (6 - t)) as i32) == Some(
                    #[trigger] week_keys@[t]@,
                ),
    {
        let d: i32 = today - (6 - j as i32);
        match day_key(d) {
            Some(k) => week_keys.push(k),
            None => {
                return None;
            },
        }
    }
    let ghost keys = week_keys@.map_values(|k: String| k@);
    let s = summarize_days(history, &history_days, errors, &error_days, today, week_keys);
    assert(summary_matches(s, history@, history_days@, errors@, error_days@, today as int, keys));
    Some(s)
}

// ---------------------------------------------------------------------------
// Laws
// ---------------------------------------------------------------------------

/// The errors are in order of non-increasing timestamp.
pub open spec fn newest_first(s: Seq<ErrorRow>) -> bool {
    forall|i: int, j: int| 0 <= i < j < s.len() ==> (#[trigger] s[i]).ts >= (#[trigger] s[j]).ts
}

proof fn lemma_insert_pos_bounds(s: Seq<ErrorRow>, e: ErrorRow, i: int)
    requires
        0 <= i <= s.len(),
    ensures
        i <= insert_pos(s, e, i) <= s.len(),
        forall|j: int| i <= j < insert_pos(s, e, i) ==> (#[trigger] s[j]).ts >= e.ts,
        insert_pos(s, e, i) < s.len() ==> s[insert_pos(s, e, i)].ts < e.ts,
    decreases s.len() - i,
{
    if i < s.len() && s[i].ts >= e.ts {
        lemma_insert_pos_bounds(s, e, i + 1);
    }
}

proof fn lemma_sort_newest_first(s: Seq<ErrorRow>)
    ensures
        sort_newest_first(s).len() == s.len(),
        newest_first(sort_newest_first(s)),
        forall|i: int|
            0 <= i < s.len() ==> exists|j: int|
                0 <= j < s.len() && #[trigger] sort_newest_first(s)[i] == s[j],
    decreases s.len(),
{
    if s.len() > 0 {
        let d = s.drop_last();
        lemma_sort_newest_first(d);
        let sorted = sort_newest_first(d);
        let e = s.last();
        lemma_insert_pos_bounds(sorted, e, 0);
        let k = insert_pos(sorted, e, 0);
        let r = sorted.take(k).push(e) + sorted.skip(k);
        assert(sort_newest_first(s) == r);
        assert forall|i: int| 0 <= i < r.len() implies (i < k ==> r[i] == sorted[i]) && (i == k
            ==> r[i] == e) && (i > k ==> r[i] == sorted[i - 1]) by {}
        assert forall|i: int, j: int| 0 <= i < j < r.len() implies (#[trigger] r[i]).ts >= (
        #[trigger] r[j]).ts by {
            if j < k {
                assert(sorted[i].ts >= sorted[j].ts);
            } else if j == k {
                assert(sorted[i].ts >= e.ts);
            } else if i < k {
                assert(sorted[i].ts >= sorted[j - 1].ts);
            } else if i == k {
                assert(sorted[k].ts < e.ts);
                if j - 1 > k {
                    assert(sorted[k].ts >= sorted[j - 1].ts);
                }
            } else {
                assert(sorted[i - 1].ts >= sorted[j - 1].ts);
            }
        }
        assert forall|i: int| 0 <= i < s.len() implies exists|j: int|
            0 <= j < s.len() && #[trigger] sort_newest_first(s)[i] == s[j] by {
            if i == k {
                assert(s[s.len() - 1] == e);
            } else {
                let i2 = if i < k {
                    i
                } else {
                    i - 1
                };
                assert(r[i] == sorted[i2]);
                let j = choose|j: int| 0 <= j < d.len() && sorted[i2] == d[j];
                assert(d[j] == s[j]);
            }
        }
    }
}

/// The recent errors of the summary are the newest of all errors, newest first: at most
/// twenty (all of them when there are fewer), in order of non-increasing time, each one
/// of the given errors.
pub proof fn law_recent_errors_newest_first(errors: Seq<ErrorRow>)
    ensures
        recent_errors_spec(errors).len() == if errors.len() <= 20 {
            errors.len()
        } else {
            20
        },
        newest_first(recent_errors_spec(errors)),
        forall|i: int|
            0 <= i < recent_errors_spec(errors).len() ==> exists|j: int|
                0 <= j < errors.len() && #[trigger] recent_errors_spec(errors)[i] == errors[j],
{
    lemma_sort_newest_first(errors);
    let sorted = sort_newest_first(errors);
    let r = recent_errors_spec(errors);
    assert forall|i: int| 0 <= i < r.len() implies exists|j: int|
        0 <= j < errors.len() && #[trigger] r[i] == errors[j] by {
        assert(r[i] == sorted[i]);
    }
    assert forall|i: int, j: int| 0 <= i < j < r.len() implies (#[trigger] r[i]).ts >= (
    #[trigger] r[j]).ts by {
        assert(r[i] == sorted[i] && r[j] == sorted[j]);
    }
}

// ---------------------------------------------------------------------------
// The recorded files
// ---------------------------------------------------------------------------

/// The `i`-th line of text cut at `\n`: a line that a `\n` ends loses a trailing `\r`
/// (`str::lines`).
pub open spec fn line_at(pieces: Seq<Seq<char>>, i: int) -> Seq<char> {
    let p = pieces[i];
    if i + 1 < pieces.len() && p.len() > 0 && p.last() == '\r' {
        p.drop_last()
    } else {
        p
    }
}

/// The non-blank lines among the first `k` pieces, in order.
pub open spec fn records_upto(pieces: Seq<Seq<char>>, k: int) -> Seq<Seq<char>>
    decreases k,
{
    if k <= 0 {
        seq![]
    } else {
        let prev = records_upto(pieces, k - 1);
        let l = line_at(pieces, k - 1);
        if is_blank(l) {
            prev
        } else {
            prev.push(l)
        }
    }
}

/// The records of a JSON-lines file: its non-blank lines.
pub open spec fn jsonl_records_spec(contents: Seq<char>) -> Seq<Seq<char>> {
    let pieces = split(contents, Separator::Char('\n'));
    records_upto(pieces, pieces.len() as int)
}

/// The records of a JSON-lines file (see [`jsonl_records_spec`]); each is then parsed on
/// its own, and one that does not parse is skipped.
pub fn jsonl_records(contents: &str) -> (r: Vec<String>)
    ensures
        r@.map_values(|s: String| s@) == jsonl_records_spec(contents@),
{
    let chars = crate::text::chars_of(contents);
    let pieces = split_exec(&chars, Separator::Char('\n'));
    let ghost pv = pieces@.map_values(|p: Vec<char>| p@);
    let n = pieces.len();
    let mut out: Vec<String> = Vec::new();
    for i in 0..n
        invariant
            n == pieces@.len(),
            pv == pieces@.map_values(|p: Vec<char>| p@),
            out@.map_values(|s: String| s@) == records_upto(pv, i as int),
    {
        let p = &pieces[i];
        let mut line: Vec<char> = p.clone();
        assert(line@ == pv[i as int]);
        if i + 1 < n && line.len() > 0 && line[line.len() - 1] == '\r' {
            line.pop();
        }
        assert(line@ =~= line_at(pv, i as int));
        if !is_blank_exec(&line) {
            let ghost before = out@.map_values(|s: String| s@);
            out.push(string_of(&line));
            assert(out@.map_values(|s: String| s@) =~= before.push(line@));
        }
    }
    out
}

} // verus!
