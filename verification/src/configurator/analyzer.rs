//! Usage tips from the recorded tool-call history: heuristics over the last seven days.

use vstd::prelude::*;
use crate::text::{dec, chars_of, string_of, extend, extend_str, dec_u64, str_eq};
use crate::outside::opt_view;
use crate::configurator::stats::HistoryRow;

verus! {

broadcast use vstd::string::group_string_axioms;

/// Seconds in the look-back window.
pub const SEVEN_DAYS_SECS: i64 = 604800;
/// Estimated tokens above which a call counts as oversized.
pub const OVERSIZED_TOKENS: usize = 20000;
/// Fetches of one page that make it worth pinning.
pub const REPEAT_FETCH_THRESHOLD: usize = 5;
/// Refusals of one page that mark it as restricted.
pub const FREQUENT_403_THRESHOLD: usize = 3;

/// A suggestion shown in the monitor tab.
#[derive(Debug, Clone)]
pub struct Tip {
    pub id: String,
    pub title: String,
    pub detail: String,
}

/// The mathematical content of a [`Tip`].
pub struct TipView {
    pub id: Seq<char>,
    pub title: Seq<char>,
    pub detail: Seq<char>,
}

impl View for Tip {
    type V = TipView;

    open spec fn view(&self) -> TipView {
        TipView { id: self.id@, title: self.title@, detail: self.detail@ }
    }
}

/// The two per-page heuristics.
pub enum PageRule {
    /// `get_page` calls of one page.
    RepeatedFetch,
    /// Calls of one page answered with HTTP 403.
    Forbidden,
}

/// The rows at or after `cutoff`, in order.
pub open spec fn recent_rows(rows: Seq<HistoryRow>, cutoff: int) -> Seq<HistoryRow>
    decreases rows.len(),
{
    if rows.len() == 0 {
        seq![]
    } else {
        let p = recent_rows(rows.drop_last(), cutoff);
        if rows.last().ts >= cutoff {
            p.push(rows.last())
        } else {
            p
        }
    }
}

/// The page a row counts for under a rule (its `page_id` argument), if it counts.
pub open spec fn page_of(r: HistoryRow, rule: PageRule) -> Option<Seq<char>> {
    let counts = match rule {
        PageRule::RepeatedFetch => r.tool@ == "get_page"@,
        PageRule::Forbidden => r.status@ == "403"@,
    };
    if counts {
        opt_view(r.args_page_id)
    } else {
        None
    }
}

/// How many rows count for `page` under the rule.
pub open spec fn page_count(rows: Seq<HistoryRow>, rule: PageRule, page: Seq<char>) -> nat
    decreases rows.len(),
{
    if rows.len() == 0 {
        0
    } else {
        page_count(rows.drop_last(), rule, page) + if page_of(rows.last(), rule) == Some(page) {
            1nat
        } else {
            0nat
        }
    }
}

/// Among the first `k` rows, the first one counting for a page with the highest count
/// (-1 when none counts).
pub open spec fn best_row(rows: Seq<HistoryRow>, rule: PageRule, k: int) -> int
    decreases k,
{
    if k <= 0 {
        -1
    } else {
        let b = best_row(rows, rule, k - 1);
        match page_of(rows[k - 1], rule) {
            Some(p) => if b == -1 || page_count(rows, rule, p) > page_count(
                rows,
                rule,
                page_of(rows[b], rule)->0,
            ) {
                k - 1
            } else {
                b
            },
            None => b,
        }
    }
}

/// The count at which a rule fires.
pub open spec fn rule_threshold(rule: PageRule) -> nat {
    match rule {
        PageRule::RepeatedFetch => 5,
        PageRule::Forbidden => 3,
    }
}

/// The tip a per-page rule gives for the page and its count.
pub open spec fn page_tip(rule: PageRule, page: Seq<char>, n: nat) -> TipView {
    match rule {
        PageRule::RepeatedFetch => TipView {
            id: "repeated_page_fetch"@,
            title: "You've fetched page "@ + page + " "@ + dec(n) + " times this week."@,
            detail: "Pin it in your assistant prompt or use `include_body=false` for previews."@,
        },
        PageRule::Forbidden => TipView {
            id: "frequent_403s"@,
            title: "Page "@ + page + " returned 403 "@ + dec(n) + " times."@,
            detail: "That page is restricted — ask your Confluence admin for access or use a different page."@,
        },
    }
}

/// A per-page rule over the rows: the most counted page (the first such row on a tie),
/// when its count reaches the rule's threshold.
pub open spec fn page_rule_tip(rows: Seq<HistoryRow>, rule: PageRule) -> Option<TipView> {
    let b = best_row(rows, rule, rows.len() as int);
    if b == -1 {
        None
    } else {
        let p = page_of(rows[b], rule)->0;
        let n = page_count(rows, rule, p);
        if n < rule_threshold(rule) {
            None
        } else {
            Some(page_tip(rule, p, n))
        }
    }
}

/// How many rows satisfy a numeric or status test.
pub open spec fn oversized_count(rows: Seq<HistoryRow>) -> nat
    decreases rows.len(),
{
    if rows.len() == 0 {
        0
    } else {
        oversized_count(rows.drop_last()) + if rows.last().tokens_est > 20000 {
            1nat
        } else {
            0nat
        }
    }
}

/// How many rows did not end with status `ok`.
pub open spec fn error_count(rows: Seq<HistoryRow>) -> nat
    decreases rows.len(),
{
    if rows.len() == 0 {
        0
    } else {
        error_count(rows.drop_last()) + if rows.last().status@ != "ok"@ {
            1nat
        } else {
            0nat
        }
    }
}

/// Tip when some call returned more than 20k estimated tokens.
pub open spec fn oversized_tip(rows: Seq<HistoryRow>) -> Option<TipView> {
    let n = oversized_count(rows);
    if n == 0 {
        None
    } else {
        Some(
            TipView {
                id: "oversized_output"@,
                title: dec(n) + " tool call(s) returned over 20k tokens."@,
                detail: "Narrow your CQL (e.g. add `space=...`) or call `get_page` with `include_body=false` first."@,
            },
        )
    }
}

/// The error share in whole percent, rounded half away from zero.
pub open spec fn error_percent(errors: nat, total: nat) -> nat {
    (200 * errors + total) / (2 * total)
}

/// Tip when more than a tenth of the calls failed.
pub open spec fn high_error_tip(rows: Seq<HistoryRow>) -> Option<TipView> {
    let e = error_count(rows);
    let n = rows.len();
    if n == 0 || 10 * e <= n {
        None
    } else {
        Some(
            TipView {
                id: "high_error_rate"@,
                title: dec(error_percent(e, n)) + "% of calls failed this week."@,
                detail: "Check the Recent errors list below — the same endpoint may keep failing."@,
            },
        )
    }
}

/// The present tips of four candidates, in order, at most three of them.
pub open spec fn present(
    a: Option<TipView>,
    b: Option<TipView>,
    c: Option<TipView>,
    d: Option<TipView>,
) -> Seq<TipView> {
    let s0: Seq<TipView> = seq![];
    let s1 = if a is Some {
        s0.push(a->0)
    } else {
        s0
    };
    let s2 = if b is Some {
        s1.push(b->0)
    } else {
        s1
    };
    let s3 = if c is Some {
        s2.push(c->0)
    } else {
        s2
    };
    if d is Some && s3.len() < 3 {
        s3.push(d->0)
    } else {
        s3
    }
}

/// The tips for the rows of the last seven days before `now_ts`: repeated fetches of a
/// page, oversized outputs, a high error rate, repeated 403s of a page; the first three
/// of them that apply.
pub open spec fn analyze_spec(history: Seq<HistoryRow>, now_ts: int) -> Seq<TipView> {
    let recent = recent_rows(history, now_ts - 604800);
    present(
        page_rule_tip(recent, PageRule::RepeatedFetch),
        oversized_tip(recent),
        high_error_tip(recent),
        page_rule_tip(recent, PageRule::Forbidden),
    )
}

// ---------------------------------------------------------------------------
// Executable rules
// ---------------------------------------------------------------------------

/// The page a row counts for under a rule.
fn page_of_exec(r: &HistoryRow, rule: &PageRule) -> (p: Option<String>)
    ensures
        opt_view(p) == page_of(*r, *rule),
{
    let counts = match rule {
        PageRule::RepeatedFetch => str_eq(r.tool.as_str(), "get_page"),
        PageRule::Forbidden => str_eq(r.status.as_str(), "403"),
    };
    if counts {
        match &r.args_page_id {
            Some(s) => Some(s.clone()),
            None => None,
        }
    } else {
        None
    }
}

proof fn lemma_page_count_bound(rows: Seq<HistoryRow>, rule: PageRule, page: Seq<char>)
    ensures
        page_count(rows, rule, page) <= rows.len(),
    decreases rows.len(),
{
    if rows.len() > 0 {
        lemma_page_count_bound(rows.drop_last(), rule, page);
    }
}

fn page_count_exec(rows: &Vec<HistoryRow>, rule: &PageRule, page: &String) -> (n: usize)
    ensures
        n as nat == page_count(rows@, *rule, page@),
{
    let mut n: usize = 0;
    let len = rows.len();
    for i in 0..len
        invariant
            len == rows@.len(),
            n as nat == page_count(rows@.take(i as int), *rule, page@),
            n <= i,
    {
        assert(rows@.take(i + 1).drop_last() =~= rows@.take(i as int));
        if let Some(p) = page_of_exec(&rows[i], rule) {
            if str_eq(p.as_str(), page.as_str()) {
                n = n + 1;
            }
        }
    }
    assert(rows@.take(len as int) =~= rows@);
    n
}

/// Renders a per-page tip.
fn page_tip_exec(rule: &PageRule, page: &String, n: usize) -> (t: Tip)
    ensures
        t@ == page_tip(*rule, page@, n as nat),
{
    let count = dec_u64(n as u64);
    let page_chars = chars_of(page.as_str());
    match rule {
        PageRule::RepeatedFetch => {
            let mut title = chars_of("You've fetched page ");
            extend(&mut title, &page_chars);
            extend_str(&mut title, " ");
            extend(&mut title, &count);
            extend_str(&mut title, " times this week.");
            Tip {
                id: "repeated_page_fetch".to_string(),
                title: string_of(&title),
                detail: "Pin it in your assistant prompt or use `include_body=false` for previews.".to_string(),
            }
        },
        PageRule::Forbidden => {
            let mut title = chars_of("Page ");
            extend(&mut title, &page_chars);
            extend_str(&mut title, " returned 403 ");
            extend(&mut title, &count);
            extend_str(&mut title, " times.");
            Tip {
                id: "frequent_403s".to_string(),
                title: string_of(&title),
                detail: "That page is restricted — ask your Confluence admin for access or use a different page.".to_string(),
            }
        },
    }
}

/// A per-page rule over the rows (see [`page_rule_tip`]).
fn page_rule_tip_exec(rows: &Vec<HistoryRow>, rule: PageRule) -> (t: Option<Tip>)
    ensures
        match t {
            Some(x) => page_rule_tip(rows@, rule) == Some(x@),
            None => page_rule_tip(rows@, rule) is None,
        },
{
    let len = rows.len();
    let mut best: Option<(String, usize)> = None;
    let ghost mut best_idx: int = -1;
    for i in 0..len
        invariant
            len == rows@.len(),
            best_idx == best_row(rows@, rule, i as int),
            -1 <= best_idx < i,
            best_idx == -1 <==> best is None,
            best matches Some(b) ==> page_of(rows@[best_idx], rule) == Some(b.0@) && b.1 as nat
                == page_count(rows@, rule, b.0@),
    {
        if let Some(p) = page_of_exec(&rows[i], &rule) {
            let c = page_count_exec(rows, &rule, &p);
            let better = match &best {
                None => true,
                Some(b) => c > b.1,
            };
            if better {
                best = Some((p, c));
                proof {
                    best_idx = i as int;
                }
            }
        }
    }
    match best {
        None => None,
        Some((p, c)) => {
            let threshold: usize = match rule {
                PageRule::RepeatedFetch => REPEAT_FETCH_THRESHOLD,
                PageRule::Forbidden => FREQUENT_403_THRESHOLD,
            };
            if c < threshold {
                None
            } else {
                Some(page_tip_exec(&rule, &p, c))
            }
        },
    }
}

fn oversized_tip_exec(rows: &Vec<HistoryRow>) -> (t: Option<Tip>)
    ensures
        match t {
            Some(x) => oversized_tip(rows@) == Some(x@),
            None => oversized_tip(rows@) is None,
        },
{
    let mut n: usize = 0;
    let len = rows.len();
    for i in 0..len
        invariant
            len == rows@.len(),
            n as nat == oversized_count(rows@.take(i as int)),
            n <= i,
    {
        assert(rows@.take(i + 1).drop_last() =~= rows@.take(i as int));
        if rows[i].tokens_est > OVERSIZED_TOKENS {
            n = n + 1;
        }
    }
    assert(rows@.take(len as int) =~= rows@);
    if n == 0 {
        return None;
    }
    let mut title = dec_u64(n as u64);
    extend_str(&mut title, " tool call(s) returned over 20k tokens.");
    Some(
        Tip {
            id: "oversized_output".to_string(),
            title: string_of(&title),
            detail: "Narrow your CQL (e.g. add `space=...`) or call `get_page` with `include_body=false` first.".to_string(),
        },
    )
}

fn high_error_tip_exec(rows: &Vec<HistoryRow>) -> (t: Option<Tip>)
    requires
        rows@.len() < 0x1_0000_0000_0000,
    ensures
        match t {
            Some(x) => high_error_tip(rows@) == Some(x@),
            None => high_error_tip(rows@) is None,
        },
{
    let len = rows.len();
    if len == 0 {
        return None;
    }
    let mut e: usize = 0;
    for i in 0..len
        invariant
            len == rows@.len(),
            e as nat == error_count(rows@.take(i as int)),
            e <= i,
    {
        assert(rows@.take(i + 1).drop_last() =~= rows@.take(i as int));
        if !str_eq(rows[i].status.as_str(), "ok") {
            e = e + 1;
        }
    }
    assert(rows@.take(len as int) =~= rows@);
    if 10 * (e as u64) <= len as u64 {
        return None;
    }
    let pct = (200 * (e as u64) + len as u64) / (2 * len as u64);
    let mut title = dec_u64(pct);
    extend_str(&mut title, "% of calls failed this week.");
    Some(
        Tip {
            id: "high_error_rate".to_string(),
            title: string_of(&title),
            detail: "Check the Recent errors list below — the same endpoint may keep failing.".to_string(),
        },
    )
}

/// Tips for the tool calls of the last seven days before `now_ts`, in this order:
/// a page fetched five or more times, calls over 20k estimated tokens, a failure rate
/// above ten percent, a page refused (403) three or more times; at most the first three
/// of these that apply.
pub fn analyze(history: &Vec<HistoryRow>, now_ts: i64) -> (tips: Vec<Tip>)
    requires
        now_ts >= i64::MIN + 604800,
        history@.len() < 0x1_0000_0000_0000,
    ensures
        tips@.map_values(|t: Tip| t@) == analyze_spec(history@, now_ts as int),
{
    let cutoff = now_ts - SEVEN_DAYS_SECS;
    let mut recent: Vec<HistoryRow> = Vec::new();
    let len = history.len();
    for i in 0..len
        invariant
            len == history@.len(),
            recent@ == recent_rows(history@.take(i as int), cutoff as int),
            recent@.len() <= i,
    {
        assert(history@.take(i + 1).drop_last() =~= history@.take(i as int));
        if history[i].ts >= cutoff {
            recent.push(history[i].copy());
        }
    }
    assert(history@.take(len as int) =~= history@);
    let a = page_rule_tip_exec(&recent, PageRule::RepeatedFetch);
    let b = oversized_tip_exec(&recent);
    let c = high_error_tip_exec(&recent);
    let d = page_rule_tip_exec(&recent, PageRule::Forbidden);
    let mut tips: Vec<Tip> = Vec::new();
    if let Some(t) = a {
        tips.push(t);
    }
    if let Some(t) = b {
        tips.push(t);
    }
    if let Some(t) = c {
        tips.push(t);
    }
    if let Some(t) = d {
        if tips.len() < 3 {
            tips.push(t);
        }
    }
    assert(tips@.map_values(|t: Tip| t@) =~= analyze_spec(history@, now_ts as int));
    tips
}

// ---------------------------------------------------------------------------
// Laws
// ---------------------------------------------------------------------------

proof fn lemma_recent_concat(a: Seq<HistoryRow>, b: Seq<HistoryRow>, cutoff: int)
    ensures
        recent_rows(a + b, cutoff) == recent_rows(a, cutoff) + recent_rows(b, cutoff),
    decreases b.len(),
{
    if b.len() == 0 {
        assert(a + b =~= a);
        assert(recent_rows(a, cutoff) + recent_rows(b, cutoff) =~= recent_rows(a, cutoff));
    } else {
        lemma_recent_concat(a, b.drop_last(), cutoff);
        assert((a + b).drop_last() =~= a + b.drop_last());
        assert((a + b).last() == b.last());
        let ra = recent_rows(a, cutoff);
        let rb = recent_rows(b.drop_last(), cutoff);
        assert((ra + rb).push(b.last()) =~= ra + rb.push(b.last()));
    }
}

proof fn lemma_recent_none(a: Seq<HistoryRow>, cutoff: int)
    requires
        forall|i: int| 0 <= i < a.len() ==> (#[trigger] a[i]).ts < cutoff,
    ensures
        recent_rows(a, cutoff) == Seq::<HistoryRow>::empty(),
    decreases a.len(),
{
    if a.len() > 0 {
        assert forall|i: int| 0 <= i < a.drop_last().len() implies (#[trigger] a.drop_last()[
            i]).ts < cutoff by {
            assert(a.drop_last()[i] == a[i]);
        }
        lemma_recent_none(a.drop_last(), cutoff);
        assert(a.last() == a[a.len() - 1]);
    }
}

/// Calls older than the seven-day window do not change the tips.
pub proof fn law_old_rows_ignored(old: Seq<HistoryRow>, history: Seq<HistoryRow>, now_ts: int)
    requires
        forall|i: int| 0 <= i < old.len() ==> (#[trigger] old[i]).ts < now_ts - 604800,
    ensures
        analyze_spec(old + history, now_ts) == analyze_spec(history, now_ts),
{
    lemma_recent_concat(old, history, now_ts - 604800);
    lemma_recent_none(old, now_ts - 604800);
    assert(Seq::<HistoryRow>::empty() + recent_rows(history, now_ts - 604800) =~= recent_rows(
        history,
        now_ts - 604800,
    ));
}

proof fn lemma_best_row(rows: Seq<HistoryRow>, rule: PageRule, k: int)
    requires
        0 <= k <= rows.len(),
    ensures
        -1 <= best_row(rows, rule, k) < k,
        best_row(rows, rule, k) == -1 <==> forall|j: int|
            0 <= j < k ==> (#[trigger] page_of(rows[j], rule)) is None,
        best_row(rows, rule, k) != -1 ==> page_of(rows[best_row(rows, rule, k)], rule) is Some,
        best_row(rows, rule, k) != -1 ==> forall|j: int|
            0 <= j < k && (#[trigger] page_of(rows[j], rule)) is Some ==> page_count(
                rows,
                rule,
                page_of(rows[j], rule)->0,
            ) <= page_count(rows, rule, page_of(rows[best_row(rows, rule, k)], rule)->0),
    decreases k,
{
    if k > 0 {
        lemma_best_row(rows, rule, k - 1);
    }
}

/// A per-page tip (five fetches of one page, or three refusals of one page) appears
/// exactly when some page reaches the rule's count within the rows.
pub proof fn law_page_tip_iff_threshold(rows: Seq<HistoryRow>, rule: PageRule)
    ensures
        page_rule_tip(rows, rule) is Some <==> exists|j: int|
            0 <= j < rows.len() && (#[trigger] page_of(rows[j], rule)) is Some && page_count(
                rows,
                rule,
                page_of(rows[j], rule)->0,
            ) >= rule_threshold(rule),
{
    lemma_best_row(rows, rule, rows.len() as int);
    let b = best_row(rows, rule, rows.len() as int);
    if page_rule_tip(rows, rule) is Some {
        assert(page_of(rows[b], rule) is Some);
    }
}

/// The monitor shows at most three tips, and never the same tip twice.
pub proof fn law_at_most_three_tips(history: Seq<HistoryRow>, now_ts: int)
    ensures
        analyze_spec(history, now_ts).len() <= 3,
        forall|i: int, j: int|
            0 <= i < j < analyze_spec(history, now_ts).len() ==> (#[trigger] analyze_spec(
                history,
                now_ts,
            )[i]).id != (#[trigger] analyze_spec(history, now_ts)[j]).id,
{
    reveal_strlit("repeated_page_fetch");
    reveal_strlit("oversized_output");
    reveal_strlit("high_error_rate");
    reveal_strlit("frequent_403s");
    let recent = recent_rows(history, now_ts - 604800);
    let a = page_rule_tip(recent, PageRule::RepeatedFetch);
    let b = oversized_tip(recent);
    let c = high_error_tip(recent);
    let d = page_rule_tip(recent, PageRule::Forbidden);
    assert(a is Some ==> a->0.id == "repeated_page_fetch"@);
    assert(d is Some ==> d->0.id == "frequent_403s"@);
    let ids = seq!["repeated_page_fetch"@, "oversized_output"@, "high_error_rate"@, "frequent_403s"@];
    assert forall|x: int, y: int| 0 <= x < y < 4 implies ids[x] != ids[y] by {
        if ids[x] == ids[y] {
            assert(ids[x][0] == ids[y][0]);
            assert(ids[x].len() == ids[y].len());
        }
    }
}

/// The calls that failed: those whose status is not `ok`.
pub open spec fn failed_calls(rows: Seq<HistoryRow>) -> Seq<HistoryRow> {
    rows.filter(|r: HistoryRow| r.status@ != "ok"@)
}

proof fn lemma_error_count_is_failures(rows: Seq<HistoryRow>)
    ensures
        error_count(rows) == failed_calls(rows).len(),
    decreases rows.len(),
{
    if rows.len() > 0 {
        lemma_error_count_is_failures(rows.drop_last());
        let pred = |r: HistoryRow| r.status@ != "ok"@;
        reveal(Seq::filter);
        assert(failed_calls(rows) == rows.filter(pred));
        assert(failed_calls(rows.drop_last()) == rows.drop_last().filter(pred));
        assert(rows.filter(pred) == if pred(rows.last()) {
            rows.drop_last().filter(pred).push(rows.last())
        } else {
            rows.drop_last().filter(pred)
        });
    }
}

/// The error-rate tip comes exactly when more than a tenth of the calls failed, and its
/// title names the failing share `e` of the `n` calls in whole percent, rounded to the
/// nearest (halves up): the `p` with `2np <= 200e + n < 2n(p + 1)`.
pub proof fn law_error_tip_names_failing_share(rows: Seq<HistoryRow>)
    ensures
        ({
            let n = rows.len();
            let e = failed_calls(rows).len();
            &&& (high_error_tip(rows) is Some <==> 10 * e > n)
            &&& high_error_tip(rows) matches Some(t) ==> {
                &&& t.id == "high_error_rate"@
                &&& exists|p: nat|
                    {
                        &&& t.title == #[trigger] dec(p) + "% of calls failed this week."@
                        &&& 2 * n * p <= 200 * e + n
                        &&& 200 * e + n < 2 * n * (p + 1)
                    }
            }
        }),
{
    lemma_error_count_is_failures(rows);
    let n = rows.len();
    let e = failed_calls(rows).len();
    if n > 0 && 10 * e > n {
        let p = error_percent(e, n);
        assert(2 * n * p <= 200 * e + n && 200 * e + n < 2 * n * (p + 1)) by (nonlinear_arith)
            requires
                n > 0,
                p == (200 * e + n) / (2 * n),
        ;
    }
}

/// The calls whose estimated output was over 20k tokens.
pub open spec fn oversized_calls(rows: Seq<HistoryRow>) -> Seq<HistoryRow> {
    rows.filter(|r: HistoryRow| r.tokens_est > 20000)
}

proof fn lemma_oversized_count_is_calls(rows: Seq<HistoryRow>)
    ensures
        oversized_count(rows) == oversized_calls(rows).len(),
    decreases rows.len(),
{
    if rows.len() > 0 {
        lemma_oversized_count_is_calls(rows.drop_last());
        let pred = |r: HistoryRow| r.tokens_est > 20000;
        reveal(Seq::filter);
        assert(oversized_calls(rows) == rows.filter(pred));
        assert(oversized_calls(rows.drop_last()) == rows.drop_last().filter(pred));
    }
}

/// The oversized-output tip comes exactly when some call's estimated output was over 20k
/// tokens, and its title names how many such calls there were.
pub proof fn law_oversized_tip_counts_calls(rows: Seq<HistoryRow>)
    ensures
        (oversized_tip(rows) is Some <==> oversized_calls(rows).len() > 0),
        oversized_tip(rows) matches Some(t) ==> t.id == "oversized_output"@ && t.title == dec(
            oversized_calls(rows).len(),
        ) + " tool call(s) returned over 20k tokens."@,
{
    lemma_oversized_count_is_calls(rows);
}

} // verus!
