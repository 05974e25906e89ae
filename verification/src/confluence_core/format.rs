//! Turning page markup into plain text, and capping long text.

use vstd::prelude::*;
use crate::text::{
    ascii_lower, is_ws, is_digit, find_from, trim_start, trim_end, lemma_find_from_bound, replace_all, trim, dec,
    chars_of, string_of, extend, extend_str, replace_all_exec, trim_exec, find_from_exec,
    ascii_lower_exec, is_ws_exec, dec_u64, has_infix, contains, occurs_at, has_char,
    ascii_lower_seq, lemma_trim_clean_ends,
};

verus! {

broadcast use vstd::string::group_string_axioms;

/// The markup patterns that `strip_html` rewrites, each matched at the start of a text.
pub enum HtmlPattern {
    /// `(?i)<br\s*/?>`
    LineBreak,
    /// `(?i)</(p|div|h[1-6]|li|tr)>`
    BlockEnd,
    /// `<[^>]+>`
    AnyTag,
    /// `\n{3,}`
    NewlineRun,
}

/// End of the run of white space starting at `i`.
pub open spec fn ws_end(t: Seq<char>, i: int) -> int
    decreases t.len() - i,
{
    if 0 <= i < t.len() && is_ws(t[i]) {
        ws_end(t, i + 1)
    } else {
        i
    }
}

/// End of the run of newlines starting at `i`.
pub open spec fn nl_end(t: Seq<char>, i: int) -> int
    decreases t.len() - i,
{
    if 0 <= i < t.len() && t[i] == '\n' {
        nl_end(t, i + 1)
    } else {
        i
    }
}

/// Length of the `<br>` tag at the start of `t` (0 when there is none).
pub open spec fn line_break_len(t: Seq<char>) -> int {
    if t.len() >= 3 && t[0] == '<' && ascii_lower(t[1]) == 'b' && ascii_lower(t[2]) == 'r' {
        let w = ws_end(t, 3);
        let w2 = if w < t.len() && t[w] == '/' {
            w + 1
        } else {
            w
        };
        if w2 < t.len() && t[w2] == '>' {
            w2 + 1
        } else {
            0
        }
    } else {
        0
    }
}

/// Length of the block-closing tag at the start of `t` (0 when there is none).
pub open spec fn block_end_len(t: Seq<char>) -> int {
    if t.len() >= 4 && t[0] == '<' && t[1] == '/' {
        if ascii_lower(t[2]) == 'p' && t[3] == '>' {
            4
        } else if t.len() >= 6 && ascii_lower(t[2]) == 'd' && ascii_lower(t[3]) == 'i'
            && ascii_lower(t[4]) == 'v' && t[5] == '>' {
            6
        } else if t.len() >= 5 && ascii_lower(t[2]) == 'h' && '1' <= t[3] && t[3] <= '6' && t[4]
            == '>' {
            5
        } else if t.len() >= 5 && ascii_lower(t[2]) == 'l' && ascii_lower(t[3]) == 'i' && t[4]
            == '>' {
            5
        } else if t.len() >= 5 && ascii_lower(t[2]) == 't' && ascii_lower(t[3]) == 'r' && t[4]
            == '>' {
            5
        } else {
            0
        }
    } else {
        0
    }
}

/// Length of the tag at the start of `t` (0 when there is none).
pub open spec fn any_tag_len(t: Seq<char>) -> int {
    if t.len() >= 1 && t[0] == '<' {
        let k = find_from(t, 1, '>');
        if k >= 2 && k < t.len() {
            k + 1
        } else {
            0
        }
    } else {
        0
    }
}

/// Length of the run of three or more newlines at the start of `t` (0 otherwise).
pub open spec fn newline_run_len(t: Seq<char>) -> int {
    let r = nl_end(t, 0);
    if r >= 3 {
        r
    } else {
        0
    }
}

/// Length of the match of `pattern` at the start of `t` (0 when none).
pub open spec fn match_len(pattern: HtmlPattern, t: Seq<char>) -> int {
    match pattern {
        HtmlPattern::LineBreak => line_break_len(t),
        HtmlPattern::BlockEnd => block_end_len(t),
        HtmlPattern::AnyTag => any_tag_len(t),
        HtmlPattern::NewlineRun => newline_run_len(t),
    }
}

/// Every match of `pattern`, found left to right without overlap, replaced by `rep`
/// (the meaning of `Regex::replace_all` for these patterns, none of which matches the
/// empty text).
pub open spec fn scan_replace(s: Seq<char>, pattern: HtmlPattern, rep: Seq<char>) -> Seq<char>
    decreases s.len(),
{
    if s.len() == 0 {
        s
    } else if 0 < match_len(pattern, s) <= s.len() {
        rep + scan_replace(s.skip(match_len(pattern, s)), pattern, rep)
    } else {
        seq![s[0]] + scan_replace(s.skip(1), pattern, rep)
    }
}

/// The entity decoding step of `strip_html`.
pub open spec fn decode_entities(s: Seq<char>) -> Seq<char> {
    replace_all(
        replace_all(
            replace_all(replace_all(s, "&nbsp;"@, " "@), "&amp;"@, "&"@),
            "&lt;"@,
            "<"@,
        ),
        "&gt;"@,
        ">"@,
    )
}

/// Plain text of Confluence markup: line breaks and block ends become newlines, other
/// tags disappear, the common entities are decoded, runs of three or more newlines
/// shrink to two, and surrounding white space is trimmed.
pub open spec fn strip_html_spec(html: Seq<char>) -> Seq<char> {
    let t1 = scan_replace(html, HtmlPattern::LineBreak, "\n"@);
    let t2 = scan_replace(t1, HtmlPattern::BlockEnd, "\n"@);
    let t3 = scan_replace(t2, HtmlPattern::AnyTag, seq![]);
    let t4 = decode_entities(t3);
    let t5 = scan_replace(t4, HtmlPattern::NewlineRun, "\n\n"@);
    trim(t5)
}

/// The marker appended to text cut at `max_len` characters.
pub open spec fn truncation_marker(total: nat) -> Seq<char> {
    "\n\n... [truncated — "@ + dec(total) + " chars total]"@
}

/// Text of at most `max_len` characters is kept; longer text keeps its first `max_len`
/// characters followed by a marker naming the full length.
pub open spec fn truncate_spec(text: Seq<char>, max_len: nat) -> Seq<char> {
    if text.len() <= max_len {
        text
    } else {
        text.take(max_len as int) + truncation_marker(text.len())
    }
}

// ---------------------------------------------------------------------------
// Matching at a position
// ---------------------------------------------------------------------------

proof fn lemma_ws_end(t: Seq<char>, i: int)
    requires
        0 <= i <= t.len(),
    ensures
        i <= ws_end(t, i) <= t.len(),
        ws_end(t, i) < t.len() ==> !is_ws(t[ws_end(t, i)]),
    decreases t.len() - i,
{
    if i < t.len() && is_ws(t[i]) {
        lemma_ws_end(t, i + 1);
    }
}

proof fn lemma_nl_end(t: Seq<char>, i: int)
    requires
        0 <= i <= t.len(),
    ensures
        i <= nl_end(t, i) <= t.len(),
        forall|k: int| i <= k < nl_end(t, i) ==> t[k] == '\n',
        nl_end(t, i) < t.len() ==> t[nl_end(t, i)] != '\n',
    decreases t.len() - i,
{
    if i < t.len() && t[i] == '\n' {
        lemma_nl_end(t, i + 1);
    }
}

/// `ws_end` over a suffix, in coordinates of the whole sequence.
fn ws_end_at(s: &Vec<char>, i: usize, start: usize) -> (r: usize)
    requires
        i <= s@.len(),
        start <= s@.len() - i,
    ensures
        r as int == i + ws_end(s@.skip(i as int), start as int),
{
    let ghost t = s@.skip(i as int);
    let n = s.len();
    let mut j = i + start;
    while j < n && is_ws_exec(s[j])
        invariant
            i + start <= j <= n,
            n == s@.len(),
            t == s@.skip(i as int),
            ws_end(t, start as int) == ws_end(t, j - i),
        decreases n - j,
    {
        assert(t[j - i] == s@[j as int]);
        j = j + 1;
    }
    proof {
        if j < n {
            assert(t[j - i] == s@[j as int]);
        }
    }
    j
}

fn nl_end_at(s: &Vec<char>, i: usize) -> (r: usize)
    requires
        i <= s@.len(),
    ensures
        r as int == i + nl_end(s@.skip(i as int), 0),
{
    let ghost t = s@.skip(i as int);
    let mut j = i;
    let n = s.len();
    while j < n && s[j] == '\n'
        invariant
            i <= j <= n,
            n == s@.len(),
            t == s@.skip(i as int),
            nl_end(t, 0) == nl_end(t, j - i),
        decreases n - j,
    {
        assert(t[j - i] == s@[j as int]);
        j = j + 1;
    }
    proof {
        if j < n {
            assert(t[j - i] == s@[j as int]);
        }
    }
    j
}

fn find_at(s: &Vec<char>, i: usize, start: usize, c: char) -> (r: usize)
    requires
        i <= s@.len(),
        start <= s@.len() - i,
    ensures
        r as int == i + find_from(s@.skip(i as int), start as int, c),
{
    let ghost t = s@.skip(i as int);
    let n = s.len();
    let mut j = i + start;
    while j < n && s[j] != c
        invariant
            i + start <= j <= n,
            n == s@.len(),
            t == s@.skip(i as int),
            find_from(t, start as int, c) == find_from(t, j - i, c),
        decreases n - j,
    {
        assert(t[j - i] == s@[j as int]);
        j = j + 1;
    }
    proof {
        if j < n {
            assert(t[j - i] == s@[j as int]);
        }
    }
    j
}

fn lower_at(s: &Vec<char>, k: usize) -> (c: char)
    requires
        k < s@.len(),
    ensures
        c == ascii_lower(s@[k as int]),
{
    ascii_lower_exec(s[k])
}

/// Length of the match of `pattern` at position `i` of `s`.
fn match_len_at(s: &Vec<char>, i: usize, pattern: &HtmlPattern) -> (k: usize)
    requires
        i < s@.len(),
    ensures
        k as int == match_len(*pattern, s@.skip(i as int)),
        k as int <= s@.len() - i,
{
    let ghost t = s@.skip(i as int);
    let n = s.len();
    let len = n - i;
    match pattern {
        HtmlPattern::LineBreak => {
            if len >= 3 && s[i] == '<' && lower_at(s, i + 1) == 'b' && lower_at(s, i + 2) == 'r' {
                let w = ws_end_at(s, i, 3);
                proof {
                    lemma_ws_end(t, 3);
                }
                let w2 = if w < n && s[w] == '/' {
                    w + 1
                } else {
                    w
                };
                if w2 < n && s[w2] == '>' {
                    w2 + 1 - i
                } else {
                    0
                }
            } else {
                0
            }
        },
        HtmlPattern::BlockEnd => {
            if len >= 4 && s[i] == '<' && s[i + 1] == '/' {
                let c2 = lower_at(s, i + 2);
                if c2 == 'p' && s[i + 3] == '>' {
                    4
                } else if len >= 6 && c2 == 'd' && lower_at(s, i + 3) == 'i' && lower_at(s, i + 4)
                    == 'v' && s[i + 5] == '>' {
                    6
                } else if len >= 5 && c2 == 'h' && '1' <= s[i + 3] && s[i + 3] <= '6' && s[i + 4]
                    == '>' {
                    5
                } else if len >= 5 && c2 == 'l' && lower_at(s, i + 3) == 'i' && s[i + 4] == '>' {
                    5
                } else if len >= 5 && c2 == 't' && lower_at(s, i + 3) == 'r' && s[i + 4] == '>' {
                    5
                } else {
                    0
                }
            } else {
                0
            }
        },
        HtmlPattern::AnyTag => {
            if s[i] == '<' {
                let k = find_at(s, i, 1, '>');
                proof {
                    lemma_find_from_bound(t, 1, '>');
                }
                if k - i >= 2 && k < n {
                    k + 1 - i
                } else {
                    0
                }
            } else {
                0
            }
        },
        HtmlPattern::NewlineRun => {
            let r = nl_end_at(s, i);
            proof {
                lemma_nl_end(t, 0);
            }
            if r - i >= 3 {
                r - i
            } else {
                0
            }
        },
    }
}

/// `scan_replace` on executable text.
fn scan_replace_exec(s: &Vec<char>, pattern: HtmlPattern, rep: &Vec<char>) -> (r: Vec<char>)
    ensures
        r@ == scan_replace(s@, pattern, rep@),
{
    let mut r: Vec<char> = Vec::new();
    let n = s.len();
    let mut i: usize = 0;
    assert(s@.skip(0) =~= s@);
    assert(r@ + scan_replace(s@, pattern, rep@) =~= scan_replace(s@, pattern, rep@));
    while i < n
        invariant
            n == s@.len(),
            i <= n,
            r@ + scan_replace(s@.skip(i as int), pattern, rep@) == scan_replace(
                s@,
                pattern,
                rep@,
            ),
        decreases n - i,
    {
        let ghost rest = s@.skip(i as int);
        let k = match_len_at(s, i, &pattern);
        if k > 0 {
            assert(rest.skip(k as int) =~= s@.skip(i + k));
            let ghost before = r@;
            extend(&mut r, rep);
            assert(before + (rep@ + scan_replace(rest.skip(k as int), pattern, rep@)) =~= r@
                + scan_replace(s@.skip(i + k), pattern, rep@));
            i = i + k;
        } else {
            assert(rest.skip(1) =~= s@.skip(i + 1));
            assert(rest[0] == s@[i as int]);
            let ghost before = r@;
            r.push(s[i]);
            assert(before + (seq![s@[i as int]] + scan_replace(rest.skip(1), pattern, rep@))
                =~= r@ + scan_replace(s@.skip(i + 1), pattern, rep@));
            i = i + 1;
        }
    }
    assert(s@.skip(n as int) =~= Seq::<char>::empty());
    assert(r@ + Seq::<char>::empty() =~= r@);
    r
}

fn replace_literal(s: &Vec<char>, from: &str, to: &str) -> (r: Vec<char>)
    requires
        from@.len() > 0,
    ensures
        r@ == replace_all(s@, from@, to@),
{
    let f = chars_of(from);
    let t = chars_of(to);
    replace_all_exec(s, &f, &t)
}

/// Plain text of Confluence markup (see [`strip_html_spec`]).
pub fn strip_html(html: &str) -> (out: String)
    ensures
        out@ == strip_html_spec(html@),
{
    let s = chars_of(html);
    let nl = chars_of("\n");
    let nl2 = chars_of("\n\n");
    let empty: Vec<char> = Vec::new();
    let t1 = scan_replace_exec(&s, HtmlPattern::LineBreak, &nl);
    let t2 = scan_replace_exec(&t1, HtmlPattern::BlockEnd, &nl);
    let t3 = scan_replace_exec(&t2, HtmlPattern::AnyTag, &empty);
    proof {
        reveal_strlit("&nbsp;");
        reveal_strlit("&amp;");
        reveal_strlit("&lt;");
        reveal_strlit("&gt;");
    }
    let a = replace_literal(&t3, "&nbsp;", " ");
    let b = replace_literal(&a, "&amp;", "&");
    let c = replace_literal(&b, "&lt;", "<");
    let d = replace_literal(&c, "&gt;", ">");
    let t5 = scan_replace_exec(&d, HtmlPattern::NewlineRun, &nl2);
    let t6 = trim_exec(&t5);
    assert(empty@ =~= Seq::<char>::empty());
    string_of(&t6)
}

/// Keeps text of at most `max_len` characters; cuts longer text to its first `max_len`
/// characters and appends `\n\n... [truncated — N chars total]`.
pub fn truncate(text: &str, max_len: usize) -> (out: String)
    ensures
        out@ == truncate_spec(text@, max_len as nat),
{
    let chars = chars_of(text);
    if chars.len() <= max_len {
        return string_of(&chars);
    }
    let mut out = crate::text::slice(&chars, 0, max_len);
    extend_str(&mut out, "\n\n... [truncated — ");
    let total = dec_u64(chars.len() as u64);
    extend(&mut out, &total);
    extend_str(&mut out, " chars total]");
    assert(chars@.subrange(0, max_len as int) =~= chars@.take(max_len as int));
    assert(out@ =~= chars@.take(max_len as int) + truncation_marker(chars@.len()));
    string_of(&out)
}


// ---------------------------------------------------------------------------
// Laws
// ---------------------------------------------------------------------------

/// Three newlines in a row start at `i`.
pub open spec fn newline_triple_at(s: Seq<char>, i: int) -> bool {
    s[i] == '\n' && s[i + 1] == '\n' && s[i + 2] == '\n'
}

/// No three newlines in a row anywhere in `s`.
pub open spec fn no_newline_triple(s: Seq<char>) -> bool {
    forall|i: int| 0 <= i && i + 2 < s.len() ==> !#[trigger] newline_triple_at(s, i)
}

proof fn lemma_newline_runs_collapse(s: Seq<char>)
    ensures
        ({
            let out = scan_replace(s, HtmlPattern::NewlineRun, "\n\n"@);
            &&& no_newline_triple(out)
            &&& (s.len() == 0 || s[0] != '\n') ==> (out.len() == 0 || out[0] != '\n')
            &&& (s.len() >= 1 && s[0] == '\n' && (s.len() < 2 || s[1] != '\n')) ==> (out.len()
                >= 1 && out[0] == '\n' && (out.len() < 2 || out[1] != '\n'))
        }),
    decreases s.len(),
{
    reveal_strlit("\n\n");
    let rep: Seq<char> = "\n\n"@;
    let out = scan_replace(s, HtmlPattern::NewlineRun, rep);
    if s.len() == 0 {
        return;
    }
    reveal_with_fuel(nl_end, 4);
    lemma_nl_end(s, 0);
    let r = nl_end(s, 0);
    if r >= 3 {
        let rest = s.skip(r);
        lemma_newline_runs_collapse(rest);
        let x = scan_replace(rest, HtmlPattern::NewlineRun, rep);
        assert(rest.len() == 0 || rest[0] != '\n');
        assert(out == rep + x);
        assert forall|i: int| 0 <= i && i + 2 < out.len() implies !#[trigger] newline_triple_at(
            out,
            i,
        ) by {
            if i >= 2 {
                assert(newline_triple_at(out, i) == newline_triple_at(x, i - 2));
            } else {
                assert(out[2] == x[0]);
            }
        }
    } else {
        let rest = s.skip(1);
        lemma_newline_runs_collapse(rest);
        let x = scan_replace(rest, HtmlPattern::NewlineRun, rep);
        assert(match_len(HtmlPattern::NewlineRun, s) == 0);
        assert(out == seq![s[0]] + x);
        if s[0] == '\n' {
            if s.len() >= 2 && s[1] == '\n' {
                assert(rest[0] == '\n');
                assert(rest.len() < 2 || rest[1] != '\n');
            } else {
                assert(rest.len() == 0 || rest[0] != '\n');
            }
        }
        assert forall|i: int| 0 <= i && i + 2 < out.len() implies !#[trigger] newline_triple_at(
            out,
            i,
        ) by {
            if i >= 1 {
                assert(newline_triple_at(out, i) == newline_triple_at(x, i - 1));
            } else {
                assert(out[1] == x[0]);
                assert(out[2] == x[1]);
            }
        }
    }
}

proof fn lemma_trim_start_clean(s: Seq<char>)
    ensures
        no_newline_triple(s) ==> no_newline_triple(trim_start(s)),
        trim_start(s).len() > 0 ==> !is_ws(trim_start(s)[0]),
    decreases s.len(),
{
    if s.len() > 0 && is_ws(s[0]) {
        let d = s.drop_first();
        if no_newline_triple(s) {
            assert forall|i: int| 0 <= i && i + 2 < d.len() implies !#[trigger] newline_triple_at(
                d,
                i,
            ) by {
                assert(newline_triple_at(d, i) == newline_triple_at(s, i + 1));
            }
        }
        lemma_trim_start_clean(d);
    }
}

proof fn lemma_trim_end_clean(s: Seq<char>)
    ensures
        no_newline_triple(s) ==> no_newline_triple(trim_end(s)),
        trim_end(s).len() > 0 ==> !is_ws(trim_end(s).last()),
        trim_end(s).len() > 0 ==> trim_end(s)[0] == s[0],
    decreases s.len(),
{
    if s.len() > 0 && is_ws(s.last()) {
        let d = s.drop_last();
        if no_newline_triple(s) {
            assert forall|i: int| 0 <= i && i + 2 < d.len() implies !#[trigger] newline_triple_at(
                d,
                i,
            ) by {
                assert(newline_triple_at(d, i) == newline_triple_at(s, i));
            }
        }
        lemma_trim_end_clean(d);
    }
}

/// Whatever the markup, the plain text has no run of three or more newlines, and starts
/// and ends with a character that is not white space (or is empty).
pub proof fn law_strip_html_clean(html: Seq<char>)
    ensures
        no_newline_triple(strip_html_spec(html)),
        strip_html_spec(html).len() > 0 ==> !is_ws(strip_html_spec(html)[0]) && !is_ws(
            strip_html_spec(html).last(),
        ),
{
    let t1 = scan_replace(html, HtmlPattern::LineBreak, "\n"@);
    let t2 = scan_replace(t1, HtmlPattern::BlockEnd, "\n"@);
    let t3 = scan_replace(t2, HtmlPattern::AnyTag, seq![]);
    let t4 = decode_entities(t3);
    lemma_newline_runs_collapse(t4);
    let t5 = scan_replace(t4, HtmlPattern::NewlineRun, "\n\n"@);
    lemma_trim_start_clean(t5);
    lemma_trim_end_clean(trim_start(t5));
}

// ---------------------------------------------------------------------------
// Block ends become line ends
// ---------------------------------------------------------------------------

/// A closing tag of a block element: `</p>`, `</div>`, `</h1>` to `</h6>`, `</li>` or
/// `</tr>`, in any ASCII case.
pub open spec fn closing_block_tag(tag: Seq<char>) -> bool {
    &&& tag.len() >= 4
    &&& tag[0] == '<'
    &&& tag[1] == '/'
    &&& tag.last() == '>'
    &&& ({
        let name = ascii_lower_seq(tag.subrange(2, tag.len() - 1));
        ||| name == "p"@
        ||| name == "div"@
        ||| name == "li"@
        ||| name == "tr"@
        ||| (name.len() == 2 && name[0] == 'h' && '1' <= name[1] && name[1] <= '6')
    })
}

/// Text without markup: non-empty, not starting or ending with white space, and holding
/// no `<`, no `&` and no newline.
pub open spec fn plain_text(a: Seq<char>) -> bool {
    &&& a.len() > 0
    &&& !is_ws(a[0])
    &&& !is_ws(a.last())
    &&& !has_char(a, '<')
    &&& !has_char(a, '&')
    &&& !has_char(a, '\n')
}

proof fn lemma_no_char_skip(x: Seq<char>, c: char)
    requires
        x.len() > 0,
        !has_char(x, c),
    ensures
        !has_char(x.skip(1), c),
{
    if has_char(x.skip(1), c) {
        let i = choose|i: int| 0 <= i < x.skip(1).len() && x.skip(1)[i] == c;
        assert(x[i + 1] == c);
    }
}

proof fn lemma_no_char_concat(x: Seq<char>, y: Seq<char>, c: char)
    requires
        !has_char(x, c),
        !has_char(y, c),
    ensures
        !has_char(x + y, c),
{
    if has_char(x + y, c) {
        let i = choose|i: int| 0 <= i < (x + y).len() && (x + y)[i] == c;
        if i < x.len() {
            assert(x[i] == c);
        } else {
            assert(y[i - x.len()] == c);
        }
    }
}

proof fn lemma_newline_only(c: char)
    requires
        c != '\n',
    ensures
        !has_char(seq!['\n'], c),
{
    if has_char(seq!['\n'], c) {
        let i = choose|i: int| 0 <= i < 1 && seq!['\n'][i] == c;
    }
}

/// A stretch without the character that every match of `pattern` starts with (`<`, or a
/// newline for runs of newlines) is copied as it is.
proof fn lemma_scan_plain_prefix(x: Seq<char>, y: Seq<char>, pattern: HtmlPattern, rep: Seq<char>)
    requires
        !(pattern is NewlineRun) ==> !has_char(x, '<'),
        pattern is NewlineRun ==> !has_char(x, '\n'),
    ensures
        scan_replace(x + y, pattern, rep) == x + scan_replace(y, pattern, rep),
    decreases x.len(),
{
    let s = x + y;
    if x.len() > 0 {
        assert(s[0] == x[0]);
        if pattern is NewlineRun {
            assert(x[0] != '\n');
            assert(nl_end(s, 0) == 0);
            lemma_no_char_skip(x, '\n');
        } else {
            assert(x[0] != '<');
            lemma_no_char_skip(x, '<');
        }
        assert(match_len(pattern, s) == 0);
        assert(s.skip(1) =~= x.skip(1) + y);
        lemma_scan_plain_prefix(x.skip(1), y, pattern, rep);
        assert(x =~= seq![x[0]] + x.skip(1));
        assert(x + scan_replace(y, pattern, rep) =~= seq![x[0]] + (x.skip(1) + scan_replace(
            y,
            pattern,
            rep,
        )));
    } else {
        assert(s =~= y);
        assert(x + scan_replace(y, pattern, rep) =~= scan_replace(y, pattern, rep));
    }
}

proof fn lemma_scan_plain(x: Seq<char>, pattern: HtmlPattern, rep: Seq<char>)
    requires
        !(pattern is NewlineRun) ==> !has_char(x, '<'),
        pattern is NewlineRun ==> !has_char(x, '\n'),
    ensures
        scan_replace(x, pattern, rep) == x,
{
    lemma_scan_plain_prefix(x, seq![], pattern, rep);
    assert(x + Seq::<char>::empty() =~= x);
}

/// Replacing a pattern that starts with a character the text does not hold changes
/// nothing.
proof fn lemma_replace_absent(s: Seq<char>, from: Seq<char>, to: Seq<char>)
    requires
        from.len() > 0,
        !has_char(s, from[0]),
    ensures
        replace_all(s, from, to) == s,
    decreases s.len(),
{
    if s.len() >= from.len() {
        if s.take(from.len() as int) == from {
            assert(s.take(from.len() as int)[0] == s[0]);
            assert(s[0] == from[0]);
        }
        lemma_no_char_skip(s, from[0]);
        lemma_replace_absent(s.skip(1), from, to);
        assert(s =~= seq![s[0]] + s.skip(1));
    }
}

/// What a closing block tag looks like character by character, and that the block-end
/// pattern takes it whole.
proof fn lemma_closing_tag_shape(tag: Seq<char>, b: Seq<char>)
    requires
        closing_block_tag(tag),
    ensures
        !has_char(tag.skip(1), '<'),
        block_end_len(tag + b) == tag.len(),
        line_break_len(tag + b) == 0,
{
    reveal_strlit("p");
    reveal_strlit("div");
    reveal_strlit("li");
    reveal_strlit("tr");
    let name = ascii_lower_seq(tag.subrange(2, tag.len() - 1));
    let t = tag + b;
    assert(name.len() == tag.len() - 3);
    assert forall|k: int| 2 <= k < tag.len() - 1 implies ascii_lower(#[trigger] tag[k]) == name[k
        - 2] by {
        assert(tag.subrange(2, tag.len() - 1)[k - 2] == tag[k]);
    }
    assert forall|k: int| 0 <= k < tag.len() implies #[trigger] t[k] == tag[k] by {}
    if has_char(tag.skip(1), '<') {
        let i = choose|i: int| 0 <= i < tag.skip(1).len() && tag.skip(1)[i] == '<';
        assert(tag[i + 1] == '<');
        if 2 <= i + 1 < tag.len() - 1 {
            assert(ascii_lower(tag[i + 1]) == '<');
        }
    }
    assert(ascii_lower('/') == '/');
    if name.len() == 2 && name[0] == 'h' {
        assert(ascii_lower(tag[3]) == name[1]);
        assert(t[3] == tag[3]);
    }
}

/// Once the line breaks are in, the later steps of `strip_html` leave two pieces of
/// plain text on two lines as they are.
proof fn lemma_line_tail(a: Seq<char>, b: Seq<char>)
    requires
        plain_text(a),
        plain_text(b),
    ensures
        ({
            let t = a + ("\n"@ + b);
            &&& scan_replace(t, HtmlPattern::BlockEnd, "\n"@) == t
            &&& trim(
                scan_replace(
                    decode_entities(scan_replace(t, HtmlPattern::AnyTag, seq![])),
                    HtmlPattern::NewlineRun,
                    "\n\n"@,
                ),
            ) == a + "\n"@ + b
        }),
{
    reveal_strlit("\n");
    reveal_strlit("&nbsp;");
    reveal_strlit("&amp;");
    reveal_strlit("&lt;");
    reveal_strlit("&gt;");
    let nl: Seq<char> = "\n"@;
    let empty: Seq<char> = seq![];
    let t2 = a + (nl + b);
    assert(nl =~= seq!['\n']);
    lemma_newline_only('<');
    lemma_newline_only('&');
    // Block ends and other tags: none.
    lemma_no_char_concat(nl, b, '<');
    lemma_no_char_concat(a, nl + b, '<');
    lemma_scan_plain(t2, HtmlPattern::BlockEnd, nl);
    lemma_scan_plain(t2, HtmlPattern::AnyTag, empty);
    // Entities: none.
    lemma_no_char_concat(nl, b, '&');
    lemma_no_char_concat(a, nl + b, '&');
    lemma_replace_absent(t2, "&nbsp;"@, " "@);
    lemma_replace_absent(t2, "&amp;"@, "&"@);
    lemma_replace_absent(t2, "&lt;"@, "<"@);
    lemma_replace_absent(t2, "&gt;"@, ">"@);
    assert(decode_entities(t2) == t2);
    // Newline runs: a single newline.
    lemma_scan_plain_prefix(a, nl + b, HtmlPattern::NewlineRun, "\n\n"@);
    let u = nl + b;
    assert(u[0] == '\n');
    assert(u[1] == b[0]);
    assert(b[0] != '\n');
    assert(nl_end(u, 1) == 1);
    assert(nl_end(u, 0) == 1);
    assert(match_len(HtmlPattern::NewlineRun, u) == 0);
    assert(u.skip(1) =~= b);
    lemma_scan_plain(b, HtmlPattern::NewlineRun, "\n\n"@);
    assert(scan_replace(u, HtmlPattern::NewlineRun, "\n\n"@) == seq![u[0]] + b);
    assert(seq![u[0]] + b =~= u);
    let t5 = scan_replace(t2, HtmlPattern::NewlineRun, "\n\n"@);
    assert(t5 == a + u);
    // Trimming: nothing to trim.
    assert((a + u)[0] == a[0]);
    assert((a + u).last() == b.last());
    lemma_trim_clean_ends(a + u);
    assert(a + u =~= a + "\n"@ + b);
}

/// Text without markup (see [`plain_text`]) comes out of `strip_html` as it went in.
pub proof fn law_plain_text_unchanged(t: Seq<char>)
    requires
        plain_text(t),
    ensures
        strip_html_spec(t) == t,
{
    reveal_strlit("&nbsp;");
    reveal_strlit("&amp;");
    reveal_strlit("&lt;");
    reveal_strlit("&gt;");
    lemma_scan_plain(t, HtmlPattern::LineBreak, "\n"@);
    lemma_scan_plain(t, HtmlPattern::BlockEnd, "\n"@);
    lemma_scan_plain(t, HtmlPattern::AnyTag, seq![]);
    lemma_replace_absent(t, "&nbsp;"@, " "@);
    lemma_replace_absent(t, "&amp;"@, "&"@);
    lemma_replace_absent(t, "&lt;"@, "<"@);
    lemma_replace_absent(t, "&gt;"@, ">"@);
    lemma_scan_plain(t, HtmlPattern::NewlineRun, "\n\n"@);
    lemma_trim_clean_ends(t);
}

/// Between two pieces of plain text, a closing block tag (`</p>`, `</div>`, `</h1>` to
/// `</h6>`, `</li>`, `</tr>`, in any case) becomes a line break: `a`, the tag, then `b`
/// reads as `a`, a newline, then `b`.
pub proof fn law_block_end_breaks_line(a: Seq<char>, tag: Seq<char>, b: Seq<char>)
    requires
        plain_text(a),
        plain_text(b),
        closing_block_tag(tag),
    ensures
        strip_html_spec(a + tag + b) == a + "\n"@ + b,
{
    reveal_strlit("\n");
    reveal_strlit("&nbsp;");
    reveal_strlit("&amp;");
    reveal_strlit("&lt;");
    reveal_strlit("&gt;");
    let nl: Seq<char> = "\n"@;
    let empty: Seq<char> = seq![];
    lemma_closing_tag_shape(tag, b);
    // Line breaks: none.
    assert(a + tag + b =~= a + (tag + b));
    lemma_scan_plain_prefix(a, tag + b, HtmlPattern::LineBreak, nl);
    assert((tag + b).skip(1) =~= tag.skip(1) + b);
    lemma_scan_plain_prefix(tag.skip(1), b, HtmlPattern::LineBreak, nl);
    lemma_scan_plain(b, HtmlPattern::LineBreak, nl);
    assert(tag =~= seq![tag[0]] + tag.skip(1));
    assert(seq![(tag + b)[0]] + (tag.skip(1) + b) =~= tag + b);
    let t1 = scan_replace(a + tag + b, HtmlPattern::LineBreak, nl);
    assert(t1 == a + tag + b);
    // Block ends: the tag.
    lemma_scan_plain_prefix(a, tag + b, HtmlPattern::BlockEnd, nl);
    assert((tag + b).skip(tag.len() as int) =~= b);
    lemma_scan_plain(b, HtmlPattern::BlockEnd, nl);
    let t2 = scan_replace(t1, HtmlPattern::BlockEnd, nl);
    assert(t2 == a + (nl + b));
    assert(nl =~= seq!['\n']);
    lemma_newline_only('<');
    lemma_newline_only('&');
    lemma_line_tail(a, b);
}

/// A tag that `pattern` does not match at its place is copied as it is.
proof fn lemma_scan_tag_kept(x: Seq<char>, y: Seq<char>, pattern: HtmlPattern, rep: Seq<char>)
    requires
        x.len() > 0,
        x[0] == '<',
        !(pattern is NewlineRun),
        forall|k: int| 1 <= k < x.len() ==> x[k] != '<',
        match_len(pattern, x + y) == 0,
    ensures
        scan_replace(x + y, pattern, rep) == x + scan_replace(y, pattern, rep),
{
    let s = x + y;
    assert(s[0] == '<');
    assert(s.skip(1) =~= x.skip(1) + y);
    assert(!has_char(x.skip(1), '<')) by {
        if has_char(x.skip(1), '<') {
            let i = choose|i: int| 0 <= i < x.skip(1).len() && x.skip(1)[i] == '<';
            assert(x[i + 1] == '<');
        }
    }
    lemma_scan_plain_prefix(x.skip(1), y, pattern, rep);
    assert(x =~= seq![x[0]] + x.skip(1));
    assert(seq![s[0]] + (x.skip(1) + scan_replace(y, pattern, rep)) =~= x + scan_replace(
        y,
        pattern,
        rep,
    ));
}

/// A tag that `pattern` matches whole at its place is replaced.
proof fn lemma_scan_tag_replaced(x: Seq<char>, y: Seq<char>, pattern: HtmlPattern, rep: Seq<char>)
    requires
        x.len() > 0,
        match_len(pattern, x + y) == x.len(),
    ensures
        scan_replace(x + y, pattern, rep) == rep + scan_replace(y, pattern, rep),
{
    assert((x + y).skip(x.len() as int) =~= y);
}

/// Paragraphs come out one per line: `<p>a</p><p>b</p>`, for plain `a` and `b`, reads
/// as `a`, a newline, then `b`.
pub proof fn law_paragraphs_on_their_own_lines(a: Seq<char>, b: Seq<char>)
    requires
        plain_text(a),
        plain_text(b),
    ensures
        strip_html_spec("<p>"@ + a + "</p><p>"@ + b + "</p>"@) == a + "\n"@ + b,
{
    reveal_strlit("<p>");
    reveal_strlit("</p>");
    reveal_strlit("</p><p>");
    reveal_strlit("\n");
    reveal_strlit("p");
    reveal_strlit("&nbsp;");
    reveal_strlit("&amp;");
    reveal_strlit("&lt;");
    reveal_strlit("&gt;");
    let nl: Seq<char> = "\n"@;
    let empty: Seq<char> = seq![];
    let op: Seq<char> = "<p>"@;
    let cl: Seq<char> = "</p>"@;
    let r3 = b + cl;
    let r2 = op + r3;
    let r1b = cl + r2;
    let r1 = a + r1b;
    let h = op + r1;
    assert(h =~= "<p>"@ + a + "</p><p>"@ + b + "</p>"@);
    assert(closing_block_tag(cl)) by {
        assert(ascii_lower_seq(cl.subrange(2, 3)) =~= "p"@);
    }
    lemma_closing_tag_shape(cl, r2);
    lemma_closing_tag_shape(cl, empty);
    assert(cl + empty =~= cl);
    // Line breaks: none; every tag is kept.
    let lb = HtmlPattern::LineBreak;
    assert(h[1] == 'p' && ascii_lower('p') == 'p');
    lemma_scan_tag_kept(op, r1, lb, nl);
    lemma_scan_plain_prefix(a, r1b, lb, nl);
    assert(r1b[1] == '/' && ascii_lower('/') == '/');
    lemma_scan_tag_kept(cl, r2, lb, nl);
    assert(r2[1] == 'p');
    lemma_scan_tag_kept(op, r3, lb, nl);
    lemma_scan_plain_prefix(b, cl, lb, nl);
    lemma_scan_tag_kept(cl, empty, lb, nl);
    assert(scan_replace(empty, lb, nl) == empty);
    let t1 = scan_replace(h, lb, nl);
    assert(t1 =~= h);
    // Block ends: each `</p>` becomes a newline.
    let be = HtmlPattern::BlockEnd;
    lemma_scan_tag_kept(op, r1, be, nl);
    lemma_scan_plain_prefix(a, r1b, be, nl);
    lemma_scan_tag_replaced(cl, r2, be, nl);
    lemma_scan_tag_kept(op, r3, be, nl);
    lemma_scan_plain_prefix(b, cl, be, nl);
    lemma_scan_tag_replaced(cl, empty, be, nl);
    assert(scan_replace(empty, be, nl) == empty);
    let s3 = b + nl;
    let s2 = op + s3;
    let s1 = a + (nl + s2);
    let t2 = scan_replace(t1, be, nl);
    assert(t2 =~= op + s1);
    // Other tags: each `<p>` goes.
    let at = HtmlPattern::AnyTag;
    assert((op + s1)[1] == 'p' && (op + s1)[2] == '>');
    assert(find_from(op + s1, 2, '>') == 2);
    assert(find_from(op + s1, 1, '>') == 2);
    lemma_scan_tag_replaced(op, s1, at, empty);
    lemma_newline_only('<');
    lemma_newline_only('&');
    assert(nl =~= seq!['\n']);
    lemma_scan_plain_prefix(a, nl + s2, at, empty);
    lemma_scan_plain_prefix(nl, s2, at, empty);
    assert((op + s3)[1] == 'p' && (op + s3)[2] == '>');
    assert(find_from(op + s3, 2, '>') == 2);
    assert(find_from(op + s3, 1, '>') == 2);
    lemma_scan_tag_replaced(op, s3, at, empty);
    lemma_scan_plain_prefix(b, nl, at, empty);
    lemma_scan_plain(nl, at, empty);
    let u = nl + s3;
    let t3 = scan_replace(t2, at, empty);
    assert(t3 =~= a + u);
    // Entities: none.
    lemma_no_char_concat(b, nl, '&');
    lemma_no_char_concat(nl, s3, '&');
    lemma_no_char_concat(a, u, '&');
    lemma_replace_absent(t3, "&nbsp;"@, " "@);
    lemma_replace_absent(t3, "&amp;"@, "&"@);
    lemma_replace_absent(t3, "&lt;"@, "<"@);
    lemma_replace_absent(t3, "&gt;"@, ">"@);
    assert(decode_entities(t3) == t3);
    // Newline runs: single newlines only.
    let nr = HtmlPattern::NewlineRun;
    let nn: Seq<char> = "\n\n"@;
    lemma_scan_plain_prefix(a, u, nr, nn);
    assert(u[0] == '\n' && u[1] == b[0] && b[0] != '\n');
    assert(nl_end(u, 1) == 1);
    assert(nl_end(u, 0) == 1);
    assert(match_len(nr, u) == 0);
    assert(u.skip(1) =~= s3);
    lemma_scan_plain_prefix(b, nl, nr, nn);
    assert(nl_end(nl, 1) == 1);
    assert(nl_end(nl, 0) == 1);
    assert(match_len(nr, nl) == 0);
    assert(nl.skip(1) =~= empty);
    assert(scan_replace(empty, nr, nn) == empty);
    assert(scan_replace(nl, nr, nn) =~= nl);
    assert(scan_replace(u, nr, nn) =~= seq![u[0]] + s3);
    let t5 = scan_replace(t3, nr, nn);
    assert(t5 =~= a + u);
    // Trimming: the last newline.
    let w = a + nl + b;
    assert((a + u).drop_last() =~= w);
    assert(is_ws((a + u).last()));
    assert(trim_end(a + u) == trim_end(w));
    assert(w[0] == a[0]);
    assert(w.last() == b.last());
    assert(trim_start(a + u) == a + u);
    lemma_trim_clean_ends(w);
    assert(trim_start(w) == w);
    assert(trim_end(w) == w);
}

/// A line-break tag: `<br>`, `<br/>` or `<br />`, in any ASCII case.
pub open spec fn line_break_tag(tag: Seq<char>) -> bool {
    let l = ascii_lower_seq(tag);
    l == "<br>"@ || l == "<br/>"@ || l == "<br />"@
}

proof fn lemma_break_tag_shape(tag: Seq<char>, b: Seq<char>)
    requires
        line_break_tag(tag),
    ensures
        tag.len() >= 4,
        line_break_len(tag + b) == tag.len(),
{
    reveal_strlit("<br>");
    reveal_strlit("<br/>");
    reveal_strlit("<br />");
    let l = ascii_lower_seq(tag);
    let t = tag + b;
    assert(l.len() == tag.len());
    assert forall|k: int| 0 <= k < tag.len() implies ascii_lower(#[trigger] tag[k]) == l[k] by {}
    assert forall|k: int| 0 <= k < tag.len() implies #[trigger] t[k] == tag[k] by {}
    assert(ascii_lower(tag[0]) == '<' && tag[0] == '<');
    if l == "<br>"@ {
        assert(tag[3] == '>');
        assert(ws_end(t, 3) == 3);
    } else if l == "<br/>"@ {
        assert(tag[3] == '/' && tag[4] == '>');
        assert(ws_end(t, 3) == 3);
    } else {
        assert(tag[3] == ' ' && tag[4] == '/' && tag[5] == '>');
        assert(ws_end(t, 4) == 4);
        assert(ws_end(t, 3) == 4);
    }
}

/// Between two pieces of plain text, a line-break tag (`<br>`, `<br/>`, `<br />`, in
/// any case) becomes a newline: `a`, the tag, then `b` reads as `a`, a newline, then `b`.
pub proof fn law_line_break_tag_breaks_line(a: Seq<char>, tag: Seq<char>, b: Seq<char>)
    requires
        plain_text(a),
        plain_text(b),
        line_break_tag(tag),
    ensures
        strip_html_spec(a + tag + b) == a + "\n"@ + b,
{
    reveal_strlit("\n");
    let nl: Seq<char> = "\n"@;
    lemma_break_tag_shape(tag, b);
    assert(a + tag + b =~= a + (tag + b));
    lemma_scan_plain_prefix(a, tag + b, HtmlPattern::LineBreak, nl);
    lemma_scan_tag_replaced(tag, b, HtmlPattern::LineBreak, nl);
    lemma_scan_plain(b, HtmlPattern::LineBreak, nl);
    lemma_line_tail(a, b);
}

proof fn lemma_find_from_at(t: Seq<char>, i: int, j: int, c: char)
    requires
        0 <= i <= j < t.len(),
        t[j] == c,
        forall|k: int| i <= k < j ==> t[k] != c,
    ensures
        find_from(t, i, c) == j,
    decreases j - i,
{
    if i < j {
        lemma_find_from_at(t, i + 1, j, c);
    }
}

/// Any other opening tag is dropped: between two pieces of plain text, a tag `<x>` whose
/// inside `x` is non-empty, holds no `<` or `>`, and starts neither with `/` nor with
/// `br` (in any case), leaves `a` directly followed by `b`.
pub proof fn law_other_tag_dropped(a: Seq<char>, x: Seq<char>, b: Seq<char>)
    requires
        plain_text(a),
        plain_text(b),
        x.len() > 0,
        !has_char(x, '<'),
        !has_char(x, '>'),
        x[0] != '/',
        !(x.len() >= 2 && ascii_lower(x[0]) == 'b' && ascii_lower(x[1]) == 'r'),
    ensures
        strip_html_spec(a + ("<"@ + x + ">"@) + b) == a + b,
{
    reveal_strlit("<");
    reveal_strlit(">");
    let nl: Seq<char> = "\n"@;
    let empty: Seq<char> = seq![];
    let tag = "<"@ + x + ">"@;
    let t = tag + b;
    assert(tag.len() == x.len() + 2);
    assert forall|k: int| 0 <= k < tag.len() implies #[trigger] t[k] == tag[k] by {}
    assert forall|k: int| 1 <= k < tag.len() - 1 implies #[trigger] tag[k] == x[k - 1] by {}
    assert forall|k: int| 1 <= k < tag.len() implies #[trigger] tag[k] != '<' by {
        if k < tag.len() - 1 {
            assert(tag[k] == x[k - 1]);
            if tag[k] == '<' {
                assert(has_char(x, '<'));
            }
        }
    }
    assert forall|k: int| 1 <= k < tag.len() - 1 implies #[trigger] t[k] != '>' by {
        assert(t[k] == x[k - 1]);
        if t[k] == '>' {
            assert(has_char(x, '>'));
        }
    }
    assert(a + tag + b =~= a + t);
    // Line breaks and block ends: the tag is kept.
    if x.len() >= 2 {
        assert(t[1] == x[0] && t[2] == x[1]);
    } else {
        assert(t[2] == '>');
    }
    assert(line_break_len(t) == 0);
    assert(block_end_len(t) == 0);
    lemma_scan_plain_prefix(a, t, HtmlPattern::LineBreak, nl);
    lemma_scan_tag_kept(tag, b, HtmlPattern::LineBreak, nl);
    lemma_scan_plain(b, HtmlPattern::LineBreak, nl);
    lemma_scan_plain_prefix(a, t, HtmlPattern::BlockEnd, nl);
    lemma_scan_tag_kept(tag, b, HtmlPattern::BlockEnd, nl);
    lemma_scan_plain(b, HtmlPattern::BlockEnd, nl);
    // Other tags: this one goes.
    lemma_find_from_at(t, 1, tag.len() - 1, '>');
    assert(any_tag_len(t) == tag.len());
    lemma_scan_plain_prefix(a, t, HtmlPattern::AnyTag, empty);
    lemma_scan_tag_replaced(tag, b, HtmlPattern::AnyTag, empty);
    lemma_scan_plain(b, HtmlPattern::AnyTag, empty);
    let t3 = scan_replace(scan_replace(scan_replace(a + tag + b, HtmlPattern::LineBreak, nl),
        HtmlPattern::BlockEnd, nl), HtmlPattern::AnyTag, empty);
    assert(t3 =~= a + b);
    // The rest: plain text.
    lemma_no_char_concat(a, b, '<');
    lemma_no_char_concat(a, b, '&');
    lemma_no_char_concat(a, b, '\n');
    assert((a + b)[0] == a[0]);
    assert((a + b).last() == b.last());
    law_plain_text_unchanged(a + b);
    lemma_scan_plain(a + b, HtmlPattern::LineBreak, nl);
    lemma_scan_plain(a + b, HtmlPattern::BlockEnd, nl);
    lemma_scan_plain(a + b, HtmlPattern::AnyTag, empty);
}

proof fn lemma_replace_plain_prefix(x: Seq<char>, y: Seq<char>, from: Seq<char>, to: Seq<char>)
    requires
        from.len() > 0,
        !has_char(x, from[0]),
    ensures
        replace_all(x + y, from, to) == x + replace_all(y, from, to),
    decreases x.len(),
{
    let s = x + y;
    if x.len() == 0 {
        assert(s =~= y);
        assert(x + replace_all(y, from, to) =~= replace_all(y, from, to));
    } else if s.len() < from.len() {
        assert(replace_all(y, from, to) == y);
        assert(x + y =~= s);
    } else {
        assert(s[0] == x[0]);
        if s.take(from.len() as int) == from {
            assert(s.take(from.len() as int)[0] == s[0]);
        }
        lemma_no_char_skip(x, from[0]);
        assert(s.skip(1) =~= x.skip(1) + y);
        lemma_replace_plain_prefix(x.skip(1), y, from, to);
        assert(x =~= seq![x[0]] + x.skip(1));
        assert(seq![s[0]] + (x.skip(1) + replace_all(y, from, to)) =~= x + replace_all(
            y,
            from,
            to,
        ));
    }
}

/// One decoding pass over a character in front of `b`: an entity equal to the pass's
/// pattern is decoded; anything else is left.
proof fn lemma_decode_pass(m: Seq<char>, b: Seq<char>, from: Seq<char>, to: Seq<char>)
    requires
        from.len() >= 4,
        from[0] == '&',
        m.len() > 0,
        !has_char(m.skip(1), '&'),
        !has_char(b, '&'),
        m != from ==> m[0] != '&' || (m.len() >= 2 && from.len() >= 2 && m[1] != from[1]) || (
        m.len() == 1 && (b.len() < 3 || b[2] != from[3])),
    ensures
        replace_all(m + b, from, to) == if m == from {
            to + b
        } else {
            m + b
        },
{
    let s = m + b;
    assert(s[0] == m[0]);
    lemma_no_char_concat(m.skip(1), b, '&');
    assert(s.skip(1) =~= m.skip(1) + b);
    if m == from {
        assert(s.take(from.len() as int) =~= from);
        assert(s.skip(from.len() as int) =~= b);
        lemma_replace_absent(b, from, to);
    } else {
        if s.len() >= from.len() {
            if m[0] != '&' {
                assert(s.take(from.len() as int)[0] != from[0]);
            } else if m.len() >= 2 && m[1] != from[1] {
                assert(s.take(from.len() as int)[1] != from[1]);
            } else {
                assert(s.take(from.len() as int)[3] == b[2]);
            }
            assert(s.take(from.len() as int) != from);
            lemma_replace_absent(s.skip(1), from, to);
            assert(s =~= seq![s[0]] + s.skip(1));
        }
    }
}

/// The four entities and what each stands for.
pub open spec fn entity_of(entity: Seq<char>, c: char) -> bool {
    ||| (entity == "&nbsp;"@ && c == ' ')
    ||| (entity == "&amp;"@ && c == '&')
    ||| (entity == "&lt;"@ && c == '<')
    ||| (entity == "&gt;"@ && c == '>')
}

/// Between two pieces of plain text, an entity (`&nbsp;`, `&amp;`, `&lt;`, `&gt;`)
/// reads as its character, where `b` holds no `;` (so no new entity forms behind a
/// decoded `&`).
pub proof fn law_entity_decoded(a: Seq<char>, entity: Seq<char>, c: char, b: Seq<char>)
    requires
        plain_text(a),
        plain_text(b),
        !has_char(b, ';'),
        entity_of(entity, c),
    ensures
        strip_html_spec(a + entity + b) == a + seq![c] + b,
{
    reveal_strlit("&nbsp;");
    reveal_strlit("&amp;");
    reveal_strlit("&lt;");
    reveal_strlit("&gt;");
    reveal_strlit(" ");
    reveal_strlit("&");
    reveal_strlit("<");
    reveal_strlit(">");
    let nl: Seq<char> = "\n"@;
    let empty: Seq<char> = seq![];
    let s0 = a + entity + b;
    assert(s0 =~= a + (entity + b));
    // The tag steps: no `<` anywhere.
    assert(!has_char(entity, '<')) by {
        if has_char(entity, '<') {
            let i = choose|i: int| 0 <= i < entity.len() && entity[i] == '<';
        }
    }
    lemma_no_char_concat(entity, b, '<');
    lemma_no_char_concat(a, entity + b, '<');
    lemma_scan_plain(s0, HtmlPattern::LineBreak, nl);
    lemma_scan_plain(s0, HtmlPattern::BlockEnd, nl);
    lemma_scan_plain(s0, HtmlPattern::AnyTag, empty);
    // Decoding, pass by pass.
    assert(!has_char(entity.skip(1), '&')) by {
        if has_char(entity.skip(1), '&') {
            let i = choose|i: int| 0 <= i < entity.skip(1).len() && entity.skip(1)[i] == '&';
        }
    }
    let one = seq![c];
    assert(!has_char(one.skip(1), '&')) by {
        assert(one.skip(1).len() == 0);
    }
    assert(b.len() >= 3 ==> b[2] != ';') by {
        if b.len() >= 3 && b[2] == ';' {
            assert(has_char(b, ';'));
        }
    }
    lemma_replace_plain_prefix(a, entity + b, "&nbsp;"@, " "@);
    lemma_decode_pass(entity, b, "&nbsp;"@, " "@);
    let m1 = if entity == "&nbsp;"@ { " "@ } else { entity };
    assert(replace_all(s0, "&nbsp;"@, " "@) == a + (m1 + b));
    assert(m1.len() > 0 && !has_char(m1.skip(1), '&')) by {
        if has_char(m1.skip(1), '&') {
            let i = choose|i: int| 0 <= i < m1.skip(1).len() && m1.skip(1)[i] == '&';
        }
    }
    lemma_replace_plain_prefix(a, m1 + b, "&amp;"@, "&"@);
    lemma_decode_pass(m1, b, "&amp;"@, "&"@);
    let m2 = if m1 == "&amp;"@ { "&"@ } else { m1 };
    assert(m2.len() > 0 && !has_char(m2.skip(1), '&')) by {
        if has_char(m2.skip(1), '&') {
            let i = choose|i: int| 0 <= i < m2.skip(1).len() && m2.skip(1)[i] == '&';
        }
    }
    lemma_replace_plain_prefix(a, m2 + b, "&lt;"@, "<"@);
    lemma_decode_pass(m2, b, "&lt;"@, "<"@);
    let m3 = if m2 == "&lt;"@ { "<"@ } else { m2 };
    assert(m3.len() > 0 && !has_char(m3.skip(1), '&')) by {
        if has_char(m3.skip(1), '&') {
            let i = choose|i: int| 0 <= i < m3.skip(1).len() && m3.skip(1)[i] == '&';
        }
    }
    lemma_replace_plain_prefix(a, m3 + b, "&gt;"@, ">"@);
    lemma_decode_pass(m3, b, "&gt;"@, ">"@);
    let m4 = if m3 == "&gt;"@ { ">"@ } else { m3 };
    assert(m4 =~= one);
    let t4 = decode_entities(s0);
    assert(t4 == a + (one + b));
    // Newline runs: none; trimming: nothing to trim.
    assert(!has_char(one, '\n')) by {
        if has_char(one, '\n') {
            let i = choose|i: int| 0 <= i < one.len() && one[i] == '\n';
        }
    }
    lemma_no_char_concat(one, b, '\n');
    lemma_no_char_concat(a, one + b, '\n');
    lemma_scan_plain(t4, HtmlPattern::NewlineRun, "\n\n"@);
    assert(t4[0] == a[0]);
    assert(t4.last() == b.last());
    lemma_trim_clean_ends(t4);
    assert(a + (one + b) =~= a + seq![c] + b);
}

/// Capping keeps text of at most `max_len` characters whole; longer text keeps exactly
/// its first `max_len` characters, followed by `\n\n... [truncated — N chars total]`
/// with `N` its full length.
pub proof fn law_truncate_caps(text: Seq<char>, max_len: nat)
    ensures
        text.len() <= max_len ==> truncate_spec(text, max_len) == text,
        text.len() > max_len ==> {
            let r = truncate_spec(text, max_len);
            &&& max_len <= r.len()
            &&& r.take(max_len as int) == text.take(max_len as int)
            &&& r.skip(max_len as int) == "\n\n... [truncated — "@ + dec(text.len())
                + " chars total]"@
        },
{
    if text.len() > max_len {
        let r = truncate_spec(text, max_len);
        let m = truncation_marker(text.len());
        assert(r == text.take(max_len as int) + m);
        assert(r.take(max_len as int) =~= text.take(max_len as int));
        assert(r.skip(max_len as int) =~= m);
    }
}

} // verus!
