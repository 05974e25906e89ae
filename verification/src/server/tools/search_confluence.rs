//! `search_confluence`: the pages a CQL query finds.

use vstd::prelude::*;
use crate::text::{dec, join, chars_of, string_of, extend, extend_str, dec_u64, join_exec};
use crate::server::format::{
    PageInfo, or_text, or_number, or_text_exec, or_number_exec, labels_spec, labels_string,
    page_url_spec, page_url,
};

verus! {

broadcast use vstd::string::group_string_axioms;

/// One numbered result: title, id, space, version, labels and link.
pub open spec fn result_entry(i: nat, page: PageInfo, fallback_base: Seq<char>) -> Seq<char> {
    let e = dec(i + 1) + ". **"@ + or_text(page.title, "?"@) + "**\n   ID: "@ + or_text(
        page.id,
        "?"@,
    ) + " | Space: "@ + or_text(page.space_key, "?"@) + " | v"@ + or_number(page.version, "?"@);
    let labels = labels_spec(page);
    let e2 = if labels.len() > 0 {
        e + " | Labels: "@ + labels
    } else {
        e
    };
    let url = page_url_spec(page, fallback_base);
    if url.len() > 0 {
        e2 + "\n   URL: "@ + url
    } else {
        e2
    }
}

/// The entries for results `0..k`.
pub open spec fn result_entries(results: Seq<PageInfo>, fallback_base: Seq<char>, k: int) -> Seq<
    Seq<char>,
>
    decreases k,
{
    if k <= 0 {
        seq![]
    } else {
        result_entries(results, fallback_base, k - 1).push(
            result_entry((k - 1) as nat, results[k - 1], fallback_base),
        )
    }
}

/// The result listing: the total (`totalSize`, or the number shown), then one numbered
/// entry per result; a hint when nothing was found.
pub open spec fn format_spec(
    results: Seq<PageInfo>,
    total_size: Option<u64>,
    fallback_base: Seq<char>,
) -> Seq<char> {
    if results.len() == 0 {
        "No results found for that query. Try broadening your CQL or check the space key."@
    } else {
        let total: nat = match total_size {
            Some(t) => t as nat,
            None => results.len(),
        };
        join(
            seq!["Found "@ + dec(total) + " result(s) — showing "@ + dec(results.len()) + ":\n"@]
                + result_entries(results, fallback_base, results.len() as int),
            "\n\n"@,
        )
    }
}

fn result_entry_exec(i: usize, page: &PageInfo, fallback_base: &str) -> (r: Vec<char>)
    requires
        i < usize::MAX,
    ensures
        r@ == result_entry(i as nat, *page, fallback_base@),
{
    let mut e = dec_u64((i + 1) as u64);
    extend_str(&mut e, ". **");
    extend(&mut e, &or_text_exec(&page.title, "?"));
    extend_str(&mut e, "**\n   ID: ");
    extend(&mut e, &or_text_exec(&page.id, "?"));
    extend_str(&mut e, " | Space: ");
    extend(&mut e, &or_text_exec(&page.space_key, "?"));
    extend_str(&mut e, " | v");
    extend(&mut e, &or_number_exec(page.version, "?"));
    let labels = chars_of(labels_string(page).as_str());
    if labels.len() > 0 {
        extend_str(&mut e, " | Labels: ");
        extend(&mut e, &labels);
    }
    let url = chars_of(page_url(page, fallback_base).as_str());
    if url.len() > 0 {
        extend_str(&mut e, "\n   URL: ");
        extend(&mut e, &url);
    }
    e
}

/// Renders search results (see [`format_spec`]).
pub fn format(results: &Vec<PageInfo>, total_size: Option<u64>, fallback_base: &str) -> (r: String)
    ensures
        r@ == format_spec(results@, total_size, fallback_base@),
{
    if results.len() == 0 {
        return "No results found for that query. Try broadening your CQL or check the space key.".to_string();
    }
    let total: u64 = match total_size {
        Some(t) => t,
        None => results.len() as u64,
    };
    let mut head = chars_of("Found ");
    extend(&mut head, &dec_u64(total));
    extend_str(&mut head, " result(s) — showing ");
    extend(&mut head, &dec_u64(results.len() as u64));
    extend_str(&mut head, ":\n");
    let mut lines: Vec<Vec<char>> = Vec::new();
    lines.push(head);
    let ghost h = lines@[0]@;
    let n = results.len();
    for i in 0..n
        invariant
            n == results@.len(),
            lines@.map_values(|p: Vec<char>| p@) == seq![h] + result_entries(
                results@,
                fallback_base@,
                i as int,
            ),
    {
        let e = result_entry_exec(i, &results[i], fallback_base);
        let ghost before = lines@.map_values(|p: Vec<char>| p@);
        lines.push(e);
        assert(lines@.map_values(|p: Vec<char>| p@) =~= before.push(e@));
    }
    string_of(&join_exec(&lines, "\n\n"))
}

proof fn lemma_join_starts_with_first(list: Seq<Seq<char>>, sep: Seq<char>)
    requires
        list.len() > 0,
    ensures
        list[0].len() <= join(list, sep).len(),
        join(list, sep).take(list[0].len() as int) == list[0],
    decreases list.len(),
{
    if list.len() == 1 {
        assert(list[0].take(list[0].len() as int) =~= list[0]);
    } else {
        lemma_join_starts_with_first(list.drop_last(), sep);
        let j = join(list.drop_last(), sep);
        assert((j + sep + list.last()).take(list[0].len() as int) =~= j.take(
            list[0].len() as int,
        ));
    }
}

/// A listing of found pages opens with how many the server found in all (its
/// `totalSize`, or, when it gives none, the number shown) and how many are shown.
pub proof fn law_listing_opens_with_totals(
    results: Seq<PageInfo>,
    total_size: Option<u64>,
    fallback_base: Seq<char>,
)
    requires
        results.len() > 0,
    ensures
        ({
            let r = format_spec(results, total_size, fallback_base);
            let shown = " result(s) — showing "@ + dec(results.len()) + ":\n"@;
            &&& total_size matches Some(t) ==> {
                let head = "Found "@ + dec(t as nat) + shown;
                head.len() <= r.len() && r.take(head.len() as int) == head
            }
            &&& total_size is None ==> {
                let head = "Found "@ + dec(results.len()) + shown;
                head.len() <= r.len() && r.take(head.len() as int) == head
            }
        }),
{
    let total: nat = match total_size {
        Some(t) => t as nat,
        None => results.len(),
    };
    let head = "Found "@ + dec(total) + " result(s) — showing "@ + dec(results.len()) + ":\n"@;
    let list = seq![head] + result_entries(results, fallback_base, results.len() as int);
    assert(list[0] == head);
    lemma_join_starts_with_first(list, "\n\n"@);
}

} // verus!
