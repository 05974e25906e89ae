//! `get_comments`: a page's inline and footer comments.

use vstd::prelude::*;
use crate::text::{dec, join, chars_of, string_of, extend, extend_str, dec_u64, join_exec};
use crate::server::format::{or_text, or_text_exec, or_empty_exec};
use crate::confluence_core::format::{strip_html, strip_html_spec};

verus! {

broadcast use vstd::string::group_string_axioms;

/// The fields of a comment that the listing reads.
#[derive(Debug, Default)]
pub struct CommentInfo {
    /// `version.by.displayName`
    pub author: Option<String>,
    /// `version.when`
    pub when: Option<String>,
    /// `extensions.location`
    pub location: Option<String>,
    /// `body.view.value`
    pub body_view: Option<String>,
}

/// One comment: author, location, time when known, then the text of its body.
pub open spec fn comment_entry(c: CommentInfo) -> Seq<char> {
    let when = or_text(c.when, seq![]);
    let e = "**"@ + or_text(c.author, "Unknown"@) + "** ("@ + or_text(c.location, "footer"@) + ")"@;
    let e2 = if when.len() > 0 {
        e + " — "@ + when
    } else {
        e
    };
    e2 + "\n"@ + strip_html_spec(or_text(c.body_view, seq![]))
}

/// The listing: a heading with the count, then the comments separated by rules; a
/// notice when there are none.
pub open spec fn format_spec(comments: Seq<CommentInfo>) -> Seq<char> {
    if comments.len() == 0 {
        "No comments on this page."@
    } else {
        join(
            seq!["## Comments ("@ + dec(comments.len()) + ")\n"@] + comments.map_values(
                |c: CommentInfo| comment_entry(c),
            ),
            "\n\n---\n\n"@,
        )
    }
}

fn comment_entry_exec(c: &CommentInfo) -> (r: Vec<char>)
    ensures
        r@ == comment_entry(*c),
{
    let when = or_empty_exec(&c.when);
    let mut e = chars_of("**");
    extend(&mut e, &or_text_exec(&c.author, "Unknown"));
    extend_str(&mut e, "** (");
    extend(&mut e, &or_text_exec(&c.location, "footer"));
    extend_str(&mut e, ")");
    if when.len() > 0 {
        extend_str(&mut e, " — ");
        extend(&mut e, &when);
    }
    extend_str(&mut e, "\n");
    let raw = string_of(&or_empty_exec(&c.body_view));
    let body = strip_html(raw.as_str());
    extend_str(&mut e, body.as_str());
    e
}

/// Renders the comments (see [`format_spec`]).
pub fn format(comments: &Vec<CommentInfo>) -> (r: String)
    ensures
        r@ == format_spec(comments@),
{
    if comments.len() == 0 {
        return "No comments on this page.".to_string();
    }
    let mut head = chars_of("## Comments (");
    extend(&mut head, &dec_u64(comments.len() as u64));
    extend_str(&mut head, ")\n");
    let mut lines: Vec<Vec<char>> = Vec::new();
    lines.push(head);
    let ghost h = lines@[0]@;
    let n = comments.len();
    for i in 0..n
        invariant
            n == comments@.len(),
            lines@.map_values(|p: Vec<char>| p@) == seq![h] + comments@.take(i as int).map_values(
                |c: CommentInfo| comment_entry(c),
            ),
    {
        let e = comment_entry_exec(&comments[i]);
        let ghost before = lines@.map_values(|p: Vec<char>| p@);
        lines.push(e);
        assert(lines@.map_values(|p: Vec<char>| p@) =~= before.push(e@));
        assert(comments@.take(i + 1).map_values(|c: CommentInfo| comment_entry(c)) =~= comments@.take(
            i as int,
        ).map_values(|c: CommentInfo| comment_entry(c)).push(comment_entry(comments@[i as int])));
    }
    assert(comments@.take(n as int) =~= comments@);
    string_of(&join_exec(&lines, "\n\n---\n\n"))
}

} // verus!
