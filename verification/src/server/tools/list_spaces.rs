//! `list_spaces`: the spaces the user can read.

use vstd::prelude::*;
use crate::text::{dec, trim, join, chars_of, string_of, extend, extend_str, dec_u64, trim_exec,
    slice, join_exec};
use crate::server::format::{or_text, or_text_exec, or_empty_exec};

verus! {

broadcast use vstd::string::group_string_axioms;

/// The fields of a space (as returned by `/rest/api/space`) that the listing reads.
#[derive(Debug, Default)]
pub struct SpaceInfo {
    pub name: Option<String>,
    pub key: Option<String>,
    pub space_type: Option<String>,
    /// `description.plain.value`
    pub description: Option<String>,
}

/// The trimmed description, cut to 80 characters plus an ellipsis when longer.
pub open spec fn description_preview(s: SpaceInfo) -> Seq<char> {
    let desc = trim(or_text(s.description, seq![]));
    if desc.len() > 80 {
        desc.take(80) + "…"@
    } else {
        desc
    }
}

/// One line (two with a description) of the listing.
pub open spec fn space_entry(s: SpaceInfo) -> Seq<char> {
    let e = "- **"@ + or_text(s.name, "?"@) + "** — key: `"@ + or_text(s.key, "?"@) + "` ("@
        + or_text(s.space_type, "?"@) + ")"@;
    let p = description_preview(s);
    if p.len() > 0 {
        e + "\n  "@ + p
    } else {
        e
    }
}

/// The listing: a heading with the count, then one entry per space; a notice when there
/// are none.
pub open spec fn format_spec(spaces: Seq<SpaceInfo>) -> Seq<char> {
    if spaces.len() == 0 {
        "No spaces found."@
    } else {
        join(
            seq!["## Confluence Spaces ("@ + dec(spaces.len()) + " found)\n"@] + spaces.map_values(
                |s: SpaceInfo| space_entry(s),
            ),
            "\n"@,
        )
    }
}

fn space_entry_exec(s: &SpaceInfo) -> (r: Vec<char>)
    ensures
        r@ == space_entry(*s),
{
    let mut e = chars_of("- **");
    extend(&mut e, &or_text_exec(&s.name, "?"));
    extend_str(&mut e, "** — key: `");
    extend(&mut e, &or_text_exec(&s.key, "?"));
    extend_str(&mut e, "` (");
    extend(&mut e, &or_text_exec(&s.space_type, "?"));
    extend_str(&mut e, ")");
    let desc = trim_exec(&or_empty_exec(&s.description));
    let preview = if desc.len() > 80 {
        let mut p = slice(&desc, 0, 80);
        extend_str(&mut p, "…");
        assert(desc@.subrange(0, 80) =~= desc@.take(80));
        p
    } else {
        desc
    };
    if preview.len() > 0 {
        extend_str(&mut e, "\n  ");
        extend(&mut e, &preview);
    }
    e
}

/// Renders the space listing (see [`format_spec`]).
pub fn format(spaces: &Vec<SpaceInfo>) -> (r: String)
    ensures
        r@ == format_spec(spaces@),
{
    if spaces.len() == 0 {
        return "No spaces found.".to_string();
    }
    let mut head = chars_of("## Confluence Spaces (");
    extend(&mut head, &dec_u64(spaces.len() as u64));
    extend_str(&mut head, " found)\n");
    let mut lines: Vec<Vec<char>> = Vec::new();
    lines.push(head);
    let ghost h = lines@[0]@;
    let n = spaces.len();
    for i in 0..n
        invariant
            n == spaces@.len(),
            lines@.map_values(|p: Vec<char>| p@) == seq![h] + spaces@.take(i as int).map_values(
                |s: SpaceInfo| space_entry(s),
            ),
    {
        let e = space_entry_exec(&spaces[i]);
        let ghost before = lines@.map_values(|p: Vec<char>| p@);
        lines.push(e);
        assert(lines@.map_values(|p: Vec<char>| p@) =~= before.push(e@));
        assert(spaces@.take(i + 1).map_values(|s: SpaceInfo| space_entry(s)) =~= spaces@.take(
            i as int,
        ).map_values(|s: SpaceInfo| space_entry(s)).push(space_entry(spaces@[i as int])));
    }
    assert(spaces@.take(n as int) =~= spaces@);
    string_of(&join_exec(&lines, "\n"))
}

} // verus!
