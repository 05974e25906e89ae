//! `get_attachments`: a page's file attachments with download links.

use vstd::prelude::*;
use crate::text::{dec, join, chars_of, string_of, extend, extend_str, dec_u64, join_exec};
use crate::server::format::{or_text, or_number, or_text_exec, or_number_exec, or_empty_exec};

verus! {

broadcast use vstd::string::group_string_axioms;

/// The fields of an attachment that the listing reads.
#[derive(Debug, Default)]
pub struct AttachmentInfo {
    pub title: Option<String>,
    /// `metadata.mediaType`
    pub media_type: Option<String>,
    /// `_links.download`
    pub download: Option<String>,
    /// `version.number`
    pub version: Option<u64>,
}

/// One attachment: title, media type, version and the full download link (`N/A`
/// without one).
pub open spec fn attachment_entry(a: AttachmentInfo, base_url: Seq<char>) -> Seq<char> {
    let download = or_text(a.download, seq![]);
    let full = if download.len() == 0 {
        "N/A"@
    } else {
        base_url + download
    };
    "- **"@ + or_text(a.title, "?"@) + "**\n  Type: "@ + or_text(a.media_type, "unknown"@)
        + " | Version: "@ + or_number(a.version, "?"@) + "\n  Download: "@ + full
}

/// The listing: a heading with the count, then one entry per attachment; a notice when
/// there are none.
pub open spec fn format_spec(attachments: Seq<AttachmentInfo>, base_url: Seq<char>) -> Seq<char> {
    if attachments.len() == 0 {
        "No attachments on this page."@
    } else {
        join(
            seq!["## Attachments ("@ + dec(attachments.len()) + ")\n"@] + attachments.map_values(
                |a: AttachmentInfo| attachment_entry(a, base_url),
            ),
            "\n"@,
        )
    }
}

fn attachment_entry_exec(a: &AttachmentInfo, base_url: &str) -> (r: Vec<char>)
    ensures
        r@ == attachment_entry(*a, base_url@),
{
    let download = or_empty_exec(&a.download);
    let full = if download.len() == 0 {
        chars_of("N/A")
    } else {
        let mut f = chars_of(base_url);
        extend(&mut f, &download);
        f
    };
    let mut e = chars_of("- **");
    extend(&mut e, &or_text_exec(&a.title, "?"));
    extend_str(&mut e, "**\n  Type: ");
    extend(&mut e, &or_text_exec(&a.media_type, "unknown"));
    extend_str(&mut e, " | Version: ");
    extend(&mut e, &or_number_exec(a.version, "?"));
    extend_str(&mut e, "\n  Download: ");
    extend(&mut e, &full);
    e
}

/// Renders the attachments (see [`format_spec`]).
pub fn format(attachments: &Vec<AttachmentInfo>, base_url: &str) -> (r: String)
    ensures
        r@ == format_spec(attachments@, base_url@),
{
    if attachments.len() == 0 {
        return "No attachments on this page.".to_string();
    }
    let mut head = chars_of("## Attachments (");
    extend(&mut head, &dec_u64(attachments.len() as u64));
    extend_str(&mut head, ")\n");
    let mut lines: Vec<Vec<char>> = Vec::new();
    lines.push(head);
    let ghost h = lines@[0]@;
    let n = attachments.len();
    for i in 0..n
        invariant
            n == attachments@.len(),
            lines@.map_values(|p: Vec<char>| p@) == seq![h] + attachments@.take(i as int).map_values(
                |a: AttachmentInfo| attachment_entry(a, base_url@),
            ),
    {
        let e = attachment_entry_exec(&attachments[i], base_url);
        let ghost before = lines@.map_values(|p: Vec<char>| p@);
        lines.push(e);
        assert(lines@.map_values(|p: Vec<char>| p@) =~= before.push(e@));
        assert(attachments@.take(i + 1).map_values(|a: AttachmentInfo| attachment_entry(a, base_url@))
            =~= attachments@.take(i as int).map_values(
            |a: AttachmentInfo| attachment_entry(a, base_url@),
        ).push(attachment_entry(attachments@[i as int], base_url@)));
    }
    assert(attachments@.take(n as int) =~= attachments@);
    string_of(&join_exec(&lines, "\n"))
}

} // verus!
