//! The assistant's configuration document: reading the server's entry out of it, putting
//! the entry in while keeping every other server and setting, and taking it out, on the
//! document and on the file's text.

use vstd::prelude::*;
use crate::outside::{opt_view, json_of_text, pretty_text_of, parse_json, pretty_json};
use crate::configurator::claude_config::{
    ConfluenceEntry, ExistingConfig, RawServerEntry, EntryView, entry_from_raw_spec, env_entries_spec,
    confluence_env_entries, law_write_then_read,
};
use crate::confluence_core::url_parse::first_value;
use crate::text::{trim, trim_end_char};
use crate::text::str_eq;

verus! {

broadcast use vstd::string::group_string_axioms;

/// A JSON value. Objects keep their entries in order; a lookup takes the first entry
/// with the key (a parsed document has each key once).
#[derive(Debug)]
pub enum Json {
    Null,
    Bool(bool),
    /// A number, as its JSON text.
    Number(String),
    Str(String),
    Array(Vec<Json>),
    Object(Vec<(String, Json)>),
}

/// The value of the first entry with key `k`.
pub open spec fn entry_value(entries: Seq<(String, Json)>, k: Seq<char>) -> Option<Json>
    decreases entries.len(),
{
    if entries.len() == 0 {
        None
    } else if entries[0].0@ == k {
        Some(entries[0].1)
    } else {
        entry_value(entries.drop_first(), k)
    }
}

/// The value under key `k` of an object (`None` for any other value), as a JSON pointer
/// `/k` reads it.
pub open spec fn json_get(v: Json, k: Seq<char>) -> Option<Json> {
    match v {
        Json::Object(entries) => entry_value(entries@, k),
        _ => None,
    }
}

/// The value under `k` of an optional value.
pub open spec fn opt_get(v: Option<Json>, k: Seq<char>) -> Option<Json> {
    match v {
        Some(x) => json_get(x, k),
        None => None,
    }
}

/// The text of a string value.
pub open spec fn json_text(v: Option<Json>) -> Option<Seq<char>> {
    match v {
        Some(Json::Str(s)) => Some(s@),
        _ => None,
    }
}

/// The server's entry (`/mcpServers/confluence`) read from a document: its `command` and
/// the variables of its `env` (see [`entry_from_raw_spec`]); `None` without an entry.
pub open spec fn read_entry_spec(doc: Json) -> Option<EntryView> {
    let c = opt_get(json_get(doc, "mcpServers"@), "confluence"@);
    match c {
        Some(cv) => {
            let env = json_get(cv, "env"@);
            Some(
                entry_from_raw_spec(
                    json_text(json_get(cv, "command"@)),
                    json_text(opt_get(env, "CONFLUENCE_URL"@)),
                    json_text(opt_get(env, "CONFLUENCE_USERNAME"@)),
                    json_text(opt_get(env, "CONFLUENCE_PASSWORD"@)),
                    json_text(opt_get(env, "CONFLUENCE_TOKEN"@)),
                    json_text(opt_get(env, "CONFLUENCE_SSL_VERIFY"@)),
                    json_text(opt_get(env, "CONFLUENCE_PROXY_URL"@)),
                ),
            )
        },
        None => None,
    }
}

// ---------------------------------------------------------------------------
// Lookups
// ---------------------------------------------------------------------------

/// Index of the first entry with key `k`, when there is one.
fn find_key(es: &Vec<(String, Json)>, k: &str) -> (r: Option<usize>)
    ensures
        match r {
            Some(i) => i < es@.len() && es@[i as int].0@ == k@ && forall|j: int|
                0 <= j < i ==> (#[trigger] es@[j]).0@ != k@,
            None => forall|j: int| 0 <= j < es@.len() ==> (#[trigger] es@[j]).0@ != k@,
        },
{
    let n = es.len();
    for i in 0..n
        invariant
            n == es@.len(),
            forall|j: int| 0 <= j < i ==> (#[trigger] es@[j]).0@ != k@,
    {
        if str_eq(es[i].0.as_str(), k) {
            return Some(i);
        }
    }
    None
}

proof fn lemma_entry_at(es: Seq<(String, Json)>, k: Seq<char>, i: int)
    requires
        0 <= i < es.len(),
        es[i].0@ == k,
        forall|j: int| 0 <= j < i ==> (#[trigger] es[j]).0@ != k,
    ensures
        entry_value(es, k) == Some(es[i].1),
    decreases i,
{
    if i > 0 {
        assert(es[0].0@ != k);
        lemma_entry_at(es.drop_first(), k, i - 1);
    }
}

proof fn lemma_entry_absent(es: Seq<(String, Json)>, k: Seq<char>)
    requires
        forall|j: int| 0 <= j < es.len() ==> (#[trigger] es[j]).0@ != k,
    ensures
        entry_value(es, k) is None,
    decreases es.len(),
{
    if es.len() > 0 {
        assert(es[0].0@ != k);
        lemma_entry_absent(es.drop_first(), k);
    }
}

/// Replacing the value of an entry keeps the lookups of every other key.
proof fn lemma_entry_update(es: Seq<(String, Json)>, i: int, v: Json, k: Seq<char>)
    requires
        0 <= i < es.len(),
        es[i].0@ != k,
    ensures
        entry_value(es.update(i, (es[i].0, v)), k) == entry_value(es, k),
    decreases es.len(),
{
    let u = es.update(i, (es[i].0, v));
    if es.len() > 0 {
        if i == 0 {
            assert(u.drop_first() =~= es.drop_first());
        } else {
            assert(u[0] == es[0]);
            assert(u.drop_first() =~= es.drop_first().update(i - 1, (es[i].0, v)));
            lemma_entry_update(es.drop_first(), i - 1, v, k);
        }
    }
}

/// Appending an entry keeps the lookups of every other key.
proof fn lemma_entry_push(es: Seq<(String, Json)>, e: (String, Json), k: Seq<char>)
    requires
        e.0@ != k,
    ensures
        entry_value(es.push(e), k) == entry_value(es, k),
    decreases es.len(),
{
    if es.len() > 0 {
        assert(es.push(e)[0] == es[0]);
        assert(es.push(e).drop_first() =~= es.drop_first().push(e));
        lemma_entry_push(es.drop_first(), e, k);
    } else {
        assert(es.push(e)[0] == e);
        assert(es.push(e).drop_first() =~= Seq::<(String, Json)>::empty());
        assert(entry_value(es.push(e).drop_first(), k) is None);
    }
}

/// Removing an entry keeps the lookups of every other key.
proof fn lemma_entry_remove(es: Seq<(String, Json)>, i: int, k: Seq<char>)
    requires
        0 <= i < es.len(),
        es[i].0@ != k,
    ensures
        entry_value(es.remove(i), k) == entry_value(es, k),
    decreases es.len(),
{
    if i == 0 {
        assert(es.remove(0) =~= es.drop_first());
    } else {
        assert(es.remove(i)[0] == es[0]);
        assert(es.remove(i).drop_first() =~= es.drop_first().remove(i - 1));
        lemma_entry_remove(es.drop_first(), i - 1, k);
    }
}

/// The value under `k` of an object's entries.
fn entry_get<'a>(es: &'a Vec<(String, Json)>, k: &str) -> (r: Option<&'a Json>)
    ensures
        match r {
            Some(v) => entry_value(es@, k@) == Some(*v),
            None => entry_value(es@, k@) is None,
        },
{
    match find_key(es, k) {
        Some(i) => {
            proof {
                lemma_entry_at(es@, k@, i as int);
            }
            Some(&es[i].1)
        },
        None => {
            proof {
                lemma_entry_absent(es@, k@);
            }
            None
        },
    }
}

/// The value under `k` of an object (see [`json_get`]).
pub fn json_get_exec<'a>(v: &'a Json, k: &str) -> (r: Option<&'a Json>)
    ensures
        match r {
            Some(x) => json_get(*v, k@) == Some(*x),
            None => json_get(*v, k@) is None,
        },
{
    match v {
        Json::Object(es) => entry_get(es, k),
        _ => None,
    }
}

fn opt_get_exec<'a>(v: Option<&'a Json>, k: &str) -> (r: Option<&'a Json>)
    ensures
        match r {
            Some(x) => opt_get(match v {
                Some(y) => Some(*y),
                None => None,
            }, k@) == Some(*x),
            None => opt_get(match v {
                Some(y) => Some(*y),
                None => None,
            }, k@) is None,
        },
{
    match v {
        Some(x) => json_get_exec(x, k),
        None => None,
    }
}

fn text_of(v: Option<&Json>) -> (r: Option<String>)
    ensures
        opt_view(r) == json_text(match v {
            Some(y) => Some(*y),
            None => None,
        }),
{
    match v {
        Some(Json::Str(s)) => Some(s.clone()),
        _ => None,
    }
}

/// The server's entry of a configuration document (see [`read_entry_spec`]).
pub fn read_confluence_entry(doc: &Json) -> (r: Option<ConfluenceEntry>)
    ensures
        match r {
            Some(e) => read_entry_spec(*doc) == Some(e@),
            None => read_entry_spec(*doc) is None,
        },
{
    let servers = json_get_exec(doc, "mcpServers");
    let c = match opt_get_exec(servers, "confluence") {
        Some(c) => c,
        None => return None,
    };
    let env = json_get_exec(c, "env");
    let raw = RawServerEntry {
        command: text_of(json_get_exec(c, "command")),
        url: text_of(opt_get_exec(env, "CONFLUENCE_URL")),
        username: text_of(opt_get_exec(env, "CONFLUENCE_USERNAME")),
        password: text_of(opt_get_exec(env, "CONFLUENCE_PASSWORD")),
        token: text_of(opt_get_exec(env, "CONFLUENCE_TOKEN")),
        ssl_verify: text_of(opt_get_exec(env, "CONFLUENCE_SSL_VERIFY")),
        proxy_url: text_of(opt_get_exec(env, "CONFLUENCE_PROXY_URL")),
    };
    Some(ConfluenceEntry::from_raw(&raw))
}

// ---------------------------------------------------------------------------
// Changing the document
// ---------------------------------------------------------------------------

/// Sets key `k` of an object's entries to `v`: the first entry with the key gets the
/// value, or a new entry is appended.
fn set_key(es: &mut Vec<(String, Json)>, k: &str, v: Json)
    ensures
        entry_value(final(es)@, k@) == Some(v),
        forall|k2: Seq<char>|
            k2 != k@ ==> #[trigger] entry_value(final(es)@, k2) == entry_value(old(es)@, k2),
{
    let ghost gv = v;
    let ghost before = es@;
    match find_key(es, k) {
        Some(i) => {
            let (key, _previous) = es.remove(i);
            es.insert(i, (key, v));
            proof {
                assert(es@ =~= before.update(i as int, (before[i as int].0, gv)));
                lemma_entry_at(es@, k@, i as int);
                assert forall|k2: Seq<char>| k2 != k@ implies #[trigger] entry_value(es@, k2)
                    == entry_value(before, k2) by {
                    lemma_entry_update(before, i as int, gv, k2);
                }
            }
        },
        None => {
            let key = k.to_string();
            es.push((key, v));
            proof {
                assert(es@ == before.push((es@[before.len() as int].0, gv)));
                lemma_entry_at(es@, k@, before.len() as int);
                assert forall|k2: Seq<char>| k2 != k@ implies #[trigger] entry_value(es@, k2)
                    == entry_value(before, k2) by {
                    lemma_entry_push(before, es@[before.len() as int], k2);
                }
            }
        },
    }
}

/// Takes every entry with key `k` out of an object's entries.
fn remove_key(es: &mut Vec<(String, Json)>, k: &str)
    ensures
        entry_value(final(es)@, k@) is None,
        forall|k2: Seq<char>|
            k2 != k@ ==> #[trigger] entry_value(final(es)@, k2) == entry_value(old(es)@, k2),
{
    let ghost orig = es@;
    loop
        invariant
            forall|k2: Seq<char>|
                k2 != k@ ==> #[trigger] entry_value(es@, k2) == entry_value(orig, k2),
        ensures
            entry_value(es@, k@) is None,
            forall|k2: Seq<char>|
                k2 != k@ ==> #[trigger] entry_value(es@, k2) == entry_value(orig, k2),
        decreases es@.len(),
    {
        match find_key(es, k) {
            Some(i) => {
                let ghost before = es@;
                es.remove(i);
                proof {
                    assert forall|k2: Seq<char>| k2 != k@ implies #[trigger] entry_value(es@, k2)
                        == entry_value(orig, k2) by {
                        lemma_entry_remove(before, i as int, k2);
                    }
                }
            },
            None => {
                proof {
                    lemma_entry_absent(es@, k@);
                }
                break;
            },
        }
    }
}

/// The variables of an `env` object, each a string, match the given list.
pub open spec fn env_matches(env: Seq<(String, Json)>, vars: Seq<(Seq<char>, Seq<char>)>) -> bool {
    &&& env.len() == vars.len()
    &&& forall|j: int|
        0 <= j < env.len() ==> {
            &&& (#[trigger] env[j]).0@ == vars[j].0
            &&& (env[j].1 matches Json::Str(s) && s@ == vars[j].1)
        }
}

/// The server's entry as written: `{"args": [], "command": <command>, "env": {...}}` with
/// the variables of [`env_entries_spec`].
pub open spec fn server_entry_ok(v: Option<Json>, e: EntryView) -> bool {
    match v {
        Some(Json::Object(es)) => {
            &&& es@.len() == 3
            &&& es@[0].0@ == "args"@
            &&& (es@[0].1 matches Json::Array(a) && a@.len() == 0)
            &&& es@[1].0@ == "command"@
            &&& (es@[1].1 matches Json::Str(c) && c@ == e.command)
            &&& es@[2].0@ == "env"@
            &&& (es@[2].1 matches Json::Object(env) && env_matches(env@, env_entries_spec(e)))
        },
        _ => false,
    }
}

/// The server's entry for the assistant's configuration (see [`server_entry_ok`]).
pub fn server_entry_json(entry: &ConfluenceEntry) -> (r: Json)
    ensures
        server_entry_ok(Some(r), entry@),
{
    let vars = confluence_env_entries(entry);
    let ghost vv = vars@.map_values(|p: (String, String)| crate::outside::pair_view(p));
    let mut env: Vec<(String, Json)> = Vec::new();
    let n = vars.len();
    for i in 0..n
        invariant
            n == vars@.len(),
            vv == vars@.map_values(|p: (String, String)| crate::outside::pair_view(p)),
            env@.len() == i,
            forall|j: int|
                0 <= j < i ==> {
                    &&& (#[trigger] env@[j]).0@ == vv[j].0
                    &&& (env@[j].1 matches Json::Str(s) && s@ == vv[j].1)
                },
    {
        env.push((vars[i].0.clone(), Json::Str(vars[i].1.clone())));
    }
    let mut es: Vec<(String, Json)> = Vec::new();
    es.push(("args".to_string(), Json::Array(Vec::new())));
    es.push(("command".to_string(), Json::Str(entry.command.clone())));
    es.push(("env".to_string(), Json::Object(env)));
    Json::Object(es)
}

/// A document that can take the server's entry: `null`, or an object whose `mcpServers`,
/// if any, is `null` or an object.
pub open spec fn can_hold_entry(d: Json) -> bool {
    match d {
        Json::Null => true,
        Json::Object(es) => match entry_value(es@, "mcpServers"@) {
            Some(Json::Null) => true,
            Some(Json::Object(_)) => true,
            Some(_) => false,
            None => true,
        },
        _ => false,
    }
}

/// Whether a document can take the server's entry (see [`can_hold_entry`]).
pub fn accepts_entry(d: &Json) -> (r: bool)
    ensures
        r == can_hold_entry(*d),
{
    match d {
        Json::Null => true,
        Json::Object(es) => match entry_get(es, "mcpServers") {
            Some(Json::Null) => true,
            Some(Json::Object(_)) => true,
            Some(_) => false,
            None => true,
        },
        _ => false,
    }
}

/// The assistant's configuration after writing the entry, and the backups to make first.
#[derive(Debug)]
pub struct ConfigUpdate {
    pub doc: Json,
    /// The file exists but does not parse: keep a copy aside before replacing it.
    pub backup_malformed: bool,
    /// Copy the existing file to its backup before writing.
    pub backup_previous: bool,
}

/// A top-level value of the existing document (none where there is no usable document).
pub open spec fn old_top(existing: Option<Option<Json>>, k: Seq<char>) -> Option<Json> {
    match existing {
        Some(Some(d)) => json_get(d, k),
        _ => None,
    }
}

/// A server of the existing document (none where there is no usable document).
pub open spec fn old_server(existing: Option<Option<Json>>, k: Seq<char>) -> Option<Json> {
    match existing {
        Some(Some(d)) => opt_get(json_get(d, "mcpServers"@), k),
        _ => None,
    }
}

/// `u` is the update that writes entry `e` into the existing document (see
/// [`config_with_entry`]).
pub open spec fn update_ok(existing: Option<Option<Json>>, e: EntryView, u: ConfigUpdate) -> bool {
    &&& u.backup_malformed == (existing matches Some(None))
    &&& u.backup_previous == match existing {
        Some(Some(d)) => json_get(d, "mcpServers"@) is Some,
        Some(None) => true,
        None => false,
    }
    &&& u.doc is Object
    &&& forall|k: Seq<char>|
        k != "mcpServers"@ ==> #[trigger] json_get(u.doc, k) == old_top(existing, k)
    &&& (json_get(u.doc, "mcpServers"@) matches Some(ms) && ms is Object && server_entry_ok(
        json_get(ms, "confluence"@),
        e,
    ) && forall|k: Seq<char>|
        k != "confluence"@ ==> #[trigger] json_get(ms, k) == old_server(existing, k))
}

/// The configuration with the server's entry written into it. `existing` is the file's
/// document: `None` when there is no file, `Some(None)` when its text does not parse. A
/// file that does not parse is set aside and replaced; an existing file is backed up
/// when it parsed with an `mcpServers` key, or did not parse. The result keeps every
/// other top-level key and every other server, and `mcpServers.confluence` is the entry
/// (see [`server_entry_ok`]).
pub fn config_with_entry(existing: Option<Option<Json>>, entry: &ConfluenceEntry) -> (r:
    ConfigUpdate)
    requires
        existing matches Some(Some(d)) ==> can_hold_entry(d),
    ensures
        update_ok(existing, entry@, r),
{
    let ghost ex = existing;
    let backup_malformed = match &existing {
        Some(None) => true,
        _ => false,
    };
    let (mut es, backup_previous) = match existing {
        Some(Some(Json::Object(es))) => {
            let has = match find_key(&es, "mcpServers") {
                Some(i) => {
                    proof {
                        lemma_entry_at(es@, "mcpServers"@, i as int);
                    }
                    true
                },
                None => {
                    proof {
                        lemma_entry_absent(es@, "mcpServers"@);
                    }
                    false
                },
            };
            (es, has)
        },
        Some(Some(_)) => (Vec::new(), false),
        Some(None) => (Vec::new(), true),
        None => (Vec::new(), false),
    };
    let ghost top = es@;
    assert forall|k: Seq<char>| #[trigger] entry_value(top, k) == old_top(ex, k) by {
        if let Some(Some(d)) = ex {
            if !(d is Object) {
                assert(top.len() == 0);
            }
        }
    }
    let mut servers: Vec<(String, Json)> = match find_key(&es, "mcpServers") {
        Some(i) => {
            let ghost before = es@;
            proof {
                lemma_entry_at(before, "mcpServers"@, i as int);
            }
            let (_key, value) = es.remove(i);
            proof {
                assert forall|k2: Seq<char>| k2 != "mcpServers"@ implies #[trigger] entry_value(
                    es@,
                    k2,
                ) == entry_value(before, k2) by {
                    lemma_entry_remove(before, i as int, k2);
                }
            }
            match value {
                Json::Object(m) => m,
                _ => Vec::new(),
            }
        },
        None => {
            proof {
                lemma_entry_absent(es@, "mcpServers"@);
            }
            Vec::new()
        },
    };
    assert forall|k: Seq<char>| #[trigger] entry_value(servers@, k) == old_server(ex, k) by {}
    set_key(&mut servers, "confluence", server_entry_json(entry));
    set_key(&mut es, "mcpServers", Json::Object(servers));
    ConfigUpdate { doc: Json::Object(es), backup_malformed, backup_previous }
}

/// `r` is `doc` with the server's entry taken out: where `doc` is an object whose
/// `mcpServers` is an object, that object loses its `confluence` key and everything else
/// stays; any other document stays as it is.
pub open spec fn entry_removed(doc: Json, r: Json) -> bool {
    match json_get(doc, "mcpServers"@) {
        Some(Json::Object(ms0)) => {
            &&& r is Object
            &&& forall|k: Seq<char>|
                k != "mcpServers"@ ==> #[trigger] json_get(r, k) == json_get(doc, k)
            &&& match json_get(r, "mcpServers"@) {
                Some(Json::Object(ms)) => {
                    &&& entry_value(ms@, "confluence"@) is None
                    &&& forall|k: Seq<char>|
                        k != "confluence"@ ==> #[trigger] entry_value(ms@, k) == entry_value(
                            ms0@,
                            k,
                        )
                },
                _ => false,
            }
        },
        _ => r == doc,
    }
}

/// The configuration with the server's entry taken out (see [`entry_removed`]).
pub fn config_without_entry(doc: Json) -> (r: Json)
    ensures
        entry_removed(doc, r),
{
    let ghost d0 = doc;
    match doc {
        Json::Object(mut es) => {
            let i = match find_key(&es, "mcpServers") {
                Some(i) => i,
                None => {
                    proof {
                        lemma_entry_absent(es@, "mcpServers"@);
                    }
                    return Json::Object(es);
                },
            };
            let ghost before = es@;
            proof {
                lemma_entry_at(before, "mcpServers"@, i as int);
            }
            let is_object = match &es[i].1 {
                Json::Object(_) => true,
                _ => false,
            };
            if !is_object {
                return Json::Object(es);
            }
            let (key, value) = es.remove(i);
            match value {
                Json::Object(mut ms) => {
                    let ghost ms0 = ms@;
                    remove_key(&mut ms, "confluence");
                    let ghost nv = Json::Object(ms);
                    es.insert(i, (key, Json::Object(ms)));
                    proof {
                        assert(es@ =~= before.update(i as int, (before[i as int].0, nv)));
                        lemma_entry_at(es@, "mcpServers"@, i as int);
                        assert forall|k: Seq<char>| k != "mcpServers"@ implies #[trigger]
                            entry_value(es@, k) == entry_value(before, k) by {
                            lemma_entry_update(before, i as int, nv, k);
                        }
                    }
                    Json::Object(es)
                },
                // Not reached: the value was found to be an object above.
                _ => Json::Null,
            }
        },
        _ => doc,
    }
}

// ---------------------------------------------------------------------------
// The file's text
// ---------------------------------------------------------------------------

/// The entry read from the file's text: none when the text is not JSON or holds no entry.
pub open spec fn entry_of_text(text: Seq<char>) -> Option<EntryView> {
    match json_of_text(text) {
        Some(d) => read_entry_spec(d),
        None => None,
    }
}

/// What the configuration file holds for this server, given its text (`None` when there
/// is no file): whether it exists, and its entry (see [`entry_of_text`]).
pub fn existing_config_of(text: Option<String>) -> (r: ExistingConfig)
    ensures
        r.path_exists == text is Some,
        match r.confluence {
            Some(e) => text matches Some(t) && entry_of_text(t@) == Some(e@),
            None => text matches Some(t) ==> entry_of_text(t@) is None,
        },
{
    match text {
        None => ExistingConfig { path_exists: false, confluence: None },
        Some(t) => {
            let confluence = match parse_json(t.as_str()) {
                Some(doc) => read_confluence_entry(&doc),
                None => None,
            };
            ExistingConfig { path_exists: true, confluence }
        },
    }
}

/// The existing document, read from the file: `None` when there is no file, `Some(None)`
/// when it cannot be read or its text is not JSON.
pub open spec fn existing_doc(existing: Option<Option<String>>) -> Option<Option<Json>> {
    match existing {
        None => None,
        Some(None) => Some(None),
        Some(Some(t)) => Some(json_of_text(t@)),
    }
}

/// The new text of the configuration file and the backups to make before writing it.
#[derive(Debug)]
pub struct ConfigWrite {
    pub text: String,
    /// Keep a copy of the file aside: it does not parse.
    pub backup_malformed: bool,
    /// Copy the file to its backup before writing.
    pub backup_previous: bool,
}

/// The configuration file's new text with the server's entry written in (see
/// [`config_with_entry`]), from its old text: `existing` is `None` when there is no
/// file, `Some(None)` when it cannot be read. `None` when the existing document cannot
/// take the entry (see [`can_hold_entry`]).
pub fn config_text_with_entry(existing: Option<Option<String>>, entry: &ConfluenceEntry) -> (r:
    Option<ConfigWrite>)
    ensures
        r is None <==> (existing_doc(existing) matches Some(Some(d)) && !can_hold_entry(d)),
        r matches Some(w) ==> exists|u: ConfigUpdate|
            {
                &&& #[trigger] update_ok(existing_doc(existing), entry@, u)
                &&& w.text@ == pretty_text_of(u.doc)
                &&& w.backup_malformed == u.backup_malformed
                &&& w.backup_previous == u.backup_previous
            },
{
    let doc: Option<Option<Json>> = match existing {
        None => None,
        Some(None) => Some(None),
        Some(Some(t)) => Some(parse_json(t.as_str())),
    };
    if let Some(Some(d)) = &doc {
        if !accepts_entry(d) {
            return None;
        }
    }
    let u = config_with_entry(doc, entry);
    let text = pretty_json(&u.doc);
    Some(
        ConfigWrite {
            text,
            backup_malformed: u.backup_malformed,
            backup_previous: u.backup_previous,
        },
    )
}

/// The configuration file's new text with the server's entry taken out (see
/// [`config_without_entry`]); `None`, and the file left alone, when its text is not JSON.
pub fn config_text_without_entry(text: &str) -> (r: Option<String>)
    ensures
        r is Some <==> json_of_text(text@) is Some,
        r matches Some(t) ==> exists|d: Json|
            #[trigger] entry_removed(json_of_text(text@)->0, d) && t@ == pretty_text_of(d),
{
    match parse_json(text) {
        Some(doc) => {
            let out = config_without_entry(doc);
            Some(pretty_json(&out))
        },
        None => None,
    }
}

// ---------------------------------------------------------------------------
// Reading back what was written
// ---------------------------------------------------------------------------

proof fn lemma_env_lookup(env: Seq<(String, Json)>, vars: Seq<(Seq<char>, Seq<char>)>, k: Seq<char>)
    requires
        env_matches(env, vars),
    ensures
        json_text(entry_value(env, k)) == first_value(vars, k),
    decreases env.len(),
{
    if env.len() > 0 {
        assert(env[0].0@ == vars[0].0);
        assert(env_matches(env.drop_first(), vars.drop_first())) by {
            assert forall|j: int| 0 <= j < env.drop_first().len() implies {
                &&& (#[trigger] env.drop_first()[j]).0@ == vars.drop_first()[j].0
                &&& (env.drop_first()[j].1 matches Json::Str(s) && s@ == vars.drop_first()[j].1)
            } by {
                assert(env.drop_first()[j] == env[j + 1]);
            }
        }
        lemma_env_lookup(env.drop_first(), vars.drop_first(), k);
    }
}

/// A document whose `mcpServers.confluence` holds the entry as written (as
/// [`config_with_entry`] leaves it) reads back as the entry as it was meant: the same
/// command, the URL without trailing slashes, the token, or else username and password,
/// the TLS setting, and the trimmed proxy (none when blank).
pub proof fn law_document_write_then_read(doc: Json, e: EntryView)
    requires
        json_get(doc, "mcpServers"@) matches Some(ms) && server_entry_ok(
            json_get(ms, "confluence"@),
            e,
        ),
    ensures
        read_entry_spec(doc) matches Some(back) && {
            &&& back.command == e.command
            &&& back.url == trim_end_char(e.url, '/')
            &&& back.token == e.token
            &&& back.username == (if e.token is Some {
                None
            } else {
                e.username
            })
            &&& back.password == (if e.token is Some {
                None
            } else {
                e.password
            })
            &&& back.ssl_verify == e.ssl_verify
            &&& back.proxy_url == match e.proxy_url {
                Some(p) => if trim(p).len() > 0 {
                    Some(trim(p))
                } else {
                    None
                },
                None => None,
            }
        },
{
    reveal_strlit("args");
    reveal_strlit("command");
    reveal_strlit("env");
    let ms = json_get(doc, "mcpServers"@)->0;
    let cv = json_get(ms, "confluence"@)->0;
    let es = cv->Object_0@;
    assert(es[0].0@ == "args"@);
    assert(es[0].0@.len() == 4);
    assert(es[0].0@ != "command"@);
    assert(es[0].0@ != "env"@);
    assert(es[1].0@ == "command"@);
    assert(es[1].0@.len() == 7);
    assert(es[1].0@ != "env"@);
    lemma_entry_at(es, "command"@, 1);
    lemma_entry_at(es, "env"@, 2);
    let env = es[2].1->Object_0@;
    let vars = env_entries_spec(e);
    lemma_env_lookup(env, vars, "CONFLUENCE_URL"@);
    lemma_env_lookup(env, vars, "CONFLUENCE_USERNAME"@);
    lemma_env_lookup(env, vars, "CONFLUENCE_PASSWORD"@);
    lemma_env_lookup(env, vars, "CONFLUENCE_TOKEN"@);
    lemma_env_lookup(env, vars, "CONFLUENCE_SSL_VERIFY"@);
    lemma_env_lookup(env, vars, "CONFLUENCE_PROXY_URL"@);
    law_write_then_read(e);
}

/// After the entry is taken out (as [`config_without_entry`] does), the document holds
/// no entry to read, whatever it held before.
pub proof fn law_no_entry_after_removal(doc: Json, r: Json)
    requires
        entry_removed(doc, r),
    ensures
        read_entry_spec(r) is None,
{
}

} // verus!
