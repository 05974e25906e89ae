//! The calls this library makes into other crates and into parts of std that vstd
//! does not describe. Each item here is trusted: its contract is taken as given, and
//! its doc comment says what the contract claims of the called function.

use vstd::prelude::*;
use base64::Engine;
use chrono::{Datelike, TimeZone};
use crate::text::has_char;
use crate::configurator::config_doc::Json;

verus! {

// ---------------------------------------------------------------------------
// `url` crate
// ---------------------------------------------------------------------------

/// Whether `url::Url::parse` accepts the text as an absolute URL.
pub uninterp spec fn url_parses(input: Seq<char>) -> bool;

/// `Url::scheme` of the URL that `Url::parse` makes of the text.
pub uninterp spec fn url_scheme(input: Seq<char>) -> Seq<char>;

/// `Url::host_str` of the URL that `Url::parse` makes of the text.
pub uninterp spec fn url_host(input: Seq<char>) -> Option<Seq<char>>;

/// `Url::port_or_known_default` of the URL that `Url::parse` makes of the text.
pub uninterp spec fn url_port(input: Seq<char>) -> Option<u16>;

/// `Url::path` of the URL that `Url::parse` makes of the text.
pub uninterp spec fn url_path(input: Seq<char>) -> Seq<char>;

/// `Url::query_pairs` (decoded key/value pairs, in order) of the URL that `Url::parse`
/// makes of the text.
pub uninterp spec fn url_query_pairs(input: Seq<char>) -> Seq<(Seq<char>, Seq<char>)>;

/// The parts of a parsed URL that this library reads.
pub struct UrlParts {
    pub scheme: String,
    pub host: Option<String>,
    pub port: Option<u16>,
    pub path: String,
    pub query_pairs: Vec<(String, String)>,
}

/// The view of a `(String, String)` pair.
pub open spec fn pair_view(p: (String, String)) -> (Seq<char>, Seq<char>) {
    (p.0@, p.1@)
}

/// The view of an optional string.
pub open spec fn opt_view(o: Option<String>) -> Option<Seq<char>> {
    match o {
        Some(s) => Some(s@),
        None => None,
    }
}

/// Calls `url::Url::parse` and reads the scheme, host, port (or the scheme's known
/// default), path and decoded query pairs of the result. The contract claims only that
/// the answer is a function of the input text: `None` exactly when parsing fails, and
/// otherwise the parts under the names above.
#[verifier::external_body]
pub(crate) fn parse_url(input: &str) -> (res: Option<UrlParts>)
    ensures
        res is Some <==> url_parses(input@),
        res matches Some(p) ==> p.scheme@ == url_scheme(input@),
        res matches Some(p) ==> opt_view(p.host) == url_host(input@),
        res matches Some(p) ==> p.port == url_port(input@),
        res matches Some(p) ==> p.path@ == url_path(input@),
        res matches Some(p) ==> p.query_pairs@.map_values(|q: (String, String)| pair_view(q))
            == url_query_pairs(input@),
{
    match url::Url::parse(input) {
        Ok(u) => Some(UrlParts {
            scheme: u.scheme().to_string(),
            host: u.host_str().map(String::from),
            port: u.port_or_known_default(),
            path: u.path().to_string(),
            query_pairs: u.query_pairs().map(|(k, v)| (k.into_owned(), v.into_owned())).collect(),
        }),
        Err(_) => None,
    }
}

// ---------------------------------------------------------------------------
// `urlencoding` crate
// ---------------------------------------------------------------------------

/// The value of an ASCII hexadecimal digit.
pub open spec fn hex_digit(b: u8) -> Option<int> {
    if 48 <= b <= 57 {
        Some(b - 48)
    } else if 65 <= b <= 70 {
        Some(b - 55)
    } else if 97 <= b <= 102 {
        Some(b - 87)
    } else {
        None
    }
}

/// Percent-decoding of bytes: each `%` followed by two hexadecimal digits becomes the
/// byte they spell; every other byte, a `%` that starts no such triple among them, is
/// kept; `+` stays `+`.
pub open spec fn percent_decode_bytes(d: Seq<u8>) -> Seq<u8>
    decreases d.len(),
{
    if d.len() == 0 {
        seq![]
    } else if d[0] == 37 && d.len() >= 3 && hex_digit(d[1]) is Some && hex_digit(d[2]) is Some {
        seq![(hex_digit(d[1])->0 * 16 + hex_digit(d[2])->0) as u8] + percent_decode_bytes(
            d.skip(3),
        )
    } else {
        seq![d[0]] + percent_decode_bytes(d.skip(1))
    }
}

/// What `urlencoding::decode` gives for the text: the percent-decoded UTF-8 bytes of the
/// text, read back as text when they are UTF-8, `None` otherwise.
pub open spec fn percent_decoded(s: Seq<char>) -> Option<Seq<char>> {
    let bytes = percent_decode_bytes(vstd::utf8::encode_utf8(s));
    if vstd::utf8::valid_utf8(bytes) {
        Some(vstd::utf8::decode_utf8(bytes))
    } else {
        None
    }
}

/// Calls `urlencoding::decode`. The contract claims that it decodes as
/// [`percent_decoded`] says, which is what `decode_binary` and `String::from_utf8` do,
/// and that a text without `%` comes back unchanged (`decode_binary` hands such a text
/// back untouched).
#[verifier::external_body]
pub(crate) fn percent_decode(s: &str) -> (res: Option<String>)
    ensures
        opt_view(res) == percent_decoded(s@),
        !has_char(s@, '%') ==> opt_view(res) == Some(s@),
{
    match urlencoding::decode(s) {
        Ok(c) => Some(c.into_owned()),
        Err(_) => None,
    }
}

// ---------------------------------------------------------------------------
// `base64` crate
// ---------------------------------------------------------------------------

/// The character of a six-bit value in the standard base64 alphabet.
pub open spec fn base64_digit(v: int) -> char {
    "ABCDEFGHIJKLMNOPQRSTUVWXYZabcdefghijklmnopqrstuvwxyz0123456789+/"@[v]
}

/// The standard, padded base64 encoding of some bytes: each group of three bytes, read
/// as a 24-bit number, gives four digits of six bits each, high bits first; a last group
/// of one or two bytes is filled with zero bits and padded with `=` to four characters.
pub open spec fn base64_standard(data: Seq<u8>) -> Seq<char>
    decreases data.len(),
{
    if data.len() == 0 {
        seq![]
    } else if data.len() == 1 {
        let n = data[0] * 65536;
        seq![base64_digit(n / 262144), base64_digit((n / 4096) % 64), '=', '=']
    } else if data.len() == 2 {
        let n = data[0] * 65536 + data[1] * 256;
        seq![
            base64_digit(n / 262144),
            base64_digit((n / 4096) % 64),
            base64_digit((n / 64) % 64),
            '=',
        ]
    } else {
        let n = data[0] * 65536 + data[1] * 256 + data[2];
        seq![
            base64_digit(n / 262144),
            base64_digit((n / 4096) % 64),
            base64_digit((n / 64) % 64),
            base64_digit(n % 64),
        ] + base64_standard(data.skip(3))
    }
}

/// Calls `base64::engine::general_purpose::STANDARD.encode`. The contract claims that
/// it encodes as [`base64_standard`] says, which is the standard alphabet with padding.
/// The length bound keeps the encoder's size computation from overflowing, where it
/// panics.
#[verifier::external_body]
pub(crate) fn base64_encode(data: &[u8]) -> (res: String)
    requires
        data@.len() < 0x1000_0000_0000,
    ensures
        res@ == base64_standard(data@),
{
    base64::engine::general_purpose::STANDARD.encode(data)
}

// ---------------------------------------------------------------------------
// `chrono` crate
// ---------------------------------------------------------------------------

/// The UTC calendar day of a Unix timestamp, as days since 1 January of year 1
/// (`num_days_from_ce`; 1 January 1970 is day 719163).
pub open spec fn utc_day(ts: int) -> int {
    ts / 86400 + 719163
}

/// The day number of chrono's first date (`NaiveDate::MIN`, 1 January of year -262143).
pub open spec fn chrono_min_day() -> int {
    -95746129
}

/// The day number of chrono's last date (`NaiveDate::MAX`, 31 December of year 262142).
pub open spec fn chrono_max_day() -> int {
    95745399
}

/// Calls `chrono::DateTime::from_timestamp(ts, 0)`, takes the machine's local offset at
/// that moment (`Local.offset_from_utc_datetime`), adds it with `checked_add_offset` and
/// returns the local calendar day as days since 1 January of year 1. Which day it is
/// depends on the machine's time zone; the contract claims what holds in every zone: a
/// local offset is less than a day, so the local day is the UTC day or a neighbour; and
/// the answer is `None` only when the UTC day or that neighbour lies outside chrono's
/// calendar.
#[verifier::external_body]
pub(crate) fn local_day(ts: i64) -> (res: Option<i32>)
    ensures
        res matches Some(d) ==> utc_day(ts as int) - 1 <= d <= utc_day(ts as int) + 1,
        chrono_min_day() + 1 <= utc_day(ts as int) <= chrono_max_day() - 1 ==> res is Some,
{
    match chrono::DateTime::from_timestamp(ts, 0) {
        Some(t) => {
            let utc = t.naive_utc();
            let offset = chrono::Local.offset_from_utc_datetime(&utc);
            utc.checked_add_offset(offset).map(|l| l.date().num_days_from_ce())
        },
        None => None,
    }
}

/// Calls `chrono::Utc::now()` and returns the local calendar day, as days since 1 January
/// of year 1. The answer depends on the clock and the time zone; nothing is stated.
#[verifier::external_body]
pub(crate) fn local_today() -> (res: i32) {
    chrono::Utc::now().with_timezone(&chrono::Local).date_naive().num_days_from_ce()
}

/// `NaiveDate::from_num_days_from_ce_opt(n)` rendered with `format("%Y-%m-%d")`; `None`
/// when the day is outside chrono's calendar.
pub uninterp spec fn day_key_of(n: i32) -> Option<Seq<char>>;

/// Calls `chrono::NaiveDate::from_num_days_from_ce_opt` and renders the date as
/// `YYYY-MM-DD`. The contract claims that the answer is a function of the day and, as the
/// function's documentation says (`None` only out of range), that every day of chrono's
/// calendar has a key.
#[verifier::external_body]
pub(crate) fn day_key(n: i32) -> (res: Option<String>)
    ensures
        opt_view(res) == day_key_of(n),
        chrono_min_day() <= n <= chrono_max_day() ==> res is Some,
{
    match chrono::NaiveDate::from_num_days_from_ce_opt(n) {
        Some(d) => Some(d.format("%Y-%m-%d").to_string()),
        None => None,
    }
}

// ---------------------------------------------------------------------------
// std text and numbers that vstd does not describe
// ---------------------------------------------------------------------------

/// `str::to_lowercase`: the Unicode lower-case mapping of the text.
pub uninterp spec fn lowercase_of(s: Seq<char>) -> Seq<char>;

/// Calls `str::to_lowercase`. The contract claims only that the result is a function of
/// the text.
#[verifier::external_body]
pub(crate) fn to_lowercase(s: &str) -> (res: String)
    ensures
        res@ == lowercase_of(s@),
{
    s.to_lowercase()
}

/// A path that no platform reads as ending in a root or a prefix: it holds no `:` and no
/// `\`, and it is either relative and non-empty, or starts with a single `/` and ends in
/// a character other than `/` and `.` (so its last component is a name).
pub open spec fn ends_in_component(p: Seq<char>) -> bool {
    &&& p.len() > 0
    &&& !has_char(p, ':')
    &&& !has_char(p, '\\')
    &&& (p[0] != '/' || (p.len() >= 2 && p[1] != '/' && p.last() != '/' && p.last() != '.'))
}

/// A path whose components every platform reads alike, each as the text between two
/// `/`: a path that ends in a component (see [`ends_in_component`]), with no empty
/// component (`//`, or a `/` at the end) and no `.` component.
pub open spec fn plain_path(p: Seq<char>) -> bool {
    &&& ends_in_component(p)
    &&& p.last() != '/'
    &&& forall|i: int| 0 <= i < p.len() - 1 && #[trigger] p[i] == '/' ==> p[i + 1] != '/'
    &&& forall|i: int|
        0 <= i < p.len() && #[trigger] p[i] == '.' ==> (i > 0 && p[i - 1] != '/') || (i + 1
            < p.len() && p[i + 1] != '/')
}

/// The index of the last `c` in `p`, or -1.
pub open spec fn last_index_of(p: Seq<char>, c: char) -> int
    decreases p.len(),
{
    if p.len() == 0 {
        -1
    } else if p.last() == c {
        p.len() - 1
    } else {
        last_index_of(p.drop_last(), c)
    }
}

/// The text of a plain path without its last component: what comes before the last `/`,
/// the root `/` itself when that is the only one, and the empty path when there is none.
pub open spec fn parent_text(p: Seq<char>) -> Seq<char> {
    let i = last_index_of(p, '/');
    if i < 0 {
        seq![]
    } else if i == 0 {
        seq!['/']
    } else {
        p.take(i)
    }
}

/// Calls `std::path::Path::parent` and converts the result to text. The contract claims:
/// a parent, when there is one, is a leading part of the path; as the documentation
/// says (`None` only for an empty path or one that ends in a root or a prefix), a path
/// that ends in a component has one; and for a plain path (see [`plain_path`]), whose
/// components are the same on every platform, the parent is the path without its last
/// component (`/foo/bar` gives `/foo`, `/foo` gives `/`, `foo` gives the empty path).
#[verifier::external_body]
pub(crate) fn path_parent(path: &str) -> (res: Option<String>)
    ensures
        res matches Some(p) ==> p@.len() <= path@.len() && p@ == path@.take(p@.len() as int),
        ends_in_component(path@) ==> res is Some,
        plain_path(path@) ==> opt_view(res) == Some(parent_text(path@)),
{
    std::path::Path::new(path).parent().map(|p| p.to_string_lossy().into_owned())
}

/// `r` is `base` and `part`, joined directly or by one separator (`/` or `\`).
pub open spec fn joined_with(base: Seq<char>, part: Seq<char>, r: Seq<char>) -> bool {
    r == base + part || r == base + seq!['/'] + part || r == base + seq!['\\'] + part
}

/// Calls `std::path::PathBuf::join` with one relative component and converts the result
/// to text. As `PathBuf::push` shows, a relative component (here: non-empty, not `.` or
/// `..`, without `/`, `\` or `:`) ends the result; and unless the base is a verbatim
/// Windows path (one holding `?`, whose components are rebuilt), the result is the base,
/// then the component, joined directly where the base is empty or ends in `/` (or, on
/// Windows, in `\` or a bare drive), and by the platform's separator (`/` or `\`)
/// where the base is a non-empty text without `:` that ends in neither.
#[verifier::external_body]
pub(crate) fn path_join(base: &str, part: &str) -> (res: String)
    requires
        part@.len() > 0,
        part@ != "."@,
        part@ != ".."@,
        !has_char(part@, '/'),
        !has_char(part@, '\\'),
        !has_char(part@, ':'),
    ensures
        part@.len() <= res@.len() && res@.skip(res@.len() - part@.len()) == part@,
        !has_char(base@, '?') ==> joined_with(base@, part@, res@),
        !has_char(base@, '?') && (base@.len() == 0 || base@.last() == '/') ==> res@ == base@
            + part@,
        !has_char(base@, '?') && !has_char(base@, ':') && base@.len() > 0 && base@.last() != '/'
            && base@.last() != '\\' ==> res@ != base@ + part@,
{
    std::path::Path::new(base).join(part).to_string_lossy().into_owned()
}

// ---------------------------------------------------------------------------
// `serde_json`
// ---------------------------------------------------------------------------

#[verifier::external_type_specification]
#[verifier::external_body]
pub struct ExJsonValue(serde_json::Value);

/// The document `serde_json::from_str` reads from a text (`None` when the text is not
/// JSON), as a [`Json`].
pub uninterp spec fn json_of_text(text: Seq<char>) -> Option<Json>;

/// The text `serde_json::to_string_pretty` writes for a document.
pub uninterp spec fn pretty_text_of(doc: Json) -> Seq<char>;

/// A `serde_json::Value` as a [`Json`], variant for variant; a number keeps its JSON text.
#[verifier::external_body]
fn json_from_value(v: serde_json::Value) -> Json {
    match v {
        serde_json::Value::Null => Json::Null,
        serde_json::Value::Bool(b) => Json::Bool(b),
        serde_json::Value::Number(n) => Json::Number(n.to_string()),
        serde_json::Value::String(s) => Json::Str(s),
        serde_json::Value::Array(a) => Json::Array(a.into_iter().map(json_from_value).collect()),
        serde_json::Value::Object(m) => Json::Object(
            m.into_iter().map(|(k, x)| (k, json_from_value(x))).collect(),
        ),
    }
}

/// A [`Json`] as a `serde_json::Value`, variant for variant; a number is read back from
/// its text by `serde_json::Number`'s `FromStr` (a text that is no number gives `null`).
#[verifier::external_body]
fn value_from_json(doc: &Json) -> serde_json::Value {
    match doc {
        Json::Null => serde_json::Value::Null,
        Json::Bool(b) => serde_json::Value::Bool(*b),
        Json::Number(n) => n.parse().map(serde_json::Value::Number).unwrap_or_default(),
        Json::Str(s) => serde_json::Value::String(s.clone()),
        Json::Array(a) => serde_json::Value::Array(a.iter().map(value_from_json).collect()),
        Json::Object(es) => serde_json::Value::Object(
            es.iter().map(|(k, x)| (k.clone(), value_from_json(x))).collect(),
        ),
    }
}

/// Calls `serde_json::from_str::<serde_json::Value>` on the text and converts the value to
/// a [`Json`]. The contract claims that the result is a function of the text.
#[verifier::external_body]
pub(crate) fn parse_json(text: &str) -> (res: Option<Json>)
    ensures
        res == json_of_text(text@),
{
    serde_json::from_str::<serde_json::Value>(text).ok().map(json_from_value)
}

/// Converts the document to a `serde_json::Value` and calls `serde_json::to_string_pretty`
/// on it, which cannot fail on a value whose keys are strings. The contract claims that
/// the text is a function of the document.
#[verifier::external_body]
pub(crate) fn pretty_json(doc: &Json) -> (res: String)
    ensures
        res@ == pretty_text_of(*doc),
{
    serde_json::to_string_pretty(&value_from_json(doc)).unwrap_or_default()
}

// ---------------------------------------------------------------------------
// `reqwest` (the `http` status table)
// ---------------------------------------------------------------------------

/// `StatusCode::canonical_reason` of a status code (`None` for an invalid or unnamed code).
pub uninterp spec fn reason_phrase_of(status: u16) -> Option<Seq<char>>;

/// Calls `reqwest::StatusCode::from_u16` and `canonical_reason`. The contract claims only
/// that the answer is a function of the code.
#[verifier::external_body]
pub(crate) fn canonical_reason(status: u16) -> (res: Option<String>)
    ensures
        opt_view(res) == reason_phrase_of(status),
{
    match reqwest::StatusCode::from_u16(status) {
        Ok(c) => c.canonical_reason().map(String::from),
        Err(_) => None,
    }
}

/// The text a header value may hold: each character a tab, or neither a control
/// character below the space nor DEL (the bytes of other characters are all above 127).
pub open spec fn header_text_ok(s: Seq<char>) -> bool {
    forall|i: int|
        0 <= i < s.len() ==> (#[trigger] s[i] == '\t' || (s[i] as u32 >= 32 && s[i] as u32
            != 127))
}

/// The text of `InvalidHeaderValue`'s `Display`.
pub open spec fn invalid_header_text() -> Seq<char> {
    "failed to parse header value"@
}

/// Calls `reqwest::header::HeaderValue::from_str` and hands back the error's `Display`
/// text. The contract claims that it accepts the text exactly when every byte is a tab
/// or at least 32 and not 127, which is what its check does, byte by byte, over the
/// text's UTF-8 encoding; and that the error's text is the one its `Display` writes.
#[verifier::external_body]
pub(crate) fn header_value_check(s: &str) -> (res: Result<(), String>)
    ensures
        res is Ok <==> header_text_ok(s@),
        res matches Err(m) ==> m@ == invalid_header_text(),
{
    match reqwest::header::HeaderValue::from_str(s) {
        Ok(_) => Ok(()),
        Err(e) => Err(e.to_string()),
    }
}

} // verus!
