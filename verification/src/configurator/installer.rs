//! Where the server is installed, and how writing its binary is retried while a running
//! copy holds the file. Probing folders and writing files are the application's part.

use vstd::prelude::*;
use crate::text::{is_blank, chars_of, is_blank_exec, has_char, starts_with, ends_with};
use crate::outside::{opt_view, path_join, joined_with};

verus! {

broadcast use vstd::string::group_string_axioms;

/// The name of the folder the server is installed in.
pub const INSTALL_DIR_NAME: &'static str = "ConfluenceConnect";

/// The server's file name: with `.exe` on Windows.
pub fn server_binary_name(windows: bool) -> (r: &'static str)
    ensures
        r@ == if windows {
            "confluence-mcp-server.exe"@
        } else {
            "confluence-mcp-server"@
        },
{
    if windows {
        "confluence-mcp-server.exe"
    } else {
        "confluence-mcp-server"
    }
}

/// The platform's layout of the user's folders.
#[derive(Debug, Clone, Copy, PartialEq, Eq, Structural)]
pub enum InstallPlatform {
    /// Under `%LOCALAPPDATA%` (or `%USERPROFILE%`).
    Windows,
    /// Under `~/Library/Application Support`.
    MacOs,
    /// Under `~/.local/share`.
    Other,
}

proof fn lemma_no_char_concat(a: Seq<char>, b: Seq<char>, c: char)
    requires
        !has_char(a, c),
        !has_char(b, c),
    ensures
        !has_char(a + b, c),
{
    assert forall|i: int| 0 <= i < (a + b).len() implies (a + b)[i] != c by {
        if i < a.len() {
            assert((a + b)[i] == a[i]);
        } else {
            assert((a + b)[i] == b[i - a.len()]);
        }
    }
}

/// Joins one component to a path; the result ends with the component and, for a base
/// without `?`, starts with the base and holds no `?`.
fn join_part(base: &String, part: &str) -> (r: String)
    requires
        part@.len() > 0,
        part@ != "."@,
        part@ != ".."@,
        !has_char(part@, '/'),
        !has_char(part@, '\\'),
        !has_char(part@, ':'),
        !has_char(part@, '?'),
    ensures
        ends_with(r@, part@),
        !has_char(base@, '?') ==> starts_with(r@, base@) && !has_char(r@, '?') && joined_with(
            base@,
            part@,
            r@,
        ),
{
    let r = path_join(base.as_str(), part);
    proof {
        if !has_char(base@, '?') {
            let sep: Seq<char> = if r@ == base@ + part@ {
                seq![]
            } else if r@ == base@ + seq!['/'] + part@ {
                seq!['/']
            } else {
                seq!['\\']
            };
            assert(r@ == base@ + sep + part@);
            assert(!has_char(sep, '?'));
            lemma_no_char_concat(base@, sep, '?');
            lemma_no_char_concat(base@ + sep, part@, '?');
            assert(r@.take(base@.len() as int) =~= base@);
        }
    }
    r
}

proof fn lemma_starts_trans(a: Seq<char>, b: Seq<char>, c: Seq<char>)
    requires
        starts_with(b, a),
        starts_with(c, b),
    ensures
        starts_with(c, a),
{
    assert(c.take(a.len() as int) =~= b.take(a.len() as int));
}

proof fn lemma_names_differ(name: Seq<char>, other: Seq<char>)
    requires
        name.len() != other.len(),
    ensures
        name != other,
{
}

/// The install folder under a base folder: on Windows the base then
/// [`INSTALL_DIR_NAME`]; on macOS the base, `Library`, `Application Support`, then the
/// name; elsewhere the base, `.local`, `share`, then the name; each step joined as a path
/// join does (see [`joined_with`]).
pub open spec fn candidate_ok(platform: InstallPlatform, base: Seq<char>, r: Seq<char>) -> bool {
    match platform {
        InstallPlatform::Windows => joined_with(base, INSTALL_DIR_NAME@, r),
        InstallPlatform::MacOs => exists|a: Seq<char>, b: Seq<char>|
            #![trigger joined_with(base, "Library"@, a), joined_with(b, INSTALL_DIR_NAME@, r)]
            {
                &&& joined_with(base, "Library"@, a)
                &&& joined_with(a, "Application Support"@, b)
                &&& joined_with(b, INSTALL_DIR_NAME@, r)
            },
        InstallPlatform::Other => exists|a: Seq<char>, b: Seq<char>|
            #![trigger joined_with(base, ".local"@, a), joined_with(b, INSTALL_DIR_NAME@, r)]
            {
                &&& joined_with(base, ".local"@, a)
                &&& joined_with(a, "share"@, b)
                &&& joined_with(b, INSTALL_DIR_NAME@, r)
            },
    }
}

/// The install folder under one base folder of the user's environment (see
/// [`candidate_ok`]).
fn candidate_under(platform: InstallPlatform, base: &String) -> (r: String)
    ensures
        ends_with(r@, INSTALL_DIR_NAME@),
        !has_char(base@, '?') ==> starts_with(r@, base@) && candidate_ok(platform, base@, r@),
{
    proof {
        reveal_strlit("ConfluenceConnect");
        reveal_strlit("Library");
        reveal_strlit("Application Support");
        reveal_strlit(".local");
        reveal_strlit("share");
        reveal_strlit(".");
        reveal_strlit("..");
    }
    match platform {
        InstallPlatform::Windows => join_part(base, INSTALL_DIR_NAME),
        InstallPlatform::MacOs => {
            proof {
                lemma_names_differ("Application Support"@, "."@);
                lemma_names_differ("Application Support"@, ".."@);
                assert("Application Support"@[11] == ' ');
            }
            let a = join_part(base, "Library");
            let b = join_part(&a, "Application Support");
            let c = join_part(&b, INSTALL_DIR_NAME);
            proof {
                if !has_char(base@, '?') {
                    lemma_starts_trans(base@, a@, b@);
                    lemma_starts_trans(base@, b@, c@);
                    assert(joined_with(base@, "Library"@, a@) && joined_with(b@, INSTALL_DIR_NAME@, c@));
                }
            }
            c
        },
        InstallPlatform::Other => {
            let a = join_part(base, ".local");
            let b = join_part(&a, "share");
            let c = join_part(&b, INSTALL_DIR_NAME);
            proof {
                if !has_char(base@, '?') {
                    lemma_starts_trans(base@, a@, b@);
                    lemma_starts_trans(base@, b@, c@);
                    assert(joined_with(base@, ".local"@, a@) && joined_with(b@, INSTALL_DIR_NAME@, c@));
                }
            }
            c
        },
    }
}

/// The candidate install folders, in order of preference: one under each base folder
/// found in the user's environment (see [`candidate_under`]), or the bare folder name
/// when none was found. Every candidate ends with [`INSTALL_DIR_NAME`].
pub fn install_dir_candidates(platform: InstallPlatform, bases: &Vec<String>) -> (r: Vec<String>)
    ensures
        bases@.len() > 0 ==> r@.len() == bases@.len(),
        bases@.len() == 0 ==> r@.len() == 1 && r@[0]@ == INSTALL_DIR_NAME@,
        forall|i: int| 0 <= i < r@.len() ==> ends_with(#[trigger] r@[i]@, INSTALL_DIR_NAME@),
        forall|i: int|
            0 <= i < bases@.len() && !has_char(bases@[i]@, '?') ==> starts_with(
                #[trigger] r@[i]@,
                bases@[i]@,
            ) && candidate_ok(platform, bases@[i]@, r@[i]@),
{
    let mut v: Vec<String> = Vec::new();
    if bases.len() == 0 {
        proof {
            reveal_strlit("ConfluenceConnect");
        }
        v.push(INSTALL_DIR_NAME.to_string());
        assert(ends_with(v@[0]@, INSTALL_DIR_NAME@)) by {
            assert(v@[0]@.skip(0) =~= v@[0]@);
        }
        return v;
    }
    let n = bases.len();
    for i in 0..n
        invariant
            n == bases@.len(),
            v@.len() == i,
            forall|j: int| 0 <= j < i ==> ends_with(#[trigger] v@[j]@, INSTALL_DIR_NAME@),
            forall|j: int|
                0 <= j < i && !has_char(bases@[j]@, '?') ==> starts_with(
                    #[trigger] v@[j]@,
                    bases@[j]@,
                ) && candidate_ok(platform, bases@[j]@, v@[j]@),
    {
        let c = candidate_under(platform, &bases[i]);
        v.push(c);
    }
    v
}

/// The default install folder: the first candidate that probed writable, or the first
/// candidate when none did, so that it can still be shown and changed. `probes` are the
/// outcomes of probing the candidates in order; probing may stop at the first success.
pub fn default_install_dir(candidates: &Vec<String>, probes: &Vec<bool>) -> (r: String)
    requires
        candidates@.len() >= 1,
        probes@.len() <= candidates@.len(),
    ensures
        (forall|i: int| 0 <= i < probes@.len() ==> !#[trigger] probes@[i]) ==> r@
            == candidates@[0]@,
        (exists|i: int| 0 <= i < probes@.len() && #[trigger] probes@[i]) ==> exists|i: int|
            {
                &&& 0 <= i < probes@.len()
                &&& #[trigger] probes@[i]
                &&& forall|j: int| 0 <= j < i ==> !#[trigger] probes@[j]
                &&& r@ == candidates@[i]@
            },
        (forall|i: int| 0 <= i < candidates@.len() ==> ends_with(#[trigger] candidates@[i]@, INSTALL_DIR_NAME@))
            ==> ends_with(r@, INSTALL_DIR_NAME@),
{
    let n = probes.len();
    for i in 0..n
        invariant
            n == probes@.len(),
            n <= candidates@.len(),
            forall|j: int| 0 <= j < i ==> !#[trigger] probes@[j],
    {
        if probes[i] {
            return candidates[i].clone();
        }
    }
    candidates[0].clone()
}

/// The folder chosen in the wizard, when it is not blank; `None` means the default.
pub fn resolve_install_dir(override_path: Option<String>) -> (r: Option<String>)
    ensures
        match opt_view(override_path) {
            Some(s) => if is_blank(s) {
                r is None
            } else {
                opt_view(r) == Some(s)
            },
            None => r is None,
        },
{
    match override_path {
        Some(s) => {
            if is_blank_exec(&chars_of(s.as_str())) {
                None
            } else {
                Some(s)
            }
        },
        None => None,
    }
}

/// A failed write is a sharing violation (OS error 32: a running program holds the file)
/// only on Windows.
pub fn is_sharing_violation(windows: bool, raw_os_error: Option<i32>) -> (r: bool)
    ensures
        r == (windows && raw_os_error == Some(32i32)),
{
    windows && raw_os_error == Some(32i32)
}

/// The retries of writing the server binary after a sharing violation.
pub const WRITE_RETRIES: u64 = 5;

/// What to do after a write attempt.
#[derive(Debug, PartialEq, Eq, Structural)]
pub enum WriteStep {
    /// The binary is written.
    Done,
    /// Give up with the last error.
    Fail,
    /// Wait this many milliseconds and write again (after the first failure, the running
    /// server is stopped first).
    RetryAfter(u64),
}

/// The next step after attempt `attempt` (0 for the first write, then the retries `1..=5`):
/// success ends it; a first failure that is no sharing violation gives up; otherwise the
/// `k`-th retry comes after `150 * k` milliseconds, and the fifth failed retry gives up.
pub open spec fn write_step_spec(attempt: u64, ok: bool, sharing_violation: bool) -> WriteStep {
    if ok {
        WriteStep::Done
    } else if attempt == 0 && !sharing_violation {
        WriteStep::Fail
    } else if attempt >= WRITE_RETRIES {
        WriteStep::Fail
    } else {
        WriteStep::RetryAfter((150 * (attempt + 1)) as u64)
    }
}

/// The next step of writing the server binary (see [`write_step_spec`]).
pub fn next_write_step(attempt: u64, ok: bool, sharing_violation: bool) -> (r: WriteStep)
    ensures
        r == write_step_spec(attempt, ok, sharing_violation),
{
    if ok {
        WriteStep::Done
    } else if attempt == 0 && !sharing_violation {
        WriteStep::Fail
    } else if attempt >= WRITE_RETRIES {
        WriteStep::Fail
    } else {
        WriteStep::RetryAfter(150 * (attempt + 1))
    }
}

/// Writing the binary always ends: whatever the outcomes, the steps from the first write
/// on give up or succeed by the fifth retry, and the waits before the retries are 150,
/// 300, 450, 600 and 750 milliseconds.
pub proof fn law_write_retries_end(attempt: u64, ok: bool, sharing_violation: bool)
    ensures
        attempt >= WRITE_RETRIES ==> !(write_step_spec(attempt, ok, sharing_violation) is RetryAfter),
        write_step_spec(attempt, ok, sharing_violation) matches WriteStep::RetryAfter(ms) ==> (
        attempt < WRITE_RETRIES && ms == 150 * (attempt + 1)),
{
}

} // verus!
