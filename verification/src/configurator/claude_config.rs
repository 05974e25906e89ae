//! The assistant's configuration entry for this server: what is read back from it and
//! which environment variables are written into it. Reading and writing the JSON file
//! is the application's part.

use vstd::prelude::*;
use crate::text::{trim, trim_end_char, chars_of, string_of, trim_exec, trim_end_char_exec,
    str_eq};
use crate::outside::{opt_view, pair_view};
use crate::confluence_core::url_parse::first_value;

verus! {

broadcast use vstd::string::group_string_axioms;

/// The server's entry in the assistant's configuration.
#[derive(Debug, Clone)]
pub struct ConfluenceEntry {
    pub command: String,
    pub url: String,
    pub username: Option<String>,
    pub password: Option<String>,
    pub token: Option<String>,
    pub ssl_verify: bool,
    pub proxy_url: Option<String>,
}

/// What the configuration file holds for this server.
#[derive(Debug, Default)]
pub struct ExistingConfig {
    pub path_exists: bool,
    pub confluence: Option<ConfluenceEntry>,
}

/// The string values found in the server's entry: its `command` and the variables of its
/// `env` object (`None` where absent or not a string).
#[derive(Debug, Default)]
pub struct RawServerEntry {
    pub command: Option<String>,
    pub url: Option<String>,
    pub username: Option<String>,
    pub password: Option<String>,
    pub token: Option<String>,
    pub ssl_verify: Option<String>,
    pub proxy_url: Option<String>,
}

/// The mathematical content of a [`ConfluenceEntry`].
pub struct EntryView {
    pub command: Seq<char>,
    pub url: Seq<char>,
    pub username: Option<Seq<char>>,
    pub password: Option<Seq<char>>,
    pub token: Option<Seq<char>>,
    pub ssl_verify: bool,
    pub proxy_url: Option<Seq<char>>,
}

impl View for ConfluenceEntry {
    type V = EntryView;

    open spec fn view(&self) -> EntryView {
        EntryView {
            command: self.command@,
            url: self.url@,
            username: opt_view(self.username),
            password: opt_view(self.password),
            token: opt_view(self.token),
            ssl_verify: self.ssl_verify,
            proxy_url: opt_view(self.proxy_url),
        }
    }
}

/// The entry read from its raw values: missing command and URL read as empty, TLS
/// verification is on unless the variable is exactly `false`, an empty proxy is none.
pub open spec fn entry_from_raw_spec(
    command: Option<Seq<char>>,
    url: Option<Seq<char>>,
    username: Option<Seq<char>>,
    password: Option<Seq<char>>,
    token: Option<Seq<char>>,
    ssl_verify: Option<Seq<char>>,
    proxy_url: Option<Seq<char>>,
) -> EntryView {
    EntryView {
        command: match command {
            Some(c) => c,
            None => seq![],
        },
        url: match url {
            Some(u) => u,
            None => seq![],
        },
        username,
        password,
        token,
        ssl_verify: match ssl_verify {
            Some(v) => v != "false"@,
            None => true,
        },
        proxy_url: match proxy_url {
            Some(p) => if p.len() == 0 {
                None
            } else {
                Some(p)
            },
            None => None,
        },
    }
}

impl ConfluenceEntry {
    /// The entry read from its raw values (see [`entry_from_raw_spec`]).
    pub fn from_raw(raw: &RawServerEntry) -> (e: ConfluenceEntry)
        ensures
            e@ == entry_from_raw_spec(
                opt_view(raw.command),
                opt_view(raw.url),
                opt_view(raw.username),
                opt_view(raw.password),
                opt_view(raw.token),
                opt_view(raw.ssl_verify),
                opt_view(raw.proxy_url),
            ),
    {
        let command = match &raw.command {
            Some(c) => c.clone(),
            None => String::new(),
        };
        let url = match &raw.url {
            Some(u) => u.clone(),
            None => String::new(),
        };
        let ssl_verify = match &raw.ssl_verify {
            Some(v) => !str_eq(v.as_str(), "false"),
            None => true,
        };
        let proxy_url = match &raw.proxy_url {
            Some(p) => {
                let c = chars_of(p.as_str());
                if c.len() == 0 {
                    None
                } else {
                    Some(p.clone())
                }
            },
            None => None,
        };
        ConfluenceEntry {
            command,
            url,
            username: clone_opt(&raw.username),
            password: clone_opt(&raw.password),
            token: clone_opt(&raw.token),
            ssl_verify,
            proxy_url,
        }
    }
}

fn clone_opt(o: &Option<String>) -> (r: Option<String>)
    ensures
        opt_view(r) == opt_view(*o),
{
    match o {
        Some(s) => Some(s.clone()),
        None => None,
    }
}

/// The variables written into the entry's `env`: the URL without trailing slashes,
/// `MCP_TRANSPORT=stdio`, the token, or else the username and password, `false` for TLS
/// verification when it is off, and the trimmed proxy when not blank.
pub open spec fn env_entries_spec(e: EntryView) -> Seq<(Seq<char>, Seq<char>)> {
    let base = seq![("CONFLUENCE_URL"@, trim_end_char(e.url, '/')), ("MCP_TRANSPORT"@, "stdio"@)];
    let auth: Seq<(Seq<char>, Seq<char>)> = match e.token {
        Some(t) => seq![("CONFLUENCE_TOKEN"@, t)],
        None => (match e.username {
            Some(u) => seq![("CONFLUENCE_USERNAME"@, u)],
            None => seq![],
        }) + (match e.password {
            Some(p) => seq![("CONFLUENCE_PASSWORD"@, p)],
            None => seq![],
        }),
    };
    let ssl: Seq<(Seq<char>, Seq<char>)> = if e.ssl_verify {
        seq![]
    } else {
        seq![("CONFLUENCE_SSL_VERIFY"@, "false"@)]
    };
    let proxy: Seq<(Seq<char>, Seq<char>)> = match e.proxy_url {
        Some(p) => if trim(p).len() > 0 {
            seq![("CONFLUENCE_PROXY_URL"@, trim(p))]
        } else {
            seq![]
        },
        None => seq![],
    };
    base + auth + ssl + proxy
}

fn push_pair(v: &mut Vec<(String, String)>, k: &str, val: String)
    ensures
        final(v)@.map_values(|p: (String, String)| pair_view(p)) == old(v)@.map_values(
            |p: (String, String)| pair_view(p),
        ).push((k@, val@)),
{
    let ghost before = v@.map_values(|p: (String, String)| pair_view(p));
    v.push((k.to_string(), val));
    assert(v@.map_values(|p: (String, String)| pair_view(p)) =~= before.push((k@, val@)));
}

/// The variables written into the entry's `env` (see [`env_entries_spec`]).
pub fn confluence_env_entries(entry: &ConfluenceEntry) -> (r: Vec<(String, String)>)
    ensures
        r@.map_values(|p: (String, String)| pair_view(p)) == env_entries_spec(entry@),
{
    let mut v: Vec<(String, String)> = Vec::new();
    let url = chars_of(entry.url.as_str());
    push_pair(&mut v, "CONFLUENCE_URL", string_of(&trim_end_char_exec(&url, '/')));
    push_pair(&mut v, "MCP_TRANSPORT", "stdio".to_string());
    let ghost base = v@.map_values(|p: (String, String)| pair_view(p));
    match &entry.token {
        Some(t) => push_pair(&mut v, "CONFLUENCE_TOKEN", t.clone()),
        None => {
            if let Some(u) = &entry.username {
                push_pair(&mut v, "CONFLUENCE_USERNAME", u.clone());
            }
            let ghost mid = v@.map_values(|p: (String, String)| pair_view(p));
            if let Some(p) = &entry.password {
                push_pair(&mut v, "CONFLUENCE_PASSWORD", p.clone());
            }
            assert(v@.map_values(|p: (String, String)| pair_view(p)) =~= base + ((match entry@.username {
                Some(u) => seq![("CONFLUENCE_USERNAME"@, u)],
                None => Seq::<(Seq<char>, Seq<char>)>::empty(),
            }) + (match entry@.password {
                Some(p) => seq![("CONFLUENCE_PASSWORD"@, p)],
                None => Seq::<(Seq<char>, Seq<char>)>::empty(),
            })));
        },
    }
    let ghost with_auth = v@.map_values(|p: (String, String)| pair_view(p));
    if !entry.ssl_verify {
        push_pair(&mut v, "CONFLUENCE_SSL_VERIFY", "false".to_string());
    }
    let ghost with_ssl = v@.map_values(|p: (String, String)| pair_view(p));
    assert(with_ssl =~= with_auth + (if entry.ssl_verify {
        Seq::<(Seq<char>, Seq<char>)>::empty()
    } else {
        seq![("CONFLUENCE_SSL_VERIFY"@, "false"@)]
    }));
    if let Some(p) = &entry.proxy_url {
        let c = chars_of(p.as_str());
        let t = trim_exec(&c);
        if t.len() > 0 {
            push_pair(&mut v, "CONFLUENCE_PROXY_URL", string_of(&t));
        }
    }
    assert(v@.map_values(|p: (String, String)| pair_view(p)) =~= env_entries_spec(entry@));
    v
}

// ---------------------------------------------------------------------------
// Laws
// ---------------------------------------------------------------------------

proof fn lemma_first_value_concat(
    a: Seq<(Seq<char>, Seq<char>)>,
    b: Seq<(Seq<char>, Seq<char>)>,
    k: Seq<char>,
)
    ensures
        first_value(a + b, k) == match first_value(a, k) {
            Some(v) => Some(v),
            None => first_value(b, k),
        },
    decreases a.len(),
{
    if a.len() == 0 {
        assert(a + b =~= b);
    } else {
        assert((a + b)[0] == a[0]);
        assert((a + b).drop_first() =~= a.drop_first() + b);
        lemma_first_value_concat(a.drop_first(), b, k);
    }
}

proof fn lemma_first_value_one(k1: Seq<char>, v: Seq<char>, k: Seq<char>)
    ensures
        first_value(seq![(k1, v)], k) == if k1 == k {
            Some(v)
        } else {
            None
        },
{
    let s = seq![(k1, v)];
    assert(s.drop_first() =~= Seq::<(Seq<char>, Seq<char>)>::empty());
    assert(first_value(s.drop_first(), k) is None);
}

/// Reading back the variables that writing an entry produces gives the entry as it was
/// meant: the URL without trailing slashes, the token, or else username and password,
/// the TLS setting, and the trimmed proxy (none when blank).
pub proof fn law_write_then_read(e: EntryView)
    ensures
        ({
            let env = env_entries_spec(e);
            let back = entry_from_raw_spec(
                Some(e.command),
                first_value(env, "CONFLUENCE_URL"@),
                first_value(env, "CONFLUENCE_USERNAME"@),
                first_value(env, "CONFLUENCE_PASSWORD"@),
                first_value(env, "CONFLUENCE_TOKEN"@),
                first_value(env, "CONFLUENCE_SSL_VERIFY"@),
                first_value(env, "CONFLUENCE_PROXY_URL"@),
            );
            &&& back.command == e.command
            &&& back.url == trim_end_char(e.url, '/')
            &&& back.token == e.token
            &&& back.username == (if e.token is Some {
                None
            } else {
                e.username
            })
            &&& back.password == (if e.token is Some {
                None
            } else {
                e.password
            })
            &&& back.ssl_verify == e.ssl_verify
            &&& back.proxy_url == match e.proxy_url {
                Some(p) => if trim(p).len() > 0 {
                    Some(trim(p))
                } else {
                    None
                },
                None => None,
            }
        }),
{
    reveal_strlit("CONFLUENCE_URL");
    reveal_strlit("MCP_TRANSPORT");
    reveal_strlit("CONFLUENCE_TOKEN");
    reveal_strlit("CONFLUENCE_USERNAME");
    reveal_strlit("CONFLUENCE_PASSWORD");
    reveal_strlit("CONFLUENCE_SSL_VERIFY");
    reveal_strlit("CONFLUENCE_PROXY_URL");
    reveal_strlit("false");
    reveal_strlit("stdio");
    let keys = seq![
        "CONFLUENCE_URL"@,
        "MCP_TRANSPORT"@,
        "CONFLUENCE_TOKEN"@,
        "CONFLUENCE_USERNAME"@,
        "CONFLUENCE_PASSWORD"@,
        "CONFLUENCE_SSL_VERIFY"@,
        "CONFLUENCE_PROXY_URL"@
    ];
    assert forall|i: int, j: int| 0 <= i < 7 && 0 <= j < 7 && i != j implies keys[i] != keys[j] by {
        if keys[i] == keys[j] {
            assert(keys[i].len() == keys[j].len());
            assert(keys[i][11] == keys[j][11]);
            assert(keys[i][12] == keys[j][12]);
        }
    }
    let env = env_entries_spec(e);
    let base = seq![("CONFLUENCE_URL"@, trim_end_char(e.url, '/')), ("MCP_TRANSPORT"@, "stdio"@)];
    let auth: Seq<(Seq<char>, Seq<char>)> = match e.token {
        Some(t) => seq![("CONFLUENCE_TOKEN"@, t)],
        None => (match e.username {
            Some(u) => seq![("CONFLUENCE_USERNAME"@, u)],
            None => seq![],
        }) + (match e.password {
            Some(p) => seq![("CONFLUENCE_PASSWORD"@, p)],
            None => seq![],
        }),
    };
    let ssl: Seq<(Seq<char>, Seq<char>)> = if e.ssl_verify {
        seq![]
    } else {
        seq![("CONFLUENCE_SSL_VERIFY"@, "false"@)]
    };
    let proxy: Seq<(Seq<char>, Seq<char>)> = match e.proxy_url {
        Some(p) => if trim(p).len() > 0 {
            seq![("CONFLUENCE_PROXY_URL"@, trim(p))]
        } else {
            seq![]
        },
        None => seq![],
    };
    assert(env == base + auth + ssl + proxy);
    assert forall|k: Seq<char>| #[trigger] keys.contains(k) implies first_value(env, k) == match first_value(base, k) {
        Some(v) => Some(v),
        None => match first_value(auth, k) {
            Some(v) => Some(v),
            None => match first_value(ssl, k) {
                Some(v) => Some(v),
                None => first_value(proxy, k),
            },
        },
    } by {
        lemma_first_value_concat(base + auth + ssl, proxy, k);
        lemma_first_value_concat(base + auth, ssl, k);
        lemma_first_value_concat(base, auth, k);
    }
    assert(base == seq![("CONFLUENCE_URL"@, trim_end_char(e.url, '/'))] + seq![("MCP_TRANSPORT"@, "stdio"@)]);
    assert forall|k: Seq<char>| #[trigger] keys.contains(k) implies first_value(base, k) == (if k
        == "CONFLUENCE_URL"@ {
        Some(trim_end_char(e.url, '/'))
    } else if k == "MCP_TRANSPORT"@ {
        Some("stdio"@)
    } else {
        None
    }) by {
        lemma_first_value_concat(
            seq![("CONFLUENCE_URL"@, trim_end_char(e.url, '/'))],
            seq![("MCP_TRANSPORT"@, "stdio"@)],
            k,
        );
        lemma_first_value_one("CONFLUENCE_URL"@, trim_end_char(e.url, '/'), k);
        lemma_first_value_one("MCP_TRANSPORT"@, "stdio"@, k);
    }
    assert forall|k: Seq<char>| #[trigger] keys.contains(k) implies first_value(auth, k) == (match e.token {
        Some(t) => if k == "CONFLUENCE_TOKEN"@ {
            Some(t)
        } else {
            None
        },
        None => if k == "CONFLUENCE_USERNAME"@ {
            e.username
        } else if k == "CONFLUENCE_PASSWORD"@ {
            e.password
        } else {
            None
        },
    }) by {
        match e.token {
            Some(t) => {
                lemma_first_value_one("CONFLUENCE_TOKEN"@, t, k);
            },
            None => {
                let us: Seq<(Seq<char>, Seq<char>)> = match e.username {
                    Some(u) => seq![("CONFLUENCE_USERNAME"@, u)],
                    None => seq![],
                };
                let ps: Seq<(Seq<char>, Seq<char>)> = match e.password {
                    Some(p) => seq![("CONFLUENCE_PASSWORD"@, p)],
                    None => seq![],
                };
                lemma_first_value_concat(us, ps, k);
                if let Some(u) = e.username {
                    lemma_first_value_one("CONFLUENCE_USERNAME"@, u, k);
                }
                if let Some(p) = e.password {
                    lemma_first_value_one("CONFLUENCE_PASSWORD"@, p, k);
                }
            },
        }
    }
    assert forall|k: Seq<char>| #[trigger] keys.contains(k) implies first_value(ssl, k) == (if !e.ssl_verify
        && k == "CONFLUENCE_SSL_VERIFY"@ {
        Some("false"@)
    } else {
        None
    }) by {
        if !e.ssl_verify {
            lemma_first_value_one("CONFLUENCE_SSL_VERIFY"@, "false"@, k);
        }
    }
    assert forall|k: Seq<char>| #[trigger] keys.contains(k) implies first_value(proxy, k) == (if k
        == "CONFLUENCE_PROXY_URL"@ {
        match e.proxy_url {
            Some(p) => if trim(p).len() > 0 {
                Some(trim(p))
            } else {
                None
            },
            None => None,
        }
    } else {
        None
    }) by {
        if let Some(p) = e.proxy_url {
            if trim(p).len() > 0 {
                lemma_first_value_one("CONFLUENCE_PROXY_URL"@, trim(p), k);
            }
        }
    }
    assert(keys.contains("CONFLUENCE_URL"@)) by { assert(keys[0] == "CONFLUENCE_URL"@); }
    assert(keys.contains("CONFLUENCE_TOKEN"@)) by { assert(keys[2] == "CONFLUENCE_TOKEN"@); }
    assert(keys.contains("CONFLUENCE_USERNAME"@)) by { assert(keys[3] == "CONFLUENCE_USERNAME"@); }
    assert(keys.contains("CONFLUENCE_PASSWORD"@)) by { assert(keys[4] == "CONFLUENCE_PASSWORD"@); }
    assert(keys.contains("CONFLUENCE_SSL_VERIFY"@)) by { assert(keys[5] == "CONFLUENCE_SSL_VERIFY"@); }
    assert(keys.contains("CONFLUENCE_PROXY_URL"@)) by { assert(keys[6] == "CONFLUENCE_PROXY_URL"@); }
}

} // verus!
