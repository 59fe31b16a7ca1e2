//! Configuration from environment variables: the Kibana connection and the
//! HTTP listener.
use vstd::prelude::*;

use crate::headers::opt_text;
use crate::json::{first_key_at, key_pos};
use crate::text::{decimal, digit_char, owned, str_eq};

verus! {

/// The names in a snapshot of the environment, in order.
pub open spec fn var_names(env: Seq<(String, String)>) -> Seq<Seq<char>> {
    Seq::new(env.len(), |i: int| env[i].0@)
}

/// The value of the variable `name`, unless it is unset or empty.
pub open spec fn env_opt(env: Seq<(String, String)>, name: Seq<char>) -> Option<Seq<char>> {
    let p = key_pos(var_names(env), name);
    if 0 <= p < env.len() && env[p].1@.len() > 0 {
        Some(env[p].1@)
    } else {
        None
    }
}

/// The value of the variable `name` in a snapshot of the environment,
/// unless it is unset or empty.
pub fn env_value(env: &Vec<(String, String)>, name: &str) -> (r: Option<String>)
    ensures
        opt_text(r) == env_opt(env@, name@),
{
    let ghost names = var_names(env@);
    let mut i: usize = 0;
    while i < env.len()
        invariant
            i <= env.len(),
            names == var_names(env@),
            forall|j: int| 0 <= j < i ==> names[j] != name@,
        decreases env.len() - i,
    {
        if str_eq(env[i].0.as_str(), name) {
            proof {
                assert(first_key_at(names, name@, i as int));
                let p = key_pos(names, name@);
                assert(first_key_at(names, name@, p));
                if p < i {
                    assert(names[p] != name@);
                }
                if p > i {
                    assert(names[i as int] != name@);
                }
            }
            if env[i].1.as_str().unicode_len() == 0 {
                return None;
            }
            return Some(env[i].1.clone());
        }
        i = i + 1;
    }
    proof {
        if exists|p: int| first_key_at(names, name@, p) {
            let p = choose|p: int| first_key_at(names, name@, p);
            assert(names[p] == name@);
        }
    }
    None
}

/// How to reach Kibana or Elasticsearch.
pub struct KibanaConfig {
    pub url: String,
    pub username: Option<String>,
    pub password: Option<String>,
    pub api_key: Option<String>,
    pub insecure: bool,
}

/// The value of a Kibana configuration.
pub struct KibanaConfigV {
    pub url: Seq<char>,
    pub username: Option<Seq<char>>,
    pub password: Option<Seq<char>>,
    pub api_key: Option<Seq<char>>,
    pub insecure: bool,
}

impl View for KibanaConfig {
    type V = KibanaConfigV;

    open spec fn view(&self) -> KibanaConfigV {
        KibanaConfigV {
            url: self.url@,
            username: opt_text(self.username),
            password: opt_text(self.password),
            api_key: opt_text(self.api_key),
            insecure: self.insecure,
        }
    }
}

/// Whether a value switches an option on: exactly `true` or `1`.
pub open spec fn switched_on(v: Option<Seq<char>>) -> bool {
    match v {
        Some(t) => t == "true"@ || t == "1"@,
        None => false,
    }
}

/// The Kibana configuration an environment gives, or why it gives none.
pub open spec fn kibana_config(env: Seq<(String, String)>) -> Result<KibanaConfigV, Seq<char>> {
    let username = env_opt(env, "KIBANA_USERNAME"@);
    let password = env_opt(env, "KIBANA_PASSWORD"@);
    let api_key = env_opt(env, "KIBANA_API_KEY"@);
    match env_opt(env, "KIBANA_URL"@) {
        None => Err("KIBANA_URL environment variable is required"@),
        Some(url) => if (username is Some) != (password is Some) {
            Err("Both KIBANA_USERNAME and KIBANA_PASSWORD must be provided together"@)
        } else if api_key is Some && username is Some {
            Err("Cannot use both KIBANA_API_KEY and KIBANA_USERNAME/KIBANA_PASSWORD"@)
        } else {
            Ok(
                KibanaConfigV {
                    url,
                    username,
                    password,
                    api_key,
                    insecure: switched_on(env_opt(env, "KIBANA_INSECURE"@)),
                },
            )
        },
    }
}

impl KibanaConfig {
    /// Reads `KIBANA_URL` (required), `KIBANA_USERNAME` and
    /// `KIBANA_PASSWORD` (together or not at all), `KIBANA_API_KEY` (not
    /// with a username) and `KIBANA_INSECURE` from a snapshot of the
    /// environment; empty variables count as unset.
    pub fn from_env(env: &Vec<(String, String)>) -> (r: Result<KibanaConfig, String>)
        ensures
            match (r, kibana_config(env@)) {
                (Ok(c), Ok(v)) => c@ == v,
                (Err(m), Err(e)) => m@ == e,
                _ => false,
            },
    {
        let url = match env_value(env, "KIBANA_URL") {
            Some(u) => u,
            None => return Err(owned("KIBANA_URL environment variable is required")),
        };
        let username = env_value(env, "KIBANA_USERNAME");
        let password = env_value(env, "KIBANA_PASSWORD");
        let api_key = env_value(env, "KIBANA_API_KEY");
        let insecure = match env_value(env, "KIBANA_INSECURE") {
            Some(v) => str_eq(v.as_str(), "true") || str_eq(v.as_str(), "1"),
            None => false,
        };
        if username.is_some() != password.is_some() {
            return Err(owned("Both KIBANA_USERNAME and KIBANA_PASSWORD must be provided together"));
        }
        if api_key.is_some() && username.is_some() {
            return Err(owned("Cannot use both KIBANA_API_KEY and KIBANA_USERNAME/KIBANA_PASSWORD"));
        }
        Ok(KibanaConfig { url, username, password, api_key, insecure })
    }
}

/// Whether every character is an ASCII digit.
pub open spec fn all_digits(s: Seq<char>) -> bool {
    forall|i: int| 0 <= i < s.len() ==> 48 <= #[trigger] (s[i] as u32) <= 57
}

/// The number a run of ASCII digits spells in decimal.
pub open spec fn digits_value(s: Seq<char>) -> nat
    decreases s.len(),
{
    if s.len() == 0 {
        0
    } else {
        digits_value(s.drop_last()) * 10 + ((s.last() as u32) - 48) as nat
    }
}

/// The port a text names, as `str::parse::<u16>` reads it: an optional `+`
/// and then one or more decimal digits, of value at most 65535.
pub open spec fn port_value(s: Seq<char>) -> Option<u16> {
    let d = if s.len() > 0 && s[0] == '+' {
        s.drop_first()
    } else {
        s
    };
    if d.len() > 0 && all_digits(d) && digits_value(d) <= 65535 {
        Some(digits_value(d) as u16)
    } else {
        None
    }
}

/// Reads a port number (as `str::parse::<u16>`).
pub fn parse_port(s: &str) -> (r: Option<u16>)
    ensures
        r == port_value(s@),
{
    let v = crate::text::chars_of(s);
    let start: usize = if v.len() > 0 && v[0] == '+' {
        1
    } else {
        0
    };
    let ghost d = if s@.len() > 0 && s@[0] == '+' {
        s@.drop_first()
    } else {
        s@
    };
    assert(d =~= v@.subrange(start as int, v.len() as int));
    if start == v.len() {
        return None;
    }
    let mut acc: u32 = 0;
    let mut i: usize = start;
    while i < v.len()
        invariant
            start <= i <= v.len(),
            d == v@.subrange(start as int, v.len() as int),
            d == if s@.len() > 0 && s@[0] == '+' {
                s@.drop_first()
            } else {
                s@
            },
            forall|k: int| start <= k < i ==> 48 <= #[trigger] (v@[k] as u32) <= 57,
            acc == if digits_value(v@.subrange(start as int, i as int)) <= 65535 {
                digits_value(v@.subrange(start as int, i as int))
            } else {
                65536
            },
        decreases v.len() - i,
    {
        let c = v[i] as u32;
        if c < 48 || c > 57 {
            assert(d[i - start] == v@[i as int]);
            assert(!(48 <= (d[i - start] as u32) <= 57));
            return None;
        }
        let ghost before = v@.subrange(start as int, i as int);
        let ghost after = v@.subrange(start as int, i + 1);
        assert(after.drop_last() =~= before);
        assert(digits_value(after) == digits_value(before) * 10 + (c - 48) as nat);
        if acc <= 65535 {
            let next = acc * 10 + (c - 48);
            acc = if next <= 65535 {
                next
            } else {
                65536
            };
        }
        i = i + 1;
    }
    assert(v@.subrange(start as int, v.len() as int) == d);
    assert forall|k: int| 0 <= k < d.len() implies 48 <= #[trigger] (d[k] as u32) <= 57 by {
        assert(d[k] == v@[start + k]);
    }
    if acc <= 65535 {
        Some(acc as u16)
    } else {
        None
    }
}

/// Where the HTTP transport listens, and the token it asks for.
pub struct HttpConfig {
    pub host: String,
    pub port: u16,
    pub auth_token: Option<String>,
}

/// The value of an HTTP configuration.
pub struct HttpConfigV {
    pub host: Seq<char>,
    pub port: u16,
    pub auth_token: Option<Seq<char>>,
}

impl View for HttpConfig {
    type V = HttpConfigV;

    open spec fn view(&self) -> HttpConfigV {
        HttpConfigV { host: self.host@, port: self.port, auth_token: opt_text(self.auth_token) }
    }
}

/// The HTTP configuration an environment gives, or why it gives none.
pub open spec fn http_config(env: Seq<(String, String)>) -> Result<HttpConfigV, Seq<char>> {
    let host = match env_opt(env, "MCP_HOST"@) {
        Some(h) => h,
        None => "127.0.0.1"@,
    };
    let token = env_opt(env, "MCP_AUTH_TOKEN"@);
    match env_opt(env, "MCP_PORT"@) {
        None => Ok(HttpConfigV { host, port: 8080, auth_token: token }),
        Some(p) => match port_value(p) {
            Some(n) => Ok(HttpConfigV { host, port: n, auth_token: token }),
            None => Err("Invalid MCP_PORT value: "@ + p),
        },
    }
}

impl HttpConfig {
    /// Reads `MCP_HOST` (default `127.0.0.1`), `MCP_PORT` (default 8080)
    /// and `MCP_AUTH_TOKEN` from a snapshot of the environment; empty
    /// variables count as unset.
    pub fn from_env(env: &Vec<(String, String)>) -> (r: Result<HttpConfig, String>)
        ensures
            match (r, http_config(env@)) {
                (Ok(c), Ok(v)) => c@ == v,
                (Err(m), Err(e)) => m@ == e,
                _ => false,
            },
    {
        let host = match env_value(env, "MCP_HOST") {
            Some(h) => h,
            None => owned("127.0.0.1"),
        };
        let port: u16 = match env_value(env, "MCP_PORT") {
            Some(s) => match parse_port(s.as_str()) {
                Some(n) => n,
                None => {
                    let mut m = owned("Invalid MCP_PORT value: ");
                    m.append(s.as_str());
                    return Err(m);
                },
            },
            None => 8080,
        };
        let auth_token = env_value(env, "MCP_AUTH_TOKEN");
        Ok(HttpConfig { host, port, auth_token })
    }
}

/// Every port, written in decimal, is read back as itself.
pub proof fn port_text_round_trip(n: u16)
    ensures
        port_value(decimal(n as nat)) == Some(n),
{
    lemma_decimal_digits(n as nat);
    let t = decimal(n as nat);
    assert(t[0] as u32 <= 57);
}

proof fn lemma_decimal_digits(n: nat)
    ensures
        decimal(n).len() > 0,
        all_digits(decimal(n)),
        digits_value(decimal(n)) == n,
    decreases n,
{
    if n < 10 {
        let t = decimal(n);
        assert(t.drop_last() =~= Seq::<char>::empty());
        assert(digit_char(n) as u32 == 48 + n);
        assert(t.last() == digit_char(n));
        assert(digits_value(Seq::<char>::empty()) == 0);
        assert(digits_value(t) == n);
    } else {
        lemma_decimal_digits(n / 10);
        let t = decimal(n);
        assert(t.drop_last() =~= decimal(n / 10));
        assert(digit_char(n % 10) as u32 == 48 + n % 10);
        assert forall|i: int| 0 <= i < t.len() implies 48 <= #[trigger] (t[i] as u32) <= 57 by {
            if i < t.len() - 1 {
                assert(t[i] == decimal(n / 10)[i]);
            }
        }
        assert(t.last() == digit_char(n % 10));
        assert(n == (n / 10) * 10 + n % 10);
        assert(digits_value(t) == digits_value(decimal(n / 10)) * 10 + n % 10);
    }
}

} // verus!

verus! {

/// TLS verification is skipped exactly when `KIBANA_INSECURE` is `true` or
/// `1`; any other value, or none, keeps it on.
pub proof fn insecure_only_when_asked(env: Seq<(String, String)>)
    requires
        kibana_config(env) is Ok,
    ensures
        kibana_config(env)->Ok_0.insecure <==> (env_opt(env, "KIBANA_INSECURE"@) == Some("true"@)
            || env_opt(env, "KIBANA_INSECURE"@) == Some("1"@)),
{
}

} // verus!
