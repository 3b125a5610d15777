//! Backend configuration: file locations under the backend directory, the
//! bot's own URL and the settings read from the environment.

use vstd::prelude::*;
use crate::json::{json_member_is, json_u64_at, Json};
use crate::text::{
    chars_of, owned, parse_u16, parse_u16_spec, push_str, rfind_char, rfind_char_exec, slice_range,
    string_from, trim_end_char, trim_end_char_exec,
};

verus! {

/// The port used when none is configured.
pub const DEFAULT_PORT: u16 = 8080;

/// `PathBuf::join` with a relative segment: a separator is inserted unless
/// the base is empty or already ends with one.
pub open spec fn path_join(base: Seq<char>, seg: Seq<char>) -> Seq<char> {
    if base.len() == 0 || base.last() == '/' {
        base + seg
    } else {
        base + "/"@ + seg
    }
}

/// An absolute path other than the root, with no empty or `.` component
/// and no trailing separator: the form of the build directory's path.
pub open spec fn plain_abs_path(p: Seq<char>) -> bool {
    &&& p.len() >= 2
    &&& p[0] == '/'
    &&& p.last() != '/'
    &&& forall|i: int| 0 <= i < p.len() - 1 && #[trigger] p[i] == '/' ==> p[i + 1] != '/' && !(p[i + 1] == '.'
        && (i + 2 == p.len() || p[i + 2] == '/'))
}

/// `Path::parent` of such a path: everything before the last separator,
/// or the root.
pub open spec fn path_parent(p: Seq<char>) -> Seq<char> {
    match rfind_char(p, '/') {
        Some(k) => if k == 0 { "/"@ } else { p.take(k) },
        None => Seq::empty(),
    }
}

pub(crate) fn join_path(base: &str, seg: &str) -> (r: String)
    ensures
        r@ == path_join(base@, seg@),
{
    let mut v = chars_of(base);
    if v.len() == 0 || v[v.len() - 1] == '/' {
        push_str(&mut v, seg);
    } else {
        push_str(&mut v, "/");
        push_str(&mut v, seg);
    }
    proof {
        reveal_strlit("/");
    }
    string_from(v.as_slice())
}

/// The repository root: the parent of the backend directory.
pub fn repo_root(backend_dir: &str) -> (r: String)
    requires
        plain_abs_path(backend_dir@),
    ensures
        r@ == path_parent(backend_dir@),
{
    let c = chars_of(backend_dir);
    assert(c@[0] == '/');
    match rfind_char_exec(c.as_slice(), '/') {
        Some(k) => {
            if k == 0 {
                owned("/")
            } else {
                let p = slice_range(c.as_slice(), 0, k);
                assert(p@ =~= c@.take(k as int));
                string_from(p.as_slice())
            }
        },
        None => {
            proof {
                crate::text::lemma_rfind_char(c@, '/', 0);
            }
            String::new()
        },
    }
}

/// The runtime configuration directory, `<backend>/config`.
pub fn bot_config_dir(backend_dir: &str) -> (r: String)
    ensures
        r@ == path_join(backend_dir@, "config"@),
{
    join_path(backend_dir, "config")
}

/// The runtime bot configuration file, `<backend>/config/bot_config.ron`.
pub fn bot_config_path(backend_dir: &str) -> (r: String)
    ensures
        r@ == path_join(path_join(backend_dir@, "config"@), "bot_config.ron"@),
{
    let d = bot_config_dir(backend_dir);
    join_path(d.as_str(), "bot_config.ron")
}

/// The seed bot configuration file, `<repo root>/config/bot_config.ron`.
pub fn bot_config_seed_path(backend_dir: &str) -> (r: String)
    requires
        plain_abs_path(backend_dir@),
    ensures
        r@ == path_join(path_join(path_parent(backend_dir@), "config"@), "bot_config.ron"@),
{
    let root = repo_root(backend_dir);
    let d = join_path(root.as_str(), "config");
    join_path(d.as_str(), "bot_config.ron")
}

/// The contract ABI directory, `<repo root>/abis`.
pub fn default_abis_dir(backend_dir: &str) -> (r: String)
    requires
        plain_abs_path(backend_dir@),
    ensures
        r@ == path_join(path_parent(backend_dir@), "abis"@),
{
    let root = repo_root(backend_dir);
    join_path(root.as_str(), "abis")
}

/// The runtime agent preset file, `<backend>/config/agent_preset.ron`.
pub fn agent_preset_path(backend_dir: &str) -> (r: String)
    ensures
        r@ == path_join(path_join(backend_dir@, "config"@), "agent_preset.ron"@),
{
    let d = bot_config_dir(backend_dir);
    join_path(d.as_str(), "agent_preset.ron")
}

/// The bot's own URL: the configured public URL without trailing slashes,
/// else `http://localhost:<port>` with the configured port or `8080`.
pub open spec fn self_url_spec(public_url: Option<Seq<char>>, port: Option<Seq<char>>) -> Seq<char> {
    match public_url {
        Some(u) => trim_end_char(u, '/'),
        None => "http://localhost:"@ + match port {
            Some(p) => p,
            None => "8080"@,
        },
    }
}

/// The bot's own URL from the `STARK_PUBLIC_URL` and `PORT` settings.
pub fn self_url(public_url: Option<&str>, port: Option<&str>) -> (r: String)
    ensures
        r@ == self_url_spec(
            match public_url {
                Some(u) => Some(u@),
                None => None,
            },
            match port {
                Some(p) => Some(p@),
                None => None,
            },
        ),
{
    match public_url {
        Some(u) => {
            let c = chars_of(u);
            let t = trim_end_char_exec(c.as_slice(), '/');
            string_from(t.as_slice())
        },
        None => {
            let mut v = chars_of("http://localhost:");
            match port {
                Some(p) => push_str(&mut v, p),
                None => push_str(&mut v, "8080"),
            }
            string_from(v.as_slice())
        },
    }
}

/// Backend settings.
#[derive(Clone, Debug)]
pub struct Config {
    pub login_admin_public_address: Option<String>,
    pub burner_wallet_private_key: Option<String>,
    pub port: u16,
    pub database_url: String,
}

/// The port setting as a number: `8080` when unset.
pub open spec fn port_setting(port: Option<String>) -> Option<u16> {
    match port {
        Some(p) => parse_u16_spec(p@),
        None => Some(DEFAULT_PORT),
    }
}

impl Config {
    /// Settings from the environment's values: the admin address is the
    /// configured one, else the one derived from the burner wallet key (when
    /// there is a key); the port must be a valid number when set; the
    /// database defaults to `./.db/stark.db`.
    pub fn from_env_values(
        admin_address: Option<String>,
        burner_private_key: Option<String>,
        derived_address: Option<String>,
        port: Option<String>,
        database_url: Option<String>,
    ) -> (r: Config)
        requires
            port_setting(port) is Some,
        ensures
            r.login_admin_public_address == (if admin_address is Some {
                admin_address
            } else if burner_private_key is Some {
                derived_address
            } else {
                None
            }),
            r.burner_wallet_private_key == burner_private_key,
            Some(r.port) == port_setting(port),
            r.database_url@ == match database_url {
                Some(d) => d@,
                None => "./.db/stark.db"@,
            },
    {
        let login_admin_public_address = match admin_address {
            Some(a) => Some(a),
            None => if burner_private_key.is_some() {
                derived_address
            } else {
                None
            },
        };
        let port_number = match &port {
            Some(p) => match parse_u16(p.as_str()) {
                Some(n) => n,
                None => DEFAULT_PORT,
            },
            None => DEFAULT_PORT,
        };
        let database_url = match database_url {
            Some(d) => d,
            None => owned("./.db/stark.db"),
        };
        Config {
            login_admin_public_address,
            burner_wallet_private_key: burner_private_key,
            port: port_number,
            database_url,
        }
    }
}

// ───────────────────────── setup status ─────────────────────────

/// Whether a Starflask API key is available: set in the environment, or
/// stored and not empty.
pub fn starflask_api_key_set(in_environment: bool, stored: Option<&str>) -> (r: bool)
    ensures
        r == (in_environment || match stored {
            Some(k) => k@.len() > 0,
            None => false,
        }),
{
    in_environment || match stored {
        Some(k) => !k.is_empty(),
        None => false,
    }
}

/// An optional text as JSON: the string, or `null`.
pub open spec fn opt_json_is(j: Json, t: Option<Seq<char>>) -> bool {
    match t {
        Some(s) => j is Str && j->Str_0@ == s,
        None => j is Null,
    }
}

fn opt_json(t: Option<String>) -> (r: Json)
    ensures
        opt_json_is(r, match t {
            Some(s) => Some(s@),
            None => None,
        }),
{
    match t {
        Some(s) => Json::Str(s),
        None => Json::Null,
    }
}

/// What the setup pages are told about the configuration.
pub struct ConfigStatus {
    pub login_configured: bool,
    pub burner_wallet_configured: bool,
    pub wallet_configured: bool,
    pub guest_dashboard_enabled: bool,
    pub wallet_address: Option<String>,
    pub wallet_mode: Option<String>,
    pub starflask_configured: bool,
    pub starflask_api_key_set: bool,
    pub starflask_agents_provisioned: u32,
}

/// The configuration status as the JSON object the setup pages read, its
/// members in this order.
pub fn config_status_json(st: ConfigStatus) -> (r: Json)
    ensures
        r is Object,
        r->Object_0@.len() == 9,
        json_member_is(r, 0, "login_configured"@, Json::Bool(st.login_configured)),
        json_member_is(r, 1, "burner_wallet_configured"@, Json::Bool(st.burner_wallet_configured)),
        json_member_is(r, 2, "wallet_configured"@, Json::Bool(st.wallet_configured)),
        json_member_is(r, 3, "guest_dashboard_enabled"@, Json::Bool(st.guest_dashboard_enabled)),
        r->Object_0@[4].0@ == "wallet_address"@,
        opt_json_is(r->Object_0@[4].1, match st.wallet_address {
            Some(a) => Some(a@),
            None => None,
        }),
        r->Object_0@[5].0@ == "wallet_mode"@,
        opt_json_is(r->Object_0@[5].1, match st.wallet_mode {
            Some(m) => Some(m@),
            None => None,
        }),
        json_member_is(r, 6, "starflask_configured"@, Json::Bool(st.starflask_configured)),
        json_member_is(r, 7, "starflask_api_key_set"@, Json::Bool(st.starflask_api_key_set)),
        json_u64_at(r, 8, "starflask_agents_provisioned"@, st.starflask_agents_provisioned as u64),
{
    let mut f: Vec<(String, Json)> = Vec::new();
    f.push((owned("login_configured"), Json::Bool(st.login_configured)));
    f.push((owned("burner_wallet_configured"), Json::Bool(st.burner_wallet_configured)));
    f.push((owned("wallet_configured"), Json::Bool(st.wallet_configured)));
    f.push((owned("guest_dashboard_enabled"), Json::Bool(st.guest_dashboard_enabled)));
    f.push((owned("wallet_address"), opt_json(st.wallet_address)));
    f.push((owned("wallet_mode"), opt_json(st.wallet_mode)));
    f.push((owned("starflask_configured"), Json::Bool(st.starflask_configured)));
    f.push((owned("starflask_api_key_set"), Json::Bool(st.starflask_api_key_set)));
    f.push((owned("starflask_agents_provisioned"), Json::number(st.starflask_agents_provisioned as u64)));
    Json::Object(f)
}

} // verus!
