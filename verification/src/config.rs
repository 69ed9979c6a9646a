//! What the environment says of the gateway's setup.

use crate::numbers::{
    is_decimal, is_decimal_text, law_written_numbers_are_read, parse_uint, uint_in,
};
use crate::strings::{concat, decimal, opt_text};
use vstd::prelude::*;

verus! {

/// The variables of the environment that the setup is read from, each as far as it is set.
pub struct ConfigEnv {
    /// `ANIMUS_AUTH_TOKEN`
    pub auth_token: Option<String>,
    /// `HOME`
    pub home: Option<String>,
    /// `TROLLGUARD_URL`
    pub trollguard_url: Option<String>,
    /// `TID_URL`
    pub tid_url: Option<String>,
    /// `DISCORD_TOKEN`
    pub discord_token: Option<String>,
    /// `ANIMUS_TRACT_DIR`
    pub tract_dir: Option<String>,
    /// `ANIMUS_WS_PORT`
    pub ws_port: Option<String>,
    /// `ANIMUS_GUI_PORT`
    pub gui_port: Option<String>,
    /// `CES_URL`
    pub ces_url: Option<String>,
    /// `OPENROUTER_API_KEY`
    pub openrouter_api_key: Option<String>,
    /// `ANIMUS_BUDGET_LOW_USD`
    pub budget_low_usd: Option<String>,
    /// `ANIMUS_BUDGET_CRITICAL_USD`
    pub budget_critical_usd: Option<String>,
    /// `ANIMUS_BUDGET_POLL_SECS`
    pub budget_poll_secs: Option<String>,
    /// `ANIMUS_SEARCH_URL`
    pub search_url: Option<String>,
    /// `ANIMUS_ALLOWED_PATHS`
    pub allowed_paths: Option<String>,
    /// `NEUROGRAPH_URL`
    pub ng_url: Option<String>,
}

/// The gateway's setup.
#[derive(Debug, Clone)]
pub struct AnimaConfig {
    /// The token that connections have to show.
    pub auth_token: String,
    /// Where the scanner is.
    pub trollguard_url: String,
    /// Where the model is.
    pub tid_url: String,
    /// The token for Discord, if there is to be a Discord channel.
    pub discord_token: Option<String>,
    /// Where tract files are kept.
    pub tract_dir: String,
    /// The port of the WebSocket server.
    pub ws_port: u16,
    /// The port of the HTTP server.
    pub gui_port: u16,
    /// Where the dashboard is.
    pub ces_url: String,
    /// The key by which the budget is asked for, if it is to be asked for.
    pub openrouter_api_key: Option<String>,
    /// Below how many dollars the budget is low, as a decimal number.
    pub budget_low_usd: String,
    /// Below how many dollars the budget is critical, as a decimal number.
    pub budget_critical_usd: String,
    /// How many seconds lie between two questions for the budget.
    pub budget_poll_secs: u64,
    /// Where the search service is, if there is one.
    pub search_url: Option<String>,
    /// The directories that files may be read from, with commas between them.
    pub allowed_paths: String,
    /// Where the memory service is.
    pub ng_url: String,
}

/// What an optional text holds, `default` where there is none.
pub open spec fn text_or(t: Option<Seq<char>>, default: Seq<char>) -> Seq<char> {
    match t {
        Some(t) => t,
        None => default,
    }
}

/// The text where it is a decimal number, `default` where there is none or it is no number.
pub open spec fn decimal_or(t: Option<Seq<char>>, default: Seq<char>) -> Seq<char> {
    match t {
        Some(t) => if is_decimal(t) {
            t
        } else {
            default
        },
        None => default,
    }
}

/// The port that `t` names, 8848 where it is not set; nothing where it is no port.
pub open spec fn port_in(t: Option<Seq<char>>) -> Option<nat> {
    match t {
        Some(t) => uint_in(t, u16::MAX as nat),
        None => Some(8848),
    }
}

/// The number that `t` writes, `default` where it is not set or no such number.
pub open spec fn uint_or(t: Option<Seq<char>>, max: nat, default: nat) -> nat {
    match t {
        Some(t) => match uint_in(t, max) {
            Some(n) => n,
            None => default,
        },
        None => default,
    }
}

/// What is wrong with a port.
pub open spec fn port_error(variable: Seq<char>, t: Seq<char>) -> Seq<char> {
    variable + "='"@ + t + "' is not a valid u16 port"@
}

/// What is wrong with the environment, if anything is: the token has to be set, then the home
/// directory, and the ports have to be ports.
pub open spec fn config_error(env: ConfigEnv) -> Option<Seq<char>> {
    if env.auth_token is None {
        Some("ANIMUS_AUTH_TOKEN not set in environment"@)
    } else if env.home is None {
        Some("HOME env var not set"@)
    } else if port_in(opt_text(env.ws_port)) is None {
        Some(port_error("ANIMUS_WS_PORT"@, env.ws_port->0@))
    } else if port_in(opt_text(env.gui_port)) is None {
        Some(port_error("ANIMUS_GUI_PORT"@, env.gui_port->0@))
    } else {
        None
    }
}

/// The directories that files may be read from where none are named.
pub open spec fn default_allowed_paths(home: Seq<char>) -> Seq<char> {
    home + "/.et_modules,"@ + home + "/docs"@
}

/// `cfg` is the setup that the environment asks for.
pub open spec fn is_config_of(cfg: AnimaConfig, env: ConfigEnv) -> bool {
    let home = env.home->0@;
    &&& cfg.auth_token@ == env.auth_token->0@
    &&& cfg.trollguard_url@ == text_or(opt_text(env.trollguard_url), "http://127.0.0.1:7438"@)
    &&& cfg.tid_url@ == text_or(opt_text(env.tid_url), "http://127.0.0.1:7437"@)
    &&& opt_text(cfg.discord_token) == opt_text(env.discord_token)
    &&& cfg.tract_dir@ == text_or(opt_text(env.tract_dir), home + "/.et_modules/tracts/animus"@)
    &&& port_in(opt_text(env.ws_port)) == Some(cfg.ws_port as nat)
    &&& port_in(opt_text(env.gui_port)) == Some(cfg.gui_port as nat)
    &&& cfg.ces_url@ == text_or(opt_text(env.ces_url), "http://127.0.0.1:8847"@)
    &&& opt_text(cfg.openrouter_api_key) == opt_text(env.openrouter_api_key)
    &&& cfg.budget_low_usd@ == decimal_or(opt_text(env.budget_low_usd), "10.0"@)
    &&& cfg.budget_critical_usd@ == decimal_or(opt_text(env.budget_critical_usd), "2.0"@)
    &&& cfg.budget_poll_secs == uint_or(opt_text(env.budget_poll_secs), u64::MAX as nat, 300)
    &&& opt_text(cfg.search_url) == opt_text(env.search_url)
    &&& cfg.allowed_paths@ == text_or(opt_text(env.allowed_paths), default_allowed_paths(home))
    &&& cfg.ng_url@ == text_or(opt_text(env.ng_url), "http://127.0.0.1:8850"@)
}

/// What an optional text holds, `default` where there is none.
fn or_text(t: Option<String>, default: &str) -> (r: String)
    ensures
        r@ == text_or(opt_text(t), default@),
{
    match t {
        Some(t) => t,
        None => default.to_owned(),
    }
}

/// The text where it is a decimal number, `default` where there is none or it is no number.
fn or_decimal(t: Option<String>, default: &str) -> (r: String)
    ensures
        r@ == decimal_or(opt_text(t), default@),
{
    match t {
        Some(t) => {
            if is_decimal_text(t.as_str()) {
                t
            } else {
                default.to_owned()
            }
        },
        None => default.to_owned(),
    }
}

/// The number that `t` writes, `default` where it is not set or no such number.
fn or_uint(t: Option<String>, max: u64, default: u64) -> (r: u64)
    ensures
        r == uint_or(opt_text(t), max as nat, default as nat),
{
    match t {
        Some(t) => match parse_uint(t.as_str(), max) {
            Some(n) => n,
            None => default,
        },
        None => default,
    }
}

/// Reads a port.
fn port(variable: &str, t: Option<String>) -> (r: Result<u16, String>)
    ensures
        match r {
            Ok(p) => port_in(opt_text(t)) == Some(p as nat),
            Err(e) => {
                &&& port_in(opt_text(t)) is None
                &&& t matches Some(t) && e@ == port_error(variable@, t@)
            },
        },
{
    match t {
        Some(t) => match parse_uint(t.as_str(), u16::MAX as u64) {
            Some(n) => Ok(n as u16),
            None => {
                let mut out = variable.to_owned();
                out.append("='");
                out.append(t.as_str());
                out.append("' is not a valid u16 port");
                Err(out)
            },
        },
        None => Ok(8848),
    }
}

impl AnimaConfig {
    /// Reads the setup from the environment.
    pub fn from_env(env: ConfigEnv) -> (r: Result<Self, String>)
        ensures
            match r {
                Ok(cfg) => config_error(env) is None && is_config_of(cfg, env),
                Err(e) => config_error(env) == Some(e@),
            },
    {
        let auth_token = match env.auth_token {
            Some(t) => t,
            None => {
                return Err("ANIMUS_AUTH_TOKEN not set in environment".to_owned());
            },
        };
        let home = match env.home {
            Some(h) => h,
            None => {
                return Err("HOME env var not set".to_owned());
            },
        };
        let ws_port: u16 = match port("ANIMUS_WS_PORT", env.ws_port) {
            Ok(p) => p,
            Err(e) => {
                return Err(e);
            },
        };
        let gui_port: u16 = match port("ANIMUS_GUI_PORT", env.gui_port) {
            Ok(p) => p,
            Err(e) => {
                return Err(e);
            },
        };
        let mut default_paths = concat(home.as_str(), "/.et_modules,");
        default_paths.append(home.as_str());
        default_paths.append("/docs");
        Ok(
            AnimaConfig {
                auth_token,
                trollguard_url: or_text(env.trollguard_url, "http://127.0.0.1:7438"),
                tid_url: or_text(env.tid_url, "http://127.0.0.1:7437"),
                discord_token: env.discord_token,
                tract_dir: or_text(
                    env.tract_dir,
                    concat(home.as_str(), "/.et_modules/tracts/animus").as_str(),
                ),
                ws_port,
                gui_port,
                ces_url: or_text(env.ces_url, "http://127.0.0.1:8847"),
                openrouter_api_key: env.openrouter_api_key,
                budget_low_usd: or_decimal(env.budget_low_usd, "10.0"),
                budget_critical_usd: or_decimal(env.budget_critical_usd, "2.0"),
                budget_poll_secs: or_uint(env.budget_poll_secs, u64::MAX, 300),
                search_url: env.search_url,
                allowed_paths: or_text(env.allowed_paths, default_paths.as_str()),
                ng_url: or_text(env.ng_url, "http://127.0.0.1:8850"),
            },
        )
    }
}

/// The variables of the environment that the service's files and limits are read from.
pub struct ServiceEnv {
    /// `HOME`
    pub home: Option<String>,
    /// `ANIMUS_OUTBOUND_TRACT`
    pub outbound_tract: Option<String>,
    /// `ANIMUS_BUDGET_PATH`
    pub budget_path: Option<String>,
    /// `ANIMUS_WANTS_PATH`
    pub wants_path: Option<String>,
    /// `ANIMA_HISTORY_PATH`
    pub history_path: Option<String>,
    /// `ANIMUS_AGENT_MAX_ITER`
    pub max_iter: Option<String>,
    /// `ANIMUS_DAILY_BUDGET_USD`
    pub daily_budget_usd: Option<String>,
}

/// The files and limits of the service.
pub struct Service {
    /// The tract that the agent begins turns in.
    pub outbound_tract: String,
    /// The file that says how the budget stands.
    pub budget_path: String,
    /// The register of what the agent wants.
    pub wants_path: String,
    /// Where the working memory is kept over a restart.
    pub history_path: String,
    /// How many times the model may be asked in one run.
    pub max_iter: usize,
    /// How many dollars may be spent in a day, as a decimal number.
    pub daily_budget_usd: String,
}

/// The directory that modules share.
pub open spec fn shared_dir(home: Option<Seq<char>>) -> Seq<char> {
    match home {
        Some(h) => h + "/.et_modules/shared_learning"@,
        None => "/tmp"@,
    }
}

impl Service {
    /// Reads the files and limits of the service from the environment.
    pub fn from_env(env: ServiceEnv) -> (r: Self)
        ensures
            ({
                let shared = shared_dir(opt_text(env.home));
                &&& r.outbound_tract@ == text_or(
                    opt_text(env.outbound_tract),
                    shared + "/animus_outbound.tract"@,
                )
                &&& r.budget_path@ == text_or(
                    opt_text(env.budget_path),
                    shared + "/inference_budget.json"@,
                )
                &&& r.wants_path@ == text_or(
                    opt_text(env.wants_path),
                    shared + "/animus_wants.jsonl"@,
                )
                &&& r.history_path@ == text_or(
                    opt_text(env.history_path),
                    shared + "/conversation_history.msgpack"@,
                )
                &&& r.max_iter == uint_or(opt_text(env.max_iter), usize::MAX as nat, 8)
                &&& r.daily_budget_usd@ == decimal_or(opt_text(env.daily_budget_usd), "5.0"@)
            }),
    {
        let shared = match env.home {
            Some(h) => concat(h.as_str(), "/.et_modules/shared_learning"),
            None => "/tmp".to_owned(),
        };
        let shared = shared.as_str();
        Service {
            outbound_tract: or_text(
                env.outbound_tract,
                concat(shared, "/animus_outbound.tract").as_str(),
            ),
            budget_path: or_text(
                env.budget_path,
                concat(shared, "/inference_budget.json").as_str(),
            ),
            wants_path: or_text(env.wants_path, concat(shared, "/animus_wants.jsonl").as_str()),
            history_path: or_text(
                env.history_path,
                concat(shared, "/conversation_history.msgpack").as_str(),
            ),
            max_iter: or_uint(env.max_iter, usize::MAX as u64, 8) as usize,
            daily_budget_usd: or_decimal(env.daily_budget_usd, "5.0"),
        }
    }
}

/// The path of the tract that the gateway deposits to.
pub fn neurograph_tract(tract_dir: &str) -> (r: String)
    ensures
        r@ == tract_dir@ + "/neurograph.tract"@,
{
    concat(tract_dir, "/neurograph.tract")
}

/// A variable that is set is taken as it stands.
pub proof fn law_set_variables_are_taken(cfg: AnimaConfig, env: ConfigEnv)
    requires
        config_error(env) is None,
        is_config_of(cfg, env),
    ensures
        env.auth_token matches Some(t) && cfg.auth_token@ == t@,
        env.trollguard_url matches Some(t) ==> cfg.trollguard_url@ == t@,
        env.tid_url matches Some(t) ==> cfg.tid_url@ == t@,
        env.tract_dir matches Some(t) ==> cfg.tract_dir@ == t@,
        env.ces_url matches Some(t) ==> cfg.ces_url@ == t@,
        env.allowed_paths matches Some(t) ==> cfg.allowed_paths@ == t@,
        env.ng_url matches Some(t) ==> cfg.ng_url@ == t@,
        env.discord_token is Some <==> cfg.discord_token is Some,
        env.discord_token matches Some(t) ==> cfg.discord_token->0@ == t@,
        env.openrouter_api_key is Some <==> cfg.openrouter_api_key is Some,
        env.openrouter_api_key matches Some(t) ==> cfg.openrouter_api_key->0@ == t@,
        env.search_url is Some <==> cfg.search_url is Some,
        env.search_url matches Some(t) ==> cfg.search_url->0@ == t@,
        (env.budget_low_usd matches Some(t) && is_decimal(t@)) ==> cfg.budget_low_usd@
            == env.budget_low_usd->0@,
        (env.budget_critical_usd matches Some(t) && is_decimal(t@)) ==> cfg.budget_critical_usd@
            == env.budget_critical_usd->0@,
        forall|n: nat|
            n <= u16::MAX && env.ws_port is Some && env.ws_port->0@ == #[trigger] decimal(n)
                ==> cfg.ws_port == n,
        forall|n: nat|
            n <= u16::MAX && env.gui_port is Some && env.gui_port->0@ == #[trigger] decimal(n)
                ==> cfg.gui_port == n,
        forall|n: nat|
            n <= u64::MAX && env.budget_poll_secs is Some && env.budget_poll_secs->0@
                == #[trigger] decimal(n) ==> cfg.budget_poll_secs == n,
{
    assert forall|n: nat| n <= u16::MAX && env.ws_port is Some && env.ws_port->0@
        == #[trigger] decimal(n) implies cfg.ws_port == n by {
        law_written_numbers_are_read(n, u16::MAX as nat);
    }
    assert forall|n: nat| n <= u16::MAX && env.gui_port is Some && env.gui_port->0@
        == #[trigger] decimal(n) implies cfg.gui_port == n by {
        law_written_numbers_are_read(n, u16::MAX as nat);
    }
    assert forall|n: nat| n <= u64::MAX && env.budget_poll_secs is Some && env.budget_poll_secs->0@
        == #[trigger] decimal(n) implies cfg.budget_poll_secs == n by {
        law_written_numbers_are_read(n, u64::MAX as nat);
    }
}

/// A variable that is not set has its default; an amount or an interval that is no number counts as
/// not set.
pub proof fn law_unset_variables_have_defaults(cfg: AnimaConfig, env: ConfigEnv)
    requires
        config_error(env) is None,
        is_config_of(cfg, env),
    ensures
        env.trollguard_url is None ==> cfg.trollguard_url@ == "http://127.0.0.1:7438"@,
        env.tid_url is None ==> cfg.tid_url@ == "http://127.0.0.1:7437"@,
        env.ces_url is None ==> cfg.ces_url@ == "http://127.0.0.1:8847"@,
        env.ng_url is None ==> cfg.ng_url@ == "http://127.0.0.1:8850"@,
        env.ws_port is None ==> cfg.ws_port == 8848,
        env.gui_port is None ==> cfg.gui_port == 8848,
        env.tract_dir is None ==> cfg.tract_dir@ == env.home->0@ + "/.et_modules/tracts/animus"@,
        env.allowed_paths is None ==> cfg.allowed_paths@ == env.home->0@ + "/.et_modules,"@
            + env.home->0@ + "/docs"@,
        env.budget_low_usd is None || !is_decimal(env.budget_low_usd->0@) ==> cfg.budget_low_usd@
            == "10.0"@,
        env.budget_critical_usd is None || !is_decimal(env.budget_critical_usd->0@)
            ==> cfg.budget_critical_usd@ == "2.0"@,
        env.budget_poll_secs is None ==> cfg.budget_poll_secs == 300,
        env.budget_poll_secs matches Some(t) ==> (uint_in(t@, u64::MAX as nat) is None
            ==> cfg.budget_poll_secs == 300),
{
}

/// The setup fails without a token, without a home directory, or where a port is none, and in no other
/// case; what is said names the variable that is wrong.
pub proof fn law_setup_fails_where_something_is_missing(env: ConfigEnv)
    ensures
        env.auth_token is None ==> config_error(env) == Some(
            "ANIMUS_AUTH_TOKEN not set in environment"@,
        ),
        env.auth_token is Some && env.home is None ==> config_error(env) == Some(
            "HOME env var not set"@,
        ),
        ({
            let named = env.auth_token is Some && env.home is Some;
            let bad_ws = env.ws_port is Some && uint_in(env.ws_port->0@, 65535) is None;
            let bad_gui = env.gui_port is Some && uint_in(env.gui_port->0@, 65535) is None;
            &&& named && bad_ws ==> config_error(env) == Some(
                "ANIMUS_WS_PORT"@ + "='"@ + env.ws_port->0@ + "' is not a valid u16 port"@,
            )
            &&& named && !bad_ws && bad_gui ==> config_error(env) == Some(
                "ANIMUS_GUI_PORT"@ + "='"@ + env.gui_port->0@ + "' is not a valid u16 port"@,
            )
            &&& named && !bad_ws && !bad_gui ==> config_error(env) is None
        }),
{
}

/// The files of the service stand in the shared directory below the home directory, or in the
/// directory for temporary files where there is no home. A limit that is set is taken, and one that is
/// not, or is no number, has its default.
pub proof fn law_service_defaults(home: Seq<char>, t: Seq<char>, default: Seq<char>, n: nat, max: nat)
    ensures
        shared_dir(Some(home)) == home + "/.et_modules/shared_learning"@,
        shared_dir(None) == "/tmp"@,
        text_or(Some(t), default) == t,
        text_or(None, default) == default,
        decimal_or(Some(t), default) == (if is_decimal(t) {
            t
        } else {
            default
        }),
        decimal_or(None, default) == default,
        n <= max ==> uint_or(Some(decimal(n)), max, 8) == n,
        uint_in(t, max) is None ==> uint_or(Some(t), max, 8) == 8,
        uint_or(None, max, 8) == 8,
{
    law_written_numbers_are_read(n, max);
}

} // verus!
