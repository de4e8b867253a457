//! Service configuration and its validation.

use vstd::prelude::*;

use crate::text::{ascii_lowercase, ends_with, str_eq, str_ends_with, to_ascii_lowercase};

verus! {

/// Everything the service is configured with; each field comes from a
/// command-line flag or an environment variable of the same meaning.
#[derive(Clone, Debug)]
pub struct Config {
    /// Address the HTTP server listens on (`BIND_ADDR`).
    pub bind_addr: String,
    /// Directory of the static web front end (`PUBLIC_DIR`).
    pub public_dir: String,
    /// Name of the anonymous session cookie (`SESSION_COOKIE`).
    pub session_cookie: String,
    /// Lifetime of the session cookie, in seconds (`SESSION_MAX_AGE_SECONDS`).
    pub session_max_age_seconds: u64,
    /// Which sandbox backend runs sessions: `lxc`, `docker` or `dev-local` (`SANDBOX_PROVIDER`).
    pub sandbox_provider: String,
    /// LXC/Incus command-line tool (`LXC_BIN`).
    pub lxc_bin: String,
    /// Image alias that LXC sandboxes are launched from (`LXC_IMAGE`).
    pub lxc_image: String,
    /// LXC project that holds the sandboxes (`LXC_PROJECT`).
    pub lxc_project: String,
    /// Docker Engine socket (`DOCKER_SOCKET`).
    pub docker_socket: String,
    /// Docker sandbox image (`DOCKER_IMAGE`).
    pub docker_image: String,
    /// Host address that container ports are published on (`DOCKER_HOST_BIND_IP`).
    pub docker_host_bind_ip: String,
    /// Prefix of sandbox names (`SANDBOX_NAME_PREFIX`).
    pub sandbox_name_prefix: String,
    /// Port of the Codex app-server inside a sandbox (`CODEX_APP_PORT`).
    pub codex_app_port: u16,
    /// Address the Codex app-server listens on inside a sandbox (`CODEX_APP_LISTEN`).
    pub codex_app_listen: String,
    /// OpenRouter model that Codex uses (`CODEX_MODEL`).
    pub codex_model: String,
    /// OpenRouter API key, injected at run time (`OPENROUTER_API_KEY`).
    pub openrouter_api_key: Option<String>,
    /// Directory of the per-session state of `dev-local` sandboxes (`DEV_LOCAL_STATE_DIR`).
    pub dev_local_state_dir: String,
}

/// Why a configuration is refused.
#[derive(Debug, Clone, Copy, PartialEq, Eq, Structural)]
pub enum ConfigError {
    /// The sandbox provider, lower-cased, is none of `lxc`, `docker`, `dev-local`.
    UnsupportedProvider,
    /// The Codex model does not end with `:free`.
    ModelNotFree,
    /// No OpenRouter API key is given.
    MissingOpenRouterKey,
}

impl ConfigError {
    /// The message the service reports for this error.
    pub fn message(&self) -> (m: &'static str)
        ensures
            m@ == config_error_message(*self),
    {
        match self {
            ConfigError::UnsupportedProvider => "SANDBOX_PROVIDER must be lxc, docker, or dev-local",
            ConfigError::ModelNotFree => "CODEX_MODEL must be an OpenRouter free model and end with :free",
            ConfigError::MissingOpenRouterKey => "OPENROUTER_API_KEY is required at runtime",
        }
    }
}

/// The message for each configuration error.
pub open spec fn config_error_message(e: ConfigError) -> Seq<char> {
    match e {
        ConfigError::UnsupportedProvider => "SANDBOX_PROVIDER must be lxc, docker, or dev-local"@,
        ConfigError::ModelNotFree => "CODEX_MODEL must be an OpenRouter free model and end with :free"@,
        ConfigError::MissingOpenRouterKey => "OPENROUTER_API_KEY is required at runtime"@,
    }
}

/// A provider name the service knows (compared after lower-casing).
pub open spec fn supported_provider(p: Seq<char>) -> bool {
    p == "lxc"@ || p == "docker"@ || p == "dev-local"@
}

/// A model that OpenRouter serves for free: its name ends with `:free`.
pub open spec fn free_model(model: Seq<char>) -> bool {
    ends_with(model, ":free"@)
}

/// The first check that `c` fails, in the order provider, model, key; `None` when all pass.
pub open spec fn config_error(c: Config) -> Option<ConfigError> {
    if !supported_provider(ascii_lowercase(c.sandbox_provider@)) {
        Some(ConfigError::UnsupportedProvider)
    } else if !free_model(c.codex_model@) {
        Some(ConfigError::ModelNotFree)
    } else if c.openrouter_api_key is None {
        Some(ConfigError::MissingOpenRouterKey)
    } else {
        None
    }
}

/// `a` and `b` agree on every field but the sandbox provider.
pub open spec fn same_but_provider(a: Config, b: Config) -> bool {
    &&& a.bind_addr == b.bind_addr
    &&& a.public_dir == b.public_dir
    &&& a.session_cookie == b.session_cookie
    &&& a.session_max_age_seconds == b.session_max_age_seconds
    &&& a.lxc_bin == b.lxc_bin
    &&& a.lxc_image == b.lxc_image
    &&& a.lxc_project == b.lxc_project
    &&& a.docker_socket == b.docker_socket
    &&& a.docker_image == b.docker_image
    &&& a.docker_host_bind_ip == b.docker_host_bind_ip
    &&& a.sandbox_name_prefix == b.sandbox_name_prefix
    &&& a.codex_app_port == b.codex_app_port
    &&& a.codex_app_listen == b.codex_app_listen
    &&& a.codex_model == b.codex_model
    &&& a.openrouter_api_key == b.openrouter_api_key
    &&& a.dev_local_state_dir == b.dev_local_state_dir
}

/// `d` is what normalising `c` gives: `c` with its provider lower-cased.
pub open spec fn normalizes_to(c: Config, d: Config) -> bool {
    &&& same_but_provider(c, d)
    &&& d.sandbox_provider@ == ascii_lowercase(c.sandbox_provider@)
}

impl Config {
    /// Lower-cases the sandbox provider and checks the configuration: the
    /// provider must be `lxc`, `docker` or `dev-local`, the model must end with
    /// `:free`, and an OpenRouter key must be present. The first failing check
    /// is reported.
    pub fn normalized(self) -> (r: Result<Config, ConfigError>)
        ensures
            match r {
                Ok(d) => config_error(self) is None && normalizes_to(self, d),
                Err(e) => config_error(self) == Some(e),
            },
    {
        let mut c = self;
        let lowered = to_ascii_lowercase(c.sandbox_provider.as_str());
        c.sandbox_provider = lowered;
        if !(str_eq(c.sandbox_provider.as_str(), "lxc") || str_eq(c.sandbox_provider.as_str(), "docker")
            || str_eq(c.sandbox_provider.as_str(), "dev-local")) {
            return Err(ConfigError::UnsupportedProvider);
        }
        if !str_ends_with(c.codex_model.as_str(), ":free") {
            return Err(ConfigError::ModelNotFree);
        }
        if c.openrouter_api_key.is_none() {
            return Err(ConfigError::MissingOpenRouterKey);
        }
        Ok(c)
    }
}

proof fn lemma_ascii_lowercase_idempotent(s: Seq<char>)
    ensures
        ascii_lowercase(ascii_lowercase(s)) == ascii_lowercase(s),
{
    assert(ascii_lowercase(ascii_lowercase(s)) =~= ascii_lowercase(s));
}

/// Normalising is idempotent: a configuration that normalising accepted is
/// accepted again, and normalising it once more changes nothing.
pub proof fn lemma_normalized_idempotent(c: Config, d: Config)
    requires
        config_error(c) is None,
        normalizes_to(c, d),
    ensures
        config_error(d) is None,
        normalizes_to(d, d),
{
    lemma_ascii_lowercase_idempotent(c.sandbox_provider@);
}

/// The free models are exactly the names that end in `:free`: any name
/// followed by `:free` is one, and every free model is some name followed by
/// `:free`.
pub proof fn lemma_free_models_end_in_free(name: Seq<char>, model: Seq<char>)
    ensures
        free_model(name + ":free"@),
        free_model(model) ==> model == model.subrange(0, model.len() - 5) + ":free"@,
{
    reveal_strlit(":free");
    let m = name + ":free"@;
    assert(m.subrange(m.len() - 5, m.len() as int) =~= ":free"@);
    if free_model(model) {
        assert(model =~= model.subrange(0, model.len() - 5) + model.subrange(
            model.len() - 5,
            model.len() as int,
        ));
    }
}

/// The provider is read without regard to case: a configuration is accepted
/// with a provider in any mix of upper and lower case exactly when it is
/// accepted with that provider in lower case, and it is kept in lower case.
pub proof fn lemma_provider_case_insensitive(c: Config, d: Config, lowered: Config)
    requires
        same_but_provider(c, lowered),
        lowered.sandbox_provider@ == ascii_lowercase(c.sandbox_provider@),
    ensures
        config_error(c) == config_error(lowered),
        config_error(c) is None && normalizes_to(c, d) ==> d.sandbox_provider@ == lowered.sandbox_provider@,
{
    lemma_ascii_lowercase_idempotent(c.sandbox_provider@);
}

} // verus!
