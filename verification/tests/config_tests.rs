use nju_cli_web_service::config::{Config, ConfigError};

fn base() -> Config {
    Config {
        bind_addr: "127.0.0.1:8080".to_string(),
        public_dir: "web".to_string(),
        session_cookie: "nju_cli_agent_sid".to_string(),
        session_max_age_seconds: 60 * 60 * 24 * 30,
        sandbox_provider: "LXC".to_string(),
        lxc_bin: "lxc".to_string(),
        lxc_image: "nju-cli-codex-lxc".to_string(),
        lxc_project: "nju-cli-web".to_string(),
        docker_socket: "/var/run/docker.sock".to_string(),
        docker_image: "nju-cli-codex-docker:latest".to_string(),
        docker_host_bind_ip: "127.0.0.1".to_string(),
        sandbox_name_prefix: "nju-agent".to_string(),
        codex_app_port: 4500,
        codex_app_listen: "0.0.0.0".to_string(),
        codex_model: "nvidia/nemotron-3-ultra-550b-a55b:free".to_string(),
        openrouter_api_key: Some("SECRET-REDACTED".to_string()),
        dev_local_state_dir: "/tmp/nju-cli-web-service-sessions".to_string(),
    }
}

#[test]
fn normalized_lowercases_provider() {
    let c = base().normalized().unwrap();
    assert_eq!(c.sandbox_provider, "lxc");
    assert_eq!(c.codex_model, "nvidia/nemotron-3-ultra-550b-a55b:free");
    assert_eq!(c.codex_app_port, 4500);
}

#[test]
fn normalized_accepts_each_provider() {
    for p in ["lxc", "Docker", "DEV-LOCAL"] {
        let mut c = base();
        c.sandbox_provider = p.to_string();
        assert_eq!(c.normalized().unwrap().sandbox_provider, p.to_ascii_lowercase());
    }
}

#[test]
fn normalized_rejects_unknown_provider() {
    let mut c = base();
    c.sandbox_provider = "kvm".to_string();
    assert_eq!(c.normalized().err(), Some(ConfigError::UnsupportedProvider));
    assert_eq!(
        ConfigError::UnsupportedProvider.message(),
        "SANDBOX_PROVIDER must be lxc, docker, or dev-local"
    );
}

#[test]
fn normalized_rejects_paid_model() {
    let mut c = base();
    c.codex_model = "openai/gpt-4o".to_string();
    assert_eq!(c.normalized().err(), Some(ConfigError::ModelNotFree));
    let mut c = base();
    c.codex_model = ":fre".to_string();
    assert_eq!(c.normalized().err(), Some(ConfigError::ModelNotFree));
    assert_eq!(
        ConfigError::ModelNotFree.message(),
        "CODEX_MODEL must be an OpenRouter free model and end with :free"
    );
}

#[test]
fn normalized_requires_key() {
    let mut c = base();
    c.openrouter_api_key = None;
    assert_eq!(c.normalized().err(), Some(ConfigError::MissingOpenRouterKey));
    assert_eq!(ConfigError::MissingOpenRouterKey.message(), "OPENROUTER_API_KEY is required at runtime");
}

#[test]
fn normalized_reports_provider_first() {
    let mut c = base();
    c.sandbox_provider = "kvm".to_string();
    c.codex_model = "paid".to_string();
    c.openrouter_api_key = None;
    assert_eq!(c.normalized().err(), Some(ConfigError::UnsupportedProvider));
}

#[test]
fn normalized_is_idempotent() {
    let once = base().normalized().unwrap();
    let provider = once.sandbox_provider.clone();
    let twice = once.normalized().unwrap();
    assert_eq!(twice.sandbox_provider, provider);
}
