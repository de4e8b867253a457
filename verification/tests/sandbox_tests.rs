use std::sync::Arc;

use nju_cli_web_service::config::Config;
use nju_cli_web_service::sandbox::{
    codex_config, instance_address, instance_status, make_ws_url, short_hash, LxcAddress,
    LxcInstance, LxcNetwork, SandboxManager,
};

fn config() -> Config {
    Config {
        bind_addr: "127.0.0.1:8080".to_string(),
        public_dir: "web".to_string(),
        session_cookie: "nju_cli_agent_sid".to_string(),
        session_max_age_seconds: 2592000,
        sandbox_provider: "lxc".to_string(),
        lxc_bin: "incus".to_string(),
        lxc_image: "nju-cli-codex-lxc".to_string(),
        lxc_project: "nju-cli-web".to_string(),
        docker_socket: "/var/run/docker.sock".to_string(),
        docker_image: "nju-cli-codex-docker:latest".to_string(),
        docker_host_bind_ip: "127.0.0.1".to_string(),
        sandbox_name_prefix: "nju-agent".to_string(),
        codex_app_port: 4500,
        codex_app_listen: "0.0.0.0".to_string(),
        codex_model: "m:free".to_string(),
        openrouter_api_key: Some("k".to_string()),
        dev_local_state_dir: "/tmp/s".to_string(),
    }
}

fn strs(v: &[String]) -> Vec<&str> {
    v.iter().map(|s| s.as_str()).collect()
}

#[test]
fn short_hash_is_sha256_prefix_in_hex() {
    assert_eq!(short_hash("abc"), "ba7816bf8f01cfea");
    assert_eq!(short_hash(""), "e3b0c44298fc1c14");
    assert_eq!(short_hash("session-one"), "d93472bc65732604");
}

#[test]
fn codex_config_text() {
    let expected = r#"model = "openai/gpt-oss-120b:free"
model_provider = "openrouter"
approval_policy = "on-request"
sandbox_mode = "danger-full-access"
model_reasoning_effort = "medium"

[model_providers.openrouter]
name = "OpenRouter"
base_url = "https://openrouter.ai/api/v1"
env_key = "OPENROUTER_API_KEY"
wire_api = "responses"
"#;
    assert_eq!(codex_config("openai/gpt-oss-120b:free"), expected);
}

#[test]
fn ws_url_format() {
    assert_eq!(make_ws_url("10.0.0.7", 4500), "ws://10.0.0.7:4500");
    assert_eq!(make_ws_url("h", 0), "ws://h:0");
}

#[test]
fn lxc_commands() {
    let m = SandboxManager::new(Arc::new(config()));
    let c = m.lxc_info_command("box");
    assert_eq!(c.program, "incus");
    assert_eq!(strs(&c.args), ["info", "box", "--project", "nju-cli-web"]);
    let c = m.lxc_launch_command("box");
    assert_eq!(strs(&c.args), ["launch", "nju-cli-codex-lxc", "box", "--project", "nju-cli-web"]);
    let c = m.lxc_start_command("box");
    assert_eq!(strs(&c.args), ["start", "box", "--project", "nju-cli-web"]);
    let c = m.lxc_list_command("box");
    assert_eq!(strs(&c.args), ["list", "box", "--project", "nju-cli-web", "--format", "json"]);
}

#[test]
fn lxc_exec_codex_command() {
    let m = SandboxManager::new(Arc::new(config()));
    let c = m.lxc_exec_codex_command("box", "KEY");
    let script = r#"set -eu
mkdir -p /home/codex/workspace /home/codex/.codex
chown -R codex:users /home/codex
if ! pgrep -u codex -f 'codex app-server --listen ws://0.0.0.0:4500' >/dev/null 2>&1; then
  sudo -H -u codex env CODEX_HOME=/home/codex/.codex OPENROUTER_API_KEY="$OPENROUTER_API_KEY" \
    sh -lc 'cd /home/codex/workspace && nohup codex app-server --listen ws://0.0.0.0:4500 > /home/codex/codex-app-server.log 2>&1 &'
fi
"#;
    assert_eq!(
        strs(&c.args),
        [
            "exec",
            "box",
            "--project",
            "nju-cli-web",
            "--env",
            "OPENROUTER_API_KEY=KEY",
            "--",
            "sh",
            "-lc",
            script
        ]
    );
}

fn addr(family: &str, address: &str, scope: Option<&str>) -> LxcAddress {
    LxcAddress {
        family: family.to_string(),
        address: address.to_string(),
        scope: scope.map(|s| s.to_string()),
    }
}

#[test]
fn instance_status_of_first() {
    assert_eq!(instance_status(&vec![]), "Unknown");
    let i = LxcInstance { status: None, network: None };
    assert_eq!(instance_status(&vec![i]), "Unknown");
    let a = LxcInstance { status: Some("Stopped".to_string()), network: None };
    let b = LxcInstance { status: Some("Running".to_string()), network: None };
    assert_eq!(instance_status(&vec![a, b]), "Stopped");
}

#[test]
fn instance_address_picks_first_global_inet() {
    assert_eq!(instance_address(&vec![]), None);
    let lo = LxcNetwork {
        addresses: vec![addr("inet", "127.0.0.1", Some("local")), addr("inet6", "::1", Some("local"))],
    };
    let eth = LxcNetwork {
        addresses: vec![
            addr("inet6", "fd42::1", Some("global")),
            addr("inet", "10.1.2.3", None),
            addr("inet", "10.1.2.4", Some("global")),
            addr("inet", "10.1.2.5", Some("global")),
        ],
    };
    let inst = LxcInstance { status: None, network: Some(vec![lo, eth]) };
    assert_eq!(instance_address(&vec![inst]), Some("10.1.2.4".to_string()));
    let none = LxcInstance { status: None, network: Some(vec![]) };
    assert_eq!(instance_address(&vec![none]), None);
}
