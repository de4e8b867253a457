use nju_cli_web_service::config::Config;
use nju_cli_web_service::cookie::{cookie_header, is_valid_session_id};
use nju_cli_web_service::sandbox::SandboxRecord;
use nju_cli_web_service::session::{
    ensure_session, format_error_chain, proxy_step, CloseFrame, ProxyAction, ProxyEvent,
    ProxyPhase, SandboxRegistry, WsMessage, BAD_GATEWAY, SERVICE_UNAVAILABLE,
};

fn config() -> Config {
    Config {
        bind_addr: "127.0.0.1:8080".to_string(),
        public_dir: "web".to_string(),
        session_cookie: "nju_cli_agent_sid".to_string(),
        session_max_age_seconds: 2592000,
        sandbox_provider: "lxc".to_string(),
        lxc_bin: "lxc".to_string(),
        lxc_image: "nju-cli-codex-lxc".to_string(),
        lxc_project: "nju-cli-web".to_string(),
        docker_socket: "/var/run/docker.sock".to_string(),
        docker_image: "nju-cli-codex-docker:latest".to_string(),
        docker_host_bind_ip: "127.0.0.1".to_string(),
        sandbox_name_prefix: "nju-agent".to_string(),
        codex_app_port: 4500,
        codex_app_listen: "0.0.0.0".to_string(),
        codex_model: "m:free".to_string(),
        openrouter_api_key: Some("k".to_string()),
        dev_local_state_dir: "/tmp/s".to_string(),
    }
}

fn record(name: &str) -> SandboxRecord {
    SandboxRecord {
        provider: "lxc".to_string(),
        name: name.to_string(),
        codex_ws_url: format!("ws://{name}:4500"),
    }
}

#[test]
fn ensure_session_keeps_presented_id() {
    let id = "A".repeat(40);
    let header = format!("other=1; nju_cli_agent_sid={id}");
    let (got, set) = ensure_session(&config(), Some(header.as_bytes()));
    assert_eq!(got, id);
    assert_eq!(set, None);
}

#[test]
fn ensure_session_starts_new_session() {
    let c = config();
    let (id, set) = ensure_session(&c, Some(&b"nju_cli_agent_sid=tooshort"[..]));
    assert!(is_valid_session_id(&id));
    assert_eq!(id.len(), 40);
    assert_eq!(set, Some(cookie_header("nju_cli_agent_sid", &id, 2592000)));
    let (again, none) = ensure_session(&c, None);
    assert_ne!(again, id);
    assert!(none.is_some());
}

#[test]
fn ensure_session_is_stable_across_requests() {
    let c = config();
    let (id, set) = ensure_session(&c, None);
    let echoed = format!("nju_cli_agent_sid={id}");
    assert_eq!(ensure_session(&c, Some(echoed.as_bytes())), (id.clone(), None));
    assert_eq!(ensure_session(&c, Some(set.unwrap().as_bytes())), (id, None));
}

#[test]
fn error_chain_line() {
    assert_eq!(format_error_chain(&vec![]), "");
    assert_eq!(format_error_chain(&vec!["a".to_string()]), "0: a");
    let chain = vec!["failed to launch LXC instance x".to_string(), "command failed".to_string(), "io".to_string()];
    assert_eq!(format_error_chain(&chain), "0: failed to launch LXC instance x; 1: command failed; 2: io");
}

#[test]
fn registry_read_after_write() {
    let mut r = SandboxRegistry::new();
    assert!(r.get("s1").is_none());
    r.insert("s1".to_string(), record("a"));
    r.insert("s2".to_string(), record("b"));
    assert_eq!(r.get("s1").unwrap().name, "a");
    assert_eq!(r.get("s2").unwrap().name, "b");
    r.insert("s1".to_string(), record("c"));
    assert_eq!(r.get("s1").unwrap().name, "c");
    assert_eq!(r.get("s2").unwrap().codex_ws_url, "ws://b:4500");
    assert!(r.get("s3").is_none());
}

#[test]
fn proxy_sandbox_failure_is_unavailable() {
    let (p, a) = proxy_step(
        ProxyPhase::PreparingSandbox,
        ProxyEvent::SandboxFailed(vec!["failed to launch LXC instance x".to_string(), "io".to_string()]),
    );
    assert!(p == ProxyPhase::Closed);
    match a {
        ProxyAction::Reject { status, message } => {
            assert_eq!(status, SERVICE_UNAVAILABLE);
            assert_eq!(status, 503);
            assert_eq!(message, "failed to launch LXC instance x");
        }
        _ => panic!("expected a rejection"),
    }
}

#[test]
fn proxy_connect_then_relay() {
    let (p, a) = proxy_step(ProxyPhase::PreparingSandbox, ProxyEvent::SandboxReady(record("a")));
    assert!(p == ProxyPhase::Connecting);
    match a {
        ProxyAction::Connect(url) => assert_eq!(url, "ws://a:4500"),
        _ => panic!("expected a connection"),
    }
    let (p, a) = proxy_step(p, ProxyEvent::ConnectFailed("refused".to_string()));
    assert!(p == ProxyPhase::Closed);
    match a {
        ProxyAction::Reject { status, message } => {
            assert_eq!(status, BAD_GATEWAY);
            assert_eq!(status, 502);
            assert_eq!(message, "refused");
        }
        _ => panic!("expected a rejection"),
    }
    let (p, a) = proxy_step(ProxyPhase::Connecting, ProxyEvent::Connected);
    assert!(p == ProxyPhase::Relaying);
    assert!(matches!(a, ProxyAction::Await));
}

#[test]
fn proxy_relays_messages() {
    let (p, a) = proxy_step(ProxyPhase::Relaying, ProxyEvent::FromClient(WsMessage::Text("hi".to_string())));
    assert!(p == ProxyPhase::Relaying);
    assert!(matches!(a, ProxyAction::ToUpstream(WsMessage::Text(t)) if t == "hi"));
    let (_, a) = proxy_step(ProxyPhase::Relaying, ProxyEvent::FromUpstream(WsMessage::Binary(vec![1, 2])));
    assert!(matches!(a, ProxyAction::ToClient(WsMessage::Binary(b)) if b == vec![1, 2]));
    let (_, a) = proxy_step(ProxyPhase::Relaying, ProxyEvent::FromUpstream(WsMessage::Ping(vec![9])));
    assert!(matches!(a, ProxyAction::ToClient(WsMessage::Ping(_))));
    let (p, a) = proxy_step(ProxyPhase::Relaying, ProxyEvent::FromUpstream(WsMessage::Frame));
    assert!(p == ProxyPhase::Relaying);
    assert!(matches!(a, ProxyAction::Await));
}

#[test]
fn proxy_close_ends_relay() {
    let frame = CloseFrame { code: 1000, reason: "bye".to_string() };
    let (p, a) = proxy_step(ProxyPhase::Relaying, ProxyEvent::FromClient(WsMessage::Close(Some(frame))));
    assert!(p == ProxyPhase::Closed);
    assert!(matches!(a, ProxyAction::ToUpstreamAndStop(WsMessage::Close(Some(f))) if f.code == 1000 && f.reason == "bye"));
    let (p, a) = proxy_step(ProxyPhase::Relaying, ProxyEvent::FromUpstream(WsMessage::Close(None)));
    assert!(p == ProxyPhase::Closed);
    assert!(matches!(a, ProxyAction::ToClientAndStop(WsMessage::Close(None))));
    let (p, a) = proxy_step(ProxyPhase::Relaying, ProxyEvent::UpstreamFailed("reset".to_string()));
    assert!(p == ProxyPhase::Closed);
    assert!(matches!(a, ProxyAction::Stop));
    let (p, a) = proxy_step(ProxyPhase::Closed, ProxyEvent::FromClient(WsMessage::Text("late".to_string())));
    assert!(p == ProxyPhase::Closed);
    assert!(matches!(a, ProxyAction::Stop));
}

#[test]
fn registry_records_only_successes() {
    let mut r = SandboxRegistry::new();
    let out = r.record_outcome("s1".to_string(), Err(vec!["boom".to_string()]));
    assert_eq!(out.err(), Some(vec!["boom".to_string()]));
    assert!(r.get("s1").is_none());
    let out = r.record_outcome("s1".to_string(), Ok(record("a")));
    assert_eq!(out.ok().unwrap().name, "a");
    assert_eq!(r.get("s1").unwrap().name, "a");
}

#[test]
fn ensure_session_ignores_non_ascii_header() {
    let id = "A".repeat(40);
    let mut header = format!("nju_cli_agent_sid={id}").into_bytes();
    header.push(0x80);
    let (got, set) = ensure_session(&config(), Some(&header));
    assert_ne!(got, id);
    assert!(set.is_some());
    let tabbed = format!("\tnju_cli_agent_sid={id}");
    assert_eq!(ensure_session(&config(), Some(tabbed.as_bytes())), (id, None));
}
