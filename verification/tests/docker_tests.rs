use nju_cli_web_service::docker::docker_error_message;
use std::sync::Arc;

use nju_cli_web_service::config::Config;
use nju_cli_web_service::docker::{
    http_request, make_tcp_port_key, parse_http_response, port_from_str, published_port,
    DockerContainer, DockerPortBinding,
};
use nju_cli_web_service::provision::{ProvisionAction, ProvisionEvent, Provisioning};
use nju_cli_web_service::sandbox::SandboxManager;

fn manager(key: Option<&str>) -> SandboxManager {
    SandboxManager::new(Arc::new(Config {
        bind_addr: "127.0.0.1:8080".to_string(),
        public_dir: "web".to_string(),
        session_cookie: "nju_cli_agent_sid".to_string(),
        session_max_age_seconds: 2592000,
        sandbox_provider: "docker".to_string(),
        lxc_bin: "lxc".to_string(),
        lxc_image: "img".to_string(),
        lxc_project: "proj".to_string(),
        docker_socket: "/var/run/docker.sock".to_string(),
        docker_image: "nju-cli-codex-docker:latest".to_string(),
        docker_host_bind_ip: "127.0.0.1".to_string(),
        sandbox_name_prefix: "nju-agent".to_string(),
        codex_app_port: 4500,
        codex_app_listen: "0.0.0.0".to_string(),
        codex_model: "m:free".to_string(),
        openrouter_api_key: key.map(|k| k.to_string()),
        dev_local_state_dir: "/tmp/s".to_string(),
    }))
}

fn binding(port: &str, host_port: &str) -> DockerPortBinding {
    DockerPortBinding {
        container_port: port.to_string(),
        host_ip: "127.0.0.1".to_string(),
        host_port: host_port.to_string(),
    }
}

fn running(host_port: &str) -> DockerContainer {
    DockerContainer { running: true, ports: vec![binding("4500/tcp", host_port)] }
}

fn failure(a: ProvisionAction) -> Vec<String> {
    match a {
        ProvisionAction::Fail(c) => c,
        _ => panic!("expected a failure"),
    }
}

const NAME: &str = "nju-agent-ba7816bf8f01cfea";

#[test]
fn docker_creates_container_for_new_session() {
    let m = manager(Some("KEY"));
    let (s, a) = m.ensure("abc");
    match &a {
        ProvisionAction::InspectContainer { name } => assert_eq!(name, NAME),
        _ => panic!("expected an inspection"),
    }
    let (s, a) = m.advance(s, ProvisionEvent::DockerInspected { status: 404, container: None, message: "No such container".to_string() });
    match &a {
        ProvisionAction::CreateContainer(c) => {
            assert_eq!(c.name, NAME);
            assert_eq!(c.image, "nju-cli-codex-docker:latest");
            assert_eq!(c.env, ["OPENROUTER_API_KEY=KEY"]);
            assert_eq!(c.cmd, ["codex", "app-server", "--listen", "ws://0.0.0.0:4500"]);
            assert_eq!(c.container_port, "4500/tcp");
            assert_eq!(c.host_ip, "127.0.0.1");
        }
        _ => panic!("expected a creation"),
    }
    let (s, a) = m.advance(s, ProvisionEvent::DockerAnswered { status: 201, message: String::new() });
    assert!(matches!(a, ProvisionAction::StartContainer { ref name } if name == NAME));
    let (s, a) = m.advance(s, ProvisionEvent::DockerAnswered { status: 204, message: String::new() });
    assert!(matches!(a, ProvisionAction::InspectContainer { .. }));
    let (s, a) = m.advance(s, ProvisionEvent::DockerInspected { status: 200, container: Some(running("49153")), message: String::new() });
    match &a {
        ProvisionAction::WaitForTcp { endpoint, timeout_ms } => {
            assert_eq!(endpoint, "ws://127.0.0.1:49153");
            assert_eq!(*timeout_ms, 45000);
        }
        _ => panic!("expected a wait"),
    }
    let (s, a) = m.advance(s, ProvisionEvent::Succeeded);
    assert!(matches!(s, Provisioning::Finished));
    match a {
        ProvisionAction::Finish(r) => {
            assert_eq!(r.provider, "docker");
            assert_eq!(r.name, NAME);
            assert_eq!(r.codex_ws_url, "ws://127.0.0.1:49153");
        }
        _ => panic!("expected the record"),
    }
}

#[test]
fn docker_reuses_running_container() {
    let m = manager(Some("KEY"));
    let (s, _) = m.ensure("abc");
    let (_, a) = m.advance(s, ProvisionEvent::DockerInspected { status: 200, container: Some(running("32768")), message: String::new() });
    match a {
        ProvisionAction::WaitForTcp { endpoint, .. } => assert_eq!(endpoint, "ws://127.0.0.1:32768"),
        _ => panic!("expected a wait"),
    }
}

#[test]
fn docker_starts_stopped_container() {
    let m = manager(None);
    let (s, _) = m.ensure("abc");
    let stopped = DockerContainer { running: false, ports: vec![] };
    let (s, a) = m.advance(s, ProvisionEvent::DockerInspected { status: 200, container: Some(stopped), message: String::new() });
    assert!(matches!(a, ProvisionAction::StartContainer { .. }));
    let (_, a) = m.advance(s, ProvisionEvent::DockerAnswered { status: 304, message: String::new() });
    assert!(matches!(a, ProvisionAction::InspectContainer { .. }));
}

#[test]
fn docker_failures() {
    let m = manager(None);
    let (s, _) = m.ensure("abc");
    let chain = failure(m.advance(s, ProvisionEvent::DockerInspected { status: 404, container: None, message: String::new() }).1);
    assert_eq!(chain, ["OPENROUTER_API_KEY is required"]);

    let (s, _) = m.ensure("abc");
    let chain = failure(m.advance(s, ProvisionEvent::DockerInspected { status: 500, container: None, message: "boom".to_string() }).1);
    assert_eq!(chain, [format!("failed to inspect Docker container {NAME}"), "Docker API answered 500: boom".to_string()]);

    let m = manager(Some("k"));
    let (s, _) = m.ensure("abc");
    let (s, _) = m.advance(s, ProvisionEvent::DockerInspected { status: 404, container: None, message: String::new() });
    let chain = failure(m.advance(s, ProvisionEvent::DockerAnswered { status: 409, message: "name in use".to_string() }).1);
    assert_eq!(chain, [format!("failed to create Docker container {NAME}"), "Docker API answered 409: name in use".to_string()]);

    let (s, _) = m.ensure("abc");
    let (s, _) = m.advance(s, ProvisionEvent::DockerInspected { status: 404, container: None, message: String::new() });
    let (s, _) = m.advance(s, ProvisionEvent::DockerAnswered { status: 201, message: String::new() });
    let chain = failure(m.advance(s, ProvisionEvent::Failed(vec!["broken pipe".to_string()])).1);
    assert_eq!(chain, [format!("failed to start Docker container {NAME}"), "broken pipe".to_string()]);

    let (s, _) = m.ensure("abc");
    let chain = failure(m.advance(s, ProvisionEvent::DockerInspected { status: 200, container: Some(running("x")), message: String::new() }).1);
    assert_eq!(chain, [format!("Docker container {NAME} publishes no host port for 4500/tcp")]);
}

#[test]
fn docker_name_shape() {
    let m = manager(Some("k"));
    for id in ["0", "abc", "a-much-longer-session-identifier-0123456789"] {
        match m.ensure(id).1 {
            ProvisionAction::InspectContainer { name } => {
                assert_eq!(name.len(), "nju-agent".len() + 17);
                assert!(name.starts_with("nju-agent-"));
                assert!(name["nju-agent-".len()..].bytes().all(|b| b.is_ascii_digit() || (b'a'..=b'f').contains(&b)));
            }
            _ => panic!("expected an inspection"),
        }
    }
}

#[test]
fn port_parsing() {
    assert_eq!(port_from_str("4500"), Some(4500));
    assert_eq!(port_from_str("0"), Some(0));
    assert_eq!(port_from_str("65535"), Some(65535));
    assert_eq!(port_from_str("00080"), Some(80));
    assert_eq!(port_from_str("65536"), None);
    assert_eq!(port_from_str("999999999999"), None);
    assert_eq!(port_from_str(""), None);
    assert_eq!(port_from_str("12a"), None);
    assert_eq!(port_from_str("+80"), None);
    assert_eq!(make_tcp_port_key(4500), "4500/tcp");
}

#[test]
fn published_port_selection() {
    let c = DockerContainer {
        running: true,
        ports: vec![binding("22/tcp", "2222"), binding("4500/tcp", ""), binding("4500/tcp", "40001"), binding("4500/tcp", "40002")],
    };
    assert_eq!(published_port(&c, 4500), Some(40001));
    assert_eq!(published_port(&c, 22), Some(2222));
    assert_eq!(published_port(&c, 80), None);
}

#[test]
fn http_framing() {
    assert_eq!(
        http_request("POST", "/containers/x/start", b"{}"),
        b"POST /containers/x/start HTTP/1.0\r\nHost: docker\r\nContent-Type: application/json\r\nContent-Length: 2\r\n\r\n{}".to_vec()
    );
    assert_eq!(
        parse_http_response(b"HTTP/1.0 404 Not Found\r\nContent-Type: application/json\r\n\r\n{\"message\":\"no\"}"),
        Some((404, b"{\"message\":\"no\"}".to_vec()))
    );
    assert_eq!(parse_http_response(b"HTTP/1.1 204 No Content\r\n\r\n"), Some((204, vec![])));
    assert_eq!(parse_http_response(b"HTTP/1.1 204 No Content\r\n"), None);
    assert_eq!(parse_http_response(b"SSH-2.0 200\r\n\r\n"), None);
    assert_eq!(parse_http_response(b"HTTP/1.1 2x4\r\n\r\n"), None);
}

#[test]
fn docker_error_message_prefers_json_message() {
    assert_eq!(docker_error_message(Some("No such container: x".to_string()), "{...}"), "No such container: x");
    assert_eq!(docker_error_message(None, "  page not found\n"), "page not found");
}

#[test]
fn sandbox_name_does_not_hold_session_id() {
    let m = manager(Some("k"));
    let id = "Q9".repeat(20);
    match m.ensure(&id).1 {
        ProvisionAction::InspectContainer { name } => assert!(!name.contains(&id)),
        _ => panic!("expected an inspection"),
    }
}
