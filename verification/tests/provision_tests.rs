use nju_cli_web_service::provision::{command_failure, invalid_address, lxc_list_failure};
use std::sync::Arc;

use nju_cli_web_service::config::Config;
use nju_cli_web_service::provision::{
    tcp_address, tcp_target, tcp_wait_step, ProvisionAction, ProvisionEvent, Provisioning,
    TcpWaitStep,
};
use nju_cli_web_service::sandbox::{LxcAddress, LxcInstance, LxcNetwork, SandboxManager};

fn config(provider: &str, key: Option<&str>) -> Config {
    Config {
        bind_addr: "127.0.0.1:8080".to_string(),
        public_dir: "web".to_string(),
        session_cookie: "nju_cli_agent_sid".to_string(),
        session_max_age_seconds: 2592000,
        sandbox_provider: provider.to_string(),
        lxc_bin: "lxc".to_string(),
        lxc_image: "img".to_string(),
        lxc_project: "proj".to_string(),
        docker_socket: "/var/run/docker.sock".to_string(),
        docker_image: "nju-cli-codex-docker:latest".to_string(),
        docker_host_bind_ip: "127.0.0.1".to_string(),
        sandbox_name_prefix: "nju-agent".to_string(),
        codex_app_port: 4500,
        codex_app_listen: "0.0.0.0".to_string(),
        codex_model: "m:free".to_string(),
        openrouter_api_key: key.map(|k| k.to_string()),
        dev_local_state_dir: "/tmp/s".to_string(),
    }
}

fn manager(provider: &str, key: Option<&str>) -> SandboxManager {
    SandboxManager::new(Arc::new(config(provider, key)))
}

fn args_of(a: &ProvisionAction) -> Vec<String> {
    match a {
        ProvisionAction::Probe(c) | ProvisionAction::Run(c) | ProvisionAction::List(c) => c.args.clone(),
        ProvisionAction::BeginIpWait(c) => c.args.clone(),
        ProvisionAction::PollIp { list, .. } => list.args.clone(),
        _ => panic!("no command"),
    }
}

fn failure(a: ProvisionAction) -> Vec<String> {
    match a {
        ProvisionAction::Fail(c) => c,
        _ => panic!("expected a failure"),
    }
}

fn instances_with_ip(ip: Option<&str>) -> Vec<LxcInstance> {
    let addresses = match ip {
        Some(ip) => vec![LxcAddress {
            family: "inet".to_string(),
            address: ip.to_string(),
            scope: Some("global".to_string()),
        }],
        None => vec![],
    };
    vec![LxcInstance {
        status: Some("Running".to_string()),
        network: Some(vec![LxcNetwork { addresses }]),
    }]
}

#[test]
fn lxc_new_instance_full_run() {
    let m = manager("lxc", Some("KEY"));
    let (s, a) = m.ensure("abc");
    assert_eq!(args_of(&a), ["info", "nju-agent-ba7816bf8f01cfea", "--project", "proj"]);
    assert!(matches!(a, ProvisionAction::Probe(_)));
    let (s, a) = m.advance(s, ProvisionEvent::Exited(false));
    assert!(matches!(a, ProvisionAction::Run(_)));
    assert_eq!(args_of(&a), ["launch", "img", "nju-agent-ba7816bf8f01cfea", "--project", "proj"]);
    let (s, a) = m.advance(s, ProvisionEvent::Succeeded);
    assert!(matches!(a, ProvisionAction::BeginIpWait(_)));
    let (s, a) = m.advance(s, ProvisionEvent::IpListed { instances: instances_with_ip(None), elapsed_ms: 100 });
    match &a {
        ProvisionAction::PollIp { delay_ms, .. } => assert_eq!(*delay_ms, 750),
        _ => panic!("expected another poll"),
    }
    let (s, a) = m.advance(s, ProvisionEvent::IpListed { instances: instances_with_ip(Some("10.0.0.9")), elapsed_ms: 900 });
    let args = args_of(&a);
    assert_eq!(args[0], "exec");
    assert_eq!(args[5], "OPENROUTER_API_KEY=KEY");
    let (s, a) = m.advance(s, ProvisionEvent::Succeeded);
    match &a {
        ProvisionAction::WaitForTcp { endpoint, timeout_ms } => {
            assert_eq!(endpoint, "ws://10.0.0.9:4500");
            assert_eq!(*timeout_ms, 45000);
        }
        _ => panic!("expected a wait"),
    }
    let (s, a) = m.advance(s, ProvisionEvent::Succeeded);
    assert!(matches!(s, Provisioning::Finished));
    match a {
        ProvisionAction::Finish(r) => {
            assert_eq!(r.provider, "lxc");
            assert_eq!(r.name, "nju-agent-ba7816bf8f01cfea");
            assert_eq!(r.codex_ws_url, "ws://10.0.0.9:4500");
        }
        _ => panic!("expected the record"),
    }
}

#[test]
fn lxc_existing_instance_status() {
    let m = manager("lxc", Some("KEY"));
    let (s, _) = m.ensure("abc");
    let (s, a) = m.advance(s, ProvisionEvent::Exited(true));
    assert!(matches!(a, ProvisionAction::List(_)));
    let stopped = vec![LxcInstance { status: Some("Stopped".to_string()), network: None }];
    let (s2, a) = m.advance(s, ProvisionEvent::Listed(stopped));
    assert_eq!(args_of(&a), ["start", "nju-agent-ba7816bf8f01cfea", "--project", "proj"]);
    let chain = failure(m.advance(s2, ProvisionEvent::Failed(vec!["boom".to_string()])).1);
    assert_eq!(chain, ["failed to start LXC instance nju-agent-ba7816bf8f01cfea", "boom"]);

    let (s, _) = m.ensure("abc");
    let (s, _) = m.advance(s, ProvisionEvent::Exited(true));
    let (_, a) = m.advance(s, ProvisionEvent::Listed(instances_with_ip(None)));
    assert!(matches!(a, ProvisionAction::BeginIpWait(_)));
}

#[test]
fn lxc_failures() {
    let m = manager("lxc", None);
    let (s, _) = m.ensure("abc");
    let (s2, _) = m.advance(s, ProvisionEvent::Exited(false));
    let chain = failure(m.advance(s2, ProvisionEvent::Failed(vec!["exit 1".to_string()])).1);
    assert_eq!(chain, ["failed to launch LXC instance nju-agent-ba7816bf8f01cfea", "exit 1"]);

    let (s, _) = m.ensure("abc");
    let (s, _) = m.advance(s, ProvisionEvent::Exited(false));
    let (s, _) = m.advance(s, ProvisionEvent::Succeeded);
    let chain = failure(m.advance(s, ProvisionEvent::IpListed { instances: vec![], elapsed_ms: 45001 }).1);
    assert_eq!(chain, ["timed out waiting for IP address for LXC instance nju-agent-ba7816bf8f01cfea"]);

    let (s, _) = m.ensure("abc");
    let (s, _) = m.advance(s, ProvisionEvent::Exited(false));
    let (s, _) = m.advance(s, ProvisionEvent::Succeeded);
    let (s2, a) = m.advance(s, ProvisionEvent::IpListed { instances: vec![], elapsed_ms: 45000 });
    assert!(matches!(a, ProvisionAction::PollIp { .. }));
    let chain = failure(m.advance(s2, ProvisionEvent::IpListed { instances: instances_with_ip(Some("1.2.3.4")), elapsed_ms: 1 }).1);
    assert_eq!(chain, ["OPENROUTER_API_KEY is required"]);
}

#[test]
fn lxc_codex_start_failure() {
    let m = manager("lxc", Some("k"));
    let (s, _) = m.ensure("abc");
    let (s, _) = m.advance(s, ProvisionEvent::Exited(false));
    let (s, _) = m.advance(s, ProvisionEvent::Succeeded);
    let (s, _) = m.advance(s, ProvisionEvent::IpListed { instances: instances_with_ip(Some("1.2.3.4")), elapsed_ms: 1 });
    let chain = failure(m.advance(s, ProvisionEvent::Failed(vec!["x".to_string()])).1);
    assert_eq!(chain, ["failed to start codex app-server in nju-agent-ba7816bf8f01cfea", "x"]);
}

#[test]
fn dev_local_full_run() {
    let m = manager("dev-local", Some("KEY"));
    let (s, a) = m.ensure("abc");
    match &a {
        ProvisionAction::PrepareDevLocal { name, config_toml } => {
            assert_eq!(name, "dev-local-ba7816bf8f01cfea");
            assert!(config_toml.starts_with("model = \"m:free\"\n"));
        }
        _ => panic!("expected preparation"),
    }
    let (s, a) = m.advance(s, ProvisionEvent::Succeeded);
    match &a {
        ProvisionAction::ProbeTcp { port } => assert_eq!(*port, 4500 + 47736 % 1000),
        _ => panic!("expected a probe"),
    }
    let (s, a) = m.advance(s, ProvisionEvent::Exited(false));
    match &a {
        ProvisionAction::SpawnCodex { name, command, api_key } => {
            assert_eq!(name, "dev-local-ba7816bf8f01cfea");
            assert_eq!(command.program, "codex");
            assert_eq!(command.args, ["app-server", "--listen", "ws://127.0.0.1:5236"]);
            assert_eq!(api_key, "KEY");
        }
        _ => panic!("expected a spawn"),
    }
    let (s, a) = m.advance(s, ProvisionEvent::Succeeded);
    match &a {
        ProvisionAction::WaitForTcp { endpoint, timeout_ms } => {
            assert_eq!(endpoint, "ws://127.0.0.1:5236");
            assert_eq!(*timeout_ms, 15000);
        }
        _ => panic!("expected a wait"),
    }
    let (_, a) = m.advance(s, ProvisionEvent::Succeeded);
    match a {
        ProvisionAction::Finish(r) => {
            assert_eq!(r.provider, "dev-local");
            assert_eq!(r.codex_ws_url, "ws://127.0.0.1:5236");
        }
        _ => panic!("expected the record"),
    }
}

#[test]
fn dev_local_already_running_and_failures() {
    let m = manager("dev-local", None);
    let (s, _) = m.ensure("abc");
    let (s, _) = m.advance(s, ProvisionEvent::Succeeded);
    let (_, a) = m.advance(s, ProvisionEvent::Exited(true));
    assert!(matches!(a, ProvisionAction::Finish(_)));

    let (s, _) = m.ensure("abc");
    let (s, _) = m.advance(s, ProvisionEvent::Succeeded);
    let chain = failure(m.advance(s, ProvisionEvent::Exited(false)).1);
    assert_eq!(chain, ["OPENROUTER_API_KEY is required"]);

    let m = manager("dev-local", Some("k"));
    let (s, _) = m.ensure("abc");
    let (s, _) = m.advance(s, ProvisionEvent::Succeeded);
    let (s, _) = m.advance(s, ProvisionEvent::Exited(false));
    let chain = failure(m.advance(s, ProvisionEvent::Failed(vec!["no codex".to_string()])).1);
    assert_eq!(chain, ["failed to spawn local codex app-server", "no codex"]);
}

#[test]
fn dev_local_port_saturates() {
    let mut c = config("dev-local", Some("k"));
    c.codex_app_port = 65000;
    let m = SandboxManager::new(Arc::new(c));
    let (_, a) = m.ensure("abc");
    assert!(matches!(a, ProvisionAction::PrepareDevLocal { .. }));
    let (s, _) = m.ensure("abc");
    let (_, a) = m.advance(s, ProvisionEvent::Succeeded);
    match a {
        ProvisionAction::ProbeTcp { port } => assert_eq!(port, 65535),
        _ => panic!("expected a probe"),
    }
}

#[test]
fn unsupported_provider_fails() {
    let m = manager("kvm", Some("k"));
    let (s, a) = m.ensure("abc");
    assert!(matches!(s, Provisioning::Finished));
    assert_eq!(failure(a), ["unsupported sandbox provider kvm"]);
}

#[test]
fn every_accepted_provider_is_served() {
    for p in ["lxc", "docker", "dev-local"] {
        let mut c = config(p, Some("k"));
        c.sandbox_provider = p.to_ascii_uppercase();
        let c = c.normalized().ok().unwrap();
        let m = SandboxManager::new(Arc::new(c));
        let (s, a) = m.ensure("abc");
        assert!(!matches!(s, Provisioning::Finished));
        assert!(!matches!(a, ProvisionAction::Fail(_)));
    }
}

#[test]
fn unexpected_event_fails() {
    let m = manager("lxc", Some("k"));
    let (s, _) = m.ensure("abc");
    let chain = failure(m.advance(s, ProvisionEvent::Succeeded).1);
    assert_eq!(chain.len(), 1);
    let chain = failure(m.advance(Provisioning::Finished, ProvisionEvent::Succeeded).1);
    assert_eq!(chain.len(), 1);
}

#[test]
fn sandbox_name_follows_session() {
    let m = manager("lxc", Some("k"));
    let a = args_of(&m.ensure("session-one").1);
    let b = args_of(&m.ensure("session-one").1);
    assert_eq!(a, b);
    assert_eq!(a[1], "nju-agent-d93472bc65732604");
    assert_ne!(args_of(&m.ensure("session-two").1)[1], a[1]);
}

#[test]
fn tcp_address_cases() {
    assert_eq!(tcp_address(Some("10.0.0.1".to_string()), Some(4500)), Ok("10.0.0.1:4500".to_string()));
    assert_eq!(tcp_address(None, Some(1)), Err(vec!["missing host in WebSocket URL".to_string()]));
    assert_eq!(tcp_address(Some("h".to_string()), None), Err(vec!["missing port in WebSocket URL".to_string()]));
}

#[test]
fn tcp_target_cases() {
    assert_eq!(tcp_target("ws://127.0.0.1:5236"), Ok("127.0.0.1:5236".to_string()));
    assert_eq!(tcp_target("ws://10.0.0.9"), Ok("10.0.0.9:80".to_string()));
    assert_eq!(tcp_target("wss://example.com/x"), Ok("example.com:443".to_string()));
    assert_eq!(tcp_target("foo://h"), Err(vec!["missing port in WebSocket URL".to_string()]));
    assert_eq!(tcp_target("not a url").map_err(|c| c.len()), Err(1));
}

#[test]
fn tcp_wait_step_cases() {
    assert!(matches!(tcp_wait_step("ws://h:1", 500, 500, "e".to_string()), TcpWaitStep::Retry { delay_ms: 500 }));
    match tcp_wait_step("ws://h:1", 501, 500, "refused".to_string()) {
        TcpWaitStep::GiveUp(c) => assert_eq!(c, ["timed out waiting for ws://h:1", "refused"]),
        _ => panic!("expected to give up"),
    }
}

#[test]
fn failures_pass_through_unchanged() {
    let m = manager("lxc", Some("k"));
    let (s, _) = m.ensure("abc");
    let chain = failure(m.advance(s, ProvisionEvent::Failed(vec!["no such file".to_string()])).1);
    assert_eq!(chain, ["no such file"]);

    let (s, _) = m.ensure("abc");
    let (s, _) = m.advance(s, ProvisionEvent::Exited(true));
    let chain = failure(m.advance(s, ProvisionEvent::Failed(vec!["lxc list failed: denied".to_string()])).1);
    assert_eq!(chain, ["lxc list failed: denied"]);

    let m = manager("dev-local", Some("k"));
    let (s, _) = m.ensure("abc");
    let chain = failure(m.advance(s, ProvisionEvent::Failed(vec!["read-only".to_string()])).1);
    assert_eq!(chain, ["read-only"]);

    let (s, _) = m.ensure("abc");
    let (s, _) = m.advance(s, ProvisionEvent::Succeeded);
    let (s, _) = m.advance(s, ProvisionEvent::Exited(false));
    let (s, _) = m.advance(s, ProvisionEvent::Succeeded);
    let chain = failure(m.advance(s, ProvisionEvent::Failed(vec!["timed out waiting for ws://127.0.0.1:5236".to_string(), "refused".to_string()])).1);
    assert_eq!(chain, ["timed out waiting for ws://127.0.0.1:5236", "refused"]);
}

#[test]
fn failure_messages() {
    assert_eq!(lxc_list_failure("Error: not found\n"), ["lxc list failed: Error: not found\n"]);
    assert_eq!(
        command_failure("exit status: 1", "", "boom"),
        ["command failed with status exit status: 1: stdout= stderr=boom"]
    );
    assert_eq!(
        invalid_address("localhost:4500", "invalid socket address syntax".to_string()),
        ["invalid upstream address localhost:4500", "invalid socket address syntax"]
    );
}

#[test]
fn tcp_target_reports_parser_message() {
    assert_eq!(
        tcp_target("not a url"),
        Err(vec!["relative URL without a base".to_string()])
    );
    assert_eq!(tcp_target("ws://localhost:4500"), Ok("localhost:4500".to_string()));
}
