//! Bringing up the sandbox of a session, as a state machine: the library
//! decides each step, the caller performs it (runs a command, touches files,
//! waits, connects) and reports what happened.

use vstd::prelude::*;

use crate::sandbox::{
    address_of, codex_config, codex_config_text, codex_start_script, dev_local_port,
    dev_local_port_of, dev_local_sandbox_name, instance_address, instance_status, is_hex_digit,
    lxc_exec_codex_args, lxc_info_args, lxc_launch_args, lxc_list_args, lxc_sandbox_name,
    lxc_start_args, make_ws_url, owned, short_hash, short_hash_of, status_of, strings_view,
    ws_url, CommandSpec, LxcInstance, SandboxManager, SandboxRecord,
};
use crate::docker::{
    docker_api_message, docker_container_name, first_published_port, make_docker_api_message,
    make_tcp_port_key, published_port, tcp_port_key, DockerContainer, DockerCreate,
};
use crate::text::{chars_of, decimal, push_char, push_decimal, str_eq};

verus! {

broadcast use vstd::string::group_string_axioms;

/// How long, in milliseconds, to wait for an LXC instance to get an IPv4 address.
pub const LXC_IP_TIMEOUT_MS: u64 = 45000;

/// Pause, in milliseconds, between two queries for the address of an LXC instance.
pub const LXC_IP_POLL_MS: u64 = 750;

/// How long, in milliseconds, to wait for the Codex app-server of an LXC sandbox to accept connections.
pub const LXC_CODEX_TIMEOUT_MS: u64 = 45000;

/// How long, in milliseconds, to wait for the Codex app-server of a Docker container to accept connections.
pub const DOCKER_CODEX_TIMEOUT_MS: u64 = 45000;

/// How long, in milliseconds, to wait for a freshly spawned local Codex app-server to accept connections.
pub const DEV_LOCAL_CODEX_TIMEOUT_MS: u64 = 15000;

/// Where bringing up a sandbox stands.
pub enum Provisioning {
    /// `lxc info` tells whether the instance exists.
    LxcCheckingExists { name: String },
    /// `lxc launch` creates the instance.
    LxcLaunching { name: String },
    /// `lxc list` tells the status of the existing instance.
    LxcQueryingStatus { name: String },
    /// `lxc start` starts the stopped instance.
    LxcStarting { name: String },
    /// `lxc list` is queried until the instance has an IPv4 address.
    LxcWaitingForIp { name: String },
    /// `lxc exec` starts the Codex app-server in the instance, reachable at `ip`.
    LxcStartingCodex { name: String, ip: String },
    /// The app-server at `endpoint` is awaited.
    LxcWaitingForCodex { name: String, endpoint: String },
    /// The Docker container `name` is inspected: does it exist, does it run?
    DockerInspecting { name: String },
    /// The Docker container is created.
    DockerCreating { name: String },
    /// The Docker container is started.
    DockerStarting { name: String },
    /// The started Docker container is inspected for the host port it publishes.
    DockerReadingPort { name: String },
    /// The app-server of the Docker container at `endpoint` is awaited.
    DockerWaitingForCodex { name: String, endpoint: String },
    /// The state directory and Codex configuration of a local sandbox are written.
    DevPreparing { name: String, endpoint: String, port: u16 },
    /// A connection to the local port tells whether an app-server already runs.
    DevProbing { name: String, endpoint: String },
    /// A local Codex app-server is spawned.
    DevSpawning { name: String, endpoint: String },
    /// The spawned app-server at `endpoint` is awaited.
    DevWaitingForCodex { name: String, endpoint: String },
    /// Nothing is left to do.
    Finished,
}

/// What the caller is to do next.
pub enum ProvisionAction {
    /// Run the command and report whether it exited successfully (`Exited`),
    /// or `Failed` when it could not be run.
    Probe(CommandSpec),
    /// Run the command and report `Succeeded` when it exits successfully,
    /// else `Failed` with what went wrong.
    Run(CommandSpec),
    /// Run the command, read its output as a JSON list of instances and report
    /// them (`Listed`), or `Failed`.
    List(CommandSpec),
    /// Note the time, then list as `List` does, and report the instances with
    /// the milliseconds elapsed since the note (`IpListed`), or `Failed`.
    BeginIpWait(CommandSpec),
    /// Pause `delay_ms`, then list again, reporting as for `BeginIpWait`.
    PollIp { list: CommandSpec, delay_ms: u64 },
    /// Ask the Docker Engine to inspect the container `name` and report what it
    /// answered (`DockerInspected`), or `Failed` when the Engine cannot be
    /// reached or its answer cannot be read.
    InspectContainer { name: String },
    /// Ask the Docker Engine to create the container and report its answer
    /// (`DockerAnswered`), or `Failed`.
    CreateContainer(DockerCreate),
    /// Ask the Docker Engine to start the container `name` and report its
    /// answer (`DockerAnswered`), or `Failed`.
    StartContainer { name: String },
    /// Create the state directory of the local sandbox `name` with its `.codex`
    /// and `workspace` directories, write `config_toml` as `.codex/config.toml`,
    /// and report `Succeeded` or `Failed`.
    PrepareDevLocal { name: String, config_toml: String },
    /// Try a TCP connection to `127.0.0.1:port` and report whether it was
    /// accepted (`Exited`).
    ProbeTcp { port: u16 },
    /// Spawn the command in the `workspace` of the local sandbox `name`, with
    /// its `.codex` directory as `CODEX_HOME` and `api_key` as
    /// `OPENROUTER_API_KEY`, and report `Succeeded` or `Failed`.
    SpawnCodex { name: String, command: CommandSpec, api_key: String },
    /// Wait until `endpoint` accepts TCP connections, giving up after
    /// `timeout_ms`; report `Succeeded` or `Failed`.
    WaitForTcp { endpoint: String, timeout_ms: u64 },
    /// The sandbox is up.
    Finish(SandboxRecord),
    /// Give up; the error and its causes, outermost first.
    Fail(Vec<String>),
}

/// What the caller reports after performing an action.
pub enum ProvisionEvent {
    /// The probe's outcome.
    Exited(bool),
    /// The action completed.
    Succeeded,
    /// The action failed; the error and its causes, outermost first.
    Failed(Vec<String>),
    /// The instances listed.
    Listed(Vec<LxcInstance>),
    /// The instances listed while waiting for an address, and the milliseconds
    /// elapsed since the wait began.
    IpListed { instances: Vec<LxcInstance>, elapsed_ms: u64 },
    /// The Docker Engine answered an inspection with this HTTP status; the
    /// container as described when the status is 200, and the Engine's
    /// message otherwise.
    DockerInspected { status: u16, container: Option<DockerContainer>, message: String },
    /// The Docker Engine answered a request with this HTTP status and message.
    DockerAnswered { status: u16, message: String },
}

/// Message for a provider the service cannot run.
pub open spec fn unsupported_provider_message(provider: Seq<char>) -> Seq<char> {
    "unsupported sandbox provider "@ + provider
}

/// Message when an OpenRouter key is needed and none is configured.
pub open spec fn missing_key_message() -> Seq<char> {
    "OPENROUTER_API_KEY is required"@
}

/// Message for an event that the current step does not expect.
pub open spec fn unexpected_event_message() -> Seq<char> {
    "sandbox provisioning received an event its current step does not expect"@
}

/// `next` is the end and `action` gives up with the error chain `chain`.
pub open spec fn fails_with(next: Provisioning, action: ProvisionAction, chain: Seq<Seq<char>>) -> bool {
    &&& next is Finished
    &&& action matches ProvisionAction::Fail(c) && strings_view(c@) == chain
}

/// `next` is the end and `action` hands over the sandbox `provider`/`name`/`endpoint`.
pub open spec fn finishes_with(
    next: Provisioning,
    action: ProvisionAction,
    provider: Seq<char>,
    name: String,
    endpoint: String,
) -> bool {
    &&& next is Finished
    &&& action matches ProvisionAction::Finish(r) && r.provider@ == provider && r.name == name
        && r.codex_ws_url == endpoint
}

/// The `codex app-server --listen endpoint` command.
pub open spec fn codex_serve_command(endpoint: Seq<char>) -> (Seq<char>, Seq<Seq<char>>) {
    ("codex"@, seq!["app-server"@, "--listen"@, endpoint])
}

/// Message when a running container publishes no host port for the app-server.
pub open spec fn no_published_port_message(name: Seq<char>, port: u16) -> Seq<char> {
    "Docker container "@ + name + " publishes no host port for "@ + tcp_port_key(port)
}

/// `name` is `prefix`, `-`, and 16 lower-case hexadecimal digits.
pub open spec fn hash_named(name: Seq<char>, prefix: Seq<char>) -> bool {
    &&& name.len() == prefix.len() + 17
    &&& name.subrange(0, prefix.len() as int) == prefix
    &&& name[prefix.len() as int] == '-'
    &&& forall|i: int| prefix.len() + 1 <= i < name.len() ==> is_hex_digit(#[trigger] name[i])
}

impl SandboxManager {
    /// After the running container `name` was inspected as `c`: wait for its
    /// app-server on the host port it publishes for the app-server's port, on
    /// the configured host address; fail when it publishes none.
    pub open spec fn docker_port_step(
        &self,
        name: String,
        c: DockerContainer,
        next: Provisioning,
        action: ProvisionAction,
    ) -> bool {
        match first_published_port(c.ports@, tcp_port_key(self.config.codex_app_port)) {
            Some(p) => {
                &&& next matches Provisioning::DockerWaitingForCodex { name: n, endpoint: e } && n
                    == name && e@ == ws_url(self.config.docker_host_bind_ip@, p)
                &&& action matches ProvisionAction::WaitForTcp { endpoint: e, timeout_ms: t } && e@
                    == ws_url(self.config.docker_host_bind_ip@, p) && t == DOCKER_CODEX_TIMEOUT_MS
            },
            None => fails_with(
                next,
                action,
                seq![no_published_port_message(name@, self.config.codex_app_port)],
            ),
        }
    }

    /// The project that LXC sandboxes live in.
    pub open spec fn project(&self) -> Seq<char> {
        self.config.lxc_project@
    }

    /// `next` waits for the address of the instance `name` and `action` begins that wait.
    pub open spec fn begins_ip_wait(&self, next: Provisioning, action: ProvisionAction, name: String) -> bool {
        &&& next == (Provisioning::LxcWaitingForIp { name })
        &&& action matches ProvisionAction::BeginIpWait(c) && c.view() == self.lxc_command(
            lxc_list_args(name@, self.project()),
        )
    }

    /// How provisioning starts for the session `session_id`: with the `lxc`
    /// provider, by asking whether the instance named after the session exists;
    /// with `docker`, by inspecting the container named after the session;
    /// with `dev-local`, by preparing the local sandbox named after the session
    /// and its Codex configuration; with any other provider, by failing.
    pub open spec fn start_step(&self, session_id: Seq<char>, next: Provisioning, action: ProvisionAction) -> bool {
        let provider = self.config.sandbox_provider@;
        if provider == "lxc"@ {
            let name = lxc_sandbox_name(self.config.sandbox_name_prefix@, session_id);
            &&& next matches Provisioning::LxcCheckingExists { name: n } && n@ == name
            &&& action matches ProvisionAction::Probe(c) && c.view() == self.lxc_command(
                lxc_info_args(name, self.project()),
            )
        } else if provider == "docker"@ {
            let name = docker_container_name(self.config.sandbox_name_prefix@, session_id);
            &&& next matches Provisioning::DockerInspecting { name: n } && n@ == name
            &&& action matches ProvisionAction::InspectContainer { name: n } && n@ == name
        } else if provider == "dev-local"@ {
            let name = dev_local_sandbox_name(session_id);
            let port = dev_local_port(self.config.codex_app_port, short_hash_of(session_id));
            &&& next matches Provisioning::DevPreparing { name: n, endpoint: e, port: p } && n@ == name
                && e@ == ws_url("127.0.0.1"@, port) && p == port
            &&& action matches ProvisionAction::PrepareDevLocal { name: n, config_toml: t } && n@
                == name && t@ == codex_config_text(self.config.codex_model@)
        } else {
            fails_with(next, action, seq![unsupported_provider_message(provider)])
        }
    }

    /// One step of provisioning: from `state`, after `event`, provisioning
    /// moves to `next` and asks for `action`.
    pub open spec fn provision_step(
        &self,
        state: Provisioning,
        event: ProvisionEvent,
        next: Provisioning,
        action: ProvisionAction,
    ) -> bool {
        match state {
            Provisioning::LxcCheckingExists { name } => match event {
                ProvisionEvent::Exited(true) => {
                    &&& next == (Provisioning::LxcQueryingStatus { name })
                    &&& action matches ProvisionAction::List(c) && c.view() == self.lxc_command(
                        lxc_list_args(name@, self.project()),
                    )
                },
                ProvisionEvent::Exited(false) => {
                    &&& next == (Provisioning::LxcLaunching { name })
                    &&& action matches ProvisionAction::Run(c) && c.view() == self.lxc_command(
                        lxc_launch_args(self.config.lxc_image@, name@, self.project()),
                    )
                },
                ProvisionEvent::Failed(chain) => fails_with(next, action, strings_view(chain@)),
                _ => fails_with(next, action, seq![unexpected_event_message()]),
            },
            Provisioning::LxcLaunching { name } => match event {
                ProvisionEvent::Succeeded => self.begins_ip_wait(next, action, name),
                ProvisionEvent::Failed(chain) => fails_with(
                    next,
                    action,
                    seq!["failed to launch LXC instance "@ + name@] + strings_view(chain@),
                ),
                _ => fails_with(next, action, seq![unexpected_event_message()]),
            },
            Provisioning::LxcQueryingStatus { name } => match event {
                ProvisionEvent::Listed(instances) => if status_of(instances@) == "Running"@ {
                    self.begins_ip_wait(next, action, name)
                } else {
                    &&& next == (Provisioning::LxcStarting { name })
                    &&& action matches ProvisionAction::Run(c) && c.view() == self.lxc_command(
                        lxc_start_args(name@, self.project()),
                    )
                },
                ProvisionEvent::Failed(chain) => fails_with(next, action, strings_view(chain@)),
                _ => fails_with(next, action, seq![unexpected_event_message()]),
            },
            Provisioning::LxcStarting { name } => match event {
                ProvisionEvent::Succeeded => self.begins_ip_wait(next, action, name),
                ProvisionEvent::Failed(chain) => fails_with(
                    next,
                    action,
                    seq!["failed to start LXC instance "@ + name@] + strings_view(chain@),
                ),
                _ => fails_with(next, action, seq![unexpected_event_message()]),
            },
            Provisioning::LxcWaitingForIp { name } => match event {
                ProvisionEvent::IpListed { instances, elapsed_ms } => match address_of(
                    instances@,
                ) {
                    Some(ip) => match self.config.openrouter_api_key {
                        Some(key) => {
                            &&& next matches Provisioning::LxcStartingCodex { name: n, ip: i }
                                && n == name && i@ == ip
                            &&& action matches ProvisionAction::Run(c) && c.view()
                                == self.lxc_command(
                                lxc_exec_codex_args(
                                    name@,
                                    self.project(),
                                    key@,
                                    codex_start_script(self.codex_listen()),
                                ),
                            )
                        },
                        None => fails_with(next, action, seq![missing_key_message()]),
                    },
                    None => if elapsed_ms > LXC_IP_TIMEOUT_MS {
                        fails_with(
                            next,
                            action,
                            seq!["timed out waiting for IP address for LXC instance "@ + name@],
                        )
                    } else {
                        &&& next == (Provisioning::LxcWaitingForIp { name })
                        &&& action matches ProvisionAction::PollIp { list: c, delay_ms: d } && d
                            == LXC_IP_POLL_MS && c.view() == self.lxc_command(
                            lxc_list_args(name@, self.project()),
                        )
                    },
                },
                ProvisionEvent::Failed(chain) => fails_with(next, action, strings_view(chain@)),
                _ => fails_with(next, action, seq![unexpected_event_message()]),
            },
            Provisioning::LxcStartingCodex { name, ip } => match event {
                ProvisionEvent::Succeeded => {
                    &&& next matches Provisioning::LxcWaitingForCodex { name: n, endpoint: e } && n
                        == name && e@ == ws_url(ip@, self.config.codex_app_port)
                    &&& action matches ProvisionAction::WaitForTcp { endpoint: e, timeout_ms: t } && e@
                        == ws_url(ip@, self.config.codex_app_port) && t == LXC_CODEX_TIMEOUT_MS
                },
                ProvisionEvent::Failed(chain) => fails_with(
                    next,
                    action,
                    seq!["failed to start codex app-server in "@ + name@] + strings_view(chain@),
                ),
                _ => fails_with(next, action, seq![unexpected_event_message()]),
            },
            Provisioning::LxcWaitingForCodex { name, endpoint } => match event {
                ProvisionEvent::Succeeded => finishes_with(next, action, "lxc"@, name, endpoint),
                ProvisionEvent::Failed(chain) => fails_with(next, action, strings_view(chain@)),
                _ => fails_with(next, action, seq![unexpected_event_message()]),
            },
            Provisioning::DockerInspecting { name } => match event {
                ProvisionEvent::DockerInspected { status, container, message } => if status == 200
                    && container is Some {
                    if container->0.running {
                        self.docker_port_step(name, container->0, next, action)
                    } else {
                        &&& next == (Provisioning::DockerStarting { name })
                        &&& action matches ProvisionAction::StartContainer { name: n } && n@ == name@
                    }
                } else if status == 404 {
                    match self.config.openrouter_api_key {
                        Some(key) => {
                            &&& next == (Provisioning::DockerCreating { name })
                            &&& action matches ProvisionAction::CreateContainer(c)
                                && self.docker_create_spec(c, name@, key@)
                        },
                        None => fails_with(next, action, seq![missing_key_message()]),
                    }
                } else {
                    fails_with(
                        next,
                        action,
                        seq![
                            "failed to inspect Docker container "@ + name@,
                            docker_api_message(status, message@),
                        ],
                    )
                },
                ProvisionEvent::Failed(chain) => fails_with(next, action, strings_view(chain@)),
                _ => fails_with(next, action, seq![unexpected_event_message()]),
            },
            Provisioning::DockerCreating { name } => match event {
                ProvisionEvent::DockerAnswered { status, message } => if status == 201 {
                    &&& next == (Provisioning::DockerStarting { name })
                    &&& action matches ProvisionAction::StartContainer { name: n } && n@ == name@
                } else {
                    fails_with(
                        next,
                        action,
                        seq![
                            "failed to create Docker container "@ + name@,
                            docker_api_message(status, message@),
                        ],
                    )
                },
                ProvisionEvent::Failed(chain) => fails_with(
                    next,
                    action,
                    seq!["failed to create Docker container "@ + name@] + strings_view(chain@),
                ),
                _ => fails_with(next, action, seq![unexpected_event_message()]),
            },
            Provisioning::DockerStarting { name } => match event {
                ProvisionEvent::DockerAnswered { status, message } => if status == 204 || status
                    == 304 {
                    &&& next == (Provisioning::DockerReadingPort { name })
                    &&& action matches ProvisionAction::InspectContainer { name: n } && n@ == name@
                } else {
                    fails_with(
                        next,
                        action,
                        seq![
                            "failed to start Docker container "@ + name@,
                            docker_api_message(status, message@),
                        ],
                    )
                },
                ProvisionEvent::Failed(chain) => fails_with(
                    next,
                    action,
                    seq!["failed to start Docker container "@ + name@] + strings_view(chain@),
                ),
                _ => fails_with(next, action, seq![unexpected_event_message()]),
            },
            Provisioning::DockerReadingPort { name } => match event {
                ProvisionEvent::DockerInspected { status, container, message } => if status == 200
                    && container is Some {
                    self.docker_port_step(name, container->0, next, action)
                } else {
                    fails_with(
                        next,
                        action,
                        seq![
                            "failed to inspect Docker container "@ + name@,
                            docker_api_message(status, message@),
                        ],
                    )
                },
                ProvisionEvent::Failed(chain) => fails_with(next, action, strings_view(chain@)),
                _ => fails_with(next, action, seq![unexpected_event_message()]),
            },
            Provisioning::DockerWaitingForCodex { name, endpoint } => match event {
                ProvisionEvent::Succeeded => finishes_with(next, action, "docker"@, name, endpoint),
                ProvisionEvent::Failed(chain) => fails_with(next, action, strings_view(chain@)),
                _ => fails_with(next, action, seq![unexpected_event_message()]),
            },
            Provisioning::DevPreparing { name, endpoint, port } => match event {
                ProvisionEvent::Succeeded => {
                    &&& next == (Provisioning::DevProbing { name, endpoint })
                    &&& action == (ProvisionAction::ProbeTcp { port })
                },
                ProvisionEvent::Failed(chain) => fails_with(next, action, strings_view(chain@)),
                _ => fails_with(next, action, seq![unexpected_event_message()]),
            },
            Provisioning::DevProbing { name, endpoint } => match event {
                ProvisionEvent::Exited(true) => finishes_with(
                    next,
                    action,
                    "dev-local"@,
                    name,
                    endpoint,
                ),
                ProvisionEvent::Exited(false) => match self.config.openrouter_api_key {
                    Some(key) => {
                        &&& next == (Provisioning::DevSpawning { name, endpoint })
                        &&& action matches ProvisionAction::SpawnCodex {
                            name: n,
                            command: c,
                            api_key: k,
                        } && n@ == name@ && c.view() == codex_serve_command(endpoint@) && k@
                            == key@
                    },
                    None => fails_with(next, action, seq![missing_key_message()]),
                },
                _ => fails_with(next, action, seq![unexpected_event_message()]),
            },
            Provisioning::DevSpawning { name, endpoint } => match event {
                ProvisionEvent::Succeeded => {
                    &&& next matches Provisioning::DevWaitingForCodex { name: n, endpoint: e } && n
                        == name && e@ == endpoint@
                    &&& action matches ProvisionAction::WaitForTcp { endpoint: e, timeout_ms: t } && e@
                        == endpoint@ && t == DEV_LOCAL_CODEX_TIMEOUT_MS
                },
                ProvisionEvent::Failed(chain) => fails_with(
                    next,
                    action,
                    seq!["failed to spawn local codex app-server"@] + strings_view(chain@),
                ),
                _ => fails_with(next, action, seq![unexpected_event_message()]),
            },
            Provisioning::DevWaitingForCodex { name, endpoint } => match event {
                ProvisionEvent::Succeeded => finishes_with(next, action, "dev-local"@, name, endpoint),
                ProvisionEvent::Failed(chain) => fails_with(next, action, strings_view(chain@)),
                _ => fails_with(next, action, seq![unexpected_event_message()]),
            },
            Provisioning::Finished => fails_with(next, action, seq![unexpected_event_message()]),
        }
    }
}

/// Gives up with the error chain `chain`.
fn fail(chain: Vec<String>) -> (r: (Provisioning, ProvisionAction))
    ensures
        fails_with(r.0, r.1, strings_view(chain@)),
{
    (Provisioning::Finished, ProvisionAction::Fail(chain))
}

/// Gives up with the single error `message`.
fn fail_message(message: String) -> (r: (Provisioning, ProvisionAction))
    ensures
        fails_with(r.0, r.1, seq![message@]),
{
    let mut chain: Vec<String> = Vec::new();
    chain.push(message);
    assert(strings_view(chain@) =~= seq![message@]);
    fail(chain)
}

/// Gives up with the error `context`, caused by the errors of `chain`.
fn fail_in_context(context: String, chain: Vec<String>) -> (r: (Provisioning, ProvisionAction))
    ensures
        fails_with(r.0, r.1, seq![context@] + strings_view(chain@)),
{
    let mut chain = chain;
    let ghost before = chain@;
    chain.insert(0, context);
    assert(strings_view(chain@) =~= seq![context@] + strings_view(before));
    fail(chain)
}

/// The string `prefix` followed by `name`.
fn prefixed(prefix: &str, name: &str) -> (r: String)
    ensures
        r@ == prefix@ + name@,
{
    let mut r = String::new();
    r.append(prefix);
    r.append(name);
    r
}

/// Gives up with the error `context` followed by `name`, caused by the
/// Docker Engine's answer `status` with `message`.
fn fail_docker_answer(context: &str, name: &str, status: u16, message: &str) -> (r: (
    Provisioning,
    ProvisionAction,
))
    ensures
        fails_with(r.0, r.1, seq![context@ + name@, docker_api_message(status, message@)]),
{
    let mut chain: Vec<String> = Vec::new();
    chain.push(prefixed(context, name));
    chain.push(make_docker_api_message(status, message));
    assert(strings_view(chain@) =~= seq![context@ + name@, docker_api_message(status, message@)]);
    fail(chain)
}

/// Gives up because the current step did not expect the event.
fn fail_unexpected() -> (r: (Provisioning, ProvisionAction))
    ensures
        fails_with(r.0, r.1, seq![unexpected_event_message()]),
{
    fail_message(owned(
        "sandbox provisioning received an event its current step does not expect",
    ))
}

impl SandboxManager {
    /// Begins bringing up the sandbox of the session `session_id` with the
    /// configured provider: `lxc`, `docker` or `dev-local`; any other provider fails.
    pub fn ensure(&self, session_id: &str) -> (r: (Provisioning, ProvisionAction))
        ensures
            self.start_step(session_id@, r.0, r.1),
            match r.0 {
                Provisioning::LxcCheckingExists { name } => hash_named(
                    name@,
                    self.config.sandbox_name_prefix@,
                ),
                Provisioning::DockerInspecting { name } => hash_named(
                    name@,
                    self.config.sandbox_name_prefix@,
                ),
                Provisioning::DevPreparing { name, .. } => hash_named(name@, "dev-local"@),
                _ => true,
            },
    {
        if str_eq(self.config.sandbox_provider.as_str(), "lxc") {
            let hash = short_hash(session_id);
            let mut name = self.config.sandbox_name_prefix.clone();
            push_char(&mut name, '-');
            name.append(hash.as_str());
            assert(name@ =~= lxc_sandbox_name(self.config.sandbox_name_prefix@, session_id@));
            assert(name@.subrange(0, self.config.sandbox_name_prefix@.len() as int)
                =~= self.config.sandbox_name_prefix@);
            assert(forall|i: int|
                self.config.sandbox_name_prefix@.len() + 1 <= i < name@.len() ==> name@[i]
                    == hash@[i - self.config.sandbox_name_prefix@.len() - 1]);
            let probe = self.lxc_info_command(name.as_str());
            (Provisioning::LxcCheckingExists { name }, ProvisionAction::Probe(probe))
        } else if str_eq(self.config.sandbox_provider.as_str(), "docker") {
            let hash = short_hash(session_id);
            let mut name = self.config.sandbox_name_prefix.clone();
            push_char(&mut name, '-');
            name.append(hash.as_str());
            assert(name@ =~= docker_container_name(self.config.sandbox_name_prefix@, session_id@));
            assert(name@.subrange(0, self.config.sandbox_name_prefix@.len() as int)
                =~= self.config.sandbox_name_prefix@);
            assert(forall|i: int|
                self.config.sandbox_name_prefix@.len() + 1 <= i < name@.len() ==> name@[i]
                    == hash@[i - self.config.sandbox_name_prefix@.len() - 1]);
            let inspect_name = name.clone();
            (
                Provisioning::DockerInspecting { name },
                ProvisionAction::InspectContainer { name: inspect_name },
            )
        } else if str_eq(self.config.sandbox_provider.as_str(), "dev-local") {
            let hash = short_hash(session_id);
            let name = prefixed("dev-local-", hash.as_str());
            proof {
                reveal_strlit("dev-local-");
                reveal_strlit("dev-local");
                assert(name@.subrange(0, 9) =~= "dev-local"@);
                assert(forall|i: int| 10 <= i < name@.len() ==> name@[i] == hash@[i - 10]);
            }
            let digits = chars_of(hash.as_str());
            let port = dev_local_port_of(self.config.codex_app_port, &digits);
            let endpoint = make_ws_url("127.0.0.1", port);
            let config_toml = codex_config(self.config.codex_model.as_str());
            (
                Provisioning::DevPreparing { name: name.clone(), endpoint, port },
                ProvisionAction::PrepareDevLocal { name, config_toml },
            )
        } else {
            fail_message(
                prefixed("unsupported sandbox provider ", self.config.sandbox_provider.as_str()),
            )
        }
    }

    /// Waits for the app-server of the running container `name`, inspected as
    /// `c`, on the host port it publishes.
    fn docker_port(&self, name: String, c: &DockerContainer) -> (r: (Provisioning, ProvisionAction))
        ensures
            self.docker_port_step(name, *c, r.0, r.1),
    {
        match published_port(c, self.config.codex_app_port) {
            Some(p) => {
                let endpoint = make_ws_url(self.config.docker_host_bind_ip.as_str(), p);
                let wait_endpoint = endpoint.clone();
                (
                    Provisioning::DockerWaitingForCodex { name, endpoint },
                    ProvisionAction::WaitForTcp {
                        endpoint: wait_endpoint,
                        timeout_ms: DOCKER_CODEX_TIMEOUT_MS,
                    },
                )
            },
            None => {
                let mut m = prefixed("Docker container ", name.as_str());
                m.append(" publishes no host port for ");
                let key = make_tcp_port_key(self.config.codex_app_port);
                m.append(key.as_str());
                fail_message(m)
            },
        }
    }

    /// Begins waiting for the address of the instance `name`.
    fn begin_ip_wait(&self, name: String) -> (r: (Provisioning, ProvisionAction))
        ensures
            self.begins_ip_wait(r.0, r.1, name),
    {
        let list = self.lxc_list_command(name.as_str());
        (Provisioning::LxcWaitingForIp { name }, ProvisionAction::BeginIpWait(list))
    }

    /// Takes one step of provisioning: from `state`, after `event`, the next
    /// state and the action to perform. An event that the step does not
    /// expect ends provisioning with an error.
    pub fn advance(&self, state: Provisioning, event: ProvisionEvent) -> (r: (
        Provisioning,
        ProvisionAction,
    ))
        ensures
            self.provision_step(state, event, r.0, r.1),
    {
        match state {
            Provisioning::LxcCheckingExists { name } => match event {
                ProvisionEvent::Exited(exists) => {
                    if exists {
                        let list = self.lxc_list_command(name.as_str());
                        (Provisioning::LxcQueryingStatus { name }, ProvisionAction::List(list))
                    } else {
                        let launch = self.lxc_launch_command(name.as_str());
                        (Provisioning::LxcLaunching { name }, ProvisionAction::Run(launch))
                    }
                },
                ProvisionEvent::Failed(chain) => fail(chain),
                _ => fail_unexpected(),
            },
            Provisioning::LxcLaunching { name } => match event {
                ProvisionEvent::Succeeded => self.begin_ip_wait(name),
                ProvisionEvent::Failed(chain) => fail_in_context(
                    prefixed("failed to launch LXC instance ", name.as_str()),
                    chain,
                ),
                _ => fail_unexpected(),
            },
            Provisioning::LxcQueryingStatus { name } => match event {
                ProvisionEvent::Listed(instances) => {
                    let status = instance_status(&instances);
                    if str_eq(status.as_str(), "Running") {
                        self.begin_ip_wait(name)
                    } else {
                        let start = self.lxc_start_command(name.as_str());
                        (Provisioning::LxcStarting { name }, ProvisionAction::Run(start))
                    }
                },
                ProvisionEvent::Failed(chain) => fail(chain),
                _ => fail_unexpected(),
            },
            Provisioning::LxcStarting { name } => match event {
                ProvisionEvent::Succeeded => self.begin_ip_wait(name),
                ProvisionEvent::Failed(chain) => fail_in_context(
                    prefixed("failed to start LXC instance ", name.as_str()),
                    chain,
                ),
                _ => fail_unexpected(),
            },
            Provisioning::LxcWaitingForIp { name } => match event {
                ProvisionEvent::IpListed { instances, elapsed_ms } => {
                    match instance_address(&instances) {
                        Some(ip) => match &self.config.openrouter_api_key {
                            Some(key) => {
                                let exec = self.lxc_exec_codex_command(name.as_str(), key.as_str());
                                (Provisioning::LxcStartingCodex { name, ip }, ProvisionAction::Run(exec))
                            },
                            None => fail_message(owned("OPENROUTER_API_KEY is required")),
                        },
                        None => {
                            if elapsed_ms > LXC_IP_TIMEOUT_MS {
                                fail_message(
                                    prefixed(
                                        "timed out waiting for IP address for LXC instance ",
                                        name.as_str(),
                                    ),
                                )
                            } else {
                                let list = self.lxc_list_command(name.as_str());
                                (
                                    Provisioning::LxcWaitingForIp { name },
                                    ProvisionAction::PollIp { list, delay_ms: LXC_IP_POLL_MS },
                                )
                            }
                        },
                    }
                },
                ProvisionEvent::Failed(chain) => fail(chain),
                _ => fail_unexpected(),
            },
            Provisioning::LxcStartingCodex { name, ip } => match event {
                ProvisionEvent::Succeeded => {
                    let endpoint = make_ws_url(ip.as_str(), self.config.codex_app_port);
                    let wait_endpoint = endpoint.clone();
                    (
                        Provisioning::LxcWaitingForCodex { name, endpoint },
                        ProvisionAction::WaitForTcp {
                            endpoint: wait_endpoint,
                            timeout_ms: LXC_CODEX_TIMEOUT_MS,
                        },
                    )
                },
                ProvisionEvent::Failed(chain) => fail_in_context(
                    prefixed("failed to start codex app-server in ", name.as_str()),
                    chain,
                ),
                _ => fail_unexpected(),
            },
            Provisioning::LxcWaitingForCodex { name, endpoint } => match event {
                ProvisionEvent::Succeeded => (
                    Provisioning::Finished,
                    ProvisionAction::Finish(
                        SandboxRecord {
                            provider: owned("lxc"),
                            name,
                            codex_ws_url: endpoint,
                        },
                    ),
                ),
                ProvisionEvent::Failed(chain) => fail(chain),
                _ => fail_unexpected(),
            },
            Provisioning::DockerInspecting { name } => match event {
                ProvisionEvent::DockerInspected { status, container, message } => {
                    match container {
                        Some(c) if status == 200 => {
                            if c.running {
                                self.docker_port(name, &c)
                            } else {
                                let start_name = name.clone();
                                (
                                    Provisioning::DockerStarting { name },
                                    ProvisionAction::StartContainer { name: start_name },
                                )
                            }
                        },
                        _ => {
                            if status == 404 {
                                match &self.config.openrouter_api_key {
                                    Some(key) => {
                                        let create = self.docker_create(name.as_str(), key.as_str());
                                        (
                                            Provisioning::DockerCreating { name },
                                            ProvisionAction::CreateContainer(create),
                                        )
                                    },
                                    None => fail_message(owned("OPENROUTER_API_KEY is required")),
                                }
                            } else {
                                fail_docker_answer("failed to inspect Docker container ", name.as_str(), status, message.as_str())
                            }
                        },
                    }
                },
                ProvisionEvent::Failed(chain) => fail(chain),
                _ => fail_unexpected(),
            },
            Provisioning::DockerCreating { name } => match event {
                ProvisionEvent::DockerAnswered { status, message } => {
                    if status == 201 {
                        let start_name = name.clone();
                        (
                            Provisioning::DockerStarting { name },
                            ProvisionAction::StartContainer { name: start_name },
                        )
                    } else {
                        fail_docker_answer("failed to create Docker container ", name.as_str(), status, message.as_str())
                    }
                },
                ProvisionEvent::Failed(chain) => fail_in_context(
                    prefixed("failed to create Docker container ", name.as_str()),
                    chain,
                ),
                _ => fail_unexpected(),
            },
            Provisioning::DockerStarting { name } => match event {
                ProvisionEvent::DockerAnswered { status, message } => {
                    if status == 204 || status == 304 {
                        let inspect_name = name.clone();
                        (
                            Provisioning::DockerReadingPort { name },
                            ProvisionAction::InspectContainer { name: inspect_name },
                        )
                    } else {
                        fail_docker_answer("failed to start Docker container ", name.as_str(), status, message.as_str())
                    }
                },
                ProvisionEvent::Failed(chain) => fail_in_context(
                    prefixed("failed to start Docker container ", name.as_str()),
                    chain,
                ),
                _ => fail_unexpected(),
            },
            Provisioning::DockerReadingPort { name } => match event {
                ProvisionEvent::DockerInspected { status, container, message } => {
                    match container {
                        Some(c) if status == 200 => self.docker_port(name, &c),
                        _ => fail_docker_answer("failed to inspect Docker container ", name.as_str(), status, message.as_str()),
                    }
                },
                ProvisionEvent::Failed(chain) => fail(chain),
                _ => fail_unexpected(),
            },
            Provisioning::DockerWaitingForCodex { name, endpoint } => match event {
                ProvisionEvent::Succeeded => (
                    Provisioning::Finished,
                    ProvisionAction::Finish(
                        SandboxRecord { provider: owned("docker"), name, codex_ws_url: endpoint },
                    ),
                ),
                ProvisionEvent::Failed(chain) => fail(chain),
                _ => fail_unexpected(),
            },
            Provisioning::DevPreparing { name, endpoint, port } => match event {
                ProvisionEvent::Succeeded => (
                    Provisioning::DevProbing { name, endpoint },
                    ProvisionAction::ProbeTcp { port },
                ),
                ProvisionEvent::Failed(chain) => fail(chain),
                _ => fail_unexpected(),
            },
            Provisioning::DevProbing { name, endpoint } => match event {
                ProvisionEvent::Exited(reachable) => {
                    if reachable {
                        (
                            Provisioning::Finished,
                            ProvisionAction::Finish(
                                SandboxRecord {
                                    provider: owned("dev-local"),
                                    name,
                                    codex_ws_url: endpoint,
                                },
                            ),
                        )
                    } else {
                        match &self.config.openrouter_api_key {
                            Some(key) => {
                                let command = codex_serve(endpoint.as_str());
                                let spawn_name = name.clone();
                                (
                                    Provisioning::DevSpawning { name, endpoint },
                                    ProvisionAction::SpawnCodex {
                                        name: spawn_name,
                                        command,
                                        api_key: key.clone(),
                                    },
                                )
                            },
                            None => fail_message(owned("OPENROUTER_API_KEY is required")),
                        }
                    }
                },
                _ => fail_unexpected(),
            },
            Provisioning::DevSpawning { name, endpoint } => match event {
                ProvisionEvent::Succeeded => {
                    let wait_endpoint = endpoint.clone();
                    (
                        Provisioning::DevWaitingForCodex { name, endpoint },
                        ProvisionAction::WaitForTcp {
                            endpoint: wait_endpoint,
                            timeout_ms: DEV_LOCAL_CODEX_TIMEOUT_MS,
                        },
                    )
                },
                ProvisionEvent::Failed(chain) => fail_in_context(
                    owned("failed to spawn local codex app-server"),
                    chain,
                ),
                _ => fail_unexpected(),
            },
            Provisioning::DevWaitingForCodex { name, endpoint } => match event {
                ProvisionEvent::Succeeded => (
                    Provisioning::Finished,
                    ProvisionAction::Finish(
                        SandboxRecord {
                            provider: owned("dev-local"),
                            name,
                            codex_ws_url: endpoint,
                        },
                    ),
                ),
                ProvisionEvent::Failed(chain) => fail(chain),
                _ => fail_unexpected(),
            },
            Provisioning::Finished => fail_unexpected(),
        }
    }
}

/// The `codex app-server --listen endpoint` command.
fn codex_serve(endpoint: &str) -> (c: CommandSpec)
    ensures
        c.view() == codex_serve_command(endpoint@),
{
    let mut args: Vec<String> = Vec::new();
    args.push(owned("app-server"));
    args.push(owned("--listen"));
    args.push(owned(endpoint));
    assert(strings_view(args@) =~= seq!["app-server"@, "--listen"@, endpoint@]);
    CommandSpec { program: owned("codex"), args }
}

/// What the `url` crate makes of the URL `url`: its host and its port (given
/// or known for the scheme), or the text of the error when it does not parse.
pub uninterp spec fn url_parse_outcome(url: Seq<char>) -> Result<(Option<Seq<char>>, Option<u16>), Seq<char>>;

/// `url::Url::parse(url)`, then `host_str` and `port_or_known_default` of the
/// parsed URL, or the parse error's text (its `Display`). The contract names
/// what comes out without stating it: the result depends on `url` alone.
#[verifier::external_body]
fn parse_url_host_and_port(url: &str) -> (r: Result<(Option<String>, Option<u16>), String>)
    ensures
        match r {
            Ok((h, p)) => url_parse_outcome(url@) == Ok::<(Option<Seq<char>>, Option<u16>), Seq<char>>(
                (
                    match h {
                        Some(h) => Some(h@),
                        None => None,
                    },
                    p,
                ),
            ),
            Err(m) => url_parse_outcome(url@) == Err::<(Option<Seq<char>>, Option<u16>), Seq<char>>(m@),
        },
{
    match url::Url::parse(url) {
        Ok(u) => Ok((u.host_str().map(String::from), u.port_or_known_default())),
        Err(e) => Err(e.to_string()),
    }
}

/// Message when a WebSocket URL names no host.
pub open spec fn missing_host_message() -> Seq<char> {
    "missing host in WebSocket URL"@
}

/// Message when a WebSocket URL gives no port and its scheme has none by default.
pub open spec fn missing_port_message() -> Seq<char> {
    "missing port in WebSocket URL"@
}

/// The `host:port` to connect to for a URL whose host and port are `host`
/// and `port`; an error when either is missing.
pub fn tcp_address(host: Option<String>, port: Option<u16>) -> (r: Result<String, Vec<String>>)
    ensures
        match (host, port) {
            (Some(h), Some(p)) => r matches Ok(a) && a@ == h@ + seq![':'] + decimal(
                p as nat,
            ),
            (None, _) => r matches Err(c) && strings_view(c@) == seq![missing_host_message()],
            (Some(_), None) => r matches Err(c) && strings_view(c@) == seq![missing_port_message()],
        },
{
    let h = match host {
        Some(h) => h,
        None => {
            let mut c: Vec<String> = Vec::new();
            c.push(owned("missing host in WebSocket URL"));
            assert(strings_view(c@) =~= seq![missing_host_message()]);
            return Err(c);
        },
    };
    let p = match port {
        Some(p) => p,
        None => {
            let mut c: Vec<String> = Vec::new();
            c.push(owned("missing port in WebSocket URL"));
            assert(strings_view(c@) =~= seq![missing_port_message()]);
            return Err(c);
        },
    };
    let mut a = h;
    push_char(&mut a, ':');
    push_decimal(&mut a, p as u64);
    Ok(a)
}

/// The `host:port` to connect to when waiting for the app-server at `ws_url`:
/// the URL's host and its port (or the scheme's default port). When the URL
/// does not parse, the error chain holds the parser's message alone.
pub fn tcp_target(ws_url: &str) -> (r: Result<String, Vec<String>>)
    ensures
        match url_parse_outcome(ws_url@) {
            Ok((Some(h), Some(p))) => r matches Ok(a) && a@ == h + seq![':'] + decimal(p as nat),
            Ok((None, _)) => r matches Err(c) && strings_view(c@) == seq![missing_host_message()],
            Ok((Some(_), None)) => r matches Err(c) && strings_view(c@) == seq![
                missing_port_message(),
            ],
            Err(m) => r matches Err(c) && strings_view(c@) == seq![m],
        },
{
    match parse_url_host_and_port(ws_url) {
        Ok((host, port)) => tcp_address(host, port),
        Err(message) => {
            let mut c: Vec<String> = Vec::new();
            c.push(message);
            assert(strings_view(c@) =~= seq![c@[0]@]);
            Err(c)
        },
    }
}

/// The error chain when `host:port` is not a socket address: the address
/// refused, caused by `error`, the parser's message.
pub open spec fn invalid_address_chain(address: Seq<char>, error: Seq<char>) -> Seq<Seq<char>> {
    seq!["invalid upstream address "@ + address, error]
}

/// The error chain for the address `address` that does not parse as a socket
/// address, for the parser's message `error`.
pub fn invalid_address(address: &str, error: String) -> (c: Vec<String>)
    ensures
        strings_view(c@) == invalid_address_chain(address@, error@),
{
    let mut c: Vec<String> = Vec::new();
    c.push(prefixed("invalid upstream address ", address));
    c.push(error);
    assert(strings_view(c@) =~= invalid_address_chain(address@, error@));
    c
}

/// Pause, in milliseconds, between two connection attempts to an app-server.
pub const TCP_RETRY_MS: u64 = 500;

/// What to do after a connection attempt to an app-server failed.
pub enum TcpWaitStep {
    /// Try again after `delay_ms`.
    Retry { delay_ms: u64 },
    /// Give up; the error and its causes, outermost first.
    GiveUp(Vec<String>),
}

/// After a failed connection attempt to the app-server at `ws_url`, made
/// `elapsed_ms` after the wait began: retry while the wait has lasted no
/// longer than `timeout_ms`, else give up, reporting the timeout caused by
/// the attempt's `error`.
pub fn tcp_wait_step(ws_url: &str, elapsed_ms: u64, timeout_ms: u64, error: String) -> (r: TcpWaitStep)
    ensures
        elapsed_ms <= timeout_ms ==> r == (TcpWaitStep::Retry { delay_ms: TCP_RETRY_MS }),
        elapsed_ms > timeout_ms ==> (r matches TcpWaitStep::GiveUp(c) && strings_view(c@) == seq![
            "timed out waiting for "@ + ws_url@,
            error@,
        ]),
{
    if elapsed_ms <= timeout_ms {
        TcpWaitStep::Retry { delay_ms: TCP_RETRY_MS }
    } else {
        let mut c: Vec<String> = Vec::new();
        c.push(prefixed("timed out waiting for ", ws_url));
        c.push(error);
        assert(strings_view(c@) =~= seq!["timed out waiting for "@ + ws_url@, error@]);
        TcpWaitStep::GiveUp(c)
    }
}

impl SandboxManager {
    /// The sandbox name that `state` carries is the one of the session
    /// `session_id`: `prefix-hash` for LXC and Docker, `dev-local-hash` for a
    /// local sandbox.
    pub open spec fn named_for(&self, state: Provisioning, session_id: Seq<char>) -> bool {
        let lxc = lxc_sandbox_name(self.config.sandbox_name_prefix@, session_id);
        let dev = dev_local_sandbox_name(session_id);
        match state {
            Provisioning::LxcCheckingExists { name } => name@ == lxc,
            Provisioning::LxcLaunching { name } => name@ == lxc,
            Provisioning::LxcQueryingStatus { name } => name@ == lxc,
            Provisioning::LxcStarting { name } => name@ == lxc,
            Provisioning::LxcWaitingForIp { name } => name@ == lxc,
            Provisioning::LxcStartingCodex { name, .. } => name@ == lxc,
            Provisioning::LxcWaitingForCodex { name, .. } => name@ == lxc,
            Provisioning::DockerInspecting { name } => name@ == lxc,
            Provisioning::DockerCreating { name } => name@ == lxc,
            Provisioning::DockerStarting { name } => name@ == lxc,
            Provisioning::DockerReadingPort { name } => name@ == lxc,
            Provisioning::DockerWaitingForCodex { name, .. } => name@ == lxc,
            Provisioning::DevPreparing { name, .. } => name@ == dev,
            Provisioning::DevProbing { name, .. } => name@ == dev,
            Provisioning::DevSpawning { name, .. } => name@ == dev,
            Provisioning::DevWaitingForCodex { name, .. } => name@ == dev,
            Provisioning::Finished => true,
        }
    }

    /// Sandboxes are named after the session's cookie: provisioning for the
    /// session `session_id` starts in a state that carries the session's
    /// sandbox name.
    pub proof fn lemma_start_names_sandbox(
        &self,
        session_id: Seq<char>,
        next: Provisioning,
        action: ProvisionAction,
    )
        requires
            self.start_step(session_id, next, action),
        ensures
            self.named_for(next, session_id),
    {
    }

    /// Sandboxes are named after the session's cookie: every step keeps the
    /// session's sandbox name, and the sandbox handed over at the end is the
    /// LXC instance `prefix-hash` or the local sandbox `dev-local-hash` of the
    /// session, or its Docker container `prefix-hash`, where `hash` is the
    /// short hash of the session id.
    pub proof fn lemma_step_keeps_sandbox_name(
        &self,
        session_id: Seq<char>,
        state: Provisioning,
        event: ProvisionEvent,
        next: Provisioning,
        action: ProvisionAction,
    )
        requires
            self.named_for(state, session_id),
            self.provision_step(state, event, next, action),
        ensures
            self.named_for(next, session_id),
            action matches ProvisionAction::Finish(r) ==> {
                ||| r.provider@ == "lxc"@ && r.name@ == lxc_sandbox_name(
                    self.config.sandbox_name_prefix@,
                    session_id,
                )
                ||| r.provider@ == "docker"@ && r.name@ == docker_container_name(
                    self.config.sandbox_name_prefix@,
                    session_id,
                )
                ||| r.provider@ == "dev-local"@ && r.name@ == dev_local_sandbox_name(session_id)
            },
    {
    }
}

impl SandboxManager {
    /// Every provider that configuration accepts is served: when the
    /// (normalised) provider is `lxc`, `docker` or `dev-local`, provisioning
    /// starts with a step of that provider instead of failing.
    pub proof fn lemma_accepted_provider_is_served(
        &self,
        session_id: Seq<char>,
        next: Provisioning,
        action: ProvisionAction,
    )
        requires
            crate::config::supported_provider(self.config.sandbox_provider@),
            self.start_step(session_id, next, action),
        ensures
            !(next is Finished),
            !(action is Fail),
    {
    }

    /// A session's container is reused: when inspecting the container named
    /// after the session finds it, provisioning never creates a container; it
    /// starts the one found if it is stopped, and otherwise reads its
    /// published port.
    pub proof fn lemma_existing_container_is_reused(
        &self,
        name: String,
        container: DockerContainer,
        message: String,
        next: Provisioning,
        action: ProvisionAction,
    )
        requires
            self.provision_step(
                Provisioning::DockerInspecting { name },
                ProvisionEvent::DockerInspected { status: 200, container: Some(container), message },
                next,
                action,
            ),
        ensures
            !(action is CreateContainer),
            !(next is DockerCreating),
            !container.running ==> action is StartContainer,
    {
    }
}

/// Message when `lxc list` exits unsuccessfully, with what it wrote to its error stream.
pub open spec fn lxc_list_failure_message(stderr: Seq<char>) -> Seq<char> {
    "lxc list failed: "@ + stderr
}

/// The error chain when `lxc list` exits unsuccessfully having written `stderr`.
pub fn lxc_list_failure(stderr: &str) -> (c: Vec<String>)
    ensures
        strings_view(c@) == seq![lxc_list_failure_message(stderr@)],
{
    let mut c: Vec<String> = Vec::new();
    c.push(prefixed("lxc list failed: ", stderr));
    assert(strings_view(c@) =~= seq![lxc_list_failure_message(stderr@)]);
    c
}

/// Message when a command exits unsuccessfully: its exit status and what it
/// wrote to its output and error streams.
pub open spec fn command_failure_message(status: Seq<char>, stdout: Seq<char>, stderr: Seq<char>) -> Seq<
    char,
> {
    "command failed with status "@ + status + ": stdout="@ + stdout + " stderr="@ + stderr
}

/// The error chain when a command exits with `status` having written `stdout`
/// and `stderr`.
pub fn command_failure(status: &str, stdout: &str, stderr: &str) -> (c: Vec<String>)
    ensures
        strings_view(c@) == seq![command_failure_message(status@, stdout@, stderr@)],
{
    let mut m = prefixed("command failed with status ", status);
    m.append(": stdout=");
    m.append(stdout);
    m.append(" stderr=");
    m.append(stderr);
    let mut c: Vec<String> = Vec::new();
    c.push(m);
    assert(strings_view(c@) =~= seq![command_failure_message(status@, stdout@, stderr@)]);
    c
}

/// Whether `needle` occurs in `hay` as a contiguous run of characters.
pub open spec fn occurs_in(needle: Seq<char>, hay: Seq<char>) -> bool {
    exists|i: int|
        0 <= i && i + needle.len() <= hay.len() && #[trigger] hay.subrange(i, i + needle.len())
            == needle
}

/// A sandbox name does not give the session away: a name made of `prefix`,
/// `-` and 16 hexadecimal digits (the shape that `ensure` states of every
/// name) never holds a valid session id that the prefix does not hold, since
/// the id has no `-` and is longer than the digits.
pub proof fn lemma_name_hides_session(name: Seq<char>, prefix: Seq<char>, id: Seq<char>)
    requires
        hash_named(name, prefix),
        crate::cookie::valid_session_id(id),
        !occurs_in(id, prefix),
    ensures
        !occurs_in(id, name),
{
    if occurs_in(id, name) {
        let i = choose|i: int|
            0 <= i && i + id.len() <= name.len() && #[trigger] name.subrange(i, i + id.len())
                == id;
        let p = prefix.len() as int;
        if i + id.len() <= p {
            assert(prefix.subrange(i, i + id.len()) =~= name.subrange(i, i + id.len())) by {
                assert forall|k: int| 0 <= k < id.len() implies #[trigger] prefix.subrange(
                    i,
                    i + id.len(),
                )[k] == name.subrange(i, i + id.len())[k] by {
                    assert(name.subrange(0, p)[i + k] == name[i + k]);
                }
            }
            assert(occurs_in(id, prefix));
        } else if i <= p {
            assert(name.subrange(i, i + id.len())[p - i] == name[p]);
            assert(id[p - i] == '-');
            assert(crate::text::is_ascii_alphanumeric(id[p - i]));
        } else {
            assert(id.len() <= 16);
        }
    }
}

impl SandboxManager {
    /// After `lxc start` brought an existing instance back, provisioning waits
    /// for that instance's address: it lists the same instance as JSON.
    pub proof fn lemma_started_instance_is_awaited(
        &self,
        name: String,
        next: Provisioning,
        action: ProvisionAction,
    )
        requires
            self.provision_step(Provisioning::LxcStarting { name }, ProvisionEvent::Succeeded, next, action),
        ensures
            next == (Provisioning::LxcWaitingForIp { name }),
            action matches ProvisionAction::BeginIpWait(c) && c.program@ == self.config.lxc_bin@
                && strings_view(c.args@) == seq![
                "list"@,
                name@,
                "--project"@,
                self.config.lxc_project@,
                "--format"@,
                "json"@,
            ],
    {
    }

    /// An instance is launched only when `lxc info` said it does not exist,
    /// and a container is created only when the Docker Engine answered that it
    /// does not exist (404): an existing sandbox is never created again.
    pub proof fn lemma_create_only_when_absent(
        &self,
        state: Provisioning,
        event: ProvisionEvent,
        next: Provisioning,
        action: ProvisionAction,
    )
        requires
            self.provision_step(state, event, next, action),
        ensures
            next is LxcLaunching ==> state is LxcCheckingExists && event == ProvisionEvent::Exited(
                false,
            ),
            (action matches ProvisionAction::Run(c) && c.args@.len() > 0 && c.args@[0]@
                == "launch"@) ==> state is LxcCheckingExists && event == ProvisionEvent::Exited(
                false,
            ),
            next is DockerCreating ==> (state is DockerInspecting
                && (event matches ProvisionEvent::DockerInspected { status, .. } && status == 404)),
            action is CreateContainer ==> (state is DockerInspecting
                && (event matches ProvisionEvent::DockerInspected { status, .. } && status == 404)),
    {
        reveal_strlit("launch");
        reveal_strlit("exec");
        reveal_strlit("start");
        if let ProvisionAction::Run(c) = action {
            if c.args@.len() > 0 {
                assert(strings_view(c.args@)[0] == c.args@[0]@);
            }
        }
    }

    /// A local sandbox is prepared with the full Codex configuration of the
    /// configured model: the model, OpenRouter as its provider and the
    /// OpenRouter section with its API address, key variable and wire API.
    pub proof fn lemma_dev_local_config_written(
        &self,
        session_id: Seq<char>,
        next: Provisioning,
        action: ProvisionAction,
    )
        requires
            self.config.sandbox_provider@ == "dev-local"@,
            self.start_step(session_id, next, action),
        ensures
            action matches ProvisionAction::PrepareDevLocal { config_toml: t, .. } && t@ == "model = \""@
                + self.config.codex_model@
                + "\"\nmodel_provider = \"openrouter\"\napproval_policy = \"on-request\"\nsandbox_mode = \"danger-full-access\"\nmodel_reasoning_effort = \"medium\"\n\n[model_providers.openrouter]\nname = \"OpenRouter\"\nbase_url = \"https://openrouter.ai/api/v1\"\nenv_key = \"OPENROUTER_API_KEY\"\nwire_api = \"responses\"\n"@,
    {
        reveal_strlit("lxc");
        reveal_strlit("dev-local");
        reveal_strlit("docker");
        assert("dev-local"@.len() == 9);
        assert("lxc"@.len() == 3);
        assert("docker"@.len() == 6);
        assert("dev-local"@ != "lxc"@);
        assert("dev-local"@ != "docker"@);
        crate::sandbox::lemma_codex_config_text(self.config.codex_model@);
        assert(action matches ProvisionAction::PrepareDevLocal { config_toml: t, .. } && t@
            == codex_config_text(self.config.codex_model@));
    }

    /// The endpoint that provisioning waits on is the one it keeps for the
    /// sandbox, and the sandbox handed over is at the endpoint that was waited
    /// on: whatever the provider, the record's URL is the one carried by the
    /// step that finished.
    pub proof fn lemma_waited_endpoint_is_recorded(
        &self,
        state: Provisioning,
        event: ProvisionEvent,
        next: Provisioning,
        action: ProvisionAction,
    )
        requires
            self.provision_step(state, event, next, action),
        ensures
            action matches ProvisionAction::WaitForTcp { endpoint: w, .. } ==> {
                ||| next matches Provisioning::LxcWaitingForCodex { endpoint: e, .. } && e@ == w@
                ||| next matches Provisioning::DockerWaitingForCodex { endpoint: e, .. } && e@ == w@
                ||| next matches Provisioning::DevWaitingForCodex { endpoint: e, .. } && e@ == w@
            },
            action matches ProvisionAction::Finish(r) ==> {
                ||| state matches Provisioning::LxcWaitingForCodex { name, endpoint }
                    && r.provider@ == "lxc"@ && r.name == name && r.codex_ws_url == endpoint
                ||| state matches Provisioning::DockerWaitingForCodex { name, endpoint }
                    && r.provider@ == "docker"@ && r.name == name && r.codex_ws_url == endpoint
                ||| state matches Provisioning::DevWaitingForCodex { name, endpoint }
                    && r.provider@ == "dev-local"@ && r.name == name && r.codex_ws_url == endpoint
                ||| state matches Provisioning::DevProbing { name, endpoint } && r.provider@
                    == "dev-local"@ && r.name == name && r.codex_ws_url == endpoint
            },
    {
    }

    /// The Codex app-server of an LXC sandbox is awaited at the instance's own
    /// address and the configured app-server port.
    pub proof fn lemma_lxc_endpoint(
        &self,
        name: String,
        ip: String,
        next: Provisioning,
        action: ProvisionAction,
    )
        requires
            self.provision_step(
                Provisioning::LxcStartingCodex { name, ip },
                ProvisionEvent::Succeeded,
                next,
                action,
            ),
        ensures
            action matches ProvisionAction::WaitForTcp { endpoint: w, .. } && w@ == "ws://"@ + ip@
                + seq![':'] + decimal(self.config.codex_app_port as nat),
            next matches Provisioning::LxcWaitingForCodex { endpoint: e, .. } && e@ == "ws://"@
                + ip@ + seq![':'] + decimal(self.config.codex_app_port as nat),
    {
    }
}

/// The host port read from an inspected container is one that a binding of
/// it publishes for the requested container port.
proof fn lemma_first_published_port_is_published(ports: Seq<crate::docker::DockerPortBinding>, key: Seq<char>)
    ensures
        first_published_port(ports, key) matches Some(p) ==> exists|k: int|
            0 <= k < ports.len() && (#[trigger] ports[k]).container_port@ == key
                && crate::docker::parse_port(ports[k].host_port@) == Some(p),
    decreases ports.len(),
{
    if ports.len() > 0 {
        lemma_first_published_port_is_published(ports.drop_first(), key);
        if let Some(p) = first_published_port(ports.drop_first(), key) {
            if !(ports[0].container_port@ == key && crate::docker::parse_port(ports[0].host_port@) is Some) {
                let k = choose|k: int|
                    0 <= k < ports.drop_first().len() && (#[trigger] ports.drop_first()[k]).container_port@
                        == key && crate::docker::parse_port(ports.drop_first()[k].host_port@) == Some(p);
                assert(ports[k + 1] == ports.drop_first()[k]);
            }
        }
    }
}

impl SandboxManager {
    /// The app-server of a Docker container, whether it was found running or
    /// has just been started, is awaited and kept at the configured host
    /// address and a host port that the container publishes for the
    /// app-server's port (`port/tcp`), never at the container's own port.
    pub proof fn lemma_docker_endpoint_is_published(
        &self,
        state: Provisioning,
        status: u16,
        container: DockerContainer,
        message: String,
        next: Provisioning,
        action: ProvisionAction,
    )
        requires
            state is DockerInspecting || state is DockerReadingPort,
            self.provision_step(
                state,
                ProvisionEvent::DockerInspected { status, container: Some(container), message },
                next,
                action,
            ),
        ensures
            action matches ProvisionAction::WaitForTcp { endpoint: w, .. } ==> exists|k: int|
                0 <= k < container.ports@.len() && (#[trigger] container.ports@[k]).container_port@
                    == decimal(self.config.codex_app_port as nat) + "/tcp"@ && crate::docker::parse_port(
                    container.ports@[k].host_port@,
                ) is Some && w@ == "ws://"@ + self.config.docker_host_bind_ip@ + seq![':'] + decimal(
                    crate::docker::parse_port(container.ports@[k].host_port@)->0 as nat,
                ),
            action matches ProvisionAction::WaitForTcp { endpoint: w, .. } ==> (
            next matches Provisioning::DockerWaitingForCodex { endpoint: e, .. } && e@ == w@),
    {
        lemma_first_published_port_is_published(
            container.ports@,
            tcp_port_key(self.config.codex_app_port),
        );
        if let Some(p) = first_published_port(
            container.ports@,
            tcp_port_key(self.config.codex_app_port),
        ) {
            let k = choose|k: int|
                0 <= k < container.ports@.len() && (#[trigger] container.ports@[k]).container_port@
                    == tcp_port_key(self.config.codex_app_port) && crate::docker::parse_port(
                    container.ports@[k].host_port@,
                ) == Some(p);
            assert(container.ports@[k] == container.ports@[k]);
        }
    }
}

impl SandboxManager {
    /// An instance that exists has its status asked for first: `lxc list`
    /// of that very instance, as JSON.
    pub proof fn lemma_existing_instance_status_queried(
        &self,
        name: String,
        next: Provisioning,
        action: ProvisionAction,
    )
        requires
            self.provision_step(
                Provisioning::LxcCheckingExists { name },
                ProvisionEvent::Exited(true),
                next,
                action,
            ),
        ensures
            next == (Provisioning::LxcQueryingStatus { name }),
            action matches ProvisionAction::List(c) && c.program@ == self.config.lxc_bin@
                && strings_view(c.args@) == seq![
                "list"@,
                name@,
                "--project"@,
                self.config.lxc_project@,
                "--format"@,
                "json"@,
            ],
    {
    }

    /// A missing instance is launched from the configured image into the
    /// configured project under the session's sandbox name.
    pub proof fn lemma_missing_instance_launched(
        &self,
        name: String,
        next: Provisioning,
        action: ProvisionAction,
    )
        requires
            self.provision_step(
                Provisioning::LxcCheckingExists { name },
                ProvisionEvent::Exited(false),
                next,
                action,
            ),
        ensures
            next == (Provisioning::LxcLaunching { name }),
            action matches ProvisionAction::Run(c) && c.program@ == self.config.lxc_bin@
                && strings_view(c.args@) == seq![
                "launch"@,
                self.config.lxc_image@,
                name@,
                "--project"@,
                self.config.lxc_project@,
            ],
    {
    }

    /// An existing instance is started exactly when its first listed status
    /// is not `Running`; a running one goes straight to waiting for its
    /// address.
    pub proof fn lemma_start_only_when_not_running(
        &self,
        name: String,
        instances: Vec<LxcInstance>,
        next: Provisioning,
        action: ProvisionAction,
    )
        requires
            self.provision_step(
                Provisioning::LxcQueryingStatus { name },
                ProvisionEvent::Listed(instances),
                next,
                action,
            ),
        ensures
            (instances@.len() > 0 && instances@[0].status is Some && instances@[0].status->0@
                == "Running"@) ==> (next == (Provisioning::LxcWaitingForIp { name })
                && action is BeginIpWait),
            !(instances@.len() > 0 && instances@[0].status is Some && instances@[0].status->0@
                == "Running"@) ==> (next == (Provisioning::LxcStarting { name }) && (
            action matches ProvisionAction::Run(c) && c.program@ == self.config.lxc_bin@
                && strings_view(c.args@) == seq![
                "start"@,
                name@,
                "--project"@,
                self.config.lxc_project@,
            ])),
    {
        reveal_strlit("Unknown");
        reveal_strlit("Running");
        assert("Unknown"@[0] != "Running"@[0]);
    }

    /// While waiting for an address: once the first instance reports a global
    /// IPv4 address (and a key is configured) the app-server is started there
    /// by `lxc exec`, with the configured key in its environment, running the
    /// script that prepares the Codex user's home and, unless an app-server
    /// already listens on the configured listen address and port, starts one
    /// there in the background; while none is reported, the same
    /// instance is listed again after 750 ms as long as 45 s have not passed,
    /// and provisioning gives up after that.
    pub proof fn lemma_ip_wait(
        &self,
        name: String,
        instances: Vec<LxcInstance>,
        elapsed_ms: u64,
        next: Provisioning,
        action: ProvisionAction,
    )
        requires
            self.provision_step(
                Provisioning::LxcWaitingForIp { name },
                ProvisionEvent::IpListed { instances, elapsed_ms },
                next,
                action,
            ),
        ensures
            ((exists|j: int, k: int| crate::sandbox::reports_global_ipv4(instances@, j, k))
                && self.config.openrouter_api_key is Some) ==> (exists|j: int, k: int|
                #[trigger] crate::sandbox::reports_global_ipv4(instances@, j, k) && (
                next matches Provisioning::LxcStartingCodex { name: n, ip } && n == name && ip@
                    == instances@[0].network->0@[j].addresses@[k].address@)) && (
            action matches ProvisionAction::Run(c) && c.program@ == self.config.lxc_bin@
                && strings_view(c.args@) == seq![
                "exec"@,
                name@,
                "--project"@,
                self.config.lxc_project@,
                "--env"@,
                "OPENROUTER_API_KEY="@ + self.config.openrouter_api_key->0@,
                "--"@,
                "sh"@,
                "-lc"@,
                "set -eu\nmkdir -p /home/codex/workspace /home/codex/.codex\nchown -R codex:users /home/codex\nif ! pgrep -u codex -f 'codex app-server --listen "@ + ("ws://"@ + self.config.codex_app_listen@ + seq![':'] + decimal(self.config.codex_app_port as nat)) + "' >/dev/null 2>&1; then\n  sudo -H -u codex env CODEX_HOME=/home/codex/.codex OPENROUTER_API_KEY=\"$OPENROUTER_API_KEY\" \\\n    sh -lc 'cd /home/codex/workspace && nohup codex app-server --listen "@
                    + ("ws://"@ + self.config.codex_app_listen@ + seq![':'] + decimal(self.config.codex_app_port as nat)) + " > /home/codex/codex-app-server.log 2>&1 &'\nfi\n"@,
            ]),
            !(exists|j: int, k: int| crate::sandbox::reports_global_ipv4(instances@, j, k))
                && elapsed_ms <= 45000 ==> next == (Provisioning::LxcWaitingForIp { name }) && (
            action matches ProvisionAction::PollIp { list: c, delay_ms } && delay_ms == 750
                && strings_view(c.args@) == seq![
                "list"@,
                name@,
                "--project"@,
                self.config.lxc_project@,
                "--format"@,
                "json"@,
            ]),
            !(exists|j: int, k: int| crate::sandbox::reports_global_ipv4(instances@, j, k))
                && elapsed_ms > 45000 ==> next is Finished && action is Fail,
    {
        crate::sandbox::lemma_instance_address_found(instances@);
    }

    /// A stopped container is started, a container just created is started,
    /// and a container just started is inspected again; each time the
    /// session's own container.
    pub proof fn lemma_docker_container_lifecycle(
        &self,
        state: Provisioning,
        event: ProvisionEvent,
        next: Provisioning,
        action: ProvisionAction,
    )
        requires
            self.provision_step(state, event, next, action),
        ensures
            state matches Provisioning::DockerInspecting { name } ==> ((
            event matches ProvisionEvent::DockerInspected { status, container, .. } && status == 200
                && container is Some && !container->0.running) ==> (
            action matches ProvisionAction::StartContainer { name: n } && n@ == name@)),
            state matches Provisioning::DockerCreating { name } ==> ((
            event matches ProvisionEvent::DockerAnswered { status, .. } && status == 201) ==> (
            action matches ProvisionAction::StartContainer { name: n } && n@ == name@)),
            state matches Provisioning::DockerStarting { name } ==> ((
            event matches ProvisionEvent::DockerAnswered { status, .. } && (status == 204 || status
                == 304)) ==> (action matches ProvisionAction::InspectContainer { name: n } && n@
                == name@)),
    {
    }

    /// A container is created from the configured image, under the session's
    /// container name, with the configured key in its environment, running
    /// the app-server on the configured listen address and port, and
    /// publishing that port on the configured host address.
    pub proof fn lemma_docker_create_request(
        &self,
        name: String,
        event: ProvisionEvent,
        next: Provisioning,
        action: ProvisionAction,
    )
        requires
            self.provision_step(Provisioning::DockerInspecting { name }, event, next, action),
        ensures
            action matches ProvisionAction::CreateContainer(c) ==> {
                &&& self.config.openrouter_api_key is Some
                &&& c.name@ == name@
                &&& c.image@ == self.config.docker_image@
                &&& strings_view(c.env@) == seq!["OPENROUTER_API_KEY="@ + self.config.openrouter_api_key->0@]
                &&& strings_view(c.cmd@) == seq![
                    "codex"@,
                    "app-server"@,
                    "--listen"@,
                    "ws://"@ + self.config.codex_app_listen@ + seq![':'] + decimal(
                        self.config.codex_app_port as nat,
                    ),
                ]
                &&& c.container_port@ == decimal(self.config.codex_app_port as nat) + "/tcp"@
                &&& c.host_ip@ == self.config.docker_host_bind_ip@
            },
    {
    }

    /// A local sandbox that answers already is handed over at once; one that
    /// does not is started with `codex app-server --listen` on its endpoint and
    /// the configured key, or fails without a key.
    pub proof fn lemma_dev_local_probe(
        &self,
        name: String,
        endpoint: String,
        reachable: bool,
        next: Provisioning,
        action: ProvisionAction,
    )
        requires
            self.provision_step(
                Provisioning::DevProbing { name, endpoint },
                ProvisionEvent::Exited(reachable),
                next,
                action,
            ),
        ensures
            reachable ==> (action matches ProvisionAction::Finish(r) && r.provider@ == "dev-local"@
                && r.name == name && r.codex_ws_url == endpoint),
            !reachable && self.config.openrouter_api_key is Some ==> (
            action matches ProvisionAction::SpawnCodex { name: n, command: c, api_key: k } && n@
                == name@ && c.program@ == "codex"@ && strings_view(c.args@) == seq![
                "app-server"@,
                "--listen"@,
                endpoint@,
            ] && k@ == self.config.openrouter_api_key->0@),
            !reachable && self.config.openrouter_api_key is None ==> action is Fail,
    {
    }
}

impl SandboxManager {
    /// A freshly launched instance, like a restarted one, is awaited: after
    /// `lxc launch` succeeds, provisioning lists that same instance as JSON
    /// until it has an address.
    pub proof fn lemma_launched_instance_is_awaited(
        &self,
        name: String,
        next: Provisioning,
        action: ProvisionAction,
    )
        requires
            self.provision_step(Provisioning::LxcLaunching { name }, ProvisionEvent::Succeeded, next, action),
        ensures
            next == (Provisioning::LxcWaitingForIp { name }),
            action matches ProvisionAction::BeginIpWait(c) && c.program@ == self.config.lxc_bin@
                && strings_view(c.args@) == seq![
                "list"@,
                name@,
                "--project"@,
                self.config.lxc_project@,
                "--format"@,
                "json"@,
            ],
    {
    }

    /// The causes of a failure are never lost: whatever step reports that its
    /// action failed (all but the local probe, which cannot fail, and the end,
    /// which expects nothing), provisioning ends and gives up with an error
    /// chain whose last entries are the reported chain, in order, preceded by
    /// at most one message that says which step failed.
    pub proof fn lemma_failure_causes_kept(
        &self,
        state: Provisioning,
        chain: Vec<String>,
        next: Provisioning,
        action: ProvisionAction,
    )
        requires
            !(state is DevProbing),
            !(state is Finished),
            self.provision_step(state, ProvisionEvent::Failed(chain), next, action),
        ensures
            next is Finished,
            action matches ProvisionAction::Fail(c) && (strings_view(c@) == strings_view(chain@)
                || strings_view(c@) == seq![strings_view(c@)[0]] + strings_view(chain@)),
    {
    }
}

} // verus!
