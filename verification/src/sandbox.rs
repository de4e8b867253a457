//! Sandboxes: how they are named, what their Codex configuration says, the
//! commands that manage them, and what is read back from those commands.

use std::sync::Arc;

use sha2::Digest;
use vstd::prelude::*;
use vstd::utf8::encode_utf8;

use crate::config::Config;
use crate::text::{decimal, push_char, push_decimal, str_eq};

verus! {

broadcast use vstd::string::group_string_axioms;

/// Where the Codex app-server of a session runs.
#[derive(Debug)]
pub struct SandboxRecord {
    /// The backend that runs it: `lxc`, `docker` or `dev-local`.
    pub provider: String,
    /// The sandbox's name.
    pub name: String,
    /// WebSocket URL of the Codex app-server.
    pub codex_ws_url: String,
}

impl SandboxRecord {
    /// A copy of this record.
    pub fn duplicate(&self) -> (r: SandboxRecord)
        ensures
            r == *self,
    {
        SandboxRecord {
            provider: self.provider.clone(),
            name: self.name.clone(),
            codex_ws_url: self.codex_ws_url.clone(),
        }
    }
}

/// Creates and starts the sandboxes of sessions, as the configuration says.
pub struct SandboxManager {
    /// The service configuration.
    pub config: Arc<Config>,
}

impl SandboxManager {
    /// A manager for the given configuration.
    pub fn new(config: Arc<Config>) -> (m: SandboxManager)
        ensures
            m.config == config,
    {
        SandboxManager { config }
    }
}

/// The SHA-256 digest of `data`, as `sha2` computes it.
pub uninterp spec fn sha256_digest(data: Seq<u8>) -> Seq<u8>;

/// `sha2::Sha256::digest`: the 32-byte SHA-256 digest of `data`. The contract
/// names the digest without stating it; it claims only that the result depends
/// on `data` alone and has the 32 bytes of SHA-256's output size.
#[verifier::external_body]
fn sha256(data: &[u8]) -> (d: Vec<u8>)
    ensures
        d@ == sha256_digest(data@),
        d@.len() == 32,
{
    sha2::Sha256::digest(data).to_vec()
}

/// The lower-case hexadecimal digit for `d` (below 16).
pub open spec fn hex_digit(d: nat) -> char {
    if d < 10 {
        ((48 + d) as u8) as char
    } else {
        ((87 + d) as u8) as char
    }
}

/// Whether `c` is a lower-case hexadecimal digit.
pub open spec fn is_hex_digit(c: char) -> bool {
    ('0' <= c && c <= '9') || ('a' <= c && c <= 'f')
}

/// The value of the lower-case hexadecimal digit `c`.
pub open spec fn hex_digit_value(c: char) -> nat {
    if c <= '9' {
        ((c as u32) - 48) as nat
    } else {
        ((c as u32) - 87) as nat
    }
}

/// Two lower-case hexadecimal digits per byte, high nibble first (`{:02x}` for each byte).
pub open spec fn hex_lower(bytes: Seq<u8>) -> Seq<char>
    decreases bytes.len(),
{
    if bytes.len() == 0 {
        Seq::empty()
    } else {
        hex_lower(bytes.drop_last()) + seq![
            hex_digit(bytes.last() as nat / 16),
            hex_digit(bytes.last() as nat % 16),
        ]
    }
}

/// The number written by the hexadecimal digits `s`.
pub open spec fn hex_value(s: Seq<char>) -> nat
    decreases s.len(),
{
    if s.len() == 0 {
        0
    } else {
        hex_value(s.drop_last()) * 16 + hex_digit_value(s.last())
    }
}

/// The short hash of a session id: the first 8 bytes of the SHA-256 digest of
/// its UTF-8 bytes, in lower-case hexadecimal.
pub open spec fn short_hash_of(id: Seq<char>) -> Seq<char> {
    hex_lower(sha256_digest(encode_utf8(id)).take(8))
}

/// The short hash of `value`: 16 lower-case hexadecimal digits.
pub fn short_hash(value: &str) -> (h: String)
    ensures
        h@ == short_hash_of(value@),
        h@.len() == 16,
        forall|i: int| 0 <= i < h@.len() ==> is_hex_digit(#[trigger] h@[i]),
{
    let digest = sha256(value.as_bytes());
    let mut h = String::new();
    let mut i: usize = 0;
    while i < 8
        invariant
            i <= 8,
            digest@.len() == 32,
            digest@ == sha256_digest(encode_utf8(value@)),
            h@ == hex_lower(digest@.take(i as int)),
            h@.len() == 2 * i,
            forall|j: int| 0 <= j < h@.len() ==> is_hex_digit(#[trigger] h@[j]),
        decreases 8 - i,
    {
        let b = digest[i];
        let hi: u8 = b / 16;
        let lo: u8 = b % 16;
        let c1 = if hi < 10 {
            (48u8 + hi) as char
        } else {
            (87u8 + hi) as char
        };
        let c2 = if lo < 10 {
            (48u8 + lo) as char
        } else {
            (87u8 + lo) as char
        };
        push_char(&mut h, c1);
        push_char(&mut h, c2);
        assert(digest@.take(i + 1).drop_last() =~= digest@.take(i as int));
        i = i + 1;
    }
    h
}

/// Name of the LXC sandbox of a session: the configured prefix, `-`, and the
/// short hash of the session id.
pub open spec fn lxc_sandbox_name(prefix: Seq<char>, session_id: Seq<char>) -> Seq<char> {
    prefix + seq!['-'] + short_hash_of(session_id)
}

/// Name of the `dev-local` sandbox of a session: `dev-local-` and the short
/// hash of the session id.
pub open spec fn dev_local_sandbox_name(session_id: Seq<char>) -> Seq<char> {
    "dev-local-"@ + short_hash_of(session_id)
}

/// Text of the Codex `config.toml` of a sandbox: the model `model`, served by
/// OpenRouter's free tier through its responses API.
pub open spec fn codex_config_text(model: Seq<char>) -> Seq<char> {
    "model = \""@ + model + CODEX_CONFIG_TAIL@
}

/// Everything of the Codex configuration that follows the model name.
pub const CODEX_CONFIG_TAIL: &'static str = "\"\nmodel_provider = \"openrouter\"\napproval_policy = \"on-request\"\nsandbox_mode = \"danger-full-access\"\nmodel_reasoning_effort = \"medium\"\n\n[model_providers.openrouter]\nname = \"OpenRouter\"\nbase_url = \"https://openrouter.ai/api/v1\"\nenv_key = \"OPENROUTER_API_KEY\"\nwire_api = \"responses\"\n";

/// The Codex `config.toml` of a sandbox whose model is `model`.
pub fn codex_config(model: &str) -> (t: String)
    ensures
        t@ == codex_config_text(model@),
{
    let mut t = String::new();
    t.append("model = \"");
    t.append(model);
    t.append(CODEX_CONFIG_TAIL);
    t
}

/// The characters of each string of `v`, in order.
pub open spec fn strings_view(v: Seq<String>) -> Seq<Seq<char>> {
    v.map_values(|s: String| s@)
}

/// A program to run and its arguments.
pub struct CommandSpec {
    /// The program.
    pub program: String,
    /// Its arguments, in order.
    pub args: Vec<String>,
}

impl CommandSpec {
    /// The program's characters and those of each argument.
    pub open spec fn view(&self) -> (Seq<char>, Seq<Seq<char>>) {
        (self.program@, strings_view(self.args@))
    }
}

/// An owned copy of `s`.
pub(crate) fn owned(s: &str) -> (r: String)
    ensures
        r@ == s@,
{
    s.to_owned()
}

/// Appends the string `s` to the argument list `args`.
fn push_arg(args: &mut Vec<String>, s: String)
    ensures
        strings_view(final(args)@) == strings_view(old(args)@).push(s@),
{
    args.push(s);
    assert(strings_view(args@) =~= strings_view(old(args)@).push(s@));
}

/// `ws://host:port`.
pub open spec fn ws_url(host: Seq<char>, port: u16) -> Seq<char> {
    "ws://"@ + host + seq![':'] + decimal(port as nat)
}

/// The string `ws://host:port`.
pub fn make_ws_url(host: &str, port: u16) -> (u: String)
    ensures
        u@ == ws_url(host@, port),
{
    let mut u = String::new();
    u.append("ws://");
    u.append(host);
    push_char(&mut u, ':');
    push_decimal(&mut u, port as u64);
    u
}

/// Arguments of `lxc info`, which succeeds exactly when the instance exists.
pub open spec fn lxc_info_args(name: Seq<char>, project: Seq<char>) -> Seq<Seq<char>> {
    seq!["info"@, name, "--project"@, project]
}

/// Arguments of `lxc launch`, which creates and starts the instance from the image.
pub open spec fn lxc_launch_args(image: Seq<char>, name: Seq<char>, project: Seq<char>) -> Seq<
    Seq<char>,
> {
    seq!["launch"@, image, name, "--project"@, project]
}

/// Arguments of `lxc start`, which starts an existing instance.
pub open spec fn lxc_start_args(name: Seq<char>, project: Seq<char>) -> Seq<Seq<char>> {
    seq!["start"@, name, "--project"@, project]
}

/// Arguments of `lxc list` with JSON output, which describes the instance.
pub open spec fn lxc_list_args(name: Seq<char>, project: Seq<char>) -> Seq<Seq<char>> {
    seq!["list"@, name, "--project"@, project, "--format"@, "json"@]
}

/// Arguments of `lxc exec` that runs the start script of the Codex app-server
/// in the instance, with the OpenRouter key in its environment.
pub open spec fn lxc_exec_codex_args(
    name: Seq<char>,
    project: Seq<char>,
    api_key: Seq<char>,
    script: Seq<char>,
) -> Seq<Seq<char>> {
    seq![
        "exec"@,
        name,
        "--project"@,
        project,
        "--env"@,
        "OPENROUTER_API_KEY="@ + api_key,
        "--"@,
        "sh"@,
        "-lc"@,
        script,
    ]
}

/// Start of the script that starts Codex in an LXC sandbox, up to the first
/// listen address.
pub const CODEX_SCRIPT_HEAD: &'static str = "set -eu\nmkdir -p /home/codex/workspace /home/codex/.codex\nchown -R codex:users /home/codex\nif ! pgrep -u codex -f 'codex app-server --listen ";

/// The script between the two listen addresses.
pub const CODEX_SCRIPT_MIDDLE: &'static str = "' >/dev/null 2>&1; then\n  sudo -H -u codex env CODEX_HOME=/home/codex/.codex OPENROUTER_API_KEY=\"$OPENROUTER_API_KEY\" \\\n    sh -lc 'cd /home/codex/workspace && nohup codex app-server --listen ";

/// The script after the second listen address.
pub const CODEX_SCRIPT_TAIL: &'static str = " > /home/codex/codex-app-server.log 2>&1 &'\nfi\n";

/// The shell script that prepares the Codex user's home and, unless an
/// app-server already listens on `listen`, starts one there in the background.
pub open spec fn codex_start_script(listen: Seq<char>) -> Seq<char> {
    CODEX_SCRIPT_HEAD@ + listen + CODEX_SCRIPT_MIDDLE@ + listen + CODEX_SCRIPT_TAIL@
}

impl SandboxManager {
    /// `lxc` with the given arguments.
    pub open spec fn lxc_command(&self, args: Seq<Seq<char>>) -> (Seq<char>, Seq<Seq<char>>) {
        (self.config.lxc_bin@, args)
    }

    /// The `lxc info` command for the instance `name`.
    pub fn lxc_info_command(&self, name: &str) -> (c: CommandSpec)
        ensures
            c.view() == self.lxc_command(lxc_info_args(name@, self.config.lxc_project@)),
    {
        let mut args: Vec<String> = Vec::new();
        push_arg(&mut args, owned("info"));
        push_arg(&mut args, owned(name));
        push_arg(&mut args, owned("--project"));
        push_arg(&mut args, self.config.lxc_project.clone());
        assert(strings_view(args@) =~= lxc_info_args(name@, self.config.lxc_project@));
        CommandSpec { program: self.config.lxc_bin.clone(), args }
    }

    /// The `lxc launch` command that creates the instance `name` from the configured image.
    pub fn lxc_launch_command(&self, name: &str) -> (c: CommandSpec)
        ensures
            c.view() == self.lxc_command(
                lxc_launch_args(self.config.lxc_image@, name@, self.config.lxc_project@),
            ),
    {
        let mut args: Vec<String> = Vec::new();
        push_arg(&mut args, owned("launch"));
        push_arg(&mut args, self.config.lxc_image.clone());
        push_arg(&mut args, owned(name));
        push_arg(&mut args, owned("--project"));
        push_arg(&mut args, self.config.lxc_project.clone());
        assert(strings_view(args@) =~= lxc_launch_args(
            self.config.lxc_image@,
            name@,
            self.config.lxc_project@,
        ));
        CommandSpec { program: self.config.lxc_bin.clone(), args }
    }

    /// The `lxc start` command for the instance `name`.
    pub fn lxc_start_command(&self, name: &str) -> (c: CommandSpec)
        ensures
            c.view() == self.lxc_command(lxc_start_args(name@, self.config.lxc_project@)),
    {
        let mut args: Vec<String> = Vec::new();
        push_arg(&mut args, owned("start"));
        push_arg(&mut args, owned(name));
        push_arg(&mut args, owned("--project"));
        push_arg(&mut args, self.config.lxc_project.clone());
        assert(strings_view(args@) =~= lxc_start_args(name@, self.config.lxc_project@));
        CommandSpec { program: self.config.lxc_bin.clone(), args }
    }

    /// The `lxc list` command that describes the instance `name` in JSON.
    pub fn lxc_list_command(&self, name: &str) -> (c: CommandSpec)
        ensures
            c.view() == self.lxc_command(lxc_list_args(name@, self.config.lxc_project@)),
    {
        let mut args: Vec<String> = Vec::new();
        push_arg(&mut args, owned("list"));
        push_arg(&mut args, owned(name));
        push_arg(&mut args, owned("--project"));
        push_arg(&mut args, self.config.lxc_project.clone());
        push_arg(&mut args, owned("--format"));
        push_arg(&mut args, owned("json"));
        assert(strings_view(args@) =~= lxc_list_args(name@, self.config.lxc_project@));
        CommandSpec { program: self.config.lxc_bin.clone(), args }
    }

    /// The address the Codex app-server listens on inside a sandbox.
    pub open spec fn codex_listen(&self) -> Seq<char> {
        ws_url(self.config.codex_app_listen@, self.config.codex_app_port)
    }

    /// The `lxc exec` command that starts the Codex app-server in the instance
    /// `name`, handing it `api_key`.
    pub fn lxc_exec_codex_command(&self, name: &str, api_key: &str) -> (c: CommandSpec)
        ensures
            c.view() == self.lxc_command(
                lxc_exec_codex_args(
                    name@,
                    self.config.lxc_project@,
                    api_key@,
                    codex_start_script(self.codex_listen()),
                ),
            ),
    {
        let listen = make_ws_url(self.config.codex_app_listen.as_str(), self.config.codex_app_port);
        let mut script = String::new();
        script.append(CODEX_SCRIPT_HEAD);
        script.append(listen.as_str());
        script.append(CODEX_SCRIPT_MIDDLE);
        script.append(listen.as_str());
        script.append(CODEX_SCRIPT_TAIL);
        let mut env = String::new();
        env.append("OPENROUTER_API_KEY=");
        env.append(api_key);
        let mut args: Vec<String> = Vec::new();
        push_arg(&mut args, owned("exec"));
        push_arg(&mut args, owned(name));
        push_arg(&mut args, owned("--project"));
        push_arg(&mut args, self.config.lxc_project.clone());
        push_arg(&mut args, owned("--env"));
        push_arg(&mut args, env);
        push_arg(&mut args, owned("--"));
        push_arg(&mut args, owned("sh"));
        push_arg(&mut args, owned("-lc"));
        push_arg(&mut args, script);
        assert(strings_view(args@) =~= lxc_exec_codex_args(
            name@,
            self.config.lxc_project@,
            api_key@,
            codex_start_script(self.codex_listen()),
        ));
        CommandSpec { program: self.config.lxc_bin.clone(), args }
    }
}

/// One address of a network interface, as `lxc list --format json` reports it.
pub struct LxcAddress {
    /// Address family, such as `inet` or `inet6`.
    pub family: String,
    /// The address.
    pub address: String,
    /// Its scope, such as `global` or `link`, when reported.
    pub scope: Option<String>,
}

/// One network interface of an instance.
pub struct LxcNetwork {
    /// Its addresses, in the order reported.
    pub addresses: Vec<LxcAddress>,
}

/// One instance, as `lxc list --format json` reports it.
pub struct LxcInstance {
    /// Its status, such as `Running` or `Stopped`, when reported.
    pub status: Option<String>,
    /// Its network interfaces, in the order they are handed over, when reported.
    pub network: Option<Vec<LxcNetwork>>,
}

/// The status of the first instance listed, or `Unknown` when there is none
/// or it reports no status.
pub open spec fn status_of(instances: Seq<LxcInstance>) -> Seq<char> {
    if instances.len() > 0 && instances[0].status is Some {
        instances[0].status->0@
    } else {
        "Unknown"@
    }
}

/// The status of the first instance in `instances`.
pub fn instance_status(instances: &Vec<LxcInstance>) -> (s: String)
    ensures
        s@ == status_of(instances@),
{
    if instances.len() > 0 {
        match &instances[0].status {
            Some(st) => {
                return st.clone();
            },
            None => {},
        }
    }
    owned("Unknown")
}

/// An IPv4 address of global scope.
pub open spec fn is_global_inet(a: LxcAddress) -> bool {
    &&& a.family@ == "inet"@
    &&& a.scope matches Some(sc) && sc@ == "global"@
}

/// The first global IPv4 address among `addrs`.
pub open spec fn first_global_inet(addrs: Seq<LxcAddress>) -> Option<Seq<char>>
    decreases addrs.len(),
{
    if addrs.len() == 0 {
        None
    } else if is_global_inet(addrs[0]) {
        Some(addrs[0].address@)
    } else {
        first_global_inet(addrs.drop_first())
    }
}

/// The first global IPv4 address of the first interface, among `nets`, that has one.
pub open spec fn first_network_inet(nets: Seq<LxcNetwork>) -> Option<Seq<char>>
    decreases nets.len(),
{
    if nets.len() == 0 {
        None
    } else {
        match first_global_inet(nets[0].addresses@) {
            Some(a) => Some(a),
            None => first_network_inet(nets.drop_first()),
        }
    }
}

/// The global IPv4 address of the first instance listed, if it has one.
pub open spec fn address_of(instances: Seq<LxcInstance>) -> Option<Seq<char>> {
    if instances.len() == 0 {
        None
    } else {
        match instances[0].network {
            Some(nets) => first_network_inet(nets@),
            None => None,
        }
    }
}

/// Whether `a` is a global IPv4 address.
fn address_is_global_inet(a: &LxcAddress) -> (b: bool)
    ensures
        b == is_global_inet(*a),
{
    str_eq(a.family.as_str(), "inet") && match &a.scope {
        Some(sc) => str_eq(sc.as_str(), "global"),
        None => false,
    }
}

/// The first global IPv4 address among `addrs`.
fn first_global_inet_address(addrs: &Vec<LxcAddress>) -> (r: Option<String>)
    ensures
        match r {
            Some(a) => first_global_inet(addrs@) == Some(a@),
            None => first_global_inet(addrs@) is None,
        },
{
    let mut i: usize = 0;
    assert(addrs@.skip(0) =~= addrs@);
    while i < addrs.len()
        invariant
            i <= addrs.len(),
            first_global_inet(addrs@) == first_global_inet(addrs@.skip(i as int)),
        decreases addrs.len() - i,
    {
        assert(addrs@.skip(i as int)[0] == addrs@[i as int]);
        if address_is_global_inet(&addrs[i]) {
            return Some(addrs[i].address.clone());
        }
        assert(addrs@.skip(i as int).drop_first() =~= addrs@.skip(i + 1));
        i = i + 1;
    }
    None
}

/// The global IPv4 address of the first instance in `instances`, taking the
/// interfaces and their addresses in the order given.
pub fn instance_address(instances: &Vec<LxcInstance>) -> (r: Option<String>)
    ensures
        match r {
            Some(a) => address_of(instances@) == Some(a@),
            None => address_of(instances@) is None,
        },
{
    if instances.len() == 0 {
        return None;
    }
    let nets = match &instances[0].network {
        Some(nets) => nets,
        None => {
            return None;
        },
    };
    assert(instances@[0].network == Some(*nets));
    let mut i: usize = 0;
    assert(nets@.skip(0) =~= nets@);
    while i < nets.len()
        invariant
            i <= nets.len(),
            instances@.len() > 0,
            instances@[0].network == Some(*nets),
            first_network_inet(nets@) == first_network_inet(nets@.skip(i as int)),
        decreases nets.len() - i,
    {
        assert(nets@.skip(i as int)[0] == nets@[i as int]);
        match first_global_inet_address(&nets[i].addresses) {
            Some(a) => {
                assert(first_network_inet(nets@.skip(i as int)) == Some(a@));
                return Some(a);
            },
            None => {},
        }
        assert(nets@.skip(i as int).drop_first() =~= nets@.skip(i + 1));
        i = i + 1;
    }
    None
}

/// Port of a `dev-local` sandbox: the configured port plus the number written
/// by the first four digits of the short hash, modulo 1000, saturating at the
/// largest port.
pub open spec fn dev_local_port(base: u16, hash: Seq<char>) -> u16 {
    let p = base + hex_value(hash.take(4)) % 1000;
    if p > u16::MAX {
        u16::MAX
    } else {
        p as u16
    }
}

/// The port of the `dev-local` sandbox whose short hash is `hash`.
pub(crate) fn dev_local_port_of(base: u16, hash: &Vec<char>) -> (p: u16)
    requires
        hash@.len() >= 4,
        forall|i: int| 0 <= i < hash@.len() ==> is_hex_digit(#[trigger] hash@[i]),
    ensures
        p == dev_local_port(base, hash@),
{
    let mut v: u32 = 0;
    let mut i: usize = 0;
    while i < 4
        invariant
            i <= 4 <= hash@.len(),
            forall|j: int| 0 <= j < hash@.len() ==> is_hex_digit(#[trigger] hash@[j]),
            v == hex_value(hash@.take(i as int)),
            i == 0 ==> v < 1,
            i == 1 ==> v < 16,
            i == 2 ==> v < 256,
            i == 3 ==> v < 4096,
            i == 4 ==> v < 65536,
        decreases 4 - i,
    {
        let c = hash[i];
        let d: u32 = if c <= '9' {
            (c as u32) - 48
        } else {
            (c as u32) - 87
        };
        assert(hash@.take(i + 1).drop_last() =~= hash@.take(i as int));
        v = v * 16 + d;
        i = i + 1;
    }
    let offset: u16 = (v % 1000) as u16;
    base.saturating_add(offset)
}

/// A `dev-local` sandbox listens within 1000 ports above the configured port:
/// never below it, at most 999 above it, and never past the largest port.
pub proof fn lemma_dev_local_port_range(base: u16, hash: Seq<char>)
    ensures
        base <= dev_local_port(base, hash),
        dev_local_port(base, hash) <= base + 999,
{
}

/// The number that the bytes `bytes` write, most significant byte first.
pub open spec fn big_endian_value(bytes: Seq<u8>) -> nat
    decreases bytes.len(),
{
    if bytes.len() == 0 {
        0
    } else {
        big_endian_value(bytes.drop_last()) * 256 + bytes.last() as nat
    }
}

proof fn lemma_hex_digit_reads_back(d: nat)
    requires
        d < 16,
    ensures
        is_hex_digit(hex_digit(d)),
        hex_digit_value(hex_digit(d)) == d,
{
    if d < 10 {
        assert(hex_digit(d) as u32 == 48 + d);
    } else {
        assert(hex_digit(d) as u32 == 87 + d);
    }
}

proof fn lemma_hex_lower_join(a: Seq<u8>, b: Seq<u8>)
    ensures
        hex_lower(a + b) == hex_lower(a) + hex_lower(b),
    decreases b.len(),
{
    if b.len() == 0 {
        assert(a + b =~= a);
        assert(hex_lower(a) + hex_lower(b) =~= hex_lower(a));
    } else {
        assert((a + b).drop_last() =~= a + b.drop_last());
        assert((a + b).last() == b.last());
        lemma_hex_lower_join(a, b.drop_last());
    }
}

proof fn lemma_hex_lower_reads_back(bytes: Seq<u8>)
    ensures
        hex_lower(bytes).len() == 2 * bytes.len(),
        hex_value(hex_lower(bytes)) == big_endian_value(bytes),
    decreases bytes.len(),
{
    if bytes.len() > 0 {
        let x = bytes.last() as nat;
        let s = hex_lower(bytes.drop_last());
        lemma_hex_lower_reads_back(bytes.drop_last());
        lemma_hex_digit_reads_back(x / 16);
        lemma_hex_digit_reads_back(x % 16);
        let h = hex_lower(bytes);
        assert(h.drop_last() =~= s.push(hex_digit(x / 16)));
        assert(h.drop_last().drop_last() =~= s);
        let v = hex_value(s);
        assert(h.last() == hex_digit(x % 16));
        assert(h.drop_last().last() == hex_digit(x / 16));
        assert(hex_value(h.drop_last()) == v * 16 + x / 16);
        assert(hex_value(h) == (v * 16 + x / 16) * 16 + x % 16);
        assert((v * 16 + x / 16) * 16 + x % 16 == v * 256 + x) by (nonlinear_arith)
            requires
                x < 256,
        ;
    }
}

/// The port of a `dev-local` sandbox reads the hash as the SHA-256 digest it
/// was written from: for a short hash spelled from the bytes `bytes` (two
/// digits per byte), the port is the configured port plus the number that
/// the first two bytes write, modulo 1000, saturating at the largest port.
pub proof fn lemma_dev_local_port_from_bytes(base: u16, bytes: Seq<u8>)
    requires
        bytes.len() >= 2,
    ensures
        dev_local_port(base, hex_lower(bytes)) as int == if base + (bytes[0] * 256 + bytes[1]) % 1000
            > u16::MAX {
            u16::MAX as int
        } else {
            base + (bytes[0] * 256 + bytes[1]) % 1000
        },
{
    let head = bytes.take(2);
    assert(bytes =~= head + bytes.skip(2));
    lemma_hex_lower_join(head, bytes.skip(2));
    lemma_hex_lower_reads_back(head);
    assert(hex_lower(bytes).take(4) =~= hex_lower(head));
    assert(head.drop_last() =~= seq![bytes[0]]);
    assert(head.drop_last().drop_last() =~= Seq::<u8>::empty());
    let first = head.drop_last();
    assert(first.len() == 1 && first.last() == bytes[0]);
    assert(first.drop_last() =~= Seq::<u8>::empty());
    assert(big_endian_value(first.drop_last()) == 0);
    assert(big_endian_value(first) == bytes[0]);
    assert(head.last() == bytes[1]);
    assert(big_endian_value(head) == bytes[0] * 256 + bytes[1]);
}

/// Whether the address `a` reports the scope `scope`.
pub open spec fn has_scope(a: LxcAddress, scope: Seq<char>) -> bool {
    match a.scope {
        Some(sc) => sc@ == scope,
        None => false,
    }
}

/// Interface `j` of the first instance in `instances` has, as its address
/// `k`, an IPv4 address (family `inet`) of scope `global`.
pub open spec fn reports_global_ipv4(instances: Seq<LxcInstance>, j: int, k: int) -> bool {
    &&& instances.len() > 0
    &&& instances[0].network is Some
    &&& 0 <= j < instances[0].network->0@.len()
    &&& 0 <= k < instances[0].network->0@[j].addresses@.len()
    &&& instances[0].network->0@[j].addresses@[k].family@ == "inet"@ && has_scope(instances[0].network->0@[j].addresses@[k], "global"@)
}

proof fn lemma_first_global_inet_found(addrs: Seq<LxcAddress>)
    ensures
        (exists|k: int| 0 <= k < addrs.len() && #[trigger] addrs[k].family@ == "inet"@ && has_scope(#[trigger] addrs[k], "global"@)) ==> first_global_inet(addrs) is Some,
        first_global_inet(addrs) matches Some(a) ==> exists|k: int|
            0 <= k < addrs.len() && #[trigger] addrs[k].family@ == "inet"@ && has_scope(#[trigger] addrs[k], "global"@) && addrs[k].address@ == a,
    decreases addrs.len(),
{
    if addrs.len() > 0 {
        lemma_first_global_inet_found(addrs.drop_first());
        if exists|k: int| 0 <= k < addrs.len() && #[trigger] addrs[k].family@ == "inet"@ && has_scope(#[trigger] addrs[k], "global"@) {
            let k = choose|k: int| 0 <= k < addrs.len() && #[trigger] addrs[k].family@ == "inet"@ && has_scope(#[trigger] addrs[k], "global"@);
            if k > 0 {
                assert(addrs.drop_first()[k - 1] == addrs[k]);
            }
        }
        if let Some(a) = first_global_inet(addrs.drop_first()) {
            if !is_global_inet(addrs[0]) {
                let k = choose|k: int|
                    0 <= k < addrs.drop_first().len() && #[trigger] addrs.drop_first()[k].family@ == "inet"@ && has_scope(#[trigger] addrs.drop_first()[k], "global"@)
                        && addrs.drop_first()[k].address@ == a;
                assert(addrs[k + 1] == addrs.drop_first()[k]);
            }
        }
    }
}

proof fn lemma_first_network_inet_found(nets: Seq<LxcNetwork>)
    ensures
        (exists|j: int, k: int|
            0 <= j < nets.len() && 0 <= k < nets[j].addresses@.len() && #[trigger] nets[j].addresses@[k].family@ == "inet"@ && has_scope(#[trigger] nets[j].addresses@[k], "global"@))
            ==> first_network_inet(nets) is Some,
        first_network_inet(nets) matches Some(a) ==> exists|j: int, k: int|
            0 <= j < nets.len() && 0 <= k < nets[j].addresses@.len() && #[trigger] nets[j].addresses@[k].family@ == "inet"@ && has_scope(#[trigger] nets[j].addresses@[k], "global"@)
                && nets[j].addresses@[k].address@ == a,
    decreases nets.len(),
{
    if nets.len() > 0 {
        lemma_first_network_inet_found(nets.drop_first());
        lemma_first_global_inet_found(nets[0].addresses@);
        if exists|j: int, k: int|
            0 <= j < nets.len() && 0 <= k < nets[j].addresses@.len() && #[trigger] nets[j].addresses@[k].family@ == "inet"@ && has_scope(#[trigger] nets[j].addresses@[k], "global"@) {
            let (j, k) = choose|j: int, k: int|
                0 <= j < nets.len() && 0 <= k < nets[j].addresses@.len() && #[trigger] nets[j].addresses@[k].family@ == "inet"@ && has_scope(#[trigger] nets[j].addresses@[k], "global"@);
            if j > 0 {
                assert(nets.drop_first()[j - 1] == nets[j]);
            } else {
                assert(nets[0].addresses@[k] == nets[0].addresses@[k]);
            }
        }
        if first_global_inet(nets[0].addresses@) is None {
            if let Some(a) = first_network_inet(nets.drop_first()) {
                let (j, k) = choose|j: int, k: int|
                    0 <= j < nets.drop_first().len() && 0 <= k < nets.drop_first()[j].addresses@.len()
                        && #[trigger] nets.drop_first()[j].addresses@[k].family@ == "inet"@ && has_scope(#[trigger] nets.drop_first()[j].addresses@[k], "global"@)
                        && nets.drop_first()[j].addresses@[k].address@ == a;
                assert(nets[j + 1] == nets.drop_first()[j]);
            }
        }
    }
}

/// An instance's IPv4 address is found wherever it stands: when any
/// interface of the first instance listed has an IPv4 address of global scope,
/// an address is read, whatever the interface's position; and an address read
/// is always such an address of such an interface. When none has one, none
/// is read.
pub proof fn lemma_instance_address_found(instances: Seq<LxcInstance>)
    ensures
        (exists|j: int, k: int| reports_global_ipv4(instances, j, k)) <==> address_of(instances) is Some,
        address_of(instances) matches Some(a) ==> exists|j: int, k: int|
            #[trigger] reports_global_ipv4(instances, j, k)
                && instances[0].network->0@[j].addresses@[k].address@ == a,
{
    if instances.len() > 0 {
        if let Some(nets) = instances[0].network {
            lemma_first_network_inet_found(nets@);
            if exists|j: int, k: int| reports_global_ipv4(instances, j, k) {
                let (j, k) = choose|j: int, k: int| reports_global_ipv4(instances, j, k);
                assert(nets@[j].addresses@[k] == nets@[j].addresses@[k]);
            }
            if let Some(a) = address_of(instances) {
                let (j, k) = choose|j: int, k: int|
                    0 <= j < nets@.len() && 0 <= k < nets@[j].addresses@.len()
                        && #[trigger] nets@[j].addresses@[k].family@ == "inet"@ && has_scope(#[trigger] nets@[j].addresses@[k], "global"@) && nets@[j].addresses@[k].address@ == a;
                assert(reports_global_ipv4(instances, j, k));
            }
        }
    }
}

/// The status read from `lxc list` is the first instance's own status, and
/// `Unknown` when there is no instance or it reports none.
pub proof fn lemma_instance_status(instances: Seq<LxcInstance>)
    ensures
        instances.len() > 0 && instances[0].status is Some ==> status_of(instances)
            == instances[0].status->0@,
        !(instances.len() > 0 && instances[0].status is Some) ==> status_of(instances)
            == "Unknown"@,
{
}

/// The Codex configuration of a sandbox names the model and routes it through
/// OpenRouter's free models: the whole text, for every model.
pub proof fn lemma_codex_config_text(model: Seq<char>)
    ensures
        codex_config_text(model) == "model = \""@ + model
            + "\"\nmodel_provider = \"openrouter\"\napproval_policy = \"on-request\"\nsandbox_mode = \"danger-full-access\"\nmodel_reasoning_effort = \"medium\"\n\n[model_providers.openrouter]\nname = \"OpenRouter\"\nbase_url = \"https://openrouter.ai/api/v1\"\nenv_key = \"OPENROUTER_API_KEY\"\nwire_api = \"responses\"\n"@,
{
}

} // verus!
