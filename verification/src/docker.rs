//! Docker sandboxes: the container a session runs in, the request that creates
//! it, and the host port read back from the Docker Engine.

use vstd::prelude::*;

use crate::sandbox::{owned, strings_view, SandboxManager};
use crate::text::{chars_of, decimal, push_char, push_decimal};

verus! {

broadcast use vstd::string::group_string_axioms;

/// A published port of a container, as the Docker Engine reports it when the
/// container is inspected.
pub struct DockerPortBinding {
    /// The container port and protocol, such as `4500/tcp`.
    pub container_port: String,
    /// The host address it is published on.
    pub host_ip: String,
    /// The host port, in decimal.
    pub host_port: String,
}

/// What inspecting a container tells.
pub struct DockerContainer {
    /// Whether the container runs.
    pub running: bool,
    /// Its published ports, in the order reported.
    pub ports: Vec<DockerPortBinding>,
}

/// A container to create: its name, image, environment and command, and the
/// container port to publish on a host port that Docker picks, on `host_ip`.
pub struct DockerCreate {
    /// The container's name.
    pub name: String,
    /// The image it runs.
    pub image: String,
    /// Its environment, as `NAME=value` entries.
    pub env: Vec<String>,
    /// The command it runs.
    pub cmd: Vec<String>,
    /// The container port to publish, such as `4500/tcp`.
    pub container_port: String,
    /// The host address to publish it on.
    pub host_ip: String,
}

/// Docker's name for the TCP port `port` of a container: `port/tcp`.
pub open spec fn tcp_port_key(port: u16) -> Seq<char> {
    decimal(port as nat) + "/tcp"@
}

/// The string `port/tcp`.
pub fn make_tcp_port_key(port: u16) -> (k: String)
    ensures
        k@ == tcp_port_key(port),
{
    let mut k = String::new();
    push_decimal(&mut k, port as u64);
    k.append("/tcp");
    k
}

/// Whether `c` is an ASCII decimal digit.
pub open spec fn is_decimal_digit(c: char) -> bool {
    '0' <= c && c <= '9'
}

/// The number written by the decimal digits `s`.
pub open spec fn decimal_value(s: Seq<char>) -> nat
    decreases s.len(),
{
    if s.len() == 0 {
        0
    } else {
        decimal_value(s.drop_last()) * 10 + ((s.last() as u32) - 48) as nat
    }
}

/// The port written by `s`: one or more decimal digits whose value is at most 65535.
pub open spec fn parse_port(s: Seq<char>) -> Option<u16> {
    if s.len() > 0 && (forall|i: int| 0 <= i < s.len() ==> is_decimal_digit(#[trigger] s[i]))
        && decimal_value(s) <= u16::MAX {
        Some(decimal_value(s) as u16)
    } else {
        None
    }
}

proof fn lemma_decimal_value_grows(s: Seq<char>, i: int)
    requires
        0 <= i <= s.len(),
    ensures
        decimal_value(s.take(i)) <= decimal_value(s),
    decreases s.len() - i,
{
    if i < s.len() {
        lemma_decimal_value_grows(s, i + 1);
        assert(s.take(i + 1).drop_last() =~= s.take(i));
    } else {
        assert(s.take(i) =~= s);
    }
}

proof fn lemma_decimal_reads_back(n: nat)
    ensures
        decimal(n).len() > 0,
        forall|i: int| 0 <= i < decimal(n).len() ==> is_decimal_digit(#[trigger] decimal(n)[i]),
        decimal_value(decimal(n)) == n,
    decreases n,
{
    let d = n % 10;
    assert(crate::text::digit_char(d) as u32 == 48 + d);
    assert(decimal(n).last() == crate::text::digit_char(d));
    if n < 10 {
        assert(decimal(n).drop_last() =~= Seq::<char>::empty());
        assert(decimal_value(decimal(n)) == decimal_value(Seq::<char>::empty()) * 10 + d);
    } else {
        lemma_decimal_reads_back(n / 10);
        assert(decimal(n).drop_last() =~= decimal(n / 10));
        assert(forall|i: int| 0 <= i < decimal(n / 10).len() ==> decimal(n)[i] == decimal(n / 10)[i]);
        assert(decimal_value(decimal(n)) == (n / 10) * 10 + d);
        assert((n / 10) * 10 + n % 10 == n) by (nonlinear_arith);
    }
}

/// A port written in decimal reads back as the same port: what
/// `port/tcp` names is the port it was written from, and a host port that
/// the Docker Engine reports in decimal is read as that very port.
pub proof fn lemma_port_reads_back(port: u16)
    ensures
        parse_port(decimal(port as nat)) == Some(port),
{
    lemma_decimal_reads_back(port as nat);
}

/// The port written by `s`, if it is one.
pub fn port_from_str(s: &str) -> (r: Option<u16>)
    ensures
        r == parse_port(s@),
{
    let v = chars_of(s);
    if v.len() == 0 {
        return None;
    }
    let mut value: u32 = 0;
    let mut i: usize = 0;
    while i < v.len()
        invariant
            v@ == s@,
            i <= v.len(),
            value == decimal_value(v@.take(i as int)),
            value <= u16::MAX,
            forall|j: int| 0 <= j < i ==> is_decimal_digit(#[trigger] v@[j]),
        decreases v.len() - i,
    {
        let c = v[i];
        if !('0' <= c && c <= '9') {
            return None;
        }
        assert(v@.take(i + 1).drop_last() =~= v@.take(i as int));
        value = value * 10 + ((c as u32) - 48);
        i = i + 1;
        if value > 65535 {
            proof {
                lemma_decimal_value_grows(v@, i as int);
            }
            return None;
        }
    }
    assert(v@.take(v.len() as int) =~= v@);
    Some(value as u16)
}

/// The host port of the first binding among `ports` that publishes the
/// container port `key` on a well-formed host port.
pub open spec fn first_published_port(ports: Seq<DockerPortBinding>, key: Seq<char>) -> Option<u16>
    decreases ports.len(),
{
    if ports.len() == 0 {
        None
    } else if ports[0].container_port@ == key && parse_port(ports[0].host_port@) is Some {
        parse_port(ports[0].host_port@)
    } else {
        first_published_port(ports.drop_first(), key)
    }
}

/// The host port that `container` publishes its TCP port `port` on, if any.
pub fn published_port(container: &DockerContainer, port: u16) -> (r: Option<u16>)
    ensures
        r == first_published_port(container.ports@, tcp_port_key(port)),
{
    let key = make_tcp_port_key(port);
    let ports = &container.ports;
    let mut i: usize = 0;
    assert(ports@.skip(0) =~= ports@);
    while i < ports.len()
        invariant
            i <= ports.len(),
            key@ == tcp_port_key(port),
            ports@ == container.ports@,
            first_published_port(ports@, key@) == first_published_port(ports@.skip(i as int), key@),
        decreases ports.len() - i,
    {
        assert(ports@.skip(i as int)[0] == ports@[i as int]);
        if crate::text::str_eq(ports[i].container_port.as_str(), key.as_str()) {
            let p = port_from_str(ports[i].host_port.as_str());
            if p.is_some() {
                assert(first_published_port(ports@.skip(i as int), key@) == p);
                return p;
            }
        }
        assert(ports@.skip(i as int).drop_first() =~= ports@.skip(i + 1));
        i = i + 1;
    }
    None
}

/// Name of the Docker container of a session: the configured prefix, `-`, and
/// the short hash of the session id.
pub open spec fn docker_container_name(prefix: Seq<char>, session_id: Seq<char>) -> Seq<char> {
    crate::sandbox::lxc_sandbox_name(prefix, session_id)
}

/// The message for an answer of the Docker Engine that the step did not want.
pub open spec fn docker_api_message(status: u16, message: Seq<char>) -> Seq<char> {
    "Docker API answered "@ + decimal(status as nat) + ": "@ + message
}

/// The string `Docker API answered status: message`.
pub fn make_docker_api_message(status: u16, message: &str) -> (m: String)
    ensures
        m@ == docker_api_message(status, message@),
{
    let mut m = owned("Docker API answered ");
    push_decimal(&mut m, status as u64);
    m.append(": ");
    m.append(message);
    m
}

impl SandboxManager {
    /// The container that runs the Codex app-server of a session: the
    /// configured image, the OpenRouter key in its environment, the command
    /// `codex app-server --listen` on the configured listen address, and the
    /// app-server's port published on the configured host address.
    pub open spec fn docker_create_spec(&self, c: DockerCreate, name: Seq<char>, api_key: Seq<char>) -> bool {
        &&& c.name@ == name
        &&& c.image@ == self.config.docker_image@
        &&& strings_view(c.env@) == seq!["OPENROUTER_API_KEY="@ + api_key]
        &&& strings_view(c.cmd@) == seq!["codex"@, "app-server"@, "--listen"@, self.codex_listen()]
        &&& c.container_port@ == tcp_port_key(self.config.codex_app_port)
        &&& c.host_ip@ == self.config.docker_host_bind_ip@
    }

    /// The container to create for the sandbox `name`, handing it `api_key`.
    pub fn docker_create(&self, name: &str, api_key: &str) -> (c: DockerCreate)
        ensures
            self.docker_create_spec(c, name@, api_key@),
    {
        let mut key_entry = owned("OPENROUTER_API_KEY=");
        key_entry.append(api_key);
        let mut env: Vec<String> = Vec::new();
        env.push(key_entry);
        assert(strings_view(env@) =~= seq!["OPENROUTER_API_KEY="@ + api_key@]);
        let listen = crate::sandbox::make_ws_url(
            self.config.codex_app_listen.as_str(),
            self.config.codex_app_port,
        );
        let mut cmd: Vec<String> = Vec::new();
        cmd.push(owned("codex"));
        cmd.push(owned("app-server"));
        cmd.push(owned("--listen"));
        cmd.push(listen);
        assert(strings_view(cmd@) =~= seq!["codex"@, "app-server"@, "--listen"@, self.codex_listen()]);
        DockerCreate {
            name: owned(name),
            image: self.config.docker_image.clone(),
            env,
            cmd,
            container_port: make_tcp_port_key(self.config.codex_app_port),
            host_ip: self.config.docker_host_bind_ip.clone(),
        }
    }
}

/// The head of an HTTP/1.0 request to the Docker Engine: method, path, and a
/// JSON body of `body_len` bytes.
pub open spec fn http_request_head(method: Seq<char>, path: Seq<char>, body_len: nat) -> Seq<char> {
    method + seq![' '] + path + " HTTP/1.0\r\nHost: docker\r\nContent-Type: application/json\r\nContent-Length: "@
        + decimal(body_len) + "\r\n\r\n"@
}

/// The bytes of an HTTP/1.0 request `method path` to the Docker Engine with
/// the JSON body `body`: the UTF-8 head followed by the body.
pub fn http_request(method: &str, path: &str, body: &[u8]) -> (r: Vec<u8>)
    requires
        body@.len() <= u64::MAX,
    ensures
        r@ == vstd::utf8::encode_utf8(http_request_head(method@, path@, body@.len())) + body@,
{
    let mut head = String::new();
    head.append(method);
    push_char(&mut head, ' ');
    head.append(path);
    head.append(" HTTP/1.0\r\nHost: docker\r\nContent-Type: application/json\r\nContent-Length: ");
    push_decimal(&mut head, body.len() as u64);
    head.append("\r\n\r\n");
    assert(head@ =~= http_request_head(method@, path@, body@.len()));
    let mut r: Vec<u8> = Vec::new();
    r.extend_from_slice(head.as_str().as_bytes());
    r.extend_from_slice(body);
    r
}

/// Whether `b` holds an empty line, `\r\n\r\n`, at `i`.
pub open spec fn blank_line_at(b: Seq<u8>, i: int) -> bool {
    0 <= i && i + 4 <= b.len() && b[i] == 13 && b[i + 1] == 10 && b[i + 2] == 13 && b[i + 3] == 10
}

/// The first position, from `i` on, where `b` holds `\r\n\r\n`.
pub open spec fn first_blank_line_from(b: Seq<u8>, i: int) -> Option<int>
    decreases b.len() - i,
{
    if i < 0 || i + 4 > b.len() {
        None
    } else if blank_line_at(b, i) {
        Some(i)
    } else {
        first_blank_line_from(b, i + 1)
    }
}

/// The first position, from `i` on, where `b` holds a space.
pub open spec fn first_space_from(b: Seq<u8>, i: int) -> Option<int>
    decreases b.len() - i,
{
    if i < 0 || i >= b.len() {
        None
    } else if b[i] == 32 {
        Some(i)
    } else {
        first_space_from(b, i + 1)
    }
}

/// Whether `b` holds an ASCII digit at `i`.
pub open spec fn digit_at(b: Seq<u8>, i: int) -> bool {
    0 <= i < b.len() && 48 <= b[i] <= 57
}

/// An HTTP response `b` read to its end: it begins with `HTTP/`, its status is
/// the three digits after the first space of the head, and its body is all
/// that follows the first empty line. `None` when `b` is not such a response.
pub open spec fn http_response(b: Seq<u8>) -> Option<(u16, Seq<u8>)> {
    match (first_blank_line_from(b, 0), first_space_from(b, 0)) {
        (Some(h), Some(sp)) => if b.len() >= 5 && b[0] == 72 && b[1] == 84 && b[2] == 84 && b[3]
            == 80 && b[4] == 47 && sp + 4 <= h && digit_at(b, sp + 1) && digit_at(b, sp + 2)
            && digit_at(b, sp + 3) {
            Some(
                (
                    ((b[sp + 1] - 48) * 100 + (b[sp + 2] - 48) * 10 + (b[sp + 3] - 48)) as u16,
                    b.skip(h + 4),
                ),
            )
        } else {
            None
        },
        _ => None,
    }
}

/// The three ASCII digits of a status code from 100 to 999.
pub open spec fn status_digits(status: u16) -> Seq<u8> {
    seq![(48 + status / 100) as u8, (48 + (status / 10) % 10) as u8, (48 + status % 10) as u8]
}

/// The head of an HTTP response up to the empty line: `HTTP/`, the
/// version, a space, the status code, and the rest of the status line and
/// the header lines.
pub open spec fn response_head(version: Seq<u8>, status: u16, rest: Seq<u8>) -> Seq<u8> {
    seq![72u8, 84u8, 84u8, 80u8, 47u8] + version + seq![32u8] + status_digits(status) + rest
}

/// The empty line that ends the head of an HTTP message.
pub open spec fn crlf_crlf() -> Seq<u8> {
    seq![13u8, 10u8, 13u8, 10u8]
}

proof fn lemma_blank_line_found(b: Seq<u8>, head: Seq<u8>, i: int)
    requires
        0 <= i <= head.len(),
        b.len() >= head.len() + 4,
        b.subrange(0, head.len() + 4int) == head + crlf_crlf(),
        forall|j: int| 0 <= j < head.len() ==> !blank_line_at(head + crlf_crlf(), j),
    ensures
        first_blank_line_from(b, i) == Some(head.len() as int),
    decreases head.len() - i,
{
    let e = head + crlf_crlf();
    let n = head.len() as int;
    assert forall|j: int| 0 <= j < n + 4 implies b[j] == e[j] by {
        assert(b.subrange(0, n + 4)[j] == b[j]);
    }
    if i == n {
        assert(e[n] == 13 && e[n + 1] == 10 && e[n + 2] == 13 && e[n + 3] == 10);
        assert(blank_line_at(b, i));
    } else {
        assert(!blank_line_at(e, i));
        assert(b[i] == e[i] && b[i + 1] == e[i + 1] && b[i + 2] == e[i + 2] && b[i + 3] == e[i + 3]);
        assert(!blank_line_at(b, i));
        lemma_blank_line_found(b, head, i + 1);
    }
}

proof fn lemma_first_space_found(b: Seq<u8>, sp: int, i: int)
    requires
        0 <= i <= sp < b.len(),
        b[sp] == 32,
        forall|j: int| 0 <= j < sp ==> b[j] != 32,
    ensures
        first_space_from(b, i) == Some(sp),
    decreases sp - i,
{
    if i < sp {
        lemma_first_space_found(b, sp, i + 1);
    }
}

/// Reading a response of the Docker Engine: for a response whose head is
/// `HTTP/`, a version without spaces, a space, a status code from 100 to 999
/// and the rest of the head, and in which no empty line comes before the one
/// that ends the head, the status read is that code and the body read is
/// exactly all that follows the empty line, whatever it holds.
pub proof fn lemma_http_response_reads_status_and_body(
    version: Seq<u8>,
    status: u16,
    rest: Seq<u8>,
    body: Seq<u8>,
)
    requires
        100 <= status <= 999,
        !version.contains(32u8),
        forall|j: int|
            0 <= j < response_head(version, status, rest).len() ==> !#[trigger] blank_line_at(
                response_head(version, status, rest) + crlf_crlf(),
                j,
            ),
    ensures
        http_response(response_head(version, status, rest) + crlf_crlf() + body) == Some(
            (status, body),
        ),
{
    let head = response_head(version, status, rest);
    let b = head + crlf_crlf() + body;
    let n = head.len() as int;
    assert(b.subrange(0, n + 4) =~= head + crlf_crlf());
    lemma_blank_line_found(b, head, 0);
    let sp: int = 5 + version.len() as int;
    assert forall|j: int| 0 <= j < sp implies b[j] != 32 by {
        if j >= 5 {
            assert(b[j] == version[j - 5]);
            if version[j - 5] == 32 {
                assert(version.contains(32u8));
            }
        }
    }
    assert(b[sp] == 32);
    lemma_first_space_found(b, sp, 0);
    let d = status_digits(status);
    assert(b[sp + 1] == d[0] && b[sp + 2] == d[1] && b[sp + 3] == d[2]);
    assert(1 <= status / 100 <= 9);
    assert(0 <= (status / 10) % 10 <= 9);
    assert(0 <= status % 10 <= 9);
    assert((status / 100) * 100 + ((status / 10) % 10) * 10 + status % 10 == status) by (nonlinear_arith)
        requires
            100 <= status <= 999,
    ;
    assert(b.skip(n + 4) =~= body);
}

/// The status and body of the HTTP response `b`, read to its end.
pub fn parse_http_response(b: &[u8]) -> (r: Option<(u16, Vec<u8>)>)
    ensures
        match r {
            Some((status, body)) => http_response(b@) == Some((status, body@)),
            None => http_response(b@) is None,
        },
{
    let n = b.len();
    let mut h: usize = 0;
    while h < n && n - h >= 4 && !(b[h] == 13 && b[h + 1] == 10 && b[h + 2] == 13 && b[h + 3] == 10)
        invariant
            n == b@.len(),
            h <= n,
            first_blank_line_from(b@, 0) == first_blank_line_from(b@, h as int),
        decreases n - h,
    {
        h = h + 1;
    }
    if h >= n || n - h < 4 {
        return None;
    }
    let mut sp: usize = 0;
    while sp < n && b[sp] != 32
        invariant
            n == b@.len(),
            first_space_from(b@, 0) == first_space_from(b@, sp as int),
        decreases n - sp,
    {
        sp = sp + 1;
    }
    if sp >= n {
        return None;
    }
    if !(n >= 5 && b[0] == 72 && b[1] == 84 && b[2] == 84 && b[3] == 80 && b[4] == 47) {
        return None;
    }
    if !(sp < h && h - sp >= 4) {
        return None;
    }
    let d1 = b[sp + 1];
    let d2 = b[sp + 2];
    let d3 = b[sp + 3];
    if !(48 <= d1 && d1 <= 57 && 48 <= d2 && d2 <= 57 && 48 <= d3 && d3 <= 57) {
        return None;
    }
    let status: u16 = ((d1 - 48) as u16) * 100 + ((d2 - 48) as u16) * 10 + ((d3 - 48) as u16);
    let mut body: Vec<u8> = Vec::new();
    let mut i: usize = h + 4;
    while i < n
        invariant
            n == b@.len(),
            h + 4 <= i <= n,
            body@ == b@.subrange(h + 4, i as int),
        decreases n - i,
    {
        body.push(b[i]);
        i = i + 1;
        assert(body@ =~= b@.subrange(h + 4, i as int));
    }
    assert(body@ =~= b@.skip(h + 4));
    Some((status, body))
}

/// The message of an error answer of the Docker Engine: the `message` its JSON
/// body holds when it holds one, else the body's text trimmed.
pub open spec fn docker_error_text(message: Option<Seq<char>>, body_text: Seq<char>) -> Seq<char> {
    match message {
        Some(m) => m,
        None => crate::cookie::trim(body_text),
    }
}

/// The message of an error answer whose JSON `message` is `message` (if the
/// body holds one) and whose body reads `body_text`.
pub fn docker_error_message(message: Option<String>, body_text: &str) -> (m: String)
    ensures
        m@ == docker_error_text(
            match message {
                Some(x) => Some(x@),
                None => None,
            },
            body_text@,
        ),
{
    match message {
        Some(m) => m,
        None => crate::cookie::trim_text(body_text),
    }
}

} // verus!
