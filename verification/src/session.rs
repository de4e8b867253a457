//! Sessions of the web service: which session a request belongs to, which
//! sandbox serves it, and how its WebSocket is relayed to Codex.

use vstd::prelude::*;

use crate::config::Config;
use crate::cookie::{
    cookie_header, find_cookie, header_text, header_value_text, lemma_session_cookie_is_valid, new_session_id, opt_str_view,
    session_cookie, set_cookie_value, valid_session_id, SESSION_ID_LEN,
};
use crate::sandbox::{strings_view, SandboxRecord};
use crate::text::{decimal, push_decimal};

verus! {

broadcast use vstd::string::group_string_axioms;

/// The text of the `Cookie` header whose value is `value`, when there is one
/// and it is visible ASCII.
pub open spec fn cookie_header_text(value: Option<&[u8]>) -> Option<Seq<char>> {
    match value {
        Some(b) => header_text(b@),
        None => None,
    }
}

/// The session of a request and, when it starts a new one, the `Set-Cookie`
/// value to send back. A `Cookie` header value `cookie_header_value` that is
/// visible ASCII is read as text; the session id it presents under the
/// configured cookie name is kept as it is. Otherwise the request gets a fresh
/// id, stored by the returned cookie.
pub fn ensure_session(config: &Config, cookie_header_value: Option<&[u8]>) -> (r: (
    String,
    Option<String>,
))
    ensures
        valid_session_id(r.0@),
        match session_cookie(cookie_header_text(cookie_header_value), config.session_cookie@) {
            Some(id) => r.0@ == id && r.1 is None,
            None => {
                &&& r.0@.len() == SESSION_ID_LEN
                &&& r.1 matches Some(h) && h@ == set_cookie_value(
                    config.session_cookie@,
                    r.0@,
                    config.session_max_age_seconds,
                )
            },
        },
{
    let text = match cookie_header_value {
        Some(b) => header_value_text(b),
        None => None,
    };
    let header: Option<&str> = match &text {
        Some(t) => Some(t.as_str()),
        None => None,
    };
    assert(opt_str_view(header) == cookie_header_text(cookie_header_value));
    proof {
        lemma_session_cookie_is_valid(opt_str_view(header), config.session_cookie@);
    }
    match find_cookie(header, config.session_cookie.as_str()) {
        Some(id) => (id, None),
        None => {
            let id = new_session_id();
            let set = cookie_header(
                config.session_cookie.as_str(),
                id.as_str(),
                config.session_max_age_seconds,
            );
            (id, Some(set))
        },
    }
}

/// One entry of an error chain: its position, `: `, and the message.
pub open spec fn chain_entry(index: nat, message: Seq<char>) -> Seq<char> {
    decimal(index) + ": "@ + message
}

/// An error chain on one line: each message numbered from 0, outermost first,
/// joined by `; `.
pub open spec fn chain_line(chain: Seq<Seq<char>>) -> Seq<char>
    decreases chain.len(),
{
    if chain.len() == 0 {
        Seq::empty()
    } else if chain.len() == 1 {
        chain_entry(0, chain[0])
    } else {
        chain_line(chain.drop_last()) + "; "@ + chain_entry((chain.len() - 1) as nat, chain.last())
    }
}

/// The error chain `chain` (outermost first) on one line, as `0: a; 1: b`.
pub fn format_error_chain(chain: &Vec<String>) -> (line: String)
    ensures
        line@ == chain_line(strings_view(chain@)),
{
    let mut line = String::new();
    let mut i: usize = 0;
    while i < chain.len()
        invariant
            i <= chain.len(),
            line@ == chain_line(strings_view(chain@.take(i as int))),
        decreases chain.len() - i,
    {
        if i > 0 {
            line.append("; ");
        }
        push_decimal(&mut line, i as u64);
        line.append(": ");
        line.append(chain[i].as_str());
        proof {
            let before = strings_view(chain@.take(i as int));
            let after = strings_view(chain@.take(i + 1));
            assert(after.drop_last() =~= before);
            assert(after.last() == chain@[i as int]@);
        }
        i = i + 1;
    }
    assert(chain@.take(chain.len() as int) =~= chain@);
    line
}

/// The sandbox of each session, as an association of session ids to records.
pub struct SandboxRegistry {
    entries: Vec<(String, SandboxRecord)>,
}

/// The association that `entries` spell out, a later entry overriding an
/// earlier one for the same id.
pub open spec fn entries_map(entries: Seq<(String, SandboxRecord)>) -> Map<Seq<char>, SandboxRecord>
    decreases entries.len(),
{
    if entries.len() == 0 {
        Map::empty()
    } else {
        entries_map(entries.drop_last()).insert(entries.last().0@, entries.last().1)
    }
}

impl View for SandboxRegistry {
    type V = Map<Seq<char>, SandboxRecord>;

    closed spec fn view(&self) -> Map<Seq<char>, SandboxRecord> {
        entries_map(self.entries@)
    }
}

impl SandboxRegistry {
    /// A registry with no sandbox.
    pub fn new() -> (r: SandboxRegistry)
        ensures
            r@ == Map::<Seq<char>, SandboxRecord>::empty(),
    {
        SandboxRegistry { entries: Vec::new() }
    }

    /// The sandbox of the session `session_id`, if it has one.
    pub fn get(&self, session_id: &str) -> (r: Option<SandboxRecord>)
        ensures
            match r {
                Some(rec) => self@.contains_key(session_id@) && rec == self@[session_id@],
                None => !self@.contains_key(session_id@),
            },
    {
        let ghost key = session_id@;
        let mut i: usize = self.entries.len();
        assert(self.entries@.take(i as int) =~= self.entries@);
        while i > 0
            invariant
                i <= self.entries.len(),
                key == session_id@,
                entries_map(self.entries@.take(i as int)).contains_key(key) == self@.contains_key(
                    key,
                ),
                entries_map(self.entries@.take(i as int)).contains_key(key) ==> entries_map(
                    self.entries@.take(i as int),
                )[key] == self@[key],
            decreases i,
        {
            let ghost prefix = self.entries@.take(i as int);
            assert(prefix.drop_last() =~= self.entries@.take(i - 1));
            assert(prefix.last() == self.entries@[i - 1]);
            if crate::text::str_eq(self.entries[i - 1].0.as_str(), session_id) {
                return Some(self.entries[i - 1].1.duplicate());
            }
            i = i - 1;
        }
        None
    }

    /// Records `record` as the sandbox of the session `session_id`, replacing
    /// any earlier one.
    pub fn insert(&mut self, session_id: String, record: SandboxRecord)
        ensures
            final(self)@ == old(self)@.insert(session_id@, record),
    {
        self.entries.push((session_id, record));
        assert(self.entries@.drop_last() =~= old(self).entries@);
    }

    /// Keeps the outcome of bringing up the sandbox of `session_id`: a sandbox
    /// that came up is recorded as the session's and handed back; a failure is
    /// handed back and records nothing, so that a later request tries again.
    pub fn record_outcome(&mut self, session_id: String, outcome: Result<SandboxRecord, Vec<String>>) -> (r:
        Result<SandboxRecord, Vec<String>>)
        ensures
            r == outcome,
            match outcome {
                Ok(rec) => final(self)@ == old(self)@.insert(session_id@, rec),
                Err(_) => final(self)@ == old(self)@,
            },
    {
        match outcome {
            Ok(rec) => {
                let kept = rec.duplicate();
                self.insert(session_id, rec);
                Ok(kept)
            },
            Err(chain) => Err(chain),
        }
    }
}

/// Looking up a session right after recording its sandbox gives that sandbox,
/// and recording one session's sandbox leaves every other session's as it was:
/// for registries `before` and `after` where `after` is `before` once
/// `insert` recorded `record` for `id`.
pub proof fn lemma_registry_read_after_write(
    before: SandboxRegistry,
    after: SandboxRegistry,
    id: Seq<char>,
    record: SandboxRecord,
    other: Seq<char>,
)
    requires
        after@ == before@.insert(id, record),
        other != id,
    ensures
        after@.contains_key(id),
        after@[id] == record,
        after@.contains_key(other) == before@.contains_key(other),
        before@.contains_key(other) ==> after@[other] == before@[other],
{
}

/// HTTP status reported when the session's sandbox cannot be prepared.
pub const SERVICE_UNAVAILABLE: u16 = 503;

/// HTTP status reported when the Codex app-server cannot be reached.
pub const BAD_GATEWAY: u16 = 502;

/// The code and reason of a WebSocket close frame.
pub struct CloseFrame {
    /// The close code.
    pub code: u16,
    /// The reason given.
    pub reason: String,
}

/// A WebSocket message, on either side of the relay.
pub enum WsMessage {
    /// A text message.
    Text(String),
    /// A binary message.
    Binary(Vec<u8>),
    /// A ping with its payload.
    Ping(Vec<u8>),
    /// A pong with its payload.
    Pong(Vec<u8>),
    /// A close message, with its frame when one is given.
    Close(Option<CloseFrame>),
    /// A raw frame, which the Codex side may yield while a message is read.
    Frame,
}

/// Where the relay between the browser and the Codex app-server stands.
#[derive(PartialEq, Eq, Structural)]
pub enum ProxyPhase {
    /// The session's sandbox is being found or brought up.
    PreparingSandbox,
    /// The WebSocket to the app-server is being opened.
    Connecting,
    /// Messages are relayed both ways.
    Relaying,
    /// The relay is over.
    Closed,
}

/// What happened on the relay.
pub enum ProxyEvent {
    /// The session's sandbox is up.
    SandboxReady(SandboxRecord),
    /// The session's sandbox could not be brought up; the error chain, outermost first.
    SandboxFailed(Vec<String>),
    /// The WebSocket to the app-server is open.
    Connected,
    /// The WebSocket to the app-server could not be opened, for this reason.
    ConnectFailed(String),
    /// The browser sent a message.
    FromClient(WsMessage),
    /// The app-server sent a message.
    FromUpstream(WsMessage),
    /// The browser's stream ended.
    ClientEnded,
    /// The app-server's stream ended.
    UpstreamEnded,
    /// Reading from the browser failed, for this reason.
    ClientFailed(String),
    /// Reading from the app-server failed, for this reason.
    UpstreamFailed(String),
    /// Relaying a message failed, for this reason.
    SendFailed(String),
}

/// What the relay is to do next.
pub enum ProxyAction {
    /// Open a WebSocket to the app-server at this URL.
    Connect(String),
    /// Tell the browser the relay cannot start (a JSON message of type `error`
    /// with the status and message) and close its socket.
    Reject { status: u16, message: String },
    /// Send the message to the app-server.
    ToUpstream(WsMessage),
    /// Send the message to the browser.
    ToClient(WsMessage),
    /// Send the message to the app-server, whether or not that succeeds, and end the relay.
    ToUpstreamAndStop(WsMessage),
    /// Send the message to the browser, whether or not that succeeds, and end the relay.
    ToClientAndStop(WsMessage),
    /// Wait for the next message.
    Await,
    /// End the relay.
    Stop,
}

/// The error message shown for an error chain: its outermost message.
pub open spec fn outermost_message(chain: Seq<String>) -> Seq<char> {
    if chain.len() > 0 {
        chain[0]@
    } else {
        Seq::empty()
    }
}

/// One step of the relay: from `phase`, after `event`, the relay moves to
/// `next` and performs `action`. The sandbox comes first (a failure is
/// reported as unavailable), then the connection (a failure is reported as a
/// bad gateway); then every message is passed to the other side, except raw
/// frames, which are dropped, and close messages, which are passed on and end
/// the relay, as does the end of either stream or any failure. Any other event
/// ends the relay.
pub open spec fn proxy_transition(
    phase: ProxyPhase,
    event: ProxyEvent,
    next: ProxyPhase,
    action: ProxyAction,
) -> bool {
    match (phase, event) {
        (ProxyPhase::PreparingSandbox, ProxyEvent::SandboxReady(rec)) => {
            &&& next == ProxyPhase::Connecting
            &&& action == ProxyAction::Connect(rec.codex_ws_url)
        },
        (ProxyPhase::PreparingSandbox, ProxyEvent::SandboxFailed(chain)) => {
            &&& next == ProxyPhase::Closed
            &&& action matches ProxyAction::Reject { status, message } && status
                == SERVICE_UNAVAILABLE && message@ == outermost_message(chain@)
        },
        (ProxyPhase::Connecting, ProxyEvent::Connected) => {
            &&& next == ProxyPhase::Relaying
            &&& action == ProxyAction::Await
        },
        (ProxyPhase::Connecting, ProxyEvent::ConnectFailed(reason)) => {
            &&& next == ProxyPhase::Closed
            &&& action == (ProxyAction::Reject { status: BAD_GATEWAY, message: reason })
        },
        (ProxyPhase::Relaying, ProxyEvent::FromClient(m)) => match m {
            WsMessage::Close(f) => {
                &&& next == ProxyPhase::Closed
                &&& action == ProxyAction::ToUpstreamAndStop(WsMessage::Close(f))
            },
            WsMessage::Frame => {
                &&& next == ProxyPhase::Relaying
                &&& action == ProxyAction::Await
            },
            _ => {
                &&& next == ProxyPhase::Relaying
                &&& action == ProxyAction::ToUpstream(m)
            },
        },
        (ProxyPhase::Relaying, ProxyEvent::FromUpstream(m)) => match m {
            WsMessage::Close(f) => {
                &&& next == ProxyPhase::Closed
                &&& action == ProxyAction::ToClientAndStop(WsMessage::Close(f))
            },
            WsMessage::Frame => {
                &&& next == ProxyPhase::Relaying
                &&& action == ProxyAction::Await
            },
            _ => {
                &&& next == ProxyPhase::Relaying
                &&& action == ProxyAction::ToClient(m)
            },
        },
        _ => {
            &&& next == ProxyPhase::Closed
            &&& action == ProxyAction::Stop
        },
    }
}

/// Takes one step of the relay between the browser and the app-server.
pub fn proxy_step(phase: ProxyPhase, event: ProxyEvent) -> (r: (ProxyPhase, ProxyAction))
    ensures
        proxy_transition(phase, event, r.0, r.1),
        event matches ProxyEvent::FromUpstream(m) ==> (phase == ProxyPhase::Relaying && (m is Text
            || m is Binary || m is Ping || m is Pong) ==> r.0 == ProxyPhase::Relaying && r.1
            == ProxyAction::ToClient(m)),
        event matches ProxyEvent::FromClient(m) ==> (phase == ProxyPhase::Relaying && (m is Text
            || m is Binary || m is Ping || m is Pong) ==> r.0 == ProxyPhase::Relaying && r.1
            == ProxyAction::ToUpstream(m)),
{
    match phase {
        ProxyPhase::PreparingSandbox => match event {
            ProxyEvent::SandboxReady(rec) => (
                ProxyPhase::Connecting,
                ProxyAction::Connect(rec.codex_ws_url),
            ),
            ProxyEvent::SandboxFailed(chain) => {
                let message = if chain.len() > 0 {
                    chain[0].clone()
                } else {
                    String::new()
                };
                (ProxyPhase::Closed, ProxyAction::Reject { status: SERVICE_UNAVAILABLE, message })
            },
            _ => (ProxyPhase::Closed, ProxyAction::Stop),
        },
        ProxyPhase::Connecting => match event {
            ProxyEvent::Connected => (ProxyPhase::Relaying, ProxyAction::Await),
            ProxyEvent::ConnectFailed(reason) => (
                ProxyPhase::Closed,
                ProxyAction::Reject { status: BAD_GATEWAY, message: reason },
            ),
            _ => (ProxyPhase::Closed, ProxyAction::Stop),
        },
        ProxyPhase::Relaying => match event {
            ProxyEvent::FromClient(m) => match m {
                WsMessage::Close(f) => (
                    ProxyPhase::Closed,
                    ProxyAction::ToUpstreamAndStop(WsMessage::Close(f)),
                ),
                WsMessage::Frame => (ProxyPhase::Relaying, ProxyAction::Await),
                m => (ProxyPhase::Relaying, ProxyAction::ToUpstream(m)),
            },
            ProxyEvent::FromUpstream(m) => match m {
                WsMessage::Close(f) => (
                    ProxyPhase::Closed,
                    ProxyAction::ToClientAndStop(WsMessage::Close(f)),
                ),
                WsMessage::Frame => (ProxyPhase::Relaying, ProxyAction::Await),
                m => (ProxyPhase::Relaying, ProxyAction::ToClient(m)),
            },
            _ => (ProxyPhase::Closed, ProxyAction::Stop),
        },
        ProxyPhase::Closed => (ProxyPhase::Closed, ProxyAction::Stop),
    }
}

/// Once the relay is over it stays over: from `Closed`, every event leaves it
/// closed and asks only to stop.
pub proof fn lemma_relay_closed_is_final(event: ProxyEvent, next: ProxyPhase, action: ProxyAction)
    requires
        proxy_transition(ProxyPhase::Closed, event, next, action),
    ensures
        next == ProxyPhase::Closed,
        action == ProxyAction::Stop,
{
}

/// While relaying, every text, binary, ping or pong message from the
/// app-server reaches the browser unchanged, and the relay goes on.
pub proof fn lemma_relay_forwards_upstream(m: WsMessage, next: ProxyPhase, action: ProxyAction)
    requires
        proxy_transition(ProxyPhase::Relaying, ProxyEvent::FromUpstream(m), next, action),
        m is Text || m is Binary || m is Ping || m is Pong,
    ensures
        next == ProxyPhase::Relaying,
        action == ProxyAction::ToClient(m),
{
}

/// While relaying, every text, binary, ping or pong message from the browser
/// reaches the app-server unchanged, and the relay goes on.
pub proof fn lemma_relay_forwards_client(m: WsMessage, next: ProxyPhase, action: ProxyAction)
    requires
        proxy_transition(ProxyPhase::Relaying, ProxyEvent::FromClient(m), next, action),
        m is Text || m is Binary || m is Ping || m is Pong,
    ensures
        next == ProxyPhase::Relaying,
        action == ProxyAction::ToUpstream(m),
{
}

/// A close message from either side is passed on, frame and all, to the
/// other side, and it ends the relay.
pub proof fn lemma_relay_close_is_passed_on(
    frame: Option<CloseFrame>,
    from_client: bool,
    next: ProxyPhase,
    action: ProxyAction,
)
    requires
        proxy_transition(
            ProxyPhase::Relaying,
            if from_client {
                ProxyEvent::FromClient(WsMessage::Close(frame))
            } else {
                ProxyEvent::FromUpstream(WsMessage::Close(frame))
            },
            next,
            action,
        ),
    ensures
        next == ProxyPhase::Closed,
        from_client ==> action == ProxyAction::ToUpstreamAndStop(WsMessage::Close(frame)),
        !from_client ==> action == ProxyAction::ToClientAndStop(WsMessage::Close(frame)),
{
}

/// While relaying, the end of either stream and any failure end the relay,
/// and nothing more is sent; a raw frame from either side is dropped and the
/// relay goes on.
pub proof fn lemma_relay_ends_and_drops(event: ProxyEvent, next: ProxyPhase, action: ProxyAction)
    requires
        proxy_transition(ProxyPhase::Relaying, event, next, action),
    ensures
        (event is ClientEnded || event is UpstreamEnded || event is ClientFailed
            || event is UpstreamFailed || event is SendFailed) ==> next == ProxyPhase::Closed
            && action == ProxyAction::Stop,
        (event == ProxyEvent::FromClient(WsMessage::Frame) || event == ProxyEvent::FromUpstream(
            WsMessage::Frame,
        )) ==> next == ProxyPhase::Relaying && action == ProxyAction::Await,
        next == ProxyPhase::Closed ==> (action is Stop || action is ToUpstreamAndStop
            || action is ToClientAndStop),
{
}

/// Messages only ever travel to the other side: a message from the browser
/// is never sent back to the browser, nor one from the app-server back to it.
pub proof fn lemma_relay_never_echoes(event: ProxyEvent, phase: ProxyPhase, next: ProxyPhase, action: ProxyAction)
    requires
        proxy_transition(phase, event, next, action),
    ensures
        event is FromClient ==> !(action is ToClient) && !(action is ToClientAndStop),
        event is FromUpstream ==> !(action is ToUpstream) && !(action is ToUpstreamAndStop),
{
}

/// The relay cannot start without the sandbox and the app-server: a sandbox
/// that could not be brought up is reported to the browser with status 503
/// and the outermost error message, an app-server that cannot be reached with
/// status 502 and the reason, and only a ready sandbox leads to a connection,
/// to its own URL.
pub proof fn lemma_relay_start(event: ProxyEvent, next: ProxyPhase, action: ProxyAction)
    requires
        proxy_transition(ProxyPhase::PreparingSandbox, event, next, action),
    ensures
        event matches ProxyEvent::SandboxReady(r) ==> next == ProxyPhase::Connecting && action
            == ProxyAction::Connect(r.codex_ws_url),
        event matches ProxyEvent::SandboxFailed(chain) ==> next == ProxyPhase::Closed && (
        action matches ProxyAction::Reject { status, message } && status == 503 && (chain@.len()
            > 0 ==> message@ == chain@[0]@)),
        action is Connect ==> event is SandboxReady,
{
}

/// An app-server that cannot be reached is reported with status 502 and the
/// reason; a connection that opens starts the relay.
pub proof fn lemma_relay_connect(event: ProxyEvent, next: ProxyPhase, action: ProxyAction)
    requires
        proxy_transition(ProxyPhase::Connecting, event, next, action),
    ensures
        event matches ProxyEvent::ConnectFailed(reason) ==> next == ProxyPhase::Closed && action
            == (ProxyAction::Reject { status: 502, message: reason }),
        event is Connected ==> next == ProxyPhase::Relaying && action == ProxyAction::Await,
        next == ProxyPhase::Relaying ==> event is Connected,
{
}

} // verus!
