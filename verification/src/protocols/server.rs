//! The client-server protocol: message framing, the per-connection state
//! machine and the session table. Reading, writing and running request
//! handlers is left to the caller.

use vstd::prelude::*;
use vstd::utf8::encode_utf8;
use crate::common::entropy::random_bytes;
use crate::common::net::{IpAddr, SocketAddr};
use crate::common::text::str_eq;
use crate::common::time::Timestamp;
use crate::common::wire::{be32, copy_range, extend_bytes, push_u32_be, read_u32_be, u32_be};

verus! {

/// The protocol version.
pub const PROTOCOL_VERSION: u32 = 1;

/// The largest payload.
pub const MAX_MESSAGE_SIZE: usize = 10 * 1024 * 1024;

/// The header: magic, version and payload length.
pub const HEADER_SIZE: usize = 12;

/// The frame magic, "FLSV".
pub const MAGIC: u32 = 0x464C5356;

/// Why a server operation failed.
#[derive(Debug)]
pub enum ServerError {
    Io(std::io::Error),
    ConnectionClosed,
    AuthFailed(String),
    Serialization(String),
    InvalidRequest,
    InvalidFrame,
    SessionNotFound,
    Timeout,
}

/// A protocol message.
#[derive(Debug, Clone)]
pub enum ServerMessage {
    Hello { version: u32, capabilities: Vec<String> },
    AuthRequest { challenge: Vec<u8> },
    AuthResponse { public_key: Vec<u8>, signature: Vec<u8> },
    AuthSuccess { session_id: String },
    AuthFailure { reason: String },
    Request { request_id: u64, method: String, params: Vec<u8> },
    Response { request_id: u64, success: bool, data: Vec<u8> },
    Event { event_type: String, data: Vec<u8> },
    Heartbeat,
    HeartbeatAck,
    Close { reason: String },
}

/// The frame of a serialized message: magic, version and length, each
/// big-endian, then the payload.
pub open spec fn spec_frame(payload: Seq<u8>) -> Seq<u8> {
    be32(MAGIC) + be32(PROTOCOL_VERSION) + be32(payload.len() as u32) + payload
}

/// Frames a serialized message; `InvalidRequest` for a payload over 10 MiB.
pub fn frame_payload(payload: &[u8]) -> (r: Result<Vec<u8>, ServerError>)
    ensures
        payload@.len() > MAX_MESSAGE_SIZE ==> r matches Err(ServerError::InvalidRequest),
        payload@.len() <= MAX_MESSAGE_SIZE ==> (r matches Ok(bytes) && bytes@ == spec_frame(payload@)),
{
    if payload.len() > MAX_MESSAGE_SIZE {
        return Err(ServerError::InvalidRequest);
    }
    let mut buf: Vec<u8> = Vec::new();
    push_u32_be(&mut buf, MAGIC);
    push_u32_be(&mut buf, PROTOCOL_VERSION);
    push_u32_be(&mut buf, payload.len() as u32);
    extend_bytes(&mut buf, payload);
    assert(buf@ =~= spec_frame(payload@));
    Ok(buf)
}

/// The payload length a header announces.
pub open spec fn header_len(data: Seq<u8>) -> u32 {
    u32_be(data[8], data[9], data[10], data[11])
}

/// What unframing `data` gives: the payload, or the error.
pub enum Unframed {
    Payload(Seq<u8>),
    InvalidFrame,
    InvalidRequest,
}

/// Unframing: too short, a wrong magic or version, or less payload than
/// announced is an invalid frame; an announced payload over 10 MiB is an
/// invalid request.
pub open spec fn spec_unframe(data: Seq<u8>) -> Unframed {
    if data.len() < HEADER_SIZE {
        Unframed::InvalidFrame
    } else if u32_be(data[0], data[1], data[2], data[3]) != MAGIC {
        Unframed::InvalidFrame
    } else if u32_be(data[4], data[5], data[6], data[7]) != PROTOCOL_VERSION {
        Unframed::InvalidFrame
    } else if header_len(data) > MAX_MESSAGE_SIZE {
        Unframed::InvalidRequest
    } else if data.len() - HEADER_SIZE < header_len(data) {
        Unframed::InvalidFrame
    } else {
        Unframed::Payload(data.subrange(HEADER_SIZE as int, HEADER_SIZE + header_len(data)))
    }
}

/// The length of the frame at the front of a received stream, once all of
/// it has arrived: the header and the payload length it announces.
pub fn next_frame_len(buf: &[u8]) -> (r: Option<usize>)
    ensures
        r == if buf@.len() >= HEADER_SIZE && buf@.len() >= HEADER_SIZE + header_len(buf@) {
            Some((HEADER_SIZE + header_len(buf@)) as usize)
        } else {
            None::<usize>
        },
{
    if buf.len() < HEADER_SIZE {
        return None;
    }
    let n = read_u32_be(buf, 8) as u64;
    if (buf.len() as u64) < (HEADER_SIZE as u64) + n {
        return None;
    }
    Some(HEADER_SIZE + n as usize)
}

/// The serialized message in a frame.
pub fn unframe(data: &[u8]) -> (r: Result<Vec<u8>, ServerError>)
    ensures
        match spec_unframe(data@) {
            Unframed::Payload(p) => r matches Ok(bytes) && bytes@ == p,
            Unframed::InvalidFrame => r matches Err(ServerError::InvalidFrame),
            Unframed::InvalidRequest => r matches Err(ServerError::InvalidRequest),
        },
{
    if data.len() < HEADER_SIZE {
        return Err(ServerError::InvalidFrame);
    }
    if read_u32_be(data, 0) != MAGIC {
        return Err(ServerError::InvalidFrame);
    }
    if read_u32_be(data, 4) != PROTOCOL_VERSION {
        return Err(ServerError::InvalidFrame);
    }
    let payload_len = read_u32_be(data, 8) as usize;
    if payload_len > MAX_MESSAGE_SIZE {
        return Err(ServerError::InvalidRequest);
    }
    if data.len() - HEADER_SIZE < payload_len {
        return Err(ServerError::InvalidFrame);
    }
    Ok(copy_range(data, HEADER_SIZE, HEADER_SIZE + payload_len))
}

/// Unframing a framed payload within the limit gives the payload back.
pub proof fn lemma_frame_roundtrip(payload: Seq<u8>)
    requires
        payload.len() <= MAX_MESSAGE_SIZE,
    ensures
        spec_unframe(spec_frame(payload)) == Unframed::Payload(payload),
{
    let f = spec_frame(payload);
    crate::common::wire::lemma_be32_roundtrip(MAGIC);
    crate::common::wire::lemma_be32_roundtrip(PROTOCOL_VERSION);
    crate::common::wire::lemma_be32_roundtrip(payload.len() as u32);
    assert(f[0] == be32(MAGIC)[0] && f[1] == be32(MAGIC)[1] && f[2] == be32(MAGIC)[2] && f[3] == be32(MAGIC)[3]);
    assert(f[4] == be32(PROTOCOL_VERSION)[0] && f[5] == be32(PROTOCOL_VERSION)[1]);
    assert(f[6] == be32(PROTOCOL_VERSION)[2] && f[7] == be32(PROTOCOL_VERSION)[3]);
    assert(f[8] == be32(payload.len() as u32)[0] && f[9] == be32(payload.len() as u32)[1]);
    assert(f[10] == be32(payload.len() as u32)[2] && f[11] == be32(payload.len() as u32)[3]);
    assert(f.subrange(HEADER_SIZE as int, HEADER_SIZE + payload.len()) =~= payload);
}

/// How a server is configured.
#[derive(Debug, Clone, Copy)]
pub struct ServerConfig {
    pub listen_addr: SocketAddr,
    pub max_connections: usize,
    pub heartbeat_interval_ms: u64,
    pub session_timeout_ms: u64,
}

impl Default for ServerConfig {
    /// Any IPv4 address on port 8080, 1000 connections, a heartbeat every 30
    /// seconds and sessions that last an hour.
    fn default() -> (c: ServerConfig)
        ensures
            c.listen_addr == (SocketAddr { ip: IpAddr::V4(0), port: 8080 }),
            c.max_connections == 1000,
            c.heartbeat_interval_ms == 30000,
            c.session_timeout_ms == 3600000,
    {
        ServerConfig {
            listen_addr: SocketAddr { ip: IpAddr::V4(0), port: 8080 },
            max_connections: 1000,
            heartbeat_interval_ms: 30000,
            session_timeout_ms: 3600000,
        }
    }
}

/// An authenticated client; times are seconds since the UNIX epoch.
#[derive(Debug, Clone)]
pub struct ClientSession {
    pub session_id: String,
    pub client_addr: SocketAddr,
    pub public_key: Vec<u8>,
    pub created_at: u64,
    pub last_active: u64,
}

impl ClientSession {
    /// A session created and last active at `now`.
    pub fn new_at(session_id: String, client_addr: SocketAddr, public_key: Vec<u8>, now: u64) -> (s: ClientSession)
        ensures
            s.session_id == session_id,
            s.client_addr == client_addr,
            s.public_key == public_key,
            s.created_at == now,
            s.last_active == now,
    {
        ClientSession { session_id, client_addr, public_key, created_at: now, last_active: now }
    }

    /// A session created now.
    pub fn new(session_id: String, client_addr: SocketAddr, public_key: Vec<u8>) -> (s: ClientSession)
        ensures
            s.session_id == session_id,
            s.client_addr == client_addr,
            s.public_key == public_key,
            s.created_at == s.last_active,
    {
        let now = Timestamp::now().duration_since_epoch().as_secs();
        Self::new_at(session_id, client_addr, public_key, now)
    }

    /// Marks the session active now.
    pub fn update_activity(&mut self)
        ensures
            final(self).session_id == old(self).session_id,
            final(self).client_addr == old(self).client_addr,
            final(self).public_key == old(self).public_key,
            final(self).created_at == old(self).created_at,
    {
        let now = Timestamp::now().duration_since_epoch().as_secs();
        self.update_activity_at(now);
    }

    /// Marks the session active at `now`.
    pub fn update_activity_at(&mut self, now: u64)
        ensures
            *final(self) == (ClientSession { last_active: now, ..*old(self) }),
    {
        self.last_active = now;
    }
}

/// Where a connection is in the protocol.
#[derive(Debug, Clone)]
pub enum ServerConnState {
    WaitingHello,
    WaitingAuth,
    Authenticated(String),
    Closed,
}

/// What a received message calls for.
#[derive(Debug, Clone)]
pub enum ServerAction {
    /// Send a fresh challenge and wait for authentication.
    SendChallenge,
    /// Open a session for the public key and report it.
    OpenSession(Vec<u8>),
    /// Run the request's handler for the session and reply.
    Dispatch(String, u64, String, Vec<u8>),
    /// Acknowledge a heartbeat.
    AckHeartbeat,
    /// Remove the session and close without a reply.
    CloseSession(String),
    /// Refuse: reply that the transition is invalid.
    Reject,
}

/// The action a message calls for in a state.
pub open spec fn spec_decide(state: ServerConnState, message: ServerMessage) -> ServerAction {
    match (state, message) {
        (ServerConnState::WaitingHello, ServerMessage::Hello { .. }) => ServerAction::SendChallenge,
        (ServerConnState::WaitingAuth, ServerMessage::AuthResponse { public_key, .. }) => ServerAction::OpenSession(public_key),
        (ServerConnState::Authenticated(id), ServerMessage::Request { request_id, method, params }) =>
            ServerAction::Dispatch(id, request_id, method, params),
        (_, ServerMessage::Heartbeat) => ServerAction::AckHeartbeat,
        (ServerConnState::Authenticated(id), ServerMessage::Close { .. }) => ServerAction::CloseSession(id),
        _ => ServerAction::Reject,
    }
}

/// The action `message` calls for in `state`.
pub fn decide(state: &ServerConnState, message: ServerMessage) -> (a: ServerAction)
    ensures
        a == spec_decide(*state, message),
{
    match (state, message) {
        (ServerConnState::WaitingHello, ServerMessage::Hello { .. }) => ServerAction::SendChallenge,
        (ServerConnState::WaitingAuth, ServerMessage::AuthResponse { public_key, .. }) => ServerAction::OpenSession(public_key),
        (ServerConnState::Authenticated(id), ServerMessage::Request { request_id, method, params }) =>
            ServerAction::Dispatch(id.clone(), request_id, method, params),
        (_, ServerMessage::Heartbeat) => ServerAction::AckHeartbeat,
        (ServerConnState::Authenticated(id), ServerMessage::Close { .. }) => ServerAction::CloseSession(id.clone()),
        _ => ServerAction::Reject,
    }
}

/// A fresh 32-byte challenge and the state that waits for its answer.
pub fn challenge() -> (r: (ServerMessage, ServerConnState))
    ensures
        r.0 matches ServerMessage::AuthRequest { challenge } && challenge@.len() == 32,
        r.1 matches ServerConnState::WaitingAuth,
{
    (ServerMessage::AuthRequest { challenge: random_bytes(32) }, ServerConnState::WaitingAuth)
}

/// The session identifier made of a UUID's simple text.
pub open spec fn spec_session_id(uuid: Seq<char>) -> Seq<char> {
    "session_"@ + uuid
}

/// A lowercase hexadecimal digit.
pub open spec fn is_lower_hex(c: char) -> bool {
    ('0' <= c && c <= '9') || ('a' <= c && c <= 'f')
}

/// The simple text of a version-4 UUID: 32 lowercase hexadecimal digits,
/// the version digit `4` at index 12, and a variant digit from `8` to `b` at
/// index 16.
pub open spec fn is_uuid_v4_simple(u: Seq<char>) -> bool {
    &&& u.len() == 32
    &&& forall|i: int| 0 <= i < 32 ==> is_lower_hex(#[trigger] u[i])
    &&& u[12] == '4'
    &&& (u[16] == '8' || u[16] == '9' || u[16] == 'a' || u[16] == 'b')
}

/// Calls `uuid::Uuid::new_v4` and renders it in the simple form. The value is
/// random; the contract states the form `new_v4` fixes: 32 lowercase hex
/// digits with the version and variant digits set.
#[verifier::external_body]
pub(crate) fn uuid_v4_simple() -> (s: String)
    ensures
        is_uuid_v4_simple(s@),
{
    uuid::Uuid::new_v4().simple().to_string()
}

/// A fresh session identifier: "session_" and a random version-4 UUID in
/// its simple form.
pub fn new_session_id() -> (id: String)
    ensures
        exists|u: Seq<char>| is_uuid_v4_simple(u) && id@ == spec_session_id(u),
{
    let u = uuid_v4_simple();
    let id = String::from_str("session_").concat(u.as_str());
    assert(id@ == spec_session_id(u@));
    id
}

/// The reply to a request whose handler returned `data`.
pub fn response_ok(request_id: u64, data: Vec<u8>) -> (m: ServerMessage)
    ensures
        m == (ServerMessage::Response { request_id, success: true, data }),
{
    ServerMessage::Response { request_id, success: true, data }
}

/// The reply to a request whose handler failed with `error`: its text in
/// UTF-8.
pub fn response_err(request_id: u64, error: &str) -> (m: ServerMessage)
    ensures
        m matches ServerMessage::Response { request_id: id, success, data: d } && id == request_id && !success
            && d@ == encode_utf8(error@),
{
    ServerMessage::Response { request_id, success: false, data: string_bytes(error) }
}

/// The reply to a request for a method with no handler: "Unknown method: "
/// and the method's name, in UTF-8.
pub fn response_unknown(request_id: u64, method: &str) -> (m: ServerMessage)
    ensures
        m matches ServerMessage::Response { request_id: id, success, data: d } && id == request_id && !success
            && d@ == encode_utf8("Unknown method: "@ + method@),
{
    let text = String::from_str("Unknown method: ").concat(method);
    ServerMessage::Response { request_id, success: false, data: string_bytes(text.as_str()) }
}

/// The UTF-8 bytes of `s`.
fn string_bytes(s: &str) -> (b: Vec<u8>)
    ensures
        b@ == encode_utf8(s@),
{
    let mut b: Vec<u8> = Vec::new();
    extend_bytes(&mut b, s.as_bytes());
    b
}

/// The reply to an invalid transition.
pub fn rejection() -> (m: ServerMessage)
    ensures
        m matches ServerMessage::Close { reason } && reason@ == "Invalid state transition"@,
{
    ServerMessage::Close { reason: String::from_str("Invalid state transition") }
}

/// The sessions of a server, by identifier.
pub struct SessionTable {
    sessions: Vec<ClientSession>,
}

/// The session with identifier `id`, if any.
pub open spec fn session_for(sessions: Seq<ClientSession>, id: Seq<char>) -> Option<ClientSession>
    decreases sessions.len(),
{
    if sessions.len() == 0 {
        None
    } else if sessions.last().session_id@ == id {
        Some(sessions.last())
    } else {
        session_for(sessions.drop_last(), id)
    }
}

impl SessionTable {
    /// The sessions.
    pub closed spec fn spec_sessions(&self) -> Seq<ClientSession> {
        self.sessions@
    }

    /// An empty table.
    pub fn new() -> (t: SessionTable)
        ensures
            t.spec_sessions().len() == 0,
    {
        SessionTable { sessions: Vec::new() }
    }

    /// The sessions, in the order they were added.
    pub fn all(&self) -> (v: &[ClientSession])
        ensures
            v@ == self.spec_sessions(),
    {
        self.sessions.as_slice()
    }

    /// Adds a session.
    pub fn insert(&mut self, session: ClientSession)
        ensures
            final(self).spec_sessions() == old(self).spec_sessions().push(session),
    {
        self.sessions.push(session);
    }

    /// Removes every session with identifier `id`.
    pub fn remove(&mut self, id: &str)
        ensures
            final(self).spec_sessions() == old(self).spec_sessions().filter(|s: ClientSession| s.session_id@ != id@),
    {
        let ghost keep = |s: ClientSession| s.session_id@ != id@;
        let mut kept: Vec<ClientSession> = Vec::new();
        let mut old_sessions: Vec<ClientSession> = Vec::new();
        std::mem::swap(&mut old_sessions, &mut self.sessions);
        let ghost before = old_sessions@;
        let ghost n = before.len();
        while old_sessions.len() > 0
            invariant
                old_sessions@.len() <= n,
                n == before.len(),
                old_sessions@ == before.skip(n - old_sessions@.len()),
                keep == (|s: ClientSession| s.session_id@ != id@),
                kept@ == before.take(n - old_sessions@.len()).filter(keep),
            decreases old_sessions@.len(),
        {
            let ghost done = n - old_sessions@.len();
            let s = old_sessions.remove(0);
            proof {
                assert(s == before[done]);
                assert(old_sessions@ =~= before.skip(n - old_sessions@.len()));
                assert(before.take(done + 1).drop_last() =~= before.take(done));
                assert(before.take(done + 1).last() == before[done]);
                reveal(Seq::filter);
            }
            if !str_eq(s.session_id.as_str(), id) {
                kept.push(s);
            }
        }
        proof {
            assert(before.take(n as int) =~= before);
        }
        self.sessions = kept;
    }

    /// Drops the sessions idle for the timeout or longer as of `now`
    /// (seconds); a session active later than `now` counts as idle for zero.
    pub fn cleanup_at(&mut self, now: u64, session_timeout_ms: u64)
        ensures
            final(self).spec_sessions() == old(self).spec_sessions().filter(
                |s: ClientSession| (if now >= s.last_active { now - s.last_active } else { 0 }) < session_timeout_ms / 1000,
            ),
    {
        let limit = session_timeout_ms / 1000;
        let ghost keep = |s: ClientSession| (if now >= s.last_active { now - s.last_active } else { 0 }) < session_timeout_ms / 1000;
        let mut kept: Vec<ClientSession> = Vec::new();
        let mut old_sessions: Vec<ClientSession> = Vec::new();
        std::mem::swap(&mut old_sessions, &mut self.sessions);
        let ghost before = old_sessions@;
        let ghost n = before.len();
        while old_sessions.len() > 0
            invariant
                old_sessions@.len() <= n,
                n == before.len(),
                limit == session_timeout_ms / 1000,
                old_sessions@ == before.skip(n - old_sessions@.len()),
                keep == (|s: ClientSession| (if now >= s.last_active { now - s.last_active } else { 0 }) < session_timeout_ms / 1000),
                kept@ == before.take(n - old_sessions@.len()).filter(keep),
            decreases old_sessions@.len(),
        {
            let ghost done = n - old_sessions@.len();
            let s = old_sessions.remove(0);
            proof {
                assert(s == before[done]);
                assert(old_sessions@ =~= before.skip(n - old_sessions@.len()));
                assert(before.take(done + 1).drop_last() =~= before.take(done));
                assert(before.take(done + 1).last() == before[done]);
                reveal(Seq::filter);
            }
            let idle = if now >= s.last_active { now - s.last_active } else { 0 };
            if idle < limit {
                kept.push(s);
            }
        }
        proof {
            assert(before.take(n as int) =~= before);
        }
        self.sessions = kept;
    }

    /// Marks the sessions with identifier `id` active at `now`.
    pub fn touch(&mut self, id: &str, now: u64)
        ensures
            final(self).spec_sessions().len() == old(self).spec_sessions().len(),
            forall|i: int| 0 <= i < old(self).spec_sessions().len() ==> #[trigger] final(self).spec_sessions()[i]
                == if old(self).spec_sessions()[i].session_id@ == id@ {
                    ClientSession { last_active: now, ..old(self).spec_sessions()[i] }
                } else {
                    old(self).spec_sessions()[i]
                },
    {
        let mut i: usize = 0;
        while i < self.sessions.len()
            invariant
                i <= self.sessions@.len(),
                self.sessions@.len() == old(self).sessions@.len(),
                forall|j: int| 0 <= j < self.sessions@.len() ==> #[trigger] self.sessions@[j] == if j < i
                    && old(self).sessions@[j].session_id@ == id@ {
                    ClientSession { last_active: now, ..old(self).sessions@[j] }
                } else {
                    old(self).sessions@[j]
                },
            decreases self.sessions@.len() - i,
        {
            if str_eq(self.sessions[i].session_id.as_str(), id) {
                let mut s = self.sessions.remove(i);
                s.update_activity_at(now);
                self.sessions.insert(i, s);
            }
            i = i + 1;
        }
    }

    /// The session with identifier `id`, if any.
    pub fn get(&self, id: &str) -> (r: Option<&ClientSession>)
        ensures
            match session_for(self.spec_sessions(), id@) {
                Some(s) => r == Some(&s),
                None => r is None,
            },
    {
        let mut i: usize = self.sessions.len();
        assert(self.sessions@.take(i as int) =~= self.sessions@);
        while i > 0 && !str_eq(self.sessions[i - 1].session_id.as_str(), id)
            invariant
                i <= self.sessions@.len(),
                session_for(self.sessions@, id@) == session_for(self.sessions@.take(i as int), id@),
            decreases i,
        {
            proof {
                assert(self.sessions@.take(i as int).drop_last() =~= self.sessions@.take(i as int - 1));
            }
            i = i - 1;
        }
        if i == 0 {
            None
        } else {
            proof {
                assert(self.sessions@.take(i as int).last() == self.sessions@[i as int - 1]);
            }
            Some(&self.sessions[i - 1])
        }
    }

    /// The number of sessions.
    pub fn len(&self) -> (n: usize)
        ensures
            n == self.spec_sessions().len(),
    {
        self.sessions.len()
    }
}

} // verus!
