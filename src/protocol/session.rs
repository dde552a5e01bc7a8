//! The decisions taken on one client connection.
//!
//! A `Session` holds what the proxy knows of one connection and decides, at
//! each event, what happens next. It performs no I/O: each step returns the
//! actions to carry out, in order (bytes to send to the client or to the
//! backend, a session-server check, a backend to connect to), and the caller
//! reports back what came of them.
use crate::cipher::cfb8_decrypt_of;
use crate::cipher::cfb8_encrypt_of;
use crate::cipher::CipherStream;
use crate::codec::byte_array_bytes;
use crate::command::same_text;
use crate::codec::decode_frame;
use crate::codec::frame_bytes;
use crate::codec::frame_parse;
use crate::codec::long_bytes;
use crate::codec::read_string;
use crate::codec::string_bytes;
use crate::codec::string_parse;
use crate::codec::WireError;
use crate::config::default_entries;
use crate::config::ProxyConfig;
use crate::config::ServerConfig;
use crate::json::json_escaped;
use crate::packet::chat_json;
use crate::packet::text_key;
use crate::packet::handshake;
use crate::packet::handshake::status_json;
use crate::packet::handshake::Ping;
use crate::packet::handshake::Request;
use crate::packet::login::Disconnect;
use crate::packet::login::EncryptionRequest;
use crate::packet::login::EncryptionResponse;
use crate::packet::login::secret_of;
use crate::packet::login::Start;
use crate::packet::receive;
use crate::packet::receive_spec;
use crate::packet::write_packet;
use crate::packet::write_packet_encrypted;
use crate::packet::Chat;
use crate::packet::Out;
use crate::packet::MAX_ADDRESS_BYTES;
use crate::packet::MAX_ARRAY_BYTES;
use crate::packet::MAX_STRING_BYTES;
use crate::player::Player;
use crate::keys::rsa_decrypt_of;
use crate::protocol::login::check_key_exchange;
use crate::protocol::login::key_exchange_outcome;
use crate::protocol::login::opt_bytes;
use crate::protocol::slp::status_response;
use crate::protocol::slp::status_view;
use crate::util::color::colored_text;
use crate::util::hash::server_hash;
use crate::util::hash::sha1_of;
use crate::util::hash::signed_hex_text;
use openssl::pkey::Private;
use openssl::rsa::Rsa;
use vstd::prelude::*;
use vstd::slice::slice_subrange;
use vstd::slice::slice_to_vec;
use vstd::string::StrSliceExecFns;
use vstd::string::StringExecFns;
use vstd::utf8::encode_utf8;

verus! {

/// Where a connection stands.
#[derive(Debug, PartialEq, Eq, Structural, Clone, Copy)]
pub enum Phase {
    /// Waiting for the handshake.
    AwaitHandshake,
    /// Status asked for; waiting for the status request.
    AwaitStatusRequest,
    /// Status sent; waiting for the ping.
    AwaitPing,
    /// Login asked for; waiting for the login start.
    AwaitLoginStart,
    /// Encryption requested; waiting for the client's key exchange.
    AwaitEncryptionResponse,
    /// Encrypted; waiting for the session server's answer on the player.
    AwaitAuthentication,
    /// Authenticated; waiting for the connection to the chosen backend.
    AwaitBackend,
    /// Login replayed to the backend; waiting for its answer.
    AwaitBackendReply,
    /// Bytes are forwarded both ways.
    Play,
    /// The connection is over.
    Closed,
}

/// The coarse state of a connection.
#[derive(Debug, PartialEq, Eq, Structural, Clone, Copy)]
pub enum ConnectionState {
    Handshaking,
    Status,
    Login,
    Play,
    Closed,
}

/// The coarse state a phase belongs to.
pub open spec fn state_of(p: Phase) -> ConnectionState {
    match p {
        Phase::AwaitHandshake => ConnectionState::Handshaking,
        Phase::AwaitStatusRequest | Phase::AwaitPing => ConnectionState::Status,
        Phase::Play => ConnectionState::Play,
        Phase::Closed => ConnectionState::Closed,
        _ => ConnectionState::Login,
    }
}

/// One thing the caller carries out for a session.
#[derive(Debug)]
pub enum Action {
    /// Send these bytes to the client.
    SendToClient(Vec<u8>),
    /// Ask the session server whether `name` joined with this server hash, and
    /// report the answer with `on_authenticated`.
    Authenticate { name: String, server_hash: String },
    /// Connect to this backend, and report with `on_backend_connected`.
    ConnectBackend { id: String, address: String },
    /// Send these bytes to the backend.
    SendToBackend(Vec<u8>),
    /// The backend refused the login with this reason (a chat component in
    /// JSON); for the operator's log.
    Refused { backend: String, reason: String },
    /// Start forwarding: take the ciphers with `take_ciphers`.
    Forward,
    /// Close the connection, and the backend's if one is open.
    Close,
}

/// What an action says.
pub enum ActionView {
    SendToClient(Seq<u8>),
    Authenticate(Seq<char>, Seq<char>),
    ConnectBackend(Seq<char>, Seq<char>),
    SendToBackend(Seq<u8>),
    Refused(Seq<char>, Seq<char>),
    Forward,
    Close,
}

impl View for Action {
    type V = ActionView;

    open spec fn view(&self) -> ActionView {
        match self {
            Action::SendToClient(b) => ActionView::SendToClient(b@),
            Action::Authenticate { name, server_hash } => ActionView::Authenticate(
                name@,
                server_hash@,
            ),
            Action::ConnectBackend { id, address } => ActionView::ConnectBackend(id@, address@),
            Action::SendToBackend(b) => ActionView::SendToBackend(b@),
            Action::Refused { backend, reason } => ActionView::Refused(backend@, reason@),
            Action::Forward => ActionView::Forward,
            Action::Close => ActionView::Close,
        }
    }
}

/// What a list of actions says.
pub open spec fn actions_view(v: Seq<Action>) -> Seq<ActionView> {
    v.map_values(|a: Action| a@)
}

/// The frame of a disconnect whose reason is the plain text `text`, colour
/// markers translated.
pub open spec fn disconnect_bytes(text: Seq<char>) -> Seq<u8> {
    frame_bytes(0, string_bytes(chat_json((Some(colored_text(text)), None))))
}

/// The reason sent when the session server does not vouch for the player.
pub open spec fn auth_failed_text() -> Seq<char> {
    "&cAuthentication failed."@
}

/// The reason sent when no backend is a default.
pub open spec fn no_default_text() -> Seq<char> {
    "&cWe don't know where to send you!"@
}

/// The reason sent when the chosen backend cannot be reached.
pub open spec fn unreachable_text(id: Seq<char>) -> Seq<char> {
    "&cFailed to connect to "@ + id + "!"@
}

/// The characters of an optional string of the handshake.
pub open spec fn handshake_view(h: Option<handshake::Packet>) -> Option<(i32, Seq<char>, u16, i32)> {
    match h {
        Some(p) => Some(p@),
        None => None,
    }
}

/// The frame of the encryption request: an empty server id, the public key
/// and the verify token.
pub open spec fn encryption_request_bytes(public_key: Seq<u8>, token: Seq<u8>) -> Seq<u8> {
    frame_bytes(1, string_bytes(Seq::empty()) + byte_array_bytes(public_key) + byte_array_bytes(token))
}

/// The handshake and login start that the proxy replays to the backend.
pub open spec fn replay_bytes(h: (i32, Seq<char>, u16, i32), name: Seq<char>) -> Seq<u8> {
    frame_bytes(0, <handshake::Packet as Out>::spec_encode(h)) + frame_bytes(0, string_bytes(name))
}

/// Whether `pattern` occurs somewhere in `text`.
pub open spec fn contains_text(text: Seq<char>, pattern: Seq<char>) -> bool {
    exists|i: int|
        #![trigger text.subrange(i, i + pattern.len())]
        0 <= i && i + pattern.len() <= text.len() && text.subrange(i, i + pattern.len()) == pattern
}

/// Whether `pattern` occurs somewhere in `text`.
pub fn text_contains(text: &str, pattern: &str) -> (r: bool)
    ensures
        r == contains_text(text@, pattern@),
{
    let n = text.unicode_len();
    let m = pattern.unicode_len();
    if m > n {
        return false;
    }
    let last = n - m;
    let mut i: usize = 0;
    loop
        invariant
            n == text@.len(),
            m == pattern@.len(),
            last == n - m,
            i <= last,
            forall|j: int| 0 <= j < i ==> #[trigger] text@.subrange(j, j + m) != pattern@,
        decreases last - i,
    {
        if same_text(text.substring_char(i, i + m), pattern) {
            return true;
        }
        if i == last {
            return false;
        }
        i = i + 1;
    }
}

/// Whether a backend's refusal with this translation key says that the backend
/// throttles connections, which the operator should turn off.
pub fn is_throttled(translate: &str) -> (r: bool)
    ensures
        r == contains_text(translate@, "Connection throttled"@),
{
    text_contains(translate, "Connection throttled")
}

/// What the proxy knows of one connection.
pub struct Session {
    pub phase: Phase,
    /// Bytes from the client not yet read.
    pub client_in: Vec<u8>,
    /// Bytes from the backend not yet read.
    pub backend_in: Vec<u8>,
    pub handshake: Option<handshake::Packet>,
    /// The player's name: the one the client gave, then the one the session
    /// server confirmed.
    pub name: Option<String>,
    /// The verify token sent in the encryption request.
    pub token: Vec<u8>,
    /// The proxy's public key in DER form.
    pub public_key: Vec<u8>,
    /// The cipher of the bytes sent to the client.
    pub to_client: Option<CipherStream>,
    /// The cipher of the bytes received from the client.
    pub from_client: Option<CipherStream>,
    /// Bytes the client sent, decrypted, before forwarding began.
    pub client_early: Vec<u8>,
    /// The backend chosen for the player.
    pub backend: Option<ServerConfig>,
    /// How many RSA decryptions this connection has caused.
    pub rsa_ops: Ghost<nat>,
}

/// Whether a phase comes after the handshake and before the end.
pub open spec fn after_handshake(p: Phase) -> bool {
    p != Phase::AwaitHandshake && p != Phase::Closed && p != Phase::Play
}

/// Whether a phase comes after the login start and before forwarding.
pub open spec fn after_login_start(p: Phase) -> bool {
    p == Phase::AwaitEncryptionResponse || p == Phase::AwaitAuthentication || p == Phase::AwaitBackend
        || p == Phase::AwaitBackendReply
}

/// Whether a phase has the client's traffic encrypted.
pub open spec fn encrypted(p: Phase) -> bool {
    p == Phase::AwaitAuthentication || p == Phase::AwaitBackend || p == Phase::AwaitBackendReply
        || p == Phase::Play
}

/// Whether a phase belongs to the status exchange.
pub open spec fn status_phase(p: Phase) -> bool {
    p == Phase::AwaitStatusRequest || p == Phase::AwaitPing || p == Phase::Closed
}

impl Session {
    /// The state of the cipher towards the client.
    pub open spec fn to_client_state(&self) -> (Seq<u8>, Seq<u8>) {
        self.to_client->Some_0@
    }

    /// The invariant of a session.
    pub open spec fn wf(&self) -> bool {
        &&& self.phase == Phase::AwaitHandshake ==> self.rsa_ops@ == 0
        &&& self.token@.len() <= MAX_ARRAY_BYTES
        &&& self.public_key@.len() <= MAX_ARRAY_BYTES
        &&& after_handshake(self.phase) ==> self.handshake is Some
        &&& self.handshake is Some ==> encode_utf8(self.handshake->Some_0.address@).len()
            <= MAX_ADDRESS_BYTES
        &&& self.handshake is Some ==> (self.handshake->Some_0.next_state == 1
            || self.handshake->Some_0.next_state == 2)
        &&& (self.phase == Phase::AwaitLoginStart || after_login_start(self.phase))
            ==> self.handshake->Some_0.next_state == 2
        &&& after_login_start(self.phase) ==> self.name is Some
        &&& self.name is Some ==> encode_utf8(self.name->Some_0@).len() <= MAX_STRING_BYTES
        &&& encrypted(self.phase) ==> (self.to_client is Some && self.to_client->Some_0.wf())
        &&& encrypted(self.phase) ==> (self.from_client is Some && self.from_client->Some_0.wf())
        &&& (self.phase == Phase::AwaitBackend || self.phase == Phase::AwaitBackendReply)
            ==> self.backend is Some
        &&& (self.handshake is Some && self.handshake->Some_0.next_state == 1) ==> (self.rsa_ops@
            == 0 && status_phase(self.phase))
    }

    /// A connection that has just been accepted; `public_key` is the proxy's
    /// key in DER form and `token` the verify token it will send.
    pub fn new(public_key: Vec<u8>, token: Vec<u8>) -> (r: Session)
        requires
            public_key@.len() <= MAX_ARRAY_BYTES,
            token@.len() <= MAX_ARRAY_BYTES,
        ensures
            r.wf(),
            r.phase == Phase::AwaitHandshake,
            r.client_in@.len() == 0,
            r.public_key@ == public_key@,
            r.token@ == token@,
            r.rsa_ops@ == 0,
    {
        Session {
            phase: Phase::AwaitHandshake,
            client_in: Vec::new(),
            backend_in: Vec::new(),
            handshake: None,
            name: None,
            token,
            public_key,
            to_client: None,
            from_client: None,
            client_early: Vec::new(),
            backend: None,
            rsa_ops: Ghost(0),
        }
    }

    /// The coarse state of this connection.
    pub fn state(&self) -> (r: ConnectionState)
        ensures
            r == state_of(self.phase),
    {
        match self.phase {
            Phase::AwaitHandshake => ConnectionState::Handshaking,
            Phase::AwaitStatusRequest | Phase::AwaitPing => ConnectionState::Status,
            Phase::Play => ConnectionState::Play,
            Phase::Closed => ConnectionState::Closed,
            _ => ConnectionState::Login,
        }
    }

    /// Takes in bytes the client sent.
    pub fn feed_client(&mut self, data: &[u8])
        requires
            old(self).wf(),
        ensures
            final(self).wf(),
            final(self).client_in@ == old(self).client_in@ + data@,
            final(self).phase == old(self).phase,
            final(self).rsa_ops == old(self).rsa_ops,
    {
        self.client_in.extend_from_slice(data);
    }

    /// Takes in bytes the backend sent.
    pub fn feed_backend(&mut self, data: &[u8])
        requires
            old(self).wf(),
        ensures
            final(self).wf(),
            final(self).backend_in@ == old(self).backend_in@ + data@,
            final(self).phase == old(self).phase,
            final(self).rsa_ops == old(self).rsa_ops,
    {
        self.backend_in.extend_from_slice(data);
    }

    /// Drops the first `n` bytes the client sent.
    fn consume_client(&mut self, n: usize)
        requires
            n <= old(self).client_in@.len(),
        ensures
            final(self).client_in@ == old(self).client_in@.skip(n as int),
            final(self).phase == old(self).phase,
            final(self).handshake == old(self).handshake,
            final(self).name == old(self).name,
            final(self).token == old(self).token,
            final(self).public_key == old(self).public_key,
            final(self).to_client == old(self).to_client,
            final(self).from_client == old(self).from_client,
            final(self).backend == old(self).backend,
            final(self).rsa_ops == old(self).rsa_ops,
            final(self).backend_in == old(self).backend_in,
            final(self).client_early == old(self).client_early,
    {
        let rest = slice_to_vec(slice_subrange(self.client_in.as_slice(), n, self.client_in.len()));
        self.client_in = rest;
    }

    /// Encrypts `plain` as the next bytes to the client.
    fn seal(&mut self, plain: &[u8]) -> (r: Vec<u8>)
        requires
            old(self).to_client matches Some(c) && c.wf(),
        ensures
            final(self).to_client matches Some(c) && c.wf(),
            r@ == cfb8_encrypt_of(old(self).to_client_state().0, old(self).to_client_state().1, plain@).0,
            final(self).to_client_state() == (
                old(self).to_client_state().0,
                cfb8_encrypt_of(old(self).to_client_state().0, old(self).to_client_state().1, plain@).1,
            ),
            final(self).phase == old(self).phase,
            final(self).client_in == old(self).client_in,
            final(self).backend_in == old(self).backend_in,
            final(self).handshake == old(self).handshake,
            final(self).name == old(self).name,
            final(self).token == old(self).token,
            final(self).public_key == old(self).public_key,
            final(self).from_client == old(self).from_client,
            final(self).backend == old(self).backend,
            final(self).rsa_ops == old(self).rsa_ops,
            final(self).client_early == old(self).client_early,
    {
        let mut c = self.to_client.take().unwrap();
        let out = c.encrypt(plain);
        self.to_client = Some(c);
        out
    }

    /// Whether the client's buffered bytes hold a whole frame.
    pub fn client_frame_ready(&self) -> (r: bool)
        ensures
            r == !(frame_parse(self.client_in@) == Err::<(i32, Seq<u8>, nat), WireError>(
                WireError::Truncated,
            )),
    {
        match decode_frame(self.client_in.as_slice(), 0) {
            Err(WireError::Truncated) => {
                assert(self.client_in@.skip(0) =~= self.client_in@);
                false
            },
            _ => {
                assert(self.client_in@.skip(0) =~= self.client_in@);
                true
            },
        }
    }
}

/// A list of one action.
fn one(a: Action) -> (r: Vec<Action>)
    ensures
        actions_view(r@) == seq![a@],
{
    let mut v: Vec<Action> = Vec::new();
    v.push(a);
    assert(actions_view(v@) =~= seq![a@]);
    v
}

/// A list of two actions.
fn two(a: Action, b: Action) -> (r: Vec<Action>)
    ensures
        actions_view(r@) == seq![a@, b@],
{
    let mut v: Vec<Action> = Vec::new();
    v.push(a);
    v.push(b);
    assert(actions_view(v@) =~= seq![a@, b@]);
    v
}

/// A list of three actions.
fn three(a: Action, b: Action, c: Action) -> (r: Vec<Action>)
    ensures
        actions_view(r@) == seq![a@, b@, c@],
{
    let mut v: Vec<Action> = Vec::new();
    v.push(a);
    v.push(b);
    v.push(c);
    assert(actions_view(v@) =~= seq![a@, b@, c@]);
    v
}

/// Whether a disconnect with the plain-text reason `text` fits a string field.
pub open spec fn disconnect_fits(text: Seq<char>) -> bool {
    encode_utf8(chat_json((Some(colored_text(text)), None))).len() <= MAX_STRING_BYTES
}

proof fn lemma_utf8_len(s: Seq<char>)
    ensures
        encode_utf8(s).len() <= 4 * s.len(),
    decreases s.len(),
{
    if s.len() > 0 {
        lemma_utf8_len(s.drop_first());
    }
}

proof fn lemma_escaped_len(s: Seq<char>)
    ensures
        json_escaped(s).len() <= 6 * s.len(),
    decreases s.len(),
{
    if s.len() > 0 {
        lemma_escaped_len(s.drop_first());
    }
}

/// A disconnect whose reason has at most a thousand characters fits a string
/// field.
pub proof fn lemma_short_reason_fits(text: Seq<char>)
    requires
        text.len() <= 1000,
    ensures
        disconnect_fits(text),
{
    let c = colored_text(text);
    assert(c.len() == text.len());
    lemma_escaped_len(c);
    lemma_escaped_len(text_key());
    let j = chat_json((Some(c), None));
    assert(j.len() <= 6 * text.len() + 40);
    lemma_utf8_len(j);
}

/// The part of a session that a step leaves alone unless it says otherwise.
pub open spec fn same_keys(a: Session, b: Session) -> bool {
    &&& a.token == b.token
    &&& a.public_key == b.public_key
    &&& a.rsa_ops == b.rsa_ops
}

/// What reading the handshake does: a handshake that decodes (it asks for
/// status or login and names an address of at most 255 bytes) moves the
/// connection on; anything else closes it.
pub open spec fn handshake_step(old: Session, new: Session, r: Seq<ActionView>) -> bool {
    match receive_spec::<handshake::Packet>(old.client_in@) {
        Err(_) => r == seq![ActionView::Close] && new.phase == Phase::Closed,
        Ok((h, n)) => {
            &&& r.len() == 0
            &&& new.phase == (if h.3 == 1 {
                Phase::AwaitStatusRequest
            } else {
                Phase::AwaitLoginStart
            })
            &&& new.client_in@ == old.client_in@.skip(n as int)
            &&& handshake_view(new.handshake) == Some(h)
        },
    }
}

/// What reading the status request does.
pub open spec fn status_request_step(
    old: Session,
    new: Session,
    r: Seq<ActionView>,
    config: &ProxyConfig,
    players: Seq<Player>,
) -> bool {
    match receive_spec::<Request>(old.client_in@) {
        Err(_) => r == seq![ActionView::Close] && new.phase == Phase::Closed,
        Ok((_, n)) => {
            let body = status_json(status_view(config, old.handshake->Some_0.version, players));
            if encode_utf8(body).len() <= i32::MAX - 10 {
                &&& r == seq![ActionView::SendToClient(frame_bytes(0, string_bytes(body)))]
                &&& new.phase == Phase::AwaitPing
                &&& new.client_in@ == old.client_in@.skip(n as int)
            } else {
                r == seq![ActionView::Close] && new.phase == Phase::Closed
            }
        },
    }
}

/// What reading the ping does: the pong echoes it, and the exchange ends.
pub open spec fn ping_step(old: Session, new: Session, r: Seq<ActionView>) -> bool {
    match receive_spec::<Ping>(old.client_in@) {
        Err(_) => r == seq![ActionView::Close] && new.phase == Phase::Closed,
        Ok((p, n)) => {
            &&& r == seq![ActionView::SendToClient(frame_bytes(1, long_bytes(p))), ActionView::Close]
            &&& new.phase == Phase::Closed
        },
    }
}

/// What reading the login start does: the encryption request goes out.
pub open spec fn login_start_step(old: Session, new: Session, r: Seq<ActionView>) -> bool {
    match receive_spec::<Start>(old.client_in@) {
        Err(_) => r == seq![ActionView::Close] && new.phase == Phase::Closed,
        Ok((name, n)) => {
            if encode_utf8(name).len() <= MAX_STRING_BYTES {
                &&& r == seq![
                    ActionView::SendToClient(
                        encryption_request_bytes(old.public_key@, old.token@),
                    ),
                ]
                &&& new.phase == Phase::AwaitEncryptionResponse
                &&& new.client_in@ == old.client_in@.skip(n as int)
                &&& new.name matches Some(x) && x@ == name
            } else {
                r == seq![ActionView::Close] && new.phase == Phase::Closed
            }
        },
    }
}

impl Session {
    /// Reads the handshake.
    fn handle_handshake(&mut self) -> (r: Vec<Action>)
        requires
            old(self).wf(),
            old(self).phase == Phase::AwaitHandshake,
        ensures
            final(self).wf(),
            same_keys(*old(self), *final(self)),
            handshake_step(*old(self), *final(self), actions_view(r@)),
    {
        assert(self.client_in@.skip(0) =~= self.client_in@);
        proof {
            crate::codec::lemma_frame_parse_len(self.client_in@);
        }
        let (h, next) = match receive::<handshake::Packet>(self.client_in.as_slice(), 0) {
            Ok(x) => x,
            Err(_) => {
                self.phase = Phase::Closed;
                return one(Action::Close);
            },
        };
        let status = h.next_state == 1;
        self.consume_client(next);
        self.handshake = Some(h);
        self.phase = if status {
            Phase::AwaitStatusRequest
        } else {
            Phase::AwaitLoginStart
        };
        Vec::new()
    }

    /// Reads the status request and answers it.
    fn handle_status_request(&mut self, config: &ProxyConfig, players: &Vec<Player>) -> (r: Vec<
        Action,
    >)
        requires
            old(self).wf(),
            old(self).phase == Phase::AwaitStatusRequest,
            players@.len() <= i32::MAX,
        ensures
            final(self).wf(),
            same_keys(*old(self), *final(self)),
            final(self).handshake == old(self).handshake,
            status_request_step(*old(self), *final(self), actions_view(r@), config, players@),
    {
        assert(self.client_in@.skip(0) =~= self.client_in@);
        proof {
            crate::codec::lemma_frame_parse_len(self.client_in@);
        }
        let (_req, next) = match receive::<Request>(self.client_in.as_slice(), 0) {
            Ok(x) => x,
            Err(_) => {
                self.phase = Phase::Closed;
                return one(Action::Close);
            },
        };
        let version = match &self.handshake {
            Some(h) => h.version,
            None => 0,
        };
        let response = status_response(config, version, players);
        if !response.fits() {
            self.phase = Phase::Closed;
            return one(Action::Close);
        }
        let bytes = write_packet(&response);
        self.consume_client(next);
        self.phase = Phase::AwaitPing;
        one(Action::SendToClient(bytes))
    }

    /// Reads the ping and echoes it.
    fn handle_ping(&mut self) -> (r: Vec<Action>)
        requires
            old(self).wf(),
            old(self).phase == Phase::AwaitPing,
        ensures
            final(self).wf(),
            same_keys(*old(self), *final(self)),
            final(self).handshake == old(self).handshake,
            ping_step(*old(self), *final(self), actions_view(r@)),
    {
        assert(self.client_in@.skip(0) =~= self.client_in@);
        proof {
            crate::codec::lemma_frame_parse_len(self.client_in@);
        }
        let (ping, next) = match receive::<Ping>(self.client_in.as_slice(), 0) {
            Ok(x) => x,
            Err(_) => {
                self.phase = Phase::Closed;
                return one(Action::Close);
            },
        };
        let bytes = write_packet(&ping);
        self.consume_client(next);
        self.phase = Phase::Closed;
        two(Action::SendToClient(bytes), Action::Close)
    }

    /// Reads the login start and asks the client to encrypt.
    fn handle_login_start(&mut self) -> (r: Vec<Action>)
        requires
            old(self).wf(),
            old(self).phase == Phase::AwaitLoginStart,
        ensures
            final(self).wf(),
            same_keys(*old(self), *final(self)),
            final(self).handshake == old(self).handshake,
            login_start_step(*old(self), *final(self), actions_view(r@)),
    {
        assert(self.client_in@.skip(0) =~= self.client_in@);
        proof {
            crate::codec::lemma_frame_parse_len(self.client_in@);
        }
        let (start, next) = match receive::<Start>(self.client_in.as_slice(), 0) {
            Ok(x) => x,
            Err(_) => {
                self.phase = Phase::Closed;
                return one(Action::Close);
            },
        };
        if start.name.as_str().as_bytes().len() > MAX_STRING_BYTES {
            self.phase = Phase::Closed;
            return one(Action::Close);
        }
        let request = EncryptionRequest {
            id: String::new(),
            public_key: self.public_key.clone(),
            token: self.token.clone(),
        };
        let bytes = write_packet(&request);
        self.consume_client(next);
        self.name = Some(start.name);
        self.phase = Phase::AwaitEncryptionResponse;
        one(Action::SendToClient(bytes))
    }
}

/// What the key exchange does, given what the client's token and secret
/// decrypted to and the bytes the client sent after them: on a match the
/// ciphers are installed, those bytes are decrypted, and the player is to be
/// checked with the session server; otherwise the connection closes with
/// nothing sent.
pub open spec fn key_exchange_after(
    old: Session,
    leftover: Seq<u8>,
    new: Session,
    r: Seq<ActionView>,
    token: Option<Seq<u8>>,
    secret: Option<Seq<u8>>,
) -> bool {
    match key_exchange_outcome(old.token@, token, secret) {
        Err(_) => r == seq![ActionView::Close] && new.phase == Phase::Closed,
        Ok(s) => {
            &&& new.phase == Phase::AwaitAuthentication
            &&& r == seq![
                ActionView::Authenticate(
                    old.name->Some_0@,
                    signed_hex_text(sha1_of(s + old.public_key@)),
                ),
            ]
            &&& new.to_client_state() == (s, s)
            &&& new.from_client->Some_0@ == (s, cfb8_decrypt_of(s, s, leftover).1)
            &&& new.client_early@ == old.client_early@ + cfb8_decrypt_of(s, s, leftover).0
            &&& new.client_in@.len() == 0
        },
    }
}

/// What the key exchange does when the client's buffered bytes all follow it.
pub open spec fn key_exchange_step(
    old: Session,
    new: Session,
    r: Seq<ActionView>,
    token: Option<Seq<u8>>,
    secret: Option<Seq<u8>>,
) -> bool {
    key_exchange_after(old, old.client_in@, new, r, token, secret)
}

/// What a field of the key exchange decrypts to with `key`: nothing when it is
/// too long to hand to openssl.
pub open spec fn decrypted_field(key: Rsa<Private>, data: Seq<u8>) -> Option<Seq<u8>> {
    if data.len() <= i32::MAX {
        rsa_decrypt_of(key, data)
    } else {
        None
    }
}

/// What the secret field of the key exchange decrypts to with `key`: nothing
/// when it is too long to hand to openssl, cannot be decrypted, or is not
/// sixteen bytes.
pub open spec fn decrypted_secret(key: Rsa<Private>, data: Seq<u8>) -> Option<Seq<u8>> {
    if data.len() <= i32::MAX {
        secret_of(key, data)
    } else {
        None
    }
}

/// What reading the client's key exchange does: the connection closes if the
/// frame is not one; otherwise both fields are decrypted with `key` (two RSA
/// operations) and the key exchange goes on with what they decrypted to.
pub open spec fn encryption_response_step(
    old: Session,
    new: Session,
    r: Seq<ActionView>,
    key: Rsa<Private>,
) -> bool {
    match receive_spec::<EncryptionResponse>(old.client_in@) {
        Err(_) => r == seq![ActionView::Close] && new.phase == Phase::Closed && new.rsa_ops
            == old.rsa_ops,
        Ok((v, n)) => {
            &&& new.rsa_ops@ == old.rsa_ops@ + 2
            &&& key_exchange_after(
                old,
                old.client_in@.skip(n as int),
                new,
                r,
                decrypted_field(key, v.1),
                decrypted_secret(key, v.0),
            )
        },
    }
}

/// `plain` encrypted as the next bytes to the client of `s`.
pub open spec fn sealed(s: Session, plain: Seq<u8>) -> Seq<u8> {
    cfb8_encrypt_of(s.to_client_state().0, s.to_client_state().1, plain).0
}

/// The actions that end a connection with the plain-text reason `text`: the
/// encrypted disconnect, then the close; only the close when the reason does
/// not fit.
pub open spec fn farewell(s: Session, text: Seq<char>) -> Seq<ActionView> {
    if disconnect_fits(text) {
        seq![ActionView::SendToClient(sealed(s, disconnect_bytes(text))), ActionView::Close]
    } else {
        seq![ActionView::Close]
    }
}

/// What the session server's answer does: a player it vouches for is sent to a
/// default backend; otherwise the client is told why and the connection
/// closes.
pub open spec fn auth_step(
    old: Session,
    new: Session,
    r: Seq<ActionView>,
    config: &ProxyConfig,
    player: Option<(u128, Seq<char>)>,
) -> bool {
    match player {
        Some(p) => {
            if encode_utf8(p.1).len() > MAX_STRING_BYTES {
                r == farewell(old, auth_failed_text()) && new.phase == Phase::Closed
            } else if default_entries(config.server_views()).len() == 0 {
                r == farewell(old, no_default_text()) && new.phase == Phase::Closed
            } else {
                &&& new.phase == Phase::AwaitBackend
                &&& new.backend is Some
                &&& default_entries(config.server_views()).contains(new.backend->Some_0@)
                &&& r == seq![
                    ActionView::ConnectBackend(
                        new.backend->Some_0.id@,
                        new.backend->Some_0.address@,
                    ),
                ]
                &&& new.name matches Some(n) && n@ == p.1
            }
        },
        None => r == farewell(old, auth_failed_text()) && new.phase == Phase::Closed,
    }
}

/// What the outcome of connecting to the backend does: on success the
/// handshake and login start are replayed to it.
pub open spec fn backend_connected_step(old: Session, new: Session, r: Seq<ActionView>, ok: bool) -> bool {
    if ok {
        &&& new.phase == Phase::AwaitBackendReply
        &&& handshake_view(old.handshake)->Some_0.3 == 2
        &&& r == seq![
            ActionView::SendToBackend(
                replay_bytes(handshake_view(old.handshake)->Some_0, old.name->Some_0@),
            ),
        ]
    } else {
        r == farewell(old, unreachable_text(old.backend->Some_0.id@)) && new.phase == Phase::Closed
    }
}

/// The reason a backend's disconnect payload carries, or nothing when the
/// payload holds no string.
pub open spec fn refusal_reason(payload: Seq<u8>) -> Seq<char> {
    match string_parse(payload) {
        Ok((t, _)) => t,
        Err(_) => Seq::empty(),
    }
}

/// What the backend's answer does: a login success is passed on to the client
/// with whatever followed it and forwarding begins; a disconnect is passed on
/// to the client unchanged and the connection closes; anything else closes it.
pub open spec fn backend_step(old: Session, new: Session, r: Seq<ActionView>) -> bool {
    match frame_parse(old.backend_in@) {
        Err(e) => {
            if e == WireError::Truncated {
                r.len() == 0 && new.phase == old.phase && new.backend_in == old.backend_in
            } else {
                r == seq![ActionView::Close] && new.phase == Phase::Closed
            }
        },
        Ok((id, payload, n)) => {
            if id == 2 {
                &&& r == seq![
                    ActionView::SendToClient(sealed(old, old.backend_in@)),
                    ActionView::SendToBackend(old.client_early@),
                    ActionView::Forward,
                ]
                &&& new.phase == Phase::Play
            } else if id == 0 {
                &&& r == seq![
                    ActionView::SendToClient(sealed(old, old.backend_in@.take(n as int))),
                    ActionView::Refused(old.backend->Some_0.id@, refusal_reason(payload)),
                    ActionView::Close,
                ]
                &&& new.phase == Phase::Closed
            } else {
                r == seq![ActionView::Close] && new.phase == Phase::Closed
            }
        },
    }
}

/// The (UUID, name) of an optional player.
pub open spec fn player_view(p: Option<Player>) -> Option<(u128, Seq<char>)> {
    match p {
        Some(x) => Some((x.id, x.name@)),
        None => None,
    }
}

/// Whether the client's buffered bytes hold a whole frame.
pub open spec fn client_ready(s: Session) -> bool {
    !(frame_parse(s.client_in@) == Err::<(i32, Seq<u8>, nat), WireError>(WireError::Truncated))
}

/// Whether a phase waits for a frame from the client.
pub open spec fn reads_client(p: Phase) -> bool {
    p == Phase::AwaitHandshake || p == Phase::AwaitStatusRequest || p == Phase::AwaitPing || p
        == Phase::AwaitLoginStart || p == Phase::AwaitEncryptionResponse
}

impl Session {
    /// Ends the connection with the plain-text reason `text`.
    fn say_farewell(&mut self, text: &str) -> (r: Vec<Action>)
        requires
            old(self).wf(),
            encrypted(old(self).phase),
        ensures
            final(self).wf(),
            same_keys(*old(self), *final(self)),
            final(self).phase == Phase::Closed,
            actions_view(r@) == farewell(*old(self), text@),
    {
        let d = Disconnect { chat: Chat::new(text) };
        self.phase = Phase::Closed;
        if !d.fits() {
            return one(Action::Close);
        }
        let mut stream = self.to_client.take().unwrap();
        let sealed = write_packet_encrypted(&d, &mut stream);
        self.to_client = Some(stream);
        two(Action::SendToClient(sealed), Action::Close)
    }

    /// Finishes the key exchange with what the client's token and secret
    /// decrypted to (none where they could not be decrypted).
    pub fn complete_key_exchange(&mut self, token: Option<Vec<u8>>, secret: Option<Vec<u8>>) -> (r:
        Vec<Action>)
        requires
            old(self).wf(),
            old(self).phase == Phase::AwaitEncryptionResponse,
        ensures
            final(self).wf(),
            same_keys(*old(self), *final(self)),
            final(self).handshake == old(self).handshake,
            key_exchange_step(
                *old(self),
                *final(self),
                actions_view(r@),
                opt_bytes(token),
                opt_bytes(secret),
            ),
    {
        let secret = match check_key_exchange(self.token.as_slice(), token, secret) {
            Ok(s) => s,
            Err(_) => {
                self.phase = Phase::Closed;
                return one(Action::Close);
            },
        };
        let to_client = CipherStream::new(secret.as_slice());
        let mut from_client = CipherStream::new(secret.as_slice());
        let early = from_client.decrypt(self.client_in.as_slice());
        self.client_early.extend_from_slice(early.as_slice());
        self.client_in = Vec::new();
        proof {
            reveal_strlit("");
            assert(encode_utf8(""@) =~= Seq::<u8>::empty());
            assert(encode_utf8(""@) + secret@ + self.public_key@ =~= secret@ + self.public_key@);
        }
        let hash = server_hash("", secret.as_slice(), self.public_key.as_slice());
        assert(hash@ == signed_hex_text(sha1_of(secret@ + self.public_key@)));
        let name = match &self.name {
            Some(n) => n.clone(),
            None => String::new(),
        };
        assert(name@ == old(self).name->Some_0@);
        self.to_client = Some(to_client);
        self.from_client = Some(from_client);
        self.phase = Phase::AwaitAuthentication;
        let r = one(Action::Authenticate { name, server_hash: hash });
        assert(self.to_client_state() == (secret@, secret@));
        assert(self.client_early@ == old(self).client_early@ + cfb8_decrypt_of(
            secret@,
            secret@,
            old(self).client_in@,
        ).0);
        r
    }

    /// Reads the client's key exchange and decrypts it with `key`.
    fn handle_encryption_response(&mut self, key: &Rsa<Private>) -> (r: Vec<Action>)
        requires
            old(self).wf(),
            old(self).phase == Phase::AwaitEncryptionResponse,
        ensures
            final(self).wf(),
            final(self).handshake == old(self).handshake,
            final(self).token == old(self).token,
            final(self).public_key == old(self).public_key,
            encryption_response_step(*old(self), *final(self), actions_view(r@), *key),
    {
        assert(self.client_in@.skip(0) =~= self.client_in@);
        proof {
            crate::codec::lemma_frame_parse_len(self.client_in@);
        }
        let (response, next) = match receive::<EncryptionResponse>(self.client_in.as_slice(), 0) {
            Ok(x) => x,
            Err(_) => {
                self.phase = Phase::Closed;
                return one(Action::Close);
            },
        };
        self.consume_client(next);
        self.rsa_ops = Ghost(self.rsa_ops@ + 2);
        let token = if response.token.len() <= i32::MAX as usize {
            response.decrypt_token(key)
        } else {
            None
        };
        let secret = if response.secret.len() <= i32::MAX as usize {
            response.decrypt_secret(key)
        } else {
            None
        };
        let ghost t = opt_bytes(token);
        let ghost sv = opt_bytes(secret);
        let ghost mid = *self;
        let r = self.complete_key_exchange(token, secret);
        assert(mid.client_in@ == old(self).client_in@.skip(next as int));
        assert(key_exchange_after(
            *old(self),
            old(self).client_in@.skip(next as int),
            *self,
            actions_view(r@),
            t,
            sv,
        ));
        r
    }

    /// Takes in the session server's answer: the player it vouches for, or
    /// none.
    pub fn on_authenticated(&mut self, config: &ProxyConfig, player: Option<Player>) -> (r: Vec<
        Action,
    >)
        requires
            old(self).wf(),
            old(self).phase == Phase::AwaitAuthentication,
        ensures
            final(self).wf(),
            same_keys(*old(self), *final(self)),
            auth_step(*old(self), *final(self), actions_view(r@), config, player_view(player)),
    {
        let p = match player {
            Some(p) => p,
            None => return self.say_farewell("&cAuthentication failed."),
        };
        if p.name.as_str().as_bytes().len() > MAX_STRING_BYTES {
            return self.say_farewell("&cAuthentication failed.");
        }
        match config.get_default_server() {
            Err(_) => self.say_farewell("&cWe don't know where to send you!"),
            Ok(server) => {
                let id = server.id.clone();
                let address = server.address.clone();
                self.backend = Some(server);
                self.name = Some(p.name);
                self.phase = Phase::AwaitBackend;
                one(Action::ConnectBackend { id, address })
            },
        }
    }

    /// Takes in whether the connection to the chosen backend was made.
    pub fn on_backend_connected(&mut self, ok: bool) -> (r: Vec<Action>)
        requires
            old(self).wf(),
            old(self).phase == Phase::AwaitBackend,
        ensures
            final(self).wf(),
            same_keys(*old(self), *final(self)),
            backend_connected_step(*old(self), *final(self), actions_view(r@), ok),
    {
        if !ok {
            let mut text = String::from_str("&cFailed to connect to ");
            match &self.backend {
                Some(b) => text.append(b.id.as_str()),
                None => {},
            }
            text.append("!");
            return self.say_farewell(text.as_str());
        }
        let mut bytes: Vec<u8> = Vec::new();
        let ghost h = handshake_view(self.handshake)->Some_0;
        let ghost n = self.name->Some_0@;
        match &self.handshake {
            Some(h) => {
                let frame = write_packet(h);
                bytes.extend_from_slice(frame.as_slice());
            },
            None => {},
        }
        assert(bytes@ =~= frame_bytes(0, <handshake::Packet as Out>::spec_encode(h)));
        match &self.name {
            Some(n) => {
                let start = Start { name: n.clone() };
                let frame = write_packet(&start);
                bytes.extend_from_slice(frame.as_slice());
            },
            None => {},
        }
        assert(bytes@ =~= replay_bytes(h, n));
        self.phase = Phase::AwaitBackendReply;
        one(Action::SendToBackend(bytes))
    }

    /// Reads the backend's answer to the replayed login.
    pub fn step_backend(&mut self) -> (r: Vec<Action>)
        requires
            old(self).wf(),
            old(self).phase == Phase::AwaitBackendReply,
        ensures
            final(self).wf(),
            same_keys(*old(self), *final(self)),
            backend_step(*old(self), *final(self), actions_view(r@)),
    {
        assert(self.backend_in@.skip(0) =~= self.backend_in@);
        proof {
            crate::codec::lemma_frame_parse_len(self.backend_in@);
        }
        let (frame, next) = match decode_frame(self.backend_in.as_slice(), 0) {
            Ok(x) => x,
            Err(WireError::Truncated) => return Vec::new(),
            Err(_) => {
                self.phase = Phase::Closed;
                return one(Action::Close);
            },
        };
        if frame.id == 2 {
            let all = self.backend_in.clone();
            let sealed = self.seal(all.as_slice());
            let early = self.client_early.clone();
            self.backend_in = Vec::new();
            self.client_early = Vec::new();
            self.phase = Phase::Play;
            three(Action::SendToClient(sealed), Action::SendToBackend(early), Action::Forward)
        } else if frame.id == 0 {
            let raw = slice_to_vec(slice_subrange(self.backend_in.as_slice(), 0, next));
            assert(raw@ =~= self.backend_in@.take(next as int));
            let sealed = self.seal(raw.as_slice());
            assert(frame.payload@.skip(0) =~= frame.payload@);
            let reason = match read_string(frame.payload.as_slice(), 0) {
                Ok((t, _)) => t,
                Err(_) => String::new(),
            };
            let backend = match &self.backend {
                Some(b) => b.id.clone(),
                None => String::new(),
            };
            self.phase = Phase::Closed;
            three(
                Action::SendToClient(sealed),
                Action::Refused { backend, reason },
                Action::Close,
            )
        } else {
            self.phase = Phase::Closed;
            one(Action::Close)
        }
    }

    /// Reads one whole frame the client sent, if the phase waits for one and
    /// one is buffered, and decides what follows; `config` and `players` answer
    /// a status request and `key` decrypts a key exchange.
    pub fn step_client(&mut self, config: &ProxyConfig, players: &Vec<Player>, key: &Rsa<Private>) -> (r:
        Vec<Action>)
        requires
            old(self).wf(),
            players@.len() <= i32::MAX,
        ensures
            final(self).wf(),
            old(self).phase != Phase::AwaitEncryptionResponse ==> final(self).rsa_ops
                == old(self).rsa_ops,
            !(client_ready(*old(self)) && reads_client(old(self).phase)) ==> r@.len() == 0
                && final(self).phase == old(self).phase && final(self).client_in
                == old(self).client_in,
            client_ready(*old(self)) && old(self).phase == Phase::AwaitHandshake ==> handshake_step(
                *old(self),
                *final(self),
                actions_view(r@),
            ),
            client_ready(*old(self)) && old(self).phase == Phase::AwaitStatusRequest
                ==> status_request_step(*old(self), *final(self), actions_view(r@), config, players@),
            client_ready(*old(self)) && old(self).phase == Phase::AwaitPing ==> ping_step(
                *old(self),
                *final(self),
                actions_view(r@),
            ),
            client_ready(*old(self)) && old(self).phase == Phase::AwaitLoginStart
                ==> login_start_step(*old(self), *final(self), actions_view(r@)),
            client_ready(*old(self)) && old(self).phase == Phase::AwaitEncryptionResponse
                ==> encryption_response_step(*old(self), *final(self), actions_view(r@), *key),
    {
        if !self.client_frame_ready() {
            return Vec::new();
        }
        match self.phase {
            Phase::AwaitHandshake => self.handle_handshake(),
            Phase::AwaitStatusRequest => self.handle_status_request(config, players),
            Phase::AwaitPing => self.handle_ping(),
            Phase::AwaitLoginStart => self.handle_login_start(),
            Phase::AwaitEncryptionResponse => self.handle_encryption_response(key),
            _ => Vec::new(),
        }
    }

    /// Hands over the two ciphers of the client connection once forwarding
    /// begins: the one towards the client, then the one from it. The session
    /// is then over.
    pub fn take_ciphers(&mut self) -> (r: Option<(CipherStream, CipherStream)>)
        requires
            old(self).wf(),
        ensures
            final(self).wf(),
            old(self).phase == Phase::Play ==> (r matches Some((a, b)) && a@ == old(
                self,
            ).to_client->Some_0@ && b@ == old(self).from_client->Some_0@ && a.wf() && b.wf()
                && final(self).phase == Phase::Closed),
            old(self).phase != Phase::Play ==> r is None && final(self).phase == old(self).phase,
    {
        if self.phase != Phase::Play {
            return None;
        }
        let a = self.to_client.take();
        let b = self.from_client.take();
        self.phase = Phase::Closed;
        match (a, b) {
            (Some(a), Some(b)) => Some((a, b)),
            _ => None,
        }
    }
}

/// A client whose first frame is a handshake asking for neither status nor
/// login has its connection closed, and nothing is sent to it.
pub proof fn lemma_unknown_next_state_closes(
    old: Session,
    new: Session,
    r: Seq<ActionView>,
    h: (i32, Seq<char>, u16, i32),
    rest: Seq<u8>,
)
    requires
        handshake_step(old, new, r),
        old.client_in@ == frame_bytes(0, <handshake::Packet as Out>::spec_encode(h)) + rest,
        encode_utf8(h.1).len() <= MAX_STRING_BYTES,
        h.3 != 1,
        h.3 != 2,
    ensures
        r == seq![ActionView::Close],
        new.phase == Phase::Closed,
        forall|i: int| 0 <= i < r.len() ==> !(r[i] is SendToClient),
{
    let p = <handshake::Packet as Out>::spec_encode(h);
    crate::packet::handshake::lemma_handshake_decode(h);
    crate::codec::lemma_varint_round_trip(h.0, Seq::empty());
    crate::codec::lemma_varint_round_trip(h.3, Seq::empty());
    crate::codec::lemma_varint_round_trip(encode_utf8(h.1).len() as i32, Seq::empty());
    crate::codec::lemma_varint_round_trip(0, Seq::empty());
    crate::codec::lemma_frame_round_trip(0, p, rest);
}

/// A verify token that does not come back as it was sent closes the
/// connection, and nothing is sent to the client.
pub proof fn lemma_token_mismatch_closes(
    old: Session,
    new: Session,
    r: Seq<ActionView>,
    token: Seq<u8>,
    secret: Option<Seq<u8>>,
)
    requires
        key_exchange_step(old, new, r, Some(token), secret),
        token != old.token@,
    ensures
        r == seq![ActionView::Close],
        new.phase == Phase::Closed,
        forall|i: int| 0 <= i < r.len() ==> !(r[i] is SendToClient),
{
}

/// A connection whose client asked for status has caused no RSA decryption,
/// and stays in the status exchange.
pub proof fn lemma_status_never_decrypts(s: Session)
    requires
        s.wf(),
        s.handshake is Some,
        s.handshake->Some_0.next_state == 1,
    ensures
        s.rsa_ops@ == 0,
        status_phase(s.phase),
{
}

/// With no backend marked as a default, an authenticated player is told so
/// over the encrypted connection, and the connection closes.
pub proof fn lemma_no_default_backend(
    old: Session,
    new: Session,
    r: Seq<ActionView>,
    config: &ProxyConfig,
    player: (u128, Seq<char>),
)
    requires
        auth_step(old, new, r, config, Some(player)),
        encode_utf8(player.1).len() <= MAX_STRING_BYTES,
        default_entries(config.server_views()).len() == 0,
    ensures
        r == seq![
            ActionView::SendToClient(sealed(old, disconnect_bytes(no_default_text()))),
            ActionView::Close,
        ],
        new.phase == Phase::Closed,
{
    reveal_strlit("&cWe don't know where to send you!");
    lemma_short_reason_fits(no_default_text());
}

/// A backend's refusal reaches the client as the very frame the backend sent,
/// encrypted, and the connection closes.
pub proof fn lemma_backend_refusal_forwarded(
    old: Session,
    new: Session,
    r: Seq<ActionView>,
    payload: Seq<u8>,
    n: nat,
)
    requires
        backend_step(old, new, r),
        frame_parse(old.backend_in@) == Ok::<(i32, Seq<u8>, nat), WireError>((0, payload, n)),
    ensures
        r.len() == 3,
        r[0] == ActionView::SendToClient(sealed(old, old.backend_in@.take(n as int))),
        r[2] == ActionView::Close,
        new.phase == Phase::Closed,
{
}

} // verus!
