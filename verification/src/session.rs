//! What the relay answers: the hello handshake, the routing of text and
//! binary messages, and the output switches that clients control.
//!
//! Messages arrive as JSON text; `serde_json` reads the few fields these
//! decisions look at, and the decisions are stated over what it reads.

use serde_json::Value;
use vstd::prelude::*;

use crate::backend::{OutputMode, Platform};
use crate::chunk::{chunk_layout, parse_binary_info, BinaryInfo, MSG_TYPE_AUDIO, MSG_TYPE_VIDEO};
use crate::relay::{RelayRoutes, Role};
use crate::text::{chars_are, chars_of};

verus! {

/// The version of the wire protocol this relay speaks.
pub const PROTOCOL_VERSION: i64 = 1;

/// An error the relay answers with: its code and message.
#[derive(Clone, Copy, Debug, PartialEq, Eq, Structural)]
pub enum RelayError {
    HandshakeRead,
    HandshakeClosed,
    HandshakeTimeout,
    HandshakeType,
    HandshakeJson,
    HandshakeMissing,
    ProtocolVersion,
    HandshakeRole,
    InvalidJson,
    UnsupportedExtensionMessage,
    PlayerRequired,
    UnsupportedClientMessage,
    PlayerNotRegistered,
    OutputRequired,
    SpoutUnsupportedOnMac,
    UnknownOutput,
    OutputUnavailable,
    EnabledRequired,
    UnsupportedControl,
    BinaryForbidden,
    BinaryHeader,
    UnsupportedChunk,
}

impl RelayError {
    pub open spec fn code_text(self) -> Seq<char> {
        match self {
            RelayError::HandshakeRead => "E_HANDSHAKE_READ"@,
            RelayError::HandshakeClosed => "E_HANDSHAKE_CLOSED"@,
            RelayError::HandshakeTimeout => "E_HANDSHAKE_TIMEOUT"@,
            RelayError::HandshakeType => "E_HANDSHAKE_TYPE"@,
            RelayError::HandshakeJson => "E_HANDSHAKE_JSON"@,
            RelayError::HandshakeMissing => "E_HANDSHAKE_MISSING"@,
            RelayError::ProtocolVersion => "E_PROTOCOL_VERSION"@,
            RelayError::HandshakeRole => "E_HANDSHAKE_ROLE"@,
            RelayError::InvalidJson => "E_INVALID_JSON"@,
            RelayError::UnsupportedExtensionMessage => "E_UNSUPPORTED_MESSAGE"@,
            RelayError::PlayerRequired => "E_PLAYER_REQUIRED"@,
            RelayError::UnsupportedClientMessage => "E_UNSUPPORTED_MESSAGE"@,
            RelayError::PlayerNotRegistered => "E_PLAYER_NOT_REGISTERED"@,
            RelayError::OutputRequired => "E_INVALID_JSON"@,
            RelayError::SpoutUnsupportedOnMac => "E_UNSUPPORTED_MESSAGE"@,
            RelayError::UnknownOutput => "E_UNSUPPORTED_MESSAGE"@,
            RelayError::OutputUnavailable => "E_UNSUPPORTED_MESSAGE"@,
            RelayError::EnabledRequired => "E_INVALID_JSON"@,
            RelayError::UnsupportedControl => "E_UNSUPPORTED_MESSAGE"@,
            RelayError::BinaryForbidden => "E_BINARY_FORBIDDEN"@,
            RelayError::BinaryHeader => "E_BINARY_HEADER"@,
            RelayError::UnsupportedChunk => "E_UNSUPPORTED_CHUNK"@,
        }
    }

    /// The error's code on the wire.
    pub fn code(self) -> (r: &'static str)
        ensures
            r@ == self.code_text(),
    {
        match self {
            RelayError::HandshakeRead => "E_HANDSHAKE_READ",
            RelayError::HandshakeClosed => "E_HANDSHAKE_CLOSED",
            RelayError::HandshakeTimeout => "E_HANDSHAKE_TIMEOUT",
            RelayError::HandshakeType => "E_HANDSHAKE_TYPE",
            RelayError::HandshakeJson => "E_HANDSHAKE_JSON",
            RelayError::HandshakeMissing => "E_HANDSHAKE_MISSING",
            RelayError::ProtocolVersion => "E_PROTOCOL_VERSION",
            RelayError::HandshakeRole => "E_HANDSHAKE_ROLE",
            RelayError::InvalidJson => "E_INVALID_JSON",
            RelayError::UnsupportedExtensionMessage => "E_UNSUPPORTED_MESSAGE",
            RelayError::PlayerRequired => "E_PLAYER_REQUIRED",
            RelayError::UnsupportedClientMessage => "E_UNSUPPORTED_MESSAGE",
            RelayError::PlayerNotRegistered => "E_PLAYER_NOT_REGISTERED",
            RelayError::OutputRequired => "E_INVALID_JSON",
            RelayError::SpoutUnsupportedOnMac => "E_UNSUPPORTED_MESSAGE",
            RelayError::UnknownOutput => "E_UNSUPPORTED_MESSAGE",
            RelayError::OutputUnavailable => "E_UNSUPPORTED_MESSAGE",
            RelayError::EnabledRequired => "E_INVALID_JSON",
            RelayError::UnsupportedControl => "E_UNSUPPORTED_MESSAGE",
            RelayError::BinaryForbidden => "E_BINARY_FORBIDDEN",
            RelayError::BinaryHeader => "E_BINARY_HEADER",
            RelayError::UnsupportedChunk => "E_UNSUPPORTED_CHUNK",
        }
    }

    pub open spec fn message_text(self) -> Seq<char> {
        match self {
            RelayError::HandshakeRead => "failed to read hello message"@,
            RelayError::HandshakeClosed => "connection closed before hello"@,
            RelayError::HandshakeTimeout => "hello message timeout"@,
            RelayError::HandshakeType => "first message must be hello JSON"@,
            RelayError::HandshakeJson => "invalid hello json"@,
            RelayError::HandshakeMissing => "missing hello message"@,
            RelayError::ProtocolVersion => "unsupported protocolVersion"@,
            RelayError::HandshakeRole => "role must be browser-port-extension or client"@,
            RelayError::InvalidJson => "invalid JSON payload"@,
            RelayError::UnsupportedExtensionMessage => "unsupported browser-port-extension message type"@,
            RelayError::PlayerRequired => "playerId is required"@,
            RelayError::UnsupportedClientMessage => "unsupported client message type"@,
            RelayError::PlayerNotRegistered => "player route is not available"@,
            RelayError::OutputRequired => "output is required for browser-port-control"@,
            RelayError::SpoutUnsupportedOnMac => "spout is not supported on macOS; use syphon output"@,
            RelayError::UnknownOutput => "unknown output target"@,
            RelayError::OutputUnavailable => "output is not available on this host"@,
            RelayError::EnabledRequired => "enabled=true/false is required"@,
            RelayError::UnsupportedControl => "unsupported browser-port-control command"@,
            RelayError::BinaryForbidden => "binary is only for browser-port-extension role"@,
            RelayError::BinaryHeader => "invalid binary header"@,
            RelayError::UnsupportedChunk => "unsupported binary message type"@,
        }
    }

    /// The error's message on the wire.
    pub fn message(self) -> (r: &'static str)
        ensures
            r@ == self.message_text(),
    {
        match self {
            RelayError::HandshakeRead => "failed to read hello message",
            RelayError::HandshakeClosed => "connection closed before hello",
            RelayError::HandshakeTimeout => "hello message timeout",
            RelayError::HandshakeType => "first message must be hello JSON",
            RelayError::HandshakeJson => "invalid hello json",
            RelayError::HandshakeMissing => "missing hello message",
            RelayError::ProtocolVersion => "unsupported protocolVersion",
            RelayError::HandshakeRole => "role must be browser-port-extension or client",
            RelayError::InvalidJson => "invalid JSON payload",
            RelayError::UnsupportedExtensionMessage => "unsupported browser-port-extension message type",
            RelayError::PlayerRequired => "playerId is required",
            RelayError::UnsupportedClientMessage => "unsupported client message type",
            RelayError::PlayerNotRegistered => "player route is not available",
            RelayError::OutputRequired => "output is required for browser-port-control",
            RelayError::SpoutUnsupportedOnMac => "spout is not supported on macOS; use syphon output",
            RelayError::UnknownOutput => "unknown output target",
            RelayError::OutputUnavailable => "output is not available on this host",
            RelayError::EnabledRequired => "enabled=true/false is required",
            RelayError::UnsupportedControl => "unsupported browser-port-control command",
            RelayError::BinaryForbidden => "binary is only for browser-port-extension role",
            RelayError::BinaryHeader => "invalid binary header",
            RelayError::UnsupportedChunk => "unsupported binary message type",
        }
    }
}

/// How the first message of a connection arrived.
pub enum HelloInput {
    /// Reading it failed.
    ReadFailed,
    /// The connection closed first.
    Closed,
    /// It did not come in time.
    TimedOut,
    /// It was not a text message.
    NotText,
    /// Its text was not JSON.
    InvalidJson,
    /// A JSON message, with the fields the handshake reads.
    Json {
        msg_type: Option<String>,
        protocol_version: Option<i64>,
        role: Option<String>,
        source: Option<String>,
    },
}

/// A connection that completed its hello.
pub struct HandshakeInfo {
    pub role: Role,
    pub source: Option<String>,
}

/// The role named `name` on the wire.
pub open spec fn role_named(name: Seq<char>) -> Option<Role> {
    if name == Role::BrowserPortExtension.name() {
        Some(Role::BrowserPortExtension)
    } else if name == Role::Client.name() {
        Some(Role::Client)
    } else {
        None
    }
}

pub open spec fn word_hello() -> Seq<char> {
    seq!['h', 'e', 'l', 'l', 'o']
}

/// The handshake's answer to a first message.
pub open spec fn hello_outcome(input: HelloInput) -> Result<Role, RelayError> {
    match input {
        HelloInput::ReadFailed => Err(RelayError::HandshakeRead),
        HelloInput::Closed => Err(RelayError::HandshakeClosed),
        HelloInput::TimedOut => Err(RelayError::HandshakeTimeout),
        HelloInput::NotText => Err(RelayError::HandshakeType),
        HelloInput::InvalidJson => Err(RelayError::HandshakeJson),
        HelloInput::Json { msg_type, protocol_version, role, source } => hello_fields_outcome(
            optional_string(msg_type),
            protocol_version,
            optional_string(role),
        ),
    }
}

/// An optional string as an optional sequence of characters.
pub open spec fn optional_string(value: Option<String>) -> Option<Seq<char>> {
    match value {
        Some(s) => Some(s@),
        None => None,
    }
}

/// The handshake's answer to a JSON hello with these `type`,
/// `protocolVersion` and `role` fields: it must be a hello of this protocol
/// version (a missing version counts as 0) naming a known role.
pub open spec fn hello_fields_outcome(
    msg_type: Option<Seq<char>>,
    protocol_version: Option<i64>,
    role: Option<Seq<char>>,
) -> Result<Role, RelayError> {
    if !(msg_type matches Some(t) && t == word_hello()) {
        Err(RelayError::HandshakeMissing)
    } else if (match protocol_version {
        Some(v) => v,
        None => 0,
    }) != PROTOCOL_VERSION {
        Err(RelayError::ProtocolVersion)
    } else {
        match role {
            Some(r) => match role_named(r) {
                Some(found) => Ok(found),
                None => Err(RelayError::HandshakeRole),
            },
            None => Err(RelayError::HandshakeRole),
        }
    }
}

/// The fields a JSON hello is read for, as `serde_json` reads the text
/// `text` into a `Value`: `None` when the text is not JSON, and otherwise
/// its string `type`, its integer `protocolVersion`, its string `role` and
/// the string `source` of its `capabilities` object, each `None` where the
/// field is missing or of another kind.
pub uninterp spec fn json_hello_fields(text: Seq<char>) -> Option<
    (Option<Seq<char>>, Option<i64>, Option<Seq<char>>, Option<Seq<char>>),
>;

/// The hello fields as plain values.
pub open spec fn hello_fields_view(
    fields: Option<(Option<String>, Option<i64>, Option<String>, Option<String>)>,
) -> Option<(Option<Seq<char>>, Option<i64>, Option<Seq<char>>, Option<Seq<char>>)> {
    match fields {
        Some((t, v, r, s)) => Some((optional_string(t), v, optional_string(r), optional_string(s))),
        None => None,
    }
}

/// Calls `serde_json::from_str::<Value>` on a hello's text and picks the
/// fields the handshake reads: `type`, `protocolVersion` (as `i64`), `role`
/// and `capabilities.source`.  The result is named by `json_hello_fields`.
#[verifier::external_body]
fn read_hello_fields(text: &str) -> (r: Option<(Option<String>, Option<i64>, Option<String>, Option<String>)>)
    ensures
        hello_fields_view(r) == json_hello_fields(text@),
{
    match serde_json::from_str::<Value>(text) {
        Ok(v) => Some((
            v.get("type").and_then(Value::as_str).map(String::from),
            v.get("protocolVersion").and_then(Value::as_i64),
            v.get("role").and_then(Value::as_str).map(String::from),
            v.get("capabilities").and_then(|c| c.get("source")).and_then(Value::as_str).map(
                String::from,
            ),
        )),
        Err(_) => None,
    }
}

/// Checks a connection's first message, received as text: it must be JSON
/// (else `HandshakeJson`) and then pass `hello_fields_outcome`; the source
/// it names is kept.
pub fn parse_hello_text(text: &str) -> (r: Result<HandshakeInfo, RelayError>)
    ensures
        match json_hello_fields(text@) {
            None => r == Err::<HandshakeInfo, RelayError>(RelayError::HandshakeJson),
            Some((msg_type, protocol_version, role, source)) => match hello_fields_outcome(
                msg_type,
                protocol_version,
                role,
            ) {
                Ok(found) => r matches Ok(info) && info.role == found && optional_string(
                    info.source,
                ) == source,
                Err(e) => r == Err::<HandshakeInfo, RelayError>(e),
            },
        },
{
    match read_hello_fields(text) {
        None => Err(RelayError::HandshakeJson),
        Some((msg_type, protocol_version, role, source)) => parse_hello(
            HelloInput::Json { msg_type, protocol_version, role, source },
        ),
    }
}

fn role_from_name(name: &str) -> (r: Option<Role>)
    ensures
        r == role_named(name@),
{
    let chars = chars_of(name);
    let ext: [char; 22] = [
        'b', 'r', 'o', 'w', 's', 'e', 'r', '-', 'p', 'o', 'r', 't', '-', 'e', 'x', 't', 'e', 'n',
        's', 'i', 'o', 'n',
    ];
    let client: [char; 6] = ['c', 'l', 'i', 'e', 'n', 't'];
    assert(ext@ == Role::BrowserPortExtension.name());
    assert(client@ == Role::Client.name());
    if chars_are(&chars, &ext) {
        Some(Role::BrowserPortExtension)
    } else if chars_are(&chars, &client) {
        Some(Role::Client)
    } else {
        None
    }
}

fn is_word(s: &str, word: &[char]) -> (r: bool)
    ensures
        r == (s@ == word@),
{
    let chars = chars_of(s);
    chars_are(&chars, word)
}

/// Checks a connection's first message: it must be a JSON hello of this
/// protocol version naming a known role; the source it names is kept.
pub fn parse_hello(input: HelloInput) -> (r: Result<HandshakeInfo, RelayError>)
    ensures
        match hello_outcome(input) {
            Ok(role) => r matches Ok(info) && info.role == role && info.source == (match input {
                HelloInput::Json { source, .. } => source,
                _ => None,
            }),
            Err(e) => r == Err::<HandshakeInfo, RelayError>(e),
        },
{
    match input {
        HelloInput::ReadFailed => Err(RelayError::HandshakeRead),
        HelloInput::Closed => Err(RelayError::HandshakeClosed),
        HelloInput::TimedOut => Err(RelayError::HandshakeTimeout),
        HelloInput::NotText => Err(RelayError::HandshakeType),
        HelloInput::InvalidJson => Err(RelayError::HandshakeJson),
        HelloInput::Json { msg_type, protocol_version, role, source } => {
            let hello: [char; 5] = ['h', 'e', 'l', 'l', 'o'];
            assert(hello@ == word_hello());
            let is_hello = match &msg_type {
                Some(t) => is_word(t.as_str(), &hello),
                None => false,
            };
            if !is_hello {
                return Err(RelayError::HandshakeMissing);
            }
            let version = match protocol_version {
                Some(v) => v,
                None => 0,
            };
            if version != PROTOCOL_VERSION {
                return Err(RelayError::ProtocolVersion);
            }
            let found = match &role {
                Some(name) => role_from_name(name.as_str()),
                None => None,
            };
            match found {
                Some(role) => Ok(HandshakeInfo { role, source }),
                None => Err(RelayError::HandshakeRole),
            }
        },
    }
}

/// A player id as the wire gives it, if it fits in 32 bits.
pub open spec fn player_id_of(raw: Option<u64>) -> Option<u32> {
    match raw {
        Some(n) => if n <= u32::MAX {
            Some(n as u32)
        } else {
            None
        },
        None => None,
    }
}

fn player_id_from(raw: Option<u64>) -> (r: Option<u32>)
    ensures
        r == player_id_of(raw),
{
    match raw {
        Some(n) => if n <= 0xFFFF_FFFFu64 {
            Some(n as u32)
        } else {
            None
        },
        None => None,
    }
}

/// The message types a browser extension may send.
#[derive(Clone, Copy, Debug, PartialEq, Eq, Structural)]
pub enum ExtensionMessage {
    Register,
    Config,
    Playback,
    SearchResults,
    SearchSelected,
    Status,
    Error,
    Pong,
}

impl ExtensionMessage {
    pub open spec fn name(self) -> Seq<char> {
        match self {
            ExtensionMessage::Register => seq!['r', 'e', 'g', 'i', 's', 't', 'e', 'r'],
            ExtensionMessage::Config => seq!['c', 'o', 'n', 'f', 'i', 'g'],
            ExtensionMessage::Playback => seq!['p', 'l', 'a', 'y', 'b', 'a', 'c', 'k'],
            ExtensionMessage::SearchResults => seq![
                's', 'e', 'a', 'r', 'c', 'h', '-', 'r', 'e', 's', 'u', 'l', 't', 's'
            ],
            ExtensionMessage::SearchSelected => seq![
                's', 'e', 'a', 'r', 'c', 'h', '-', 's', 'e', 'l', 'e', 'c', 't', 'e', 'd'
            ],
            ExtensionMessage::Status => seq!['s', 't', 'a', 't', 'u', 's'],
            ExtensionMessage::Error => seq!['e', 'r', 'r', 'o', 'r'],
            ExtensionMessage::Pong => seq!['p', 'o', 'n', 'g'],
        }
    }

    /// Whether a message of this type must name its player.
    pub open spec fn player_scoped(self) -> bool {
        match self {
            ExtensionMessage::Register | ExtensionMessage::Config | ExtensionMessage::Playback
            | ExtensionMessage::SearchResults | ExtensionMessage::SearchSelected => true,
            _ => false,
        }
    }
}

/// The extension message type named `t`.
pub open spec fn extension_message_named(t: Seq<char>) -> Option<ExtensionMessage> {
    if t == ExtensionMessage::Register.name() {
        Some(ExtensionMessage::Register)
    } else if t == ExtensionMessage::Config.name() {
        Some(ExtensionMessage::Config)
    } else if t == ExtensionMessage::Playback.name() {
        Some(ExtensionMessage::Playback)
    } else if t == ExtensionMessage::SearchResults.name() {
        Some(ExtensionMessage::SearchResults)
    } else if t == ExtensionMessage::SearchSelected.name() {
        Some(ExtensionMessage::SearchSelected)
    } else if t == ExtensionMessage::Status.name() {
        Some(ExtensionMessage::Status)
    } else if t == ExtensionMessage::Error.name() {
        Some(ExtensionMessage::Error)
    } else if t == ExtensionMessage::Pong.name() {
        Some(ExtensionMessage::Pong)
    } else {
        None
    }
}

fn extension_message_from(t: &Vec<char>) -> (r: Option<ExtensionMessage>)
    ensures
        r == extension_message_named(t@),
{
    let register: [char; 8] = ['r', 'e', 'g', 'i', 's', 't', 'e', 'r'];
    let config: [char; 6] = ['c', 'o', 'n', 'f', 'i', 'g'];
    let playback: [char; 8] = ['p', 'l', 'a', 'y', 'b', 'a', 'c', 'k'];
    let results: [char; 14] = [
        's', 'e', 'a', 'r', 'c', 'h', '-', 'r', 'e', 's', 'u', 'l', 't', 's',
    ];
    let selected: [char; 15] = [
        's', 'e', 'a', 'r', 'c', 'h', '-', 's', 'e', 'l', 'e', 'c', 't', 'e', 'd',
    ];
    let status: [char; 6] = ['s', 't', 'a', 't', 'u', 's'];
    let error: [char; 5] = ['e', 'r', 'r', 'o', 'r'];
    let pong: [char; 4] = ['p', 'o', 'n', 'g'];
    assert(register@ == ExtensionMessage::Register.name());
    assert(config@ == ExtensionMessage::Config.name());
    assert(playback@ == ExtensionMessage::Playback.name());
    assert(results@ == ExtensionMessage::SearchResults.name());
    assert(selected@ == ExtensionMessage::SearchSelected.name());
    assert(status@ == ExtensionMessage::Status.name());
    assert(error@ == ExtensionMessage::Error.name());
    assert(pong@ == ExtensionMessage::Pong.name());
    if chars_are(t, &register) {
        Some(ExtensionMessage::Register)
    } else if chars_are(t, &config) {
        Some(ExtensionMessage::Config)
    } else if chars_are(t, &playback) {
        Some(ExtensionMessage::Playback)
    } else if chars_are(t, &results) {
        Some(ExtensionMessage::SearchResults)
    } else if chars_are(t, &selected) {
        Some(ExtensionMessage::SearchSelected)
    } else if chars_are(t, &status) {
        Some(ExtensionMessage::Status)
    } else if chars_are(t, &error) {
        Some(ExtensionMessage::Error)
    } else if chars_are(t, &pong) {
        Some(ExtensionMessage::Pong)
    } else {
        None
    }
}

/// What to do with a text message.
#[derive(Clone, Copy, Debug, PartialEq, Eq, Structural)]
pub enum TextAction {
    /// Answer the sender with an error, naming the player when there is one.
    Reply { error: RelayError, player_id: Option<u32> },
    /// Answer a ping.
    Pong,
    /// An extension's message: record it for the player it names (a
    /// configuration or status; a registration is announced) and pass the
    /// text on to every client.
    FromExtension { kind: ExtensionMessage, player_id: Option<u32> },
    /// A client's control of the relay's outputs.
    Control,
    /// A client's report of helper statistics.
    HelperStats,
    /// Nothing to do.
    Ignore,
    /// Pass a client's text on to the connection of the player it names.
    Forward { conn_id: u64 },
}

pub open spec fn word_ping() -> Seq<char> {
    seq!['p', 'i', 'n', 'g']
}

pub open spec fn word_control() -> Seq<char> {
    seq!['b', 'r', 'o', 'w', 's', 'e', 'r', '-', 'p', 'o', 'r', 't', '-', 'c', 'o', 'n', 't', 'r', 'o', 'l']
}

pub open spec fn word_helper_stats() -> Seq<char> {
    seq!['h', 'e', 'l', 'p', 'e', 'r', '-', 's', 't', 'a', 't', 's']
}

pub open spec fn word_client_control() -> Seq<char> {
    seq!['c', 'o', 'n', 't', 'r', 'o', 'l']
}

pub open spec fn word_search() -> Seq<char> {
    seq!['s', 'e', 'a', 'r', 'c', 'h']
}

pub open spec fn word_pong() -> Seq<char> {
    seq!['p', 'o', 'n', 'g']
}

/// The answer to a text message from `role`, with `routes` the routing
/// table before the message: `parsed` tells whether its text was JSON,
/// `msg_type` is its `type` (empty when it has none) and `player_id` its
/// `playerId` when that is a non-negative integer.
pub open spec fn text_action(
    routes: Map<u32, u64>,
    connections: Map<u64, Role>,
    role: Role,
    parsed: bool,
    msg_type: Seq<char>,
    player_id: Option<u64>,
) -> TextAction {
    let player = player_id_of(player_id);
    if !parsed {
        TextAction::Reply { error: RelayError::InvalidJson, player_id: None }
    } else if msg_type == word_ping() {
        TextAction::Pong
    } else {
        match role {
            Role::BrowserPortExtension => match extension_message_named(msg_type) {
                None => TextAction::Reply {
                    error: RelayError::UnsupportedExtensionMessage,
                    player_id: None,
                },
                Some(kind) => if kind.player_scoped() && player is None {
                    TextAction::Reply { error: RelayError::PlayerRequired, player_id: None }
                } else {
                    TextAction::FromExtension { kind, player_id: player }
                },
            },
            Role::Client => if msg_type == word_control() {
                TextAction::Control
            } else if msg_type == word_helper_stats() {
                TextAction::HelperStats
            } else if !(msg_type == word_client_control() || msg_type == word_search()
                || msg_type == word_pong()) {
                TextAction::Reply { error: RelayError::UnsupportedClientMessage, player_id: None }
            } else if msg_type == word_pong() {
                TextAction::Ignore
            } else {
                match player {
                    None => TextAction::Reply { error: RelayError::PlayerRequired, player_id: None },
                    Some(p) => if routes.dom().contains(p) && connections.dom().contains(routes[p]) {
                        TextAction::Forward { conn_id: routes[p] }
                    } else {
                        TextAction::Reply {
                            error: RelayError::PlayerNotRegistered,
                            player_id: Some(p),
                        }
                    },
                }
            },
        }
    }
}

/// Decides what to do with a text message from connection `conn_id`; an
/// extension's message that names its player routes the player to it.
pub fn route_text_message(
    routes: &mut RelayRoutes,
    conn_id: u64,
    role: Role,
    parsed: bool,
    msg_type: &str,
    player_id: Option<u64>,
) -> (r: TextAction)
    ensures
        r == text_action(
            old(routes).routes(),
            old(routes).connections(),
            role,
            parsed,
            msg_type@,
            player_id,
        ),
        final(routes).connections() == old(routes).connections(),
        final(routes).routes() == (match r {
            TextAction::FromExtension { player_id: Some(p), .. } => old(routes).routes().insert(
                p,
                conn_id,
            ),
            _ => old(routes).routes(),
        }),
{
    let player = player_id_from(player_id);
    if !parsed {
        return TextAction::Reply { error: RelayError::InvalidJson, player_id: None };
    }
    let t = chars_of(msg_type);
    let ping: [char; 4] = ['p', 'i', 'n', 'g'];
    assert(ping@ == word_ping());
    if chars_are(&t, &ping) {
        return TextAction::Pong;
    }
    match role {
        Role::BrowserPortExtension => {
            let kind = match extension_message_from(&t) {
                Some(k) => k,
                None => {
                    return TextAction::Reply {
                        error: RelayError::UnsupportedExtensionMessage,
                        player_id: None,
                    };
                },
            };
            let scoped = match kind {
                ExtensionMessage::Register | ExtensionMessage::Config | ExtensionMessage::Playback
                | ExtensionMessage::SearchResults | ExtensionMessage::SearchSelected => true,
                _ => false,
            };
            if scoped && player.is_none() {
                return TextAction::Reply { error: RelayError::PlayerRequired, player_id: None };
            }
            if let Some(p) = player {
                routes.route_player(p, conn_id);
            }
            TextAction::FromExtension { kind, player_id: player }
        },
        Role::Client => {
            let control: [char; 20] = [
                'b', 'r', 'o', 'w', 's', 'e', 'r', '-', 'p', 'o', 'r', 't', '-', 'c', 'o', 'n', 't',
                'r', 'o', 'l',
            ];
            let stats: [char; 12] = ['h', 'e', 'l', 'p', 'e', 'r', '-', 's', 't', 'a', 't', 's'];
            let client_control: [char; 7] = ['c', 'o', 'n', 't', 'r', 'o', 'l'];
            let search: [char; 6] = ['s', 'e', 'a', 'r', 'c', 'h'];
            let pong: [char; 4] = ['p', 'o', 'n', 'g'];
            assert(control@ == word_control());
            assert(stats@ == word_helper_stats());
            assert(client_control@ == word_client_control());
            assert(search@ == word_search());
            assert(pong@ == word_pong());
            if chars_are(&t, &control) {
                return TextAction::Control;
            }
            if chars_are(&t, &stats) {
                return TextAction::HelperStats;
            }
            let is_pong = chars_are(&t, &pong);
            if !(chars_are(&t, &client_control) || chars_are(&t, &search) || is_pong) {
                return TextAction::Reply {
                    error: RelayError::UnsupportedClientMessage,
                    player_id: None,
                };
            }
            if is_pong {
                return TextAction::Ignore;
            }
            match player {
                None => TextAction::Reply { error: RelayError::PlayerRequired, player_id: None },
                Some(p) => match routes.connection_for_player(p) {
                    Some(c) => TextAction::Forward { conn_id: c },
                    None => TextAction::Reply {
                        error: RelayError::PlayerNotRegistered,
                        player_id: Some(p),
                    },
                },
            }
        },
    }
}

/// The fields a text message is read for, as `serde_json` reads the text
/// `text` into a `Value`: `None` when the text is not JSON, and otherwise
/// its string `type` and its unsigned integer `playerId`, each `None` where
/// the field is missing or of another kind.
pub uninterp spec fn json_message_fields(text: Seq<char>) -> Option<(Option<Seq<char>>, Option<u64>)>;

/// The message fields as plain values.
pub open spec fn message_fields_view(fields: Option<(Option<String>, Option<u64>)>) -> Option<
    (Option<Seq<char>>, Option<u64>),
> {
    match fields {
        Some((t, p)) => Some((optional_string(t), p)),
        None => None,
    }
}

/// The `type` of a read message, empty when it has none.
pub open spec fn message_type_of(fields: Option<(Option<Seq<char>>, Option<u64>)>) -> Seq<char> {
    match fields {
        Some((Some(t), _)) => t,
        _ => Seq::<char>::empty(),
    }
}

/// The raw `playerId` of a read message.
pub open spec fn message_player_of(fields: Option<(Option<Seq<char>>, Option<u64>)>) -> Option<u64> {
    match fields {
        Some((_, p)) => p,
        None => None,
    }
}

/// Calls `serde_json::from_str::<Value>` on a message's text and picks its
/// `type` (as a string) and `playerId` (as `u64`).  The result is named by
/// `json_message_fields`.
#[verifier::external_body]
fn read_message_fields(text: &str) -> (r: Option<(Option<String>, Option<u64>)>)
    ensures
        message_fields_view(r) == json_message_fields(text@),
{
    match serde_json::from_str::<Value>(text) {
        Ok(value) => Some((
            value.get("type").and_then(Value::as_str).map(String::from),
            value.get("playerId").and_then(Value::as_u64),
        )),
        Err(_) => None,
    }
}

/// Reads a text message from connection `conn_id` and decides what to do
/// with it; an extension's message that names its player routes the player
/// to the connection.
pub fn handle_text_message(routes: &mut RelayRoutes, conn_id: u64, role: Role, text: &str) -> (r:
    TextAction)
    ensures
        r == text_action(
            old(routes).routes(),
            old(routes).connections(),
            role,
            json_message_fields(text@) is Some,
            message_type_of(json_message_fields(text@)),
            message_player_of(json_message_fields(text@)),
        ),
        final(routes).connections() == old(routes).connections(),
        final(routes).routes() == (match r {
            TextAction::FromExtension { player_id: Some(p), .. } => old(routes).routes().insert(
                p,
                conn_id,
            ),
            _ => old(routes).routes(),
        }),
{
    let fields = read_message_fields(text);
    let parsed = fields.is_some();
    let (msg_type, player_id) = match fields {
        Some((t, p)) => (t, p),
        None => (None, None),
    };
    let empty = String::new();
    let t: &str = match &msg_type {
        Some(t) => t.as_str(),
        None => empty.as_str(),
    };
    route_text_message(routes, conn_id, role, parsed, t, player_id)
}

/// The answer to a binary message from `role`: only an extension may send
/// one, its header must read, and it must carry video or audio.
pub open spec fn binary_outcome(role: Role, payload: Seq<u8>) -> Result<BinaryInfo, RelayError> {
    if role != Role::BrowserPortExtension {
        Err(RelayError::BinaryForbidden)
    } else {
        match chunk_layout(payload) {
            None => Err(RelayError::BinaryHeader),
            Some((msg_type, flags, player_id, timestamp_us, start, end)) => if msg_type
                != MSG_TYPE_VIDEO && msg_type != MSG_TYPE_AUDIO {
                Err(RelayError::UnsupportedChunk)
            } else {
                Ok(
                    BinaryInfo {
                        msg_type,
                        player_id: player_id as u32,
                        timestamp_us: timestamp_us as u64,
                        payload_len: (end - start) as usize,
                    },
                )
            },
        }
    }
}

/// Checks a binary message from connection `conn_id`; an accepted chunk
/// routes its player to the connection and is passed on to every client.
pub fn accept_binary_message(routes: &mut RelayRoutes, conn_id: u64, role: Role, payload: &[u8]) -> (r:
    Result<BinaryInfo, RelayError>)
    ensures
        r == binary_outcome(role, payload@),
        final(routes).connections() == old(routes).connections(),
        final(routes).routes() == (match r {
            Ok(info) => old(routes).routes().insert(info.player_id, conn_id),
            Err(_) => old(routes).routes(),
        }),
{
    if role != Role::BrowserPortExtension {
        return Err(RelayError::BinaryForbidden);
    }
    let info = match parse_binary_info(payload) {
        Some(info) => info,
        None => {
            return Err(RelayError::BinaryHeader);
        },
    };
    if info.msg_type != MSG_TYPE_VIDEO && info.msg_type != MSG_TYPE_AUDIO {
        return Err(RelayError::UnsupportedChunk);
    }
    routes.route_player(info.player_id, conn_id);
    Ok(info)
}

/// A hello of another protocol version (a missing version counts as 0) is
/// refused for its version; one of this version naming a known role is
/// accepted with that role.
pub proof fn law_hello_checks_protocol_version(
    protocol_version: Option<i64>,
    role: Option<String>,
    source: Option<String>,
    msg_type: String,
)
    requires
        msg_type@ == word_hello(),
    ensures
        (match protocol_version {
            Some(v) => v,
            None => 0,
        }) != PROTOCOL_VERSION ==> hello_outcome(
            HelloInput::Json { msg_type: Some(msg_type), protocol_version, role, source },
        ) == Err::<Role, RelayError>(RelayError::ProtocolVersion),
        protocol_version == Some(PROTOCOL_VERSION) && (role matches Some(r) && role_named(r@) is Some)
            ==> hello_outcome(
            HelloInput::Json { msg_type: Some(msg_type), protocol_version, role, source },
        ) == Ok::<Role, RelayError>(role_named(role->0@)->0),
{
}

/// Control and search commands reach the player they name: once an
/// extension's message for a player came over an open connection, a
/// client's `control` or `search` for that player is forwarded to that
/// connection.
pub proof fn law_commands_follow_player_route(
    routes: Map<u32, u64>,
    connections: Map<u64, Role>,
    conn_id: u64,
    extension_type: Seq<char>,
    client_type: Seq<char>,
    player_id: Option<u64>,
)
    requires
        connections.dom().contains(conn_id),
        extension_message_named(extension_type) is Some,
        player_id_of(player_id) is Some,
        client_type == word_client_control() || client_type == word_search(),
    ensures
        text_action(routes, connections, Role::BrowserPortExtension, true, extension_type, player_id)
            == (TextAction::FromExtension {
            kind: extension_message_named(extension_type)->0,
            player_id: player_id_of(player_id),
        }),
        text_action(
            routes.insert(player_id_of(player_id)->0, conn_id),
            connections,
            Role::Client,
            true,
            client_type,
            player_id,
        ) == (TextAction::Forward { conn_id }),
{
    let t = extension_type;
    assert(t != word_ping()) by {
        if t == word_ping() {
            assert(t[1] == 'i');
            assert(extension_message_named(t) is None);
        }
    }
    assert(client_type != word_ping()) by {
        if client_type == word_ping() {
            assert(client_type[0] == 'p');
        }
    }
    assert(client_type != word_control()) by {
        if client_type == word_control() {
            assert(client_type.len() == 20);
        }
    }
    assert(client_type != word_helper_stats()) by {
        if client_type == word_helper_stats() {
            assert(client_type.len() == 12);
        }
    }
    assert(client_type != word_pong()) by {
        if client_type == word_pong() {
            assert(client_type.len() == 4);
        }
    }
}


/// Every extension message type is read back from its own wire name, so
/// each name selects its own kind and no other.
pub proof fn law_extension_message_names_round_trip(kind: ExtensionMessage)
    ensures
        extension_message_named(kind.name()) == Some(kind),
        forall|other: ExtensionMessage| #[trigger] other.name() == kind.name() ==> other == kind,
{
    assert(ExtensionMessage::Register.name() != ExtensionMessage::Config.name());
    assert(ExtensionMessage::Playback.name() != ExtensionMessage::Register.name()) by {
        assert(ExtensionMessage::Playback.name()[0] != ExtensionMessage::Register.name()[0]);
    }
    assert(ExtensionMessage::SearchResults.name() != ExtensionMessage::SearchSelected.name()) by {
        assert(ExtensionMessage::SearchResults.name()[7] != ExtensionMessage::SearchSelected.name()[7]);
    }
    assert(ExtensionMessage::Status.name() != ExtensionMessage::Config.name()) by {
        assert(ExtensionMessage::Status.name()[0] != ExtensionMessage::Config.name()[0]);
    }
}


/// An extension's message of any known type that names its player is
/// passed on as that type for that player (and so routes the player to the
/// extension), whatever the routing table holds.
pub proof fn law_extension_message_passes_on(
    routes: Map<u32, u64>,
    connections: Map<u64, Role>,
    kind: ExtensionMessage,
    player_id: u32,
)
    ensures
        text_action(
            routes,
            connections,
            Role::BrowserPortExtension,
            true,
            kind.name(),
            Some(player_id as u64),
        ) == (TextAction::FromExtension { kind, player_id: Some(player_id) }),
{
    law_extension_message_names_round_trip(kind);
    assert(kind.name() != word_ping()) by {
        if kind.name().len() == 4 {
            assert(kind.name()[0] != word_ping()[0] || kind.name()[1] != word_ping()[1]);
        }
    }
}

} // verus!
