//! The command palette's side of the connection to the service: which
//! configuration it connects with, the hello it sends, and what each frame
//! it reads back means.  Reading the configuration file and the socket is the
//! program's work.

use vstd::prelude::*;
use crate::paths::{loopback_host, not_loopback, RuntimeConfig};
use crate::protocol::{PeerRole, ResponseData, WireMessage, PROTOCOL_VERSION};
use crate::text::{concat_str, decimal, str_equal};

verus! {

/// A client of the palette service, with the configuration it connects by.
pub struct DaemonClient {
    pub config: RuntimeConfig,
}

/// The error when the configuration at `config_file` could not be loaded.
pub open spec fn not_installed(config_file: Seq<char>) -> Seq<char> {
    "Command Palette is not installed yet ("@ + config_file + ")"@
}

/// The address a client connects to: `host:port`.
pub open spec fn address_text(config: RuntimeConfig) -> Seq<char> {
    config.host@ + ":"@ + decimal(config.port as nat)
}

/// How the service answered a client's hello.
#[derive(Debug, PartialEq, Eq)]
pub enum Handshake {
    /// With a `HelloAck`: requests may follow.
    Accepted,
    /// With an error response carrying this message.
    Refused(String),
    /// With anything else.
    Unexpected,
}

/// The reply that a frame gives to request `request_id`, if it is the
/// response to it: its error's message, its result, or the complaint that
/// the result is missing.  Any other frame leaves the client waiting.
pub open spec fn reply_to(request_id: Seq<char>, message: WireMessage) -> Option<Result<ResponseData, Seq<char>>> {
    match message {
        WireMessage::Response { request_id: id, result, error } => if id@ == request_id {
            match error {
                Some(e) => Some(Err(e.message@)),
                None => match result {
                    Some(data) => Some(Ok(data)),
                    None => Some(Err("service returned an empty response"@)),
                },
            }
        } else {
            None
        },
        _ => None,
    }
}

impl DaemonClient {
    /// A client for the configuration loaded from `config_file`, or the
    /// error that the palette is not installed when it could not be loaded.
    pub fn discover(config_file: &str, loaded: Result<RuntimeConfig, String>) -> (client: Result<
        DaemonClient,
        String,
    >)
        ensures
            loaded is Ok <==> client is Ok,
            client matches Ok(c) ==> loaded == Ok::<RuntimeConfig, String>(c.config),
            client matches Err(message) ==> message@ == not_installed(config_file@),
    {
        match loaded {
            Ok(config) => Ok(DaemonClient { config }),
            Err(_) => {
                proof {
                    reveal_strlit("Command Palette is not installed yet (");
                    reveal_strlit(")");
                }
                let head = concat_str("Command Palette is not installed yet (", config_file);
                Err(concat_str(head.as_str(), ")"))
            },
        }
    }

    /// The address to connect to, or the error that refuses a configured
    /// host other than a loopback host.
    pub fn address(&self) -> (address: Result<String, String>)
        ensures
            address is Ok <==> loopback_host(self.config.host@),
            address matches Ok(a) ==> a@ == address_text(self.config),
            address matches Err(m) ==> m@ == not_loopback(self.config.host@),
    {
        self.config.loopback_address()
    }

    /// The hello the command bar opens a connection with: the current
    /// protocol version, the client role, the configured token, and the
    /// command-bar capability.
    pub fn hello(&self, peer_version: String) -> (hello: WireMessage)
        ensures
            hello matches WireMessage::Hello { protocol_version, role, token, peer_name, peer_version: v, capabilities }
                && protocol_version == PROTOCOL_VERSION
                && role == PeerRole::Client
                && token@ == self.config.token@
                && peer_name@ == "gpui-command-bar"@
                && v@ == peer_version@
                && capabilities@.len() == 1
                && capabilities@[0]@ == "command_bar"@,
    {
        let mut capabilities: Vec<String> = Vec::new();
        capabilities.push(String::from_str("command_bar"));
        proof {
            reveal_strlit("gpui-command-bar");
            reveal_strlit("command_bar");
        }
        WireMessage::Hello {
            protocol_version: PROTOCOL_VERSION,
            role: PeerRole::Client,
            token: self.config.token.clone(),
            peer_name: String::from_str("gpui-command-bar"),
            peer_version,
            capabilities,
        }
    }
}

/// How the service answered the hello.
pub fn handshake_outcome(message: &WireMessage) -> (outcome: Handshake)
    ensures
        message is HelloAck ==> outcome is Accepted,
        message matches WireMessage::Response { error: Some(e), .. } ==> (outcome matches Handshake::Refused(m) && m@ == e.message@),
        !(message is HelloAck) && !(message matches WireMessage::Response { error: Some(_), .. }) ==> outcome is Unexpected,
{
    match message {
        WireMessage::HelloAck { .. } => Handshake::Accepted,
        WireMessage::Response { error: Some(error), .. } => Handshake::Refused(error.message.clone()),
        _ => Handshake::Unexpected,
    }
}

/// What a frame read after sending request `request_id` means: `None` to
/// keep reading, or the reply.
pub fn reply_for(request_id: &str, message: WireMessage) -> (reply: Option<Result<ResponseData, String>>)
    ensures
        match (reply, reply_to(request_id@, message)) {
            (None, None) => true,
            (Some(Ok(data)), Some(Ok(expected))) => data == expected,
            (Some(Err(text)), Some(Err(expected))) => text@ == expected,
            _ => false,
        },
{
    match message {
        WireMessage::Response { request_id: id, result, error } => {
            if !str_equal(id.as_str(), request_id) {
                return None;
            }
            match error {
                Some(e) => Some(Err(e.message)),
                None => match result {
                    Some(data) => Some(Ok(data)),
                    None => {
                        proof { reveal_strlit("service returned an empty response"); }
                        Some(Err(String::from_str("service returned an empty response")))
                    },
                },
            }
        },
        _ => None,
    }
}

} // verus!
