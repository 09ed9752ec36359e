//! The configuration and the decisions of the command interface: a direct
//! gRPC connection to the Ankaios server, used from outside the cluster.

use vstd::prelude::*;
use crate::errors::AnkaiosError;
use crate::response::ResponseType;

verus! {

/// The protocol version that the hello message to the server announces.
pub const ANKAIOS_VERSION: &'static str = "1.0.0";

/// The interval between attempts to reconnect, in milliseconds.
pub const RECONNECT_INTERVAL_MILLIS: u64 = 500;

/// How to reach the Ankaios server: its URL, and either no transport
/// security or mutual TLS with a CA certificate, a client certificate and a
/// client key (PEM).
pub struct GrpcConfig {
    /// The URL of the server.
    pub server_url: String,
    /// Whether the connection is made without TLS.
    pub insecure: bool,
    /// The CA certificate, for mutual TLS.
    pub ca_pem: Option<String>,
    /// The client certificate, for mutual TLS.
    pub crt_pem: Option<String>,
    /// The client key, for mutual TLS.
    pub key_pem: Option<String>,
}

/// The `Debug` text of a string (quoted, with escapes).
pub uninterp spec fn str_debug_text(s: Seq<char>) -> Seq<char>;

/// The text that `format!("{:?}")` writes for the string `s`: the string
/// quoted, with escapes.
#[verifier::external_body]
pub(crate) fn str_debug(s: &str) -> (r: String)
    ensures
        r@ == str_debug_text(s@),
{
    format!("{:?}", s)
}

/// The text shown for an optional secret: its presence only.
pub open spec fn redacted(p: bool) -> Seq<char> {
    if p {
        "Some(\"<redacted>\")"@
    } else {
        "None"@
    }
}

/// The text of a configuration whose URL has the `Debug` text `url`, with
/// the secrets replaced by a mark of their presence.
pub open spec fn grpc_config_text_of(url: Seq<char>, insecure: bool, ca: bool, crt: bool, key: bool) -> Seq<char> {
    "GrpcConfig { server_url: "@ + url + ", insecure: "@ + (if insecure {
        "true"@
    } else {
        "false"@
    }) + ", ca_pem: "@ + redacted(ca) + ", crt_pem: "@ + redacted(crt) + ", key_pem: "@ + redacted(
        key,
    ) + " }"@
}

/// The text of a configuration, with the secrets replaced by a mark of their
/// presence.
pub open spec fn grpc_config_text(c: GrpcConfig) -> Seq<char> {
    grpc_config_text_of(
        str_debug_text(c.server_url@),
        c.insecure,
        c.ca_pem is Some,
        c.crt_pem is Some,
        c.key_pem is Some,
    )
}

/// The text of a configuration from the `Debug` text of its URL, whether it
/// is insecure, and which secrets it has.
pub fn grpc_config_text_with(url: &str, insecure: bool, ca: bool, crt: bool, key: bool) -> (r: String)
    ensures
        r@ == grpc_config_text_of(url@, insecure, ca, crt, key),
{
    let mut s = "GrpcConfig { server_url: ".to_owned();
    s.append(url);
    s.append(", insecure: ");
    s.append(
        if insecure {
            "true"
        } else {
            "false"
        },
    );
    s.append(", ca_pem: ");
    s.append(redacted_text(ca));
    s.append(", crt_pem: ");
    s.append(redacted_text(crt));
    s.append(", key_pem: ");
    s.append(redacted_text(key));
    s.append(" }");
    s
}

fn redacted_text(present: bool) -> (r: &'static str)
    ensures
        r@ == redacted(present),
{
    if present {
        "Some(\"<redacted>\")"
    } else {
        "None"
    }
}

impl GrpcConfig {
    /// A configuration for a connection to `server_url` without TLS.
    pub fn insecure(server_url: &str) -> (r: Self)
        ensures
            r.server_url@ == server_url@,
            r.insecure,
            r.ca_pem is None,
            r.crt_pem is None,
            r.key_pem is None,
    {
        GrpcConfig {
            server_url: server_url.to_owned(),
            insecure: true,
            ca_pem: None,
            crt_pem: None,
            key_pem: None,
        }
    }

    /// A configuration for a connection to `server_url` with mutual TLS.
    pub fn mtls(server_url: &str, ca_pem: &str, crt_pem: &str, key_pem: &str) -> (r: Self)
        ensures
            r.server_url@ == server_url@,
            !r.insecure,
            r.ca_pem matches Some(c) && c@ == ca_pem@,
            r.crt_pem matches Some(c) && c@ == crt_pem@,
            r.key_pem matches Some(c) && c@ == key_pem@,
    {
        GrpcConfig {
            server_url: server_url.to_owned(),
            insecure: false,
            ca_pem: Some(ca_pem.to_owned()),
            crt_pem: Some(crt_pem.to_owned()),
            key_pem: Some(key_pem.to_owned()),
        }
    }

    /// The text of the configuration, as its `Debug` form: the secrets are
    /// never shown, only whether they are set.
    pub fn debug_string(&self) -> (r: String)
        ensures
            r@ == grpc_config_text(*self),
    {
        let url = str_debug(self.server_url.as_str());
        grpc_config_text_with(
            url.as_str(),
            self.insecure,
            self.ca_pem.is_some(),
            self.crt_pem.is_some(),
            self.key_pem.is_some(),
        )
    }

    /// A copy of the configuration.
    pub fn duplicate(&self) -> (r: Self)
        ensures
            r == *self,
    {
        GrpcConfig {
            server_url: self.server_url.clone(),
            insecure: self.insecure,
            ca_pem: crate::ank_base::clone_opt_string(&self.ca_pem),
            crt_pem: crate::ank_base::clone_opt_string(&self.crt_pem),
            key_pem: crate::ank_base::clone_opt_string(&self.key_pem),
        }
    }
}

/// The states of the command interface.
#[derive(Clone, Copy, Debug, PartialEq, Eq, Structural)]
pub enum CommandInterfaceState {
    /// A connection is being made.
    Initialized,
    /// Connected to the server.
    Connected,
    /// Not connected.
    Terminated,
    /// The connection was lost; it is being made again.
    Reconnecting,
}

/// `e` is a connection error with the message `msg`.
pub open spec fn is_connection_error(e: AnkaiosError, msg: Seq<char>) -> bool {
    e matches AnkaiosError::ConnectionError(m) && m@ == msg
}

/// How an attempt to connect within the time limit ended.
pub enum ConnectOutcome {
    /// The connection is made.
    Connected,
    /// The connection failed with this error.
    Failed(AnkaiosError),
    /// The time limit passed.
    TimedOut,
}

/// What the reader does when the stream from the server ends.
#[derive(Clone, Copy, Debug, PartialEq, Eq, Structural)]
pub enum StreamEndStep {
    /// The interface was disconnected: stop.
    Stop,
    /// Try to reconnect, in this state.
    Reconnect(CommandInterfaceState),
}

/// Where a response from the server goes.
#[derive(Clone, Copy, Debug, PartialEq, Eq, Structural)]
pub enum ServerResponseRoute {
    /// Log entries for a log campaign.
    LogEntries,
    /// The end of the logs of a workload instance of a log campaign.
    LogsStop,
    /// An event for an events campaign.
    Events,
    /// Any other response.
    General,
}

impl CommandInterfaceState {
    /// Starting to connect: refused while connected, connecting or
    /// reconnecting; otherwise the interface is connecting.
    pub fn begin_connect(self) -> (r: Result<CommandInterfaceState, AnkaiosError>)
        ensures
            self != CommandInterfaceState::Terminated ==> (r matches Err(e) && is_connection_error(
                e,
                "Already connected."@,
            )),
            self == CommandInterfaceState::Terminated ==> r == Ok::<
                CommandInterfaceState,
                AnkaiosError,
            >(CommandInterfaceState::Initialized),
    {
        match self {
            CommandInterfaceState::Terminated => Ok(CommandInterfaceState::Initialized),
            _ => Err(AnkaiosError::ConnectionError("Already connected.".to_owned())),
        }
    }

    /// Finishing to connect: a made connection connects the interface; a
    /// failure is passed on, and a time limit that passed is an error; in
    /// both cases the state stays as it is.
    pub fn finish_connect(self, outcome: ConnectOutcome) -> (r: (
        CommandInterfaceState,
        Result<(), AnkaiosError>,
    ))
        ensures
            match outcome {
                ConnectOutcome::Connected => r.0 == CommandInterfaceState::Connected && r.1 is Ok,
                ConnectOutcome::Failed(e) => r.0 == self && r.1 == Err::<(), AnkaiosError>(e),
                ConnectOutcome::TimedOut => r.0 == self && (r.1 matches Err(e) && is_connection_error(
                    e,
                    "Connection to the Ankaios server timed out."@,
                )),
            },
    {
        match outcome {
            ConnectOutcome::Connected => (CommandInterfaceState::Connected, Ok(())),
            ConnectOutcome::Failed(e) => (self, Err(e)),
            ConnectOutcome::TimedOut => (
                self,
                Err(
                    AnkaiosError::ConnectionError(
                        "Connection to the Ankaios server timed out.".to_owned(),
                    ),
                ),
            ),
        }
    }

    /// Disconnecting: refused when already disconnected; otherwise the
    /// interface is terminated.
    pub fn disconnect(self) -> (r: Result<CommandInterfaceState, AnkaiosError>)
        ensures
            self == CommandInterfaceState::Terminated ==> (r matches Err(e) && is_connection_error(
                e,
                "Already disconnected."@,
            )),
            self != CommandInterfaceState::Terminated ==> r == Ok::<
                CommandInterfaceState,
                AnkaiosError,
            >(CommandInterfaceState::Terminated),
    {
        match self {
            CommandInterfaceState::Terminated => Err(
                AnkaiosError::ConnectionError("Already disconnected.".to_owned()),
            ),
            _ => Ok(CommandInterfaceState::Terminated),
        }
    }

    /// Writing a request: refused unless connected.
    pub fn check_write(self) -> (r: Result<(), AnkaiosError>)
        ensures
            self != CommandInterfaceState::Connected ==> (r matches Err(e) && is_connection_error(
                e,
                "Could not write to the command interface, not connected."@,
            )),
            self == CommandInterfaceState::Connected ==> r is Ok,
    {
        match self {
            CommandInterfaceState::Connected => Ok(()),
            _ => Err(
                AnkaiosError::ConnectionError(
                    "Could not write to the command interface, not connected.".to_owned(),
                ),
            ),
        }
    }

    /// When the stream from the server ends: stop if the interface was
    /// disconnected, otherwise reconnect.
    pub fn on_stream_end(self) -> (r: StreamEndStep)
        ensures
            self == CommandInterfaceState::Terminated ==> r == StreamEndStep::Stop,
            self != CommandInterfaceState::Terminated ==> r == StreamEndStep::Reconnect(
                CommandInterfaceState::Reconnecting,
            ),
    {
        match self {
            CommandInterfaceState::Terminated => StreamEndStep::Stop,
            _ => StreamEndStep::Reconnect(CommandInterfaceState::Reconnecting),
        }
    }

    /// When a reconnection succeeds: the new connection is dropped if the
    /// interface was disconnected meanwhile (`None`), otherwise the interface
    /// is connected.
    pub fn on_reconnected(self) -> (r: Option<CommandInterfaceState>)
        ensures
            self == CommandInterfaceState::Terminated ==> r is None,
            self != CommandInterfaceState::Terminated ==> r == Some(CommandInterfaceState::Connected),
    {
        match self {
            CommandInterfaceState::Terminated => None,
            _ => Some(CommandInterfaceState::Connected),
        }
    }
}

/// Where a response from the server goes.
pub fn route_server_response(content: &ResponseType) -> (r: ServerResponseRoute)
    ensures
        r == match content {
            ResponseType::LogEntriesResponse(_) => ServerResponseRoute::LogEntries,
            ResponseType::LogsStopResponse(_) => ServerResponseRoute::LogsStop,
            ResponseType::EventResponse(_) => ServerResponseRoute::Events,
            _ => ServerResponseRoute::General,
        },
{
    match content {
        ResponseType::LogEntriesResponse(_) => ServerResponseRoute::LogEntries,
        ResponseType::LogsStopResponse(_) => ServerResponseRoute::LogsStop,
        ResponseType::EventResponse(_) => ServerResponseRoute::Events,
        _ => ServerResponseRoute::General,
    }
}

} // verus!
