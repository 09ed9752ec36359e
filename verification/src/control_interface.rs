//! The decisions of the control interface: the states of the connection to
//! the agent through its FIFO pipes, how they change on connecting,
//! disconnecting, reading and writing, and how the size of a message is read
//! from its length prefix.

use vstd::prelude::*;
use vstd::arithmetic::power2::pow2;
use crate::errors::AnkaiosError;
use crate::response::ResponseType;

verus! {

/// The number of bytes read for the length prefix of a message.
pub const MAX_VARINT_SIZE: usize = 19;

/// The base path of the control interface's FIFO pipes.
pub const ANKAIOS_CONTROL_INTERFACE_BASE_PATH: &'static str = "/run/ankaios/control_interface";

/// The name of the input pipe (messages from the agent).
pub const ANKAIOS_INPUT_FIFO_PATH: &'static str = "input";

/// The name of the output pipe (messages to the agent).
pub const ANKAIOS_OUTPUT_FIFO_PATH: &'static str = "output";

/// The protocol version that the hello message announces.
pub const ANKAIOS_VERSION: &'static str = "0.6.0";

/// The states of the control interface.
#[derive(Clone, Copy, Debug, PartialEq, Eq, Structural)]
pub enum ControlInterfaceState {
    /// Connected to the agent.
    Initialized,
    /// Not connected.
    Terminated,
    /// The agent went away; the interface waits for it to come back.
    AgentDisconnected,
    /// The agent closed the connection.
    ConnectionClosed,
}

/// The name of a state.
pub open spec fn state_text(s: ControlInterfaceState) -> Seq<char> {
    match s {
        ControlInterfaceState::Initialized => "Initialized"@,
        ControlInterfaceState::Terminated => "Terminated"@,
        ControlInterfaceState::AgentDisconnected => "AgentDisconnected"@,
        ControlInterfaceState::ConnectionClosed => "ConnectionClosed"@,
    }
}

/// `e` is a control interface error with the message `msg`.
pub open spec fn is_control_interface_error(e: AnkaiosError, msg: Seq<char>) -> bool {
    e matches AnkaiosError::ControlInterfaceError(m) && m@ == msg
}

/// How reading a message from the input pipe ended.
#[derive(Clone, Copy, Debug, PartialEq, Eq, Structural)]
pub enum ReadOutcome {
    /// A message was read; whether it says that the connection is closed.
    Message(bool),
    /// The pipe has no writer (the agent is away).
    EndOfInput,
    /// Reading failed otherwise.
    Failure,
}

/// What the reader does after a read: the new state, whether to greet the
/// agent again, and whether to stop reading.
#[derive(Clone, Copy, Debug, PartialEq, Eq, Structural)]
pub struct ReaderStep {
    pub state: ControlInterfaceState,
    pub send_hello: bool,
    pub stop: bool,
}

/// How flushing a message to the output pipe ended.
#[derive(Clone, Copy, Debug, PartialEq, Eq, Structural)]
pub enum FlushOutcome {
    /// The message was written.
    Flushed,
    /// The pipe has no reader (the agent is away).
    BrokenPipe,
    /// Writing failed otherwise.
    Failed,
}

/// What the writer does after a flush: the new state, and whether to wait
/// for the agent and greet it again.
#[derive(Clone, Copy, Debug, PartialEq, Eq, Structural)]
pub struct WriterStep {
    pub state: ControlInterfaceState,
    pub resend_hello: bool,
}

/// Where a response read from the agent goes: to the log campaign it
/// belongs to, ending it or not, or to the requests that wait for
/// responses.
#[derive(Clone, Copy, Debug, PartialEq, Eq, Structural)]
pub enum ResponseRoute {
    /// Log entries for a log campaign.
    LogEntries,
    /// The end of the logs of a workload instance of a log campaign.
    LogsStop,
    /// Any other response.
    General,
}

/// The reader's step after a read in the state `s`.
pub open spec fn reader_step(s: ControlInterfaceState, outcome: ReadOutcome) -> ReaderStep {
    match outcome {
        ReadOutcome::Message(closed) => ReaderStep {
            state: if s == ControlInterfaceState::AgentDisconnected {
                ControlInterfaceState::Initialized
            } else {
                s
            },
            send_hello: false,
            stop: closed,
        },
        ReadOutcome::EndOfInput => ReaderStep {
            state: if s == ControlInterfaceState::Initialized {
                ControlInterfaceState::AgentDisconnected
            } else {
                s
            },
            send_hello: s == ControlInterfaceState::Initialized,
            stop: false,
        },
        ReadOutcome::Failure => ReaderStep {
            state: ControlInterfaceState::Terminated,
            send_hello: false,
            stop: true,
        },
    }
}

/// The writer's step after a flush in the state `s`.
pub open spec fn writer_step(s: ControlInterfaceState, outcome: FlushOutcome) -> WriterStep {
    match outcome {
        FlushOutcome::BrokenPipe => WriterStep {
            state: if s == ControlInterfaceState::Initialized {
                ControlInterfaceState::AgentDisconnected
            } else {
                s
            },
            resend_hello: true,
        },
        FlushOutcome::Flushed => WriterStep {
            state: if s == ControlInterfaceState::AgentDisconnected {
                ControlInterfaceState::Initialized
            } else {
                s
            },
            resend_hello: false,
        },
        FlushOutcome::Failed => WriterStep { state: s, resend_hello: false },
    }
}

/// The state after connecting from `s`, when connecting succeeds.
pub open spec fn connect_next(
    s: ControlInterfaceState,
    input_fifo_exists: bool,
    output_fifo_exists: bool,
) -> Option<ControlInterfaceState> {
    if s != ControlInterfaceState::Initialized && input_fifo_exists && output_fifo_exists {
        Some(ControlInterfaceState::Initialized)
    } else {
        None
    }
}

/// The state after disconnecting from `s`, when disconnecting succeeds.
pub open spec fn disconnect_next(s: ControlInterfaceState) -> Option<ControlInterfaceState> {
    if s == ControlInterfaceState::Initialized {
        Some(ControlInterfaceState::Terminated)
    } else {
        None
    }
}

impl ControlInterfaceState {
    /// The name of the state.
    pub fn to_string(&self) -> (r: String)
        ensures
            r@ == state_text(*self),
    {
        let name = match self {
            ControlInterfaceState::Initialized => "Initialized",
            ControlInterfaceState::Terminated => "Terminated",
            ControlInterfaceState::AgentDisconnected => "AgentDisconnected",
            ControlInterfaceState::ConnectionClosed => "ConnectionClosed",
        };
        name.to_owned()
    }

    /// Connecting: refused when already connected, or when one of the pipes
    /// does not exist (the input pipe is checked first); otherwise the
    /// interface is connected.
    pub fn connect(self, input_fifo_exists: bool, output_fifo_exists: bool) -> (r: Result<
        ControlInterfaceState,
        AnkaiosError,
    >)
        ensures
            self == ControlInterfaceState::Initialized ==> (r matches Err(e)
                && is_control_interface_error(e, "Already connected."@)),
            self != ControlInterfaceState::Initialized && !input_fifo_exists ==> (r matches Err(e)
                && is_control_interface_error(e, "Control interface input fifo does not exist."@)),
            self != ControlInterfaceState::Initialized && input_fifo_exists && !output_fifo_exists
                ==> (r matches Err(e) && is_control_interface_error(
                e,
                "Control interface output fifo does not exist."@,
            )),
            self != ControlInterfaceState::Initialized && input_fifo_exists && output_fifo_exists
                ==> r == Ok::<ControlInterfaceState, AnkaiosError>(ControlInterfaceState::Initialized),
            r is Ok <==> connect_next(self, input_fifo_exists, output_fifo_exists) is Some,
    {
        if self == ControlInterfaceState::Initialized {
            return Err(AnkaiosError::ControlInterfaceError("Already connected.".to_owned()));
        }
        if !input_fifo_exists {
            return Err(
                AnkaiosError::ControlInterfaceError(
                    "Control interface input fifo does not exist.".to_owned(),
                ),
            );
        }
        if !output_fifo_exists {
            return Err(
                AnkaiosError::ControlInterfaceError(
                    "Control interface output fifo does not exist.".to_owned(),
                ),
            );
        }
        Ok(ControlInterfaceState::Initialized)
    }

    /// Disconnecting: refused unless connected; then the interface is
    /// terminated.
    pub fn disconnect(self) -> (r: Result<ControlInterfaceState, AnkaiosError>)
        ensures
            self != ControlInterfaceState::Initialized ==> (r matches Err(e)
                && is_control_interface_error(e, "Already disconnected."@)),
            self == ControlInterfaceState::Initialized ==> r == Ok::<
                ControlInterfaceState,
                AnkaiosError,
            >(ControlInterfaceState::Terminated),
            r is Ok <==> disconnect_next(self) is Some,
    {
        if self != ControlInterfaceState::Initialized {
            return Err(AnkaiosError::ControlInterfaceError("Already disconnected.".to_owned()));
        }
        Ok(ControlInterfaceState::Terminated)
    }

    /// Writing a request: refused unless connected.
    pub fn check_write(self) -> (r: Result<(), AnkaiosError>)
        ensures
            self != ControlInterfaceState::Initialized ==> (r matches Err(e)
                && is_control_interface_error(e, "Could not write to pipe, not connected."@)),
            self == ControlInterfaceState::Initialized ==> r is Ok,
    {
        if self != ControlInterfaceState::Initialized {
            return Err(
                AnkaiosError::ControlInterfaceError(
                    "Could not write to pipe, not connected.".to_owned(),
                ),
            );
        }
        Ok(())
    }

    /// The reader after a read: a message brings a disconnected agent back
    /// and stops the reader when it closes the connection; the end of input
    /// marks a connected agent as away and greets it again; any other
    /// failure terminates the interface and stops the reader.
    pub fn on_read(self, outcome: ReadOutcome) -> (r: ReaderStep)
        ensures
            r == reader_step(self, outcome),
    {
        match outcome {
            ReadOutcome::Message(closed) => {
                let state = if self == ControlInterfaceState::AgentDisconnected {
                    ControlInterfaceState::Initialized
                } else {
                    self
                };
                ReaderStep { state, send_hello: false, stop: closed }
            },
            ReadOutcome::EndOfInput => {
                if self == ControlInterfaceState::Initialized {
                    ReaderStep {
                        state: ControlInterfaceState::AgentDisconnected,
                        send_hello: true,
                        stop: false,
                    }
                } else {
                    ReaderStep { state: self, send_hello: false, stop: false }
                }
            },
            ReadOutcome::Failure => ReaderStep {
                state: ControlInterfaceState::Terminated,
                send_hello: false,
                stop: true,
            },
        }
    }

    /// The writer after a flush: a broken pipe marks a connected agent as
    /// away and makes the writer wait and greet it again; a written message
    /// brings a disconnected agent back; another failure changes nothing.
    pub fn on_flush(self, outcome: FlushOutcome) -> (r: WriterStep)
        ensures
            r == writer_step(self, outcome),
    {
        match outcome {
            FlushOutcome::BrokenPipe => {
                let state = if self == ControlInterfaceState::Initialized {
                    ControlInterfaceState::AgentDisconnected
                } else {
                    self
                };
                WriterStep { state, resend_hello: true }
            },
            FlushOutcome::Flushed => {
                let state = if self == ControlInterfaceState::AgentDisconnected {
                    ControlInterfaceState::Initialized
                } else {
                    self
                };
                WriterStep { state, resend_hello: false }
            },
            FlushOutcome::Failed => WriterStep { state: self, resend_hello: false },
        }
    }
}

/// Where a response read from the agent goes.
pub fn route_response(content: &ResponseType) -> (r: ResponseRoute)
    ensures
        r == match content {
            ResponseType::LogEntriesResponse(_) => ResponseRoute::LogEntries,
            ResponseType::LogsStopResponse(_) => ResponseRoute::LogsStop,
            _ => ResponseRoute::General,
        },
{
    match content {
        ResponseType::LogEntriesResponse(_) => ResponseRoute::LogEntries,
        ResponseType::LogsStopResponse(_) => ResponseRoute::LogsStop,
        _ => ResponseRoute::General,
    }
}

/// Whether a closed connection is what the response says.
pub fn closes_connection(content: &ResponseType) -> (r: bool)
    ensures
        r == content is ConnectionClosedReason,
{
    match content {
        ResponseType::ConnectionClosedReason(_) => true,
        _ => false,
    }
}

// ----------------------------------------------------------------------------
// Length prefixes
// ----------------------------------------------------------------------------

/// Whether `b` is the last byte of a length prefix (its high bit is clear).
pub fn is_last_prefix_byte(b: u8) -> (r: bool)
    ensures
        r == (b < 128),
{
    b < 128
}

/// The position of the first byte of `bytes` that ends a base-128 number
/// (a byte below 128), among the first `limit` bytes.
pub open spec fn first_end(bytes: Seq<u8>, limit: int) -> Option<int>
    decreases limit,
{
    if limit <= 0 {
        None
    } else {
        match first_end(bytes, limit - 1) {
            Some(k) => Some(k),
            None => if limit - 1 < bytes.len() && bytes[limit - 1] < 128 {
                Some(limit - 1)
            } else {
                None
            },
        }
    }
}

/// The value of the base-128 number in `bytes[0..=k]`, least significant
/// group first.
pub open spec fn leb128_value(bytes: Seq<u8>, k: int) -> nat
    decreases k + 1,
{
    if k < 0 {
        0
    } else {
        leb128_value(bytes, k - 1) + ((bytes[k] % 128) as nat) * pow2((7 * k) as nat)
    }
}

/// What decoding a base-128 number at the start of `bytes` gives: the value,
/// when a byte below 128 ends it within the first ten bytes and the tenth
/// byte, if it is the last, is 0 or 1 (so that the value fits in 64 bits).
pub open spec fn varint_decoding(bytes: Seq<u8>) -> Option<nat> {
    match first_end(bytes, 10) {
        Some(k) => if k == 9 && bytes[9] >= 2 {
            None
        } else {
            Some(leb128_value(bytes, k))
        },
        None => None,
    }
}

/// Calls `prost::encoding::decode_varint` on the bytes of `bytes`. Its
/// source decodes a base-128 number (least significant group first) from at
/// most ten bytes, and fails when no byte ends it there, when the input is
/// empty, or when a tenth byte above 1 would overflow 64 bits.
#[verifier::external_body]
fn decode_varint(bytes: &[u8]) -> (r: Result<u64, ()>)
    ensures
        match r {
            Ok(v) => varint_decoding(bytes@) == Some(v as nat),
            Err(_) => varint_decoding(bytes@) is None,
        },
{
    let mut buf = bytes;
    match prost::encoding::decode_varint(&mut buf) {
        Ok(v) => Ok(v),
        Err(_) => Err(()),
    }
}

/// Why the size of a message could not be read from its length prefix.
#[derive(Clone, Copy, Debug, PartialEq, Eq, Structural)]
pub enum PrefixError {
    /// The prefix is not a valid base-128 number.
    InvalidVarint,
    /// The size does not fit in `usize`.
    InvalidSize,
}

/// The size of a message from the bytes of its length prefix: the
/// base-128 number they begin with, when it is valid and fits in `usize`.
pub fn message_size(varint_data: &[u8]) -> (r: Result<usize, PrefixError>)
    ensures
        match varint_decoding(varint_data@) {
            None => r == Err::<usize, PrefixError>(PrefixError::InvalidVarint),
            Some(v) => if v <= usize::MAX {
                r == Ok::<usize, PrefixError>(v as usize)
            } else {
                r == Err::<usize, PrefixError>(PrefixError::InvalidSize)
            },
        },
{
    match decode_varint(varint_data) {
        Ok(v) => {
            if v <= usize::MAX as u64 {
                Ok(v as usize)
            } else {
                Err(PrefixError::InvalidSize)
            }
        },
        Err(_) => Err(PrefixError::InvalidVarint),
    }
}

} // verus!
