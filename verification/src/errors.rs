//! The error type of the SDK.

use vstd::prelude::*;

verus! {

/// The errors that the SDK reports. Each variant carries the text that
/// describes the failure.
#[derive(Debug, PartialEq, Eq)]
pub enum AnkaiosError {
    /// Reading a file failed.
    IoError(String),
    /// A request or a wait did not finish in time.
    TimeoutError(String),
    /// A field of a workload holds a value that the cluster does not accept:
    /// the field's name and the value.
    WorkloadFieldError(String, String),
    /// A workload builder misses a mandatory field.
    WorkloadBuilderError(String),
    /// A manifest is not valid.
    InvalidManifestError(String),
    /// The cluster closed the connection, with its reason.
    ConnectionClosedError(String),
    /// A request could not be made.
    RequestError(String),
    /// A response did not have the expected form.
    ResponseError(String),
    /// The cluster answered a request with an error.
    AnkaiosResponseError(String),
    /// The control interface cannot be used in its current state.
    ControlInterfaceError(String),
    /// A connection to the cluster cannot be used in its current state.
    ConnectionError(String),
    /// Any other error.
    AnkaiosError(String),
}

/// The message of an error: a prefix naming its kind, then its text.
pub open spec fn error_text(e: AnkaiosError) -> Seq<char> {
    match e {
        AnkaiosError::IoError(t) => "IO Error: "@ + t@,
        AnkaiosError::TimeoutError(t) => "Timeout error: "@ + t@,
        AnkaiosError::WorkloadFieldError(f, v) => "Invalid value for field "@ + f@ + ": "@ + v@ + "."@,
        AnkaiosError::WorkloadBuilderError(t) => "Workload builder error: "@ + t@,
        AnkaiosError::InvalidManifestError(t) => "Invalid manifest: "@ + t@,
        AnkaiosError::ConnectionClosedError(t) => "Connection closed: "@ + t@,
        AnkaiosError::RequestError(t) => "Request error: "@ + t@,
        AnkaiosError::ResponseError(t) => "Response error: "@ + t@,
        AnkaiosError::AnkaiosResponseError(t) => "Ankaios response error: "@ + t@,
        AnkaiosError::ControlInterfaceError(t) => "Control interface error: "@ + t@,
        AnkaiosError::ConnectionError(t) => "Connection error: "@ + t@,
        AnkaiosError::AnkaiosError(t) => "Ankaios error: "@ + t@,
    }
}

impl AnkaiosError {
    /// The message of the error, as it is displayed.
    pub fn to_string(&self) -> (r: String)
        ensures
            r@ == error_text(*self),
    {
        let (prefix, text) = match self {
            AnkaiosError::IoError(t) => ("IO Error: ", t),
            AnkaiosError::TimeoutError(t) => ("Timeout error: ", t),
            AnkaiosError::WorkloadFieldError(f, v) => {
                let mut s = "Invalid value for field ".to_owned();
                s.append(f.as_str());
                s.append(": ");
                s.append(v.as_str());
                s.append(".");
                return s;
            },
            AnkaiosError::WorkloadBuilderError(t) => ("Workload builder error: ", t),
            AnkaiosError::InvalidManifestError(t) => ("Invalid manifest: ", t),
            AnkaiosError::ConnectionClosedError(t) => ("Connection closed: ", t),
            AnkaiosError::RequestError(t) => ("Request error: ", t),
            AnkaiosError::ResponseError(t) => ("Response error: ", t),
            AnkaiosError::AnkaiosResponseError(t) => ("Ankaios response error: ", t),
            AnkaiosError::ControlInterfaceError(t) => ("Control interface error: ", t),
            AnkaiosError::ConnectionError(t) => ("Connection error: ", t),
            AnkaiosError::AnkaiosError(t) => ("Ankaios error: ", t),
        };
        let mut s = prefix.to_owned();
        s.append(text.as_str());
        s
    }
}

} // verus!
