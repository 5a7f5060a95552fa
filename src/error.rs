use vstd::prelude::*;

verus! {

/// The fixed kinds into which every failure is classified.
#[derive(PartialEq, Eq, Structural, Clone, Copy, Debug)]
pub enum ErrorKind {
    /// Malformed caller input, detected before any outside resource is touched.
    Validation,
    /// A name lookup failed.
    Resolution,
    /// A wait budget ran out, or the device or socket timed out.
    Timeout,
    /// The serial device or the socket reported a failure.
    Transport,
    /// The operation needs an open session and there is none.
    State,
}

/// A classified failure, with a human-readable detail for diagnostics.
#[derive(Debug)]
pub struct SessionError {
    pub kind: ErrorKind,
    pub detail: String,
}

/// Whether `r` is a failure of kind `kind` with detail `detail`.
pub open spec fn fails_with<T>(r: Result<T, SessionError>, kind: ErrorKind, detail: Seq<char>) -> bool {
    match r {
        Ok(_) => false,
        Err(e) => e.kind == kind && e.detail@ == detail,
    }
}

/// The name under which a kind is reported.
pub open spec fn kind_label(kind: ErrorKind) -> Seq<char> {
    match kind {
        ErrorKind::Validation => seq!['V', 'a', 'l', 'i', 'd', 'a', 't', 'i', 'o', 'n', 'E', 'r', 'r', 'o', 'r'],
        ErrorKind::Resolution => seq!['R', 'e', 's', 'o', 'l', 'u', 't', 'i', 'o', 'n', 'E', 'r', 'r', 'o', 'r'],
        ErrorKind::Timeout => seq!['T', 'i', 'm', 'e', 'o', 'u', 't', 'E', 'r', 'r', 'o', 'r'],
        ErrorKind::Transport => seq!['T', 'r', 'a', 'n', 's', 'p', 'o', 'r', 't', 'E', 'r', 'r', 'o', 'r'],
        ErrorKind::State => seq!['S', 't', 'a', 't', 'e', 'E', 'r', 'r', 'o', 'r'],
    }
}

impl ErrorKind {
    /// The name of the kind, as it opens a reported message.
    pub fn label(&self) -> (r: &'static str)
        ensures
            r@ == kind_label(*self),
    {
        let r = match self {
            ErrorKind::Validation => "ValidationError",
            ErrorKind::Resolution => "ResolutionError",
            ErrorKind::Timeout => "TimeoutError",
            ErrorKind::Transport => "TransportError",
            ErrorKind::State => "StateError",
        };
        proof {
            reveal_strlit("ValidationError");
            reveal_strlit("ResolutionError");
            reveal_strlit("TimeoutError");
            reveal_strlit("TransportError");
            reveal_strlit("StateError");
        }
        assert(r@ =~= kind_label(*self));
        r
    }
}

impl SessionError {
    /// An error of the given kind whose detail is `detail`.
    pub fn new(kind: ErrorKind, detail: &str) -> (r: SessionError)
        ensures
            r.kind == kind,
            r.detail@ == detail@,
    {
        SessionError { kind, detail: String::from_str(detail) }
    }

    /// The text reported to the caller: the kind's name, a colon and a space,
    /// then the detail.
    pub fn message(&self) -> (r: String)
        ensures
            r@ == kind_label(self.kind) + seq![':', ' '] + self.detail@,
    {
        let head = String::from_str(self.kind.label()).concat(": ");
        proof {
            reveal_strlit(": ");
        }
        head.concat(self.detail.as_str())
    }
}

/// An outside call whose failure an operation reports.
#[derive(PartialEq, Eq, Structural, Clone, Copy, Debug)]
pub enum FailedCall {
    /// Listing the serial devices.
    ListDevices,
    /// Opening a serial device.
    OpenDevice,
    /// Looking up a network address.
    Lookup,
    /// Connecting a socket.
    Connect,
    /// Setting an option on a connected socket.
    SocketOption,
    /// Shutting a socket down.
    Shutdown,
}

/// The kind under which a failure of `call` is reported: a lookup failure is
/// a resolution failure, every other one a transport failure.
pub open spec fn call_failure_kind(call: FailedCall) -> ErrorKind {
    match call {
        FailedCall::Lookup => ErrorKind::Resolution,
        _ => ErrorKind::Transport,
    }
}

/// Classifies a failure of `call` described by `detail`.
pub fn classify(call: FailedCall, detail: String) -> (r: SessionError)
    ensures
        r.kind == call_failure_kind(call),
        r.detail@ == detail@,
{
    let kind = match call {
        FailedCall::Lookup => ErrorKind::Resolution,
        _ => ErrorKind::Transport,
    };
    SessionError { kind, detail }
}

/// Success, or the classified failure of `call`.
pub fn call_result(call: FailedCall, outcome: Result<(), String>) -> (r: Result<(), SessionError>)
    ensures
        outcome is Ok ==> r is Ok,
        outcome matches Err(d) ==> fails_with(r, call_failure_kind(call), d@),
{
    match outcome {
        Ok(()) => Ok(()),
        Err(detail) => Err(classify(call, detail)),
    }
}

} // verus!
