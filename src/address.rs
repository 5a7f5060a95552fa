use vstd::prelude::*;

use crate::error::{fails_with, ErrorKind, SessionError};

verus! {

pub const EMPTY_ADDRESS: &'static str = "Path cannot be empty";

pub const MISSING_PORT: &'static str = "Path must include a port, e.g., 'hostname:port'";

/// Whether `s` holds the separator between host and port.
pub open spec fn has_port_separator(s: Seq<char>) -> bool {
    s.contains(':')
}

/// Checks a network address of the form `host:port` before any lookup: it
/// must not be empty and must hold a `:`.
pub fn validate_network_address(path: &str) -> (r: Result<(), SessionError>)
    ensures
        path@.len() == 0 ==> fails_with(r, ErrorKind::Validation, EMPTY_ADDRESS@),
        path@.len() > 0 && !has_port_separator(path@) ==> fails_with(
            r,
            ErrorKind::Validation,
            MISSING_PORT@,
        ),
        r is Ok <==> path@.len() > 0 && has_port_separator(path@),
{
    let n = path.unicode_len();
    if n == 0 {
        return Err(SessionError::new(ErrorKind::Validation, EMPTY_ADDRESS));
    }
    let mut i: usize = 0;
    while i < n
        invariant
            n == path@.len(),
            i <= n,
            forall|j: int| 0 <= j < i ==> path@[j] != ':',
        decreases n - i,
    {
        if path.get_char(i) == ':' {
            return Ok(());
        }
        i = i + 1;
    }
    Err(SessionError::new(ErrorKind::Validation, MISSING_PORT))
}

} // verus!
