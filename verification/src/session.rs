//! Session-level protocol types: the error taxonomy, the classification
//! of a transport outcome into that taxonomy, the parameters a remote
//! conversion session is keyed by, and the chunk handed to it.

use vstd::prelude::*;

verus! {

/// The pipeline's error taxonomy.  `Device` is fatal (no retry);
/// `Connection` (service unreachable or timed out) and `Service` (service
/// reachable but answered with a failure) are recoverable and drive the
/// orchestrator's recovery path.
#[derive(Clone, Copy, Debug, PartialEq, Eq, Structural)]
pub enum ErrorKind {
    Device,
    Connection,
    Service,
}

/// Sorts one transport outcome into the taxonomy: no response at all is a
/// connection error, a response with a status outside the 2xx range is a
/// service error, and a 2xx response is success.
pub fn classify_response(got_response: bool, status: u16) -> (r: Result<(), ErrorKind>)
    ensures
        !got_response ==> r == Err::<(), ErrorKind>(ErrorKind::Connection),
        got_response && !(200 <= status < 300) ==> r == Err::<(), ErrorKind>(ErrorKind::Service),
        got_response && 200 <= status < 300 ==> r == Ok::<(), ErrorKind>(()),
{
    if !got_response {
        Err(ErrorKind::Connection)
    } else if 200 <= status && status < 300 {
        Ok(())
    } else {
        Err(ErrorKind::Service)
    }
}

/// Parameters of one remote conversion session.  The service mirrors this
/// state keyed by `session_id`, an opaque token generated when the session
/// is created; `model` names the voice model and `pitch_shift` is in
/// semitones.  Fixed for the lifetime of the session.
pub struct SessionParams {
    pub model: String,
    pub pitch_shift: i32,
    pub session_id: String,
}

/// One unit of conversion: an immutable byte-encoded audio segment with a
/// sequence number that only ever grows (ordering and diagnostics, nothing
/// cryptographic).
pub struct Chunk {
    pub seq: u64,
    pub payload: Vec<u8>,
}

} // verus!
