//! The decisions of the TCP protocol.
use crate::protocol::StreamErrorKind;
use vstd::prelude::*;

verus! {

/// How long an attempt to connect may take, in seconds.
pub const CONNECT_TIMEOUT_SECS: u64 = 10;

/// What trying to look at exactly `wanted` bytes ahead gives, where looking ahead
/// gave `peeked` bytes, or `None` for an error.
pub fn try_peek_exact(peeked: Option<usize>, wanted: usize) -> (result: Result<(), StreamErrorKind>)
    ensures
        result is Ok <==> peeked == Some(wanted),
        result matches Err(kind) ==> kind == StreamErrorKind::WouldBlock,
{
    match peeked {
        Some(count) => if count == wanted {
            Ok(())
        } else {
            Err(StreamErrorKind::WouldBlock)
        },
        None => Err(StreamErrorKind::WouldBlock),
    }
}

} // verus!
