//! The client's decision on the datagram transport, where each datagram
//! carries one whole frame and replies to other ids are discarded.

use vstd::prelude::*;
use crate::errors::Error;
use crate::frame::{Frame, FrameError, parse_frame};
use crate::stream::ReadError;

verus! {

/// The client's step for one received datagram while it waits for the reply
/// to `id`: the reply itself, `None` for a frame with another id (keep
/// waiting), or `ClientDeserialize` when the datagram holds no frame.
pub fn match_reply(id: u64, datagram: &[u8]) -> (r: Result<Option<Frame>, Error>)
    ensures
        parse_frame(datagram@) is None <==> r matches Err(Error::ClientDeserialize(_)),
        r matches Ok(None) <==> (parse_frame(datagram@) is Some && parse_frame(datagram@)->Some_0.0
            != id),
        r matches Ok(Some(f)) ==> f.id == id && parse_frame(datagram@) == Some((f.id, f.data@)),
        r is Err ==> r matches Err(Error::ClientDeserialize(_)),
{
    match Frame::decode(datagram) {
        Ok(f) => {
            if f.id == id {
                Ok(Some(f))
            } else {
                Ok(None)
            }
        },
        Err(FrameError::UnexpectedEof) => Err(
            Error::ClientDeserialize("datagram ends inside its frame".to_owned()),
        ),
        Err(_) => Err(Error::ClientDeserialize("frame length exceeds the limit".to_owned())),
    }
}

/// The error a failed receive becomes while the client waits: `Timeout` when
/// the deadline passed, `ClientDeserialize` when the peer is gone, and the
/// transport error itself otherwise.
pub fn on_recv_error(e: ReadError) -> (r: Error)
    ensures
        match e {
            ReadError::TimedOut => r matches Error::Timeout,
            ReadError::UnexpectedEof => r matches Error::ClientDeserialize(_),
            ReadError::Io(x) => r == Error::Io(x),
        },
{
    match e {
        ReadError::TimedOut => Error::Timeout,
        ReadError::UnexpectedEof => Error::ClientDeserialize("connection closed by the peer".to_owned()),
        ReadError::Io(x) => Error::Io(x),
    }
}

} // verus!
