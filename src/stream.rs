//! Byte streams, and the simple client that makes one call at a time over one.

use vstd::prelude::*;
use std::time::Duration;
use crate::errors::Error;
use crate::frame::{Frame, FrameBuf, FrameError, FRAME_MAX_LEN, FRAME_HEADER_LEN, frame_bytes,
    announced_len};
use crate::wire::be_value;

verus! {

/// Why a read did not return the bytes asked for.
#[derive(Debug)]
pub enum ReadError {
    /// The peer closed the stream first.
    UnexpectedEof,
    /// The read passed its deadline.
    TimedOut,
    /// Any other failure of the transport.
    Io(std::io::Error),
}

/// A connected, ordered byte stream: a TCP or Unix-domain socket, or an
/// in-memory stand-in.
///
/// `delivers` and `accepts` relate a stream before and after a read or a
/// write to the bytes that moved. An implementation checked here states them
/// exactly; one that is not keeps the defaults, which claim nothing.
pub trait StreamExt: Sized {
    /// Reading `bytes` from this stream may leave it as `after`.
    open spec fn delivers(&self, after: Self, bytes: Seq<u8>) -> bool {
        true
    }

    /// Writing `bytes` to this stream may leave it as `after`.
    open spec fn accepts(&self, after: Self, bytes: Seq<u8>) -> bool {
        true
    }

    /// A second handle on the same stream.
    fn try_clone(&self) -> Result<Self, std::io::Error>;

    /// Bounds how long a read waits.
    fn set_read_timeout(&mut self, timeout: Duration) -> Result<(), std::io::Error>;

    /// Writes all of `buf`.
    fn write_all(&mut self, buf: &[u8]) -> (r: Result<(), std::io::Error>)
        ensures
            r is Ok ==> old(self).accepts(*final(self), buf@),
    ;

    /// Reads exactly `len` bytes.
    fn read_exact(&mut self, len: usize) -> (r: Result<Vec<u8>, ReadError>)
        ensures
            r matches Ok(v) ==> v@.len() == len && old(self).delivers(*final(self), v@),
    ;
}

/// A handle that can be duplicated, so that one task reads while others
/// write.
pub trait TryClone: Sized {
    /// A second handle on the same endpoint.
    fn try_clone(&self) -> Result<Self, std::io::Error>;
}

/// A client that can be shared by many callers at once, each waiting for
/// its own reply.
pub trait Client {
    /// Sends `req` and returns the reply frame; parse it with
    /// [`Frame::decode_rsp`].
    fn call_service(&self, req: FrameBuf) -> Result<Frame, Error>
        requires
            req.wf(),
    ;
}

/// The frame error that a failed read becomes.
pub open spec fn frame_error_of(e: ReadError) -> FrameError {
    match e {
        ReadError::UnexpectedEof => FrameError::UnexpectedEof,
        ReadError::TimedOut => FrameError::TimedOut,
        ReadError::Io(x) => FrameError::Io(x),
    }
}

impl FrameError {
    /// The frame error that the failed read `e` becomes.
    pub fn from_read(e: ReadError) -> (r: FrameError)
        ensures
            r == frame_error_of(e),
    {
        match e {
            ReadError::UnexpectedEof => FrameError::UnexpectedEof,
            ReadError::TimedOut => FrameError::TimedOut,
            ReadError::Io(x) => FrameError::Io(x),
        }
    }
}

/// An in-memory stream: reads come from an input that can grow, writes are
/// collected. While it is open, a read past the end of the input times out;
/// once closed, it ends with `UnexpectedEof`.
pub struct MemStream {
    input: Vec<u8>,
    pos: usize,
    output: Vec<u8>,
    closed: bool,
}

impl MemStream {
    /// The input not read yet.
    pub closed spec fn unread(&self) -> Seq<u8> {
        if self.pos <= self.input@.len() {
            self.input@.subrange(self.pos as int, self.input@.len() as int)
        } else {
            Seq::empty()
        }
    }

    /// Everything written so far.
    pub closed spec fn written(&self) -> Seq<u8> {
        self.output@
    }

    /// Whether the peer has closed its side.
    pub closed spec fn is_closed(&self) -> bool {
        self.closed
    }

    /// An open stream whose peer has delivered `input` so far.
    pub fn new(input: Vec<u8>) -> (r: MemStream)
        ensures
            r.unread() == input@,
            r.written() == Seq::<u8>::empty(),
            !r.is_closed(),
    {
        let r = MemStream { input, pos: 0, output: Vec::new(), closed: false };
        assert(r.input@.subrange(0, r.input@.len() as int) =~= r.input@);
        r
    }

    /// The peer delivers `data` after what it delivered already.
    pub fn feed(&mut self, data: &[u8])
        ensures
            final(self).unread() == old(self).unread() + data@,
            final(self).written() == old(self).written(),
            final(self).is_closed() == old(self).is_closed(),
    {
        if self.pos > self.input.len() {
            self.pos = self.input.len();
        }
        let ghost before = self.unread();
        let ghost old_input = self.input@;
        self.input.extend_from_slice(data);
        assert(self.input@ =~= old_input + data@);
        assert(self.unread() =~= before + data@);
    }

    /// The peer closes its side.
    pub fn close(&mut self)
        ensures
            final(self).unread() == old(self).unread(),
            final(self).written() == old(self).written(),
            final(self).is_closed(),
    {
        self.closed = true;
    }

    /// The number of input bytes not read yet.
    pub fn remaining(&self) -> (r: usize)
        ensures
            r == self.unread().len(),
    {
        if self.pos <= self.input.len() {
            self.input.len() - self.pos
        } else {
            0
        }
    }

    /// Everything written so far.
    pub fn sent_bytes(&self) -> (r: &Vec<u8>)
        ensures
            r@ == self.written(),
    {
        &self.output
    }
}

impl StreamExt for MemStream {
    open spec fn delivers(&self, after: MemStream, bytes: Seq<u8>) -> bool {
        &&& self.unread() == bytes + after.unread()
        &&& after.written() == self.written()
        &&& after.is_closed() == self.is_closed()
    }

    open spec fn accepts(&self, after: MemStream, bytes: Seq<u8>) -> bool {
        &&& after.written() == self.written() + bytes
        &&& after.unread() == self.unread()
        &&& after.is_closed() == self.is_closed()
    }

    fn try_clone(&self) -> Result<MemStream, std::io::Error> {
        Ok(
            MemStream {
                input: self.input.clone(),
                pos: self.pos,
                output: self.output.clone(),
                closed: self.closed,
            },
        )
    }

    fn set_read_timeout(&mut self, timeout: Duration) -> Result<(), std::io::Error> {
        Ok(())
    }

    fn write_all(&mut self, buf: &[u8]) -> (r: Result<(), std::io::Error>) {
        let ghost before = self.output@;
        self.output.extend_from_slice(buf);
        assert(self.output@ =~= before + buf@);
        Ok(())
    }

    fn read_exact(&mut self, len: usize) -> (r: Result<Vec<u8>, ReadError>) {
        if self.pos > self.input.len() || self.input.len() - self.pos < len {
            if self.closed {
                return Err(ReadError::UnexpectedEof);
            }
            return Err(ReadError::TimedOut);
        }
        let ghost before = self.unread();
        let start = self.pos;
        let n = self.input.len();
        let mut out: Vec<u8> = Vec::with_capacity(len);
        let mut i: usize = 0;
        while i < len
            invariant
                start == self.pos,
                n == self.input@.len(),
                start + len <= n,
                i <= len,
                out@ =~= self.input@.subrange(start as int, start + i),
            decreases len - i,
        {
            out.push(self.input[start + i]);
            i = i + 1;
        }
        self.pos = start + len;
        assert(before =~= out@ + self.unread());
        Ok(out)
    }
}

impl TryClone for MemStream {
    fn try_clone(&self) -> Result<MemStream, std::io::Error> {
        StreamExt::try_clone(self)
    }
}

impl Frame {
    /// Reads one frame from `r`: the header, then exactly the body it
    /// announces. The header is judged by [`Frame::decode_header`], so a
    /// length past the limit gives `TooLong` and no body is read; a failed
    /// read gives its [`FrameError::from_read`] counterpart.
    pub fn decode_from<R: StreamExt>(r: &mut R) -> (res: Result<Frame, FrameError>)
        ensures
            res matches Ok(f) ==> {
                &&& f.data@.len() <= FRAME_MAX_LEN
                &&& exists|mid: R, hdr: Seq<u8>|
                    {
                        &&& hdr.len() == 16
                        &&& be_value(hdr.subrange(0, 8)) == f.id
                        &&& announced_len(hdr) == f.data@.len()
                        &&& old(r).delivers(mid, hdr)
                        &&& mid.delivers(*final(r), f.data@)
                    }
            },
            res matches Err(FrameError::TooLong(n)) ==> {
                &&& n > FRAME_MAX_LEN
                &&& exists|hdr: Seq<u8>|
                    {
                        &&& hdr.len() == 16
                        &&& announced_len(hdr) == n
                        &&& old(r).delivers(*final(r), hdr)
                    }
            },
    {
        let ghost start = *r;
        let hdr = match r.read_exact(FRAME_HEADER_LEN) {
            Ok(h) => h,
            Err(e) => return Err(FrameError::from_read(e)),
        };
        let ghost mid = *r;
        let (id, len) = match Frame::decode_header(hdr.as_slice()) {
            Ok(h) => h,
            Err(e) => {
                assert(start.delivers(*r, hdr@));
                return Err(e);
            },
        };
        let data = match r.read_exact(len as usize) {
            Ok(d) => d,
            Err(e) => return Err(FrameError::from_read(e)),
        };
        assert(start.delivers(mid, hdr@) && mid.delivers(*r, data@));
        Ok(Frame { id, data })
    }
}

/// The id that follows `last`: the next integer, and 1 after the largest.
pub open spec fn next_request_id(last: u64) -> u64 {
    if last == u64::MAX {
        1
    } else {
        (last + 1) as u64
    }
}

/// The id that follows `last`: the next integer, and 1 after the largest.
pub fn next_id(last: u64) -> (r: u64)
    ensures
        r == next_request_id(last),
        r != 0,
{
    if last == u64::MAX {
        1
    } else {
        last + 1
    }
}

/// The caller's step for one read outcome while it waits for the reply to
/// `id`: the frame when its id matches, `None` (keep reading) for a frame
/// with another id, `Timeout` for a read past its deadline, and
/// `ClientDeserialize` for any other failure.
pub fn on_read(id: u64, read: Result<Frame, FrameError>) -> (r: Option<Result<Frame, Error>>)
    ensures
        match read {
            Ok(f) => if f.id == id {
                r == Some(Ok::<Frame, Error>(f))
            } else {
                r is None
            },
            Err(FrameError::TimedOut) => r matches Some(Err(Error::Timeout)),
            Err(_) => r matches Some(Err(Error::ClientDeserialize(_))),
        },
{
    match read {
        Ok(f) => {
            if f.id == id {
                Some(Ok(f))
            } else {
                None
            }
        },
        Err(FrameError::TimedOut) => Some(Err(Error::Timeout)),
        Err(FrameError::UnexpectedEof) => Some(
            Err(Error::ClientDeserialize("connection closed by the peer".to_owned())),
        ),
        Err(FrameError::TooLong(_)) => Some(
            Err(Error::ClientDeserialize("frame length exceeds the limit".to_owned())),
        ),
        Err(FrameError::Io(e)) => Some(Err(Error::ClientDeserialize(e.to_string()))),
    }
}

/// The most frames with other ids that one call discards before it gives up.
pub const MAX_DISCARDED: u64 = u64::MAX;

/// A client with one outstanding request at a time over one stream.
///
/// Each call takes a fresh id, writes the sealed request in one operation,
/// and reads frames, judging each with [`on_read`], until the one with that
/// id arrives.
pub struct StreamClient<S: StreamExt> {
    id: u64,
    stream: S,
}

impl<S: StreamExt> StreamClient<S> {
    /// The id of the latest call, 0 before the first.
    pub closed spec fn last_id(&self) -> u64 {
        self.id
    }

    /// The underlying stream.
    pub closed spec fn transport(&self) -> S {
        self.stream
    }

    /// A client over `stream`.
    pub fn new(stream: S) -> (r: Self)
        ensures
            r.last_id() == 0,
            r.transport() == stream,
    {
        StreamClient { id: 0, stream }
    }

    /// The underlying stream.
    pub fn stream(&self) -> (r: &S)
        ensures
            *r == self.transport(),
    {
        &self.stream
    }

    /// The underlying stream, for changes that leave the client's state alone.
    pub fn stream_mut(&mut self) -> (r: &mut S)
        ensures
            *r == old(self).transport(),
            final(self).transport() == *final(r),
            final(self).last_id() == old(self).last_id(),
    {
        &mut self.stream
    }

    /// Bounds how long a call waits for its reply.
    pub fn set_timeout(&mut self, timeout: Duration) -> (r: Result<(), std::io::Error>)
        ensures
            final(self).last_id() == old(self).last_id(),
    {
        self.stream.set_read_timeout(timeout)
    }

    /// Sends `req` under a fresh id and waits for the frame with that id.
    ///
    /// A request whose frame, header included, exceeds the frame limit is
    /// refused with `ClientSerialize` and nothing is written. A failed write
    /// gives `Io` and nothing is read. Each read outcome is then judged by
    /// [`on_read`]: a read past its deadline gives `Timeout`, and any other
    /// failed read `ClientDeserialize`.
    pub fn call_service(&mut self, req: FrameBuf) -> (r: Result<Frame, Error>)
        requires
            req.wf(),
        ensures
            final(self).last_id() == next_request_id(old(self).last_id()),
            r matches Err(Error::ClientSerialize(_)) <==> FRAME_HEADER_LEN + req@.len()
                > FRAME_MAX_LEN,
            FRAME_HEADER_LEN + req@.len() > FRAME_MAX_LEN ==> final(self).transport() == old(
                self,
            ).transport(),
            r matches Ok(f) ==> f.id == final(self).last_id() && f.data@.len() <= FRAME_MAX_LEN,
            ({
                ||| r is Ok
                ||| r matches Err(Error::Timeout)
                ||| r matches Err(Error::ClientDeserialize(_))
            }) ==> exists|s: S|
                old(self).transport().accepts(s, frame_bytes(final(self).last_id(), req@)),
            r is Err ==> {
                ||| r matches Err(Error::ClientSerialize(_))
                ||| r matches Err(Error::Io(_))
                ||| r matches Err(Error::Timeout)
                ||| r matches Err(Error::ClientDeserialize(_))
            },
    {
        let id = next_id(self.id);
        self.id = id;
        if req.body_len() as u64 > FRAME_MAX_LEN - FRAME_HEADER_LEN as u64 {
            return Err(Error::ClientSerialize("request exceeds the frame limit".to_owned()));
        }
        let bytes = req.finish(id);
        let ghost before = self.stream;
        match self.stream.write_all(bytes.as_slice()) {
            Ok(()) => {},
            Err(e) => return Err(Error::Io(e)),
        }
        let ghost after = self.stream;
        let mut discarded: u64 = 0;
        while discarded < MAX_DISCARDED
            invariant
                self.id == id,
                id == next_request_id(old(self).id),
                FRAME_HEADER_LEN + req@.len() <= FRAME_MAX_LEN,
                before == old(self).stream,
                before.accepts(after, frame_bytes(id, req@)),
            decreases MAX_DISCARDED - discarded,
        {
            let read = Frame::decode_from(&mut self.stream);
            match on_read(id, read) {
                Some(outcome) => {
                    assert(old(self).transport().accepts(after, frame_bytes(self.last_id(), req@)));
                    return outcome;
                },
                None => {},
            }
            discarded = discarded + 1;
        }
        assert(old(self).transport().accepts(after, frame_bytes(id, req@)));
        Err(Error::ClientDeserialize("too many frames for other requests".to_owned()))
    }
}

} // verus!
