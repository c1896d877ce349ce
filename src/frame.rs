//! Frames on the wire, the tagged reply inside a frame body, and the two
//! buffers that reserve room for a header and seal it in place.
//!
//! A frame is `id: u64 BE || length: u64 BE || body: length bytes`.
//! A reply body is `tag: u8 || inner length: u64 BE || inner bytes`.

use vstd::prelude::*;
use vstd::slice::{slice_subrange, slice_to_vec};
use vstd::utf8::{valid_utf8, decode_utf8, encode_utf8};
use crate::errors::{Error, WireError};
use crate::wire::{be_bytes, be_value, get_u64_be, put_u64_be, lemma_be_value_of_bytes};

verus! {

broadcast use crate::wire::lemma_be_bytes_len;

/// The largest body length a frame header may announce.
pub const FRAME_MAX_LEN: u64 = 1024 * 1024;

/// Bytes of a frame header: the id and the body length.
pub const FRAME_HEADER_LEN: usize = 16;

/// Bytes of a reply frame before its payload: frame header, tag, inner length.
pub const RSP_HEADER_LEN: usize = 25;

/// Bytes of a reply body before its payload: tag and inner length.
pub const RSP_INNER_HEADER_LEN: usize = 9;

/// The wire image of a frame with the given id and body.
pub open spec fn frame_bytes(id: u64, body: Seq<u8>) -> Seq<u8> {
    be_bytes(id) + be_bytes(body.len() as u64) + body
}

/// The reply body that carries `payload` under status `tag`.
pub open spec fn rsp_body(tag: u8, payload: Seq<u8>) -> Seq<u8> {
    seq![tag] + be_bytes(payload.len() as u64) + payload
}

/// The body length announced by a frame header at the start of `s`.
pub open spec fn announced_len(s: Seq<u8>) -> u64 {
    be_value(s.subrange(8, 16))
}

/// The frame at the start of `s`, as id and body, when `s` begins with a
/// complete header that respects the limit and the whole body follows it.
pub open spec fn parse_frame(s: Seq<u8>) -> Option<(u64, Seq<u8>)> {
    if s.len() >= 16 && announced_len(s) <= FRAME_MAX_LEN && s.len() >= 16 + announced_len(s) {
        Some((be_value(s.subrange(0, 8)), s.subrange(16, 16 + announced_len(s))))
    } else {
        None
    }
}

/// What a reply body says.
pub enum Reply {
    /// Status 0: the service succeeded with this payload.
    Success(Seq<u8>),
    /// Status 1, 2 or 3 with its message.
    Failure(u8, Seq<char>),
    /// Too short, an inner length past the end, an unknown tag, or a message
    /// that is not UTF-8.
    Malformed,
    /// Not the outcome of reading a reply.
    Unrelated,
}

/// What the reply body `body` says.
pub open spec fn reply_of(body: Seq<u8>) -> Reply {
    if body.len() < 9 {
        Reply::Malformed
    } else {
        let n = be_value(body.subrange(1, 9)) as int;
        if n > body.len() - 9 {
            Reply::Malformed
        } else {
            let inner = body.subrange(9, 9 + n);
            let tag = body[0];
            if tag == 0 {
                Reply::Success(inner)
            } else if 1 <= tag <= 3 && valid_utf8(inner) {
                Reply::Failure(tag, decode_utf8(inner))
            } else {
                Reply::Malformed
            }
        }
    }
}

/// The reply a call's outcome stands for.
pub open spec fn reply_of_outcome(r: Result<&[u8], Error>) -> Reply {
    match r {
        Ok(p) => Reply::Success(p@),
        Err(Error::ServerDeserialize(m)) => Reply::Failure(1, m@),
        Err(Error::ServerSerialize(m)) => Reply::Failure(2, m@),
        Err(Error::Status(m)) => Reply::Failure(3, m@),
        Err(Error::ClientDeserialize(_)) => Reply::Malformed,
        _ => Reply::Unrelated,
    }
}

/// Why no frame could be decoded.
#[derive(Debug)]
pub enum FrameError {
    /// The input ends before the header or the body does: the peer closed.
    UnexpectedEof,
    /// A read passed its deadline.
    TimedOut,
    /// The header announces a body longer than the limit (an invalid input).
    TooLong(u64),
    /// Any other failure of the transport.
    Io(std::io::Error),
}

/// One unit of wire traffic; a request and its reply share the id.
#[derive(Debug)]
pub struct Frame {
    /// The request id, echoed by the server.
    pub id: u64,
    /// The body.
    pub data: Vec<u8>,
}

/// Relies on std::str::from_utf8: it accepts exactly the valid UTF-8
/// sequences, and the text it returns has those bytes.
#[verifier::external_body]
fn utf8_text(b: &[u8]) -> (r: Option<String>)
    ensures
        r is Some <==> valid_utf8(b@),
        r is Some ==> r->Some_0@ == decode_utf8(b@),
{
    match std::str::from_utf8(b) {
        Ok(s) => Some(s.to_owned()),
        Err(_) => None,
    }
}

impl Frame {
    /// Reads the header at the start of `hdr` as id and body length; a
    /// length past the limit is refused with `TooLong`.
    pub fn decode_header(hdr: &[u8]) -> (r: Result<(u64, u64), FrameError>)
        requires
            hdr@.len() >= 16,
        ensures
            announced_len(hdr@) > FRAME_MAX_LEN <==> r matches Err(FrameError::TooLong(_)),
            r matches Err(FrameError::TooLong(n)) ==> n == announced_len(hdr@),
            r matches Ok((id, len)) ==> id == be_value(hdr@.subrange(0, 8)) && len
                == announced_len(hdr@),
            r is Err ==> r matches Err(FrameError::TooLong(_)),
    {
        let id = get_u64_be(hdr, 0);
        let len = get_u64_be(hdr, 8);
        if len > FRAME_MAX_LEN {
            return Err(FrameError::TooLong(len));
        }
        Ok((id, len))
    }

    /// Decodes the frame at the start of `buf`; bytes after it are ignored.
    pub fn decode(buf: &[u8]) -> (r: Result<Frame, FrameError>)
        ensures
            match r {
                Ok(f) => parse_frame(buf@) == Some((f.id, f.data@)),
                Err(FrameError::TooLong(n)) => buf@.len() >= 16 && n == announced_len(buf@) && n
                    > FRAME_MAX_LEN,
                Err(FrameError::UnexpectedEof) => buf@.len() < 16 || (announced_len(buf@)
                    <= FRAME_MAX_LEN && buf@.len() < 16 + announced_len(buf@)),
                _ => false,
            },
    {
        if buf.len() < FRAME_HEADER_LEN {
            return Err(FrameError::UnexpectedEof);
        }
        let (id, len) = match Frame::decode_header(buf) {
            Ok(h) => h,
            Err(e) => return Err(e),
        };
        let n = len as usize;
        if buf.len() - FRAME_HEADER_LEN < n {
            return Err(FrameError::UnexpectedEof);
        }
        let body = slice_subrange(buf, FRAME_HEADER_LEN, FRAME_HEADER_LEN + n);
        Ok(Frame { id, data: slice_to_vec(body) })
    }

    /// Reads the reply carried by this frame's body: the payload for status
    /// 0, the matching error for statuses 1 to 3, and `ClientDeserialize`
    /// for anything malformed.
    pub fn decode_rsp(&self) -> (r: Result<&[u8], Error>)
        ensures
            reply_of_outcome(r) == reply_of(self.data@),
    {
        let data = self.data.as_slice();
        if data.len() < RSP_INNER_HEADER_LEN {
            return Err(Error::ClientDeserialize("reply body shorter than its header".to_owned()));
        }
        let tag = data[0];
        let len = get_u64_be(data, 1);
        if len > (data.len() - RSP_INNER_HEADER_LEN) as u64 {
            return Err(Error::ClientDeserialize("reply length past the end of the frame".to_owned()));
        }
        let inner = slice_subrange(data, RSP_INNER_HEADER_LEN, RSP_INNER_HEADER_LEN + len as usize);
        assert(inner@ == data@.subrange(9, 9 + be_value(data@.subrange(1, 9)) as int));
        if tag == 0 {
            return Ok(inner);
        }
        if tag > 3 {
            return Err(Error::ClientDeserialize("unknown reply status".to_owned()));
        }
        match utf8_text(inner) {
            None => Err(Error::ClientDeserialize("reply message is not UTF-8".to_owned())),
            Some(m) => {
                if tag == 1 {
                    Err(Error::ServerDeserialize(m))
                } else if tag == 2 {
                    Err(Error::ServerSerialize(m))
                } else {
                    Err(Error::Status(m))
                }
            },
        }
    }
}

/// The status tag and payload that a reply sealed with `ret` carries, when
/// the service wrote `written`.
pub open spec fn rsp_content(written: Seq<u8>, ret: Result<(), WireError>) -> (u8, Seq<u8>) {
    match ret {
        Ok(_) => (0u8, written),
        Err(e) => (e.tag(), encode_utf8(e.message())),
    }
}

/// The frame that `RspBuf::finish` produces.
pub open spec fn sealed_rsp(id: u64, written: Seq<u8>, ret: Result<(), WireError>) -> Seq<u8> {
    frame_bytes(id, rsp_body(rsp_content(written, ret).0, rsp_content(written, ret).1))
}

/// The reply frame that carries the error message `msg` under status `tag`.
pub open spec fn failure_frame(id: u64, tag: u8, msg: Seq<char>) -> Seq<u8> {
    frame_bytes(id, rsp_body(tag, encode_utf8(msg)))
}

/// Whether a reply sealed with `ret` fits in one frame.
pub open spec fn rsp_fits(written: Seq<u8>, ret: Result<(), WireError>) -> bool {
    rsp_content(written, ret).1.len() + 9 <= FRAME_MAX_LEN
}

/// A request under construction: the header room is reserved and the body
/// is appended after it.
pub struct FrameBuf {
    buf: Vec<u8>,
}

/// The name callers use for a request buffer.
pub type ReqBuf = FrameBuf;

impl View for FrameBuf {
    type V = Seq<u8>;

    /// The body written so far.
    closed spec fn view(&self) -> Seq<u8> {
        self.buf@.subrange(16, self.buf@.len() as int)
    }
}

impl FrameBuf {
    /// The header room is in place.
    pub closed spec fn wf(&self) -> bool {
        self.buf@.len() >= 16
    }

    /// An empty request.
    pub fn new() -> (r: FrameBuf)
        ensures
            r.wf(),
            r@ == Seq::<u8>::empty(),
    {
        let mut buf: Vec<u8> = Vec::with_capacity(1024);
        buf.resize(FRAME_HEADER_LEN, 0u8);
        let r = FrameBuf { buf };
        assert(r@ =~= Seq::<u8>::empty());
        r
    }

    /// Appends `data` to the body; all of it is taken.
    pub fn write(&mut self, data: &[u8]) -> (r: usize)
        requires
            old(self).wf(),
        ensures
            final(self).wf(),
            final(self)@ == old(self)@ + data@,
            r == data@.len(),
    {
        self.write_all(data);
        data.len()
    }

    /// Appends `data` to the body.
    pub fn write_all(&mut self, data: &[u8])
        requires
            old(self).wf(),
        ensures
            final(self).wf(),
            final(self)@ == old(self)@ + data@,
    {
        let ghost before = self.buf@;
        self.buf.extend_from_slice(data);
        assert(self.buf@ =~= before + data@);
        assert(self.buf@.subrange(16, self.buf@.len() as int) =~= before.subrange(
            16,
            before.len() as int,
        ) + data@);
    }

    /// The length of the body written so far.
    pub fn body_len(&self) -> (r: usize)
        requires
            self.wf(),
        ensures
            r == self@.len(),
    {
        self.buf.len() - FRAME_HEADER_LEN
    }

    /// Seals the request with `id`: patches the header in place and hands
    /// back the complete frame, which, header included, must fit in the
    /// frame limit.
    pub fn finish(self, id: u64) -> (r: Vec<u8>)
        requires
            self.wf(),
            FRAME_HEADER_LEN + self@.len() <= FRAME_MAX_LEN,
        ensures
            r@ == frame_bytes(id, self@),
    {
        let ghost body = self@;
        let mut buf = self.buf;
        let len = (buf.len() - FRAME_HEADER_LEN) as u64;
        put_u64_be(&mut buf, 0, id);
        put_u64_be(&mut buf, 8, len);
        assert(buf@ =~= frame_bytes(id, body));
        buf
    }
}

/// A reply under construction: room for the frame header, the status tag
/// and the inner length is reserved, and the service appends its payload.
pub struct RspBuf {
    buf: Vec<u8>,
}

impl View for RspBuf {
    type V = Seq<u8>;

    /// The payload written so far.
    closed spec fn view(&self) -> Seq<u8> {
        self.buf@.subrange(25, self.buf@.len() as int)
    }
}

impl RspBuf {
    /// The header room is in place.
    pub closed spec fn wf(&self) -> bool {
        self.buf@.len() >= 25
    }

    /// An empty reply.
    pub fn new() -> (r: RspBuf)
        ensures
            r.wf(),
            r@ == Seq::<u8>::empty(),
    {
        let mut buf: Vec<u8> = Vec::with_capacity(512);
        buf.resize(RSP_HEADER_LEN, 0u8);
        let r = RspBuf { buf };
        assert(r@ =~= Seq::<u8>::empty());
        r
    }

    /// Appends `data` to the payload; all of it is taken.
    pub fn write(&mut self, data: &[u8]) -> (r: usize)
        requires
            old(self).wf(),
        ensures
            final(self).wf(),
            final(self)@ == old(self)@ + data@,
            r == data@.len(),
    {
        self.write_all(data);
        data.len()
    }

    /// Appends `data` to the payload.
    pub fn write_all(&mut self, data: &[u8])
        requires
            old(self).wf(),
        ensures
            final(self).wf(),
            final(self)@ == old(self)@ + data@,
    {
        let ghost before = self.buf@;
        self.buf.extend_from_slice(data);
        assert(self.buf@ =~= before + data@);
        assert(self.buf@.subrange(25, self.buf@.len() as int) =~= before.subrange(
            25,
            before.len() as int,
        ) + data@);
    }

    /// The length of the payload written so far.
    pub fn payload_len(&self) -> (r: usize)
        requires
            self.wf(),
        ensures
            r == self@.len(),
    {
        self.buf.len() - RSP_HEADER_LEN
    }

    /// Seals the reply with `id` and the service's outcome: on success the
    /// payload written so far is kept under status 0; on an error it is
    /// replaced by the error's message under the error's status.
    pub fn finish(self, id: u64, ret: Result<(), WireError>) -> (r: Vec<u8>)
        requires
            self.wf(),
            rsp_fits(self@, ret),
        ensures
            r@ == sealed_rsp(id, self@, ret),
    {
        let ghost written = self@;
        let mut buf = self.buf;
        let tag: u8 = match &ret {
            Ok(_) => 0,
            Err(WireError::ServerDeserialize(_)) => 1,
            Err(WireError::ServerSerialize(_)) => 2,
            Err(WireError::Status(_)) => 3,
        };
        if let Err(e) = &ret {
            buf.truncate(RSP_HEADER_LEN);
            buf.extend_from_slice(e.text().as_str().as_bytes());
        }
        let len = (buf.len() - RSP_HEADER_LEN) as u64;
        let ghost payload = buf@.subrange(25, buf@.len() as int);
        assert(payload =~= rsp_content(written, ret).1);
        put_u64_be(&mut buf, 0, id);
        put_u64_be(&mut buf, 8, len + 9);
        buf.set(16, tag);
        put_u64_be(&mut buf, 17, len);
        assert(rsp_body(tag, payload).len() == len + 9);
        assert(buf@ =~= frame_bytes(id, rsp_body(tag, payload)));
        buf
    }
}

/// Patches the first sixteen bytes of a frame image with `id` and the length
/// of what follows them, as sealing does.
pub open spec fn reseal(image: Seq<u8>, id: u64) -> Seq<u8> {
    be_bytes(id) + be_bytes((image.len() - 16) as u64) + image.subrange(16, image.len() as int)
}

/// A sealed frame's header announces exactly the body that follows it, and a
/// sealed reply's inner header announces exactly its payload.
pub proof fn lemma_header_matches_body(id: u64, body: Seq<u8>, tag: u8, payload: Seq<u8>)
    requires
        body.len() <= FRAME_MAX_LEN,
        payload.len() <= FRAME_MAX_LEN,
    ensures
        frame_bytes(id, body).len() == 16 + body.len(),
        announced_len(frame_bytes(id, body)) == body.len(),
        be_value(frame_bytes(id, body).subrange(0, 8)) == id,
        rsp_body(tag, payload).len() == 9 + payload.len(),
        be_value(rsp_body(tag, payload).subrange(1, 9)) == payload.len(),
{
    lemma_be_value_of_bytes(id);
    lemma_be_value_of_bytes(body.len() as u64);
    lemma_be_value_of_bytes(payload.len() as u64);
    let f = frame_bytes(id, body);
    assert(f.subrange(0, 8) =~= be_bytes(id));
    assert(f.subrange(8, 16) =~= be_bytes(body.len() as u64));
    assert(rsp_body(tag, payload).subrange(1, 9) =~= be_bytes(payload.len() as u64));
}

/// A sealed frame decodes to the id and body it was sealed with, whatever
/// bytes follow it.
pub proof fn lemma_parse_sealed_frame(id: u64, body: Seq<u8>, rest: Seq<u8>)
    requires
        body.len() <= FRAME_MAX_LEN,
    ensures
        parse_frame(frame_bytes(id, body) + rest) == Some((id, body)),
{
    let s = frame_bytes(id, body) + rest;
    lemma_header_matches_body(id, body, 0, Seq::empty());
    assert(s.subrange(0, 8) =~= frame_bytes(id, body).subrange(0, 8));
    assert(s.subrange(8, 16) =~= frame_bytes(id, body).subrange(8, 16));
    assert(s.subrange(16, 16 + body.len() as int) =~= body);
}

/// A reply body reads back as the status and payload it was built from: the
/// payload itself under status 0, and the message under statuses 1 to 3 when
/// the payload is the UTF-8 encoding of that message.
pub proof fn lemma_reply_of_rsp_body(tag: u8, payload: Seq<u8>)
    requires
        payload.len() <= FRAME_MAX_LEN,
        tag <= 3,
        tag != 0 ==> valid_utf8(payload),
    ensures
        tag == 0 ==> reply_of(rsp_body(tag, payload)) == Reply::Success(payload),
        tag != 0 ==> reply_of(rsp_body(tag, payload)) == Reply::Failure(tag, decode_utf8(payload)),
{
    lemma_header_matches_body(0, Seq::empty(), tag, payload);
    let b = rsp_body(tag, payload);
    assert(b.subrange(9, 9 + payload.len() as int) =~= payload);
}

/// Round trip: whatever a service wrote, or whichever error it returned,
/// sealing the reply and decoding the frame and then its reply gives back the
/// same id and the same payload, or the same status and message.
pub proof fn lemma_reply_round_trip(
    id: u64,
    written: Seq<u8>,
    ret: Result<(), WireError>,
    rest: Seq<u8>,
)
    requires
        rsp_fits(written, ret),
    ensures
        parse_frame(sealed_rsp(id, written, ret) + rest) matches Some((rid, body)) && rid == id
            && reply_of(body) == match ret {
            Ok(_) => Reply::Success(written),
            Err(e) => Reply::Failure(e.tag(), e.message()),
        },
{
    let (tag, payload) = rsp_content(written, ret);
    if let Err(e) = ret {
        vstd::utf8::encode_utf8_valid_utf8(e.message());
        vstd::utf8::encode_utf8_decode_utf8(e.message());
    }
    lemma_parse_sealed_frame(id, rsp_body(tag, payload), rest);
    lemma_reply_of_rsp_body(tag, payload);
}

/// Sealing is idempotent: patching the header of a sealed frame again with
/// the same id leaves every byte as it was.
pub proof fn lemma_reseal_idempotent(id: u64, body: Seq<u8>)
    requires
        body.len() <= FRAME_MAX_LEN,
    ensures
        reseal(frame_bytes(id, body), id) == frame_bytes(id, body),
        reseal(reseal(frame_bytes(id, body), id), id) == reseal(frame_bytes(id, body), id),
{
    let f = frame_bytes(id, body);
    assert(f.subrange(16, f.len() as int) =~= body);
    assert(reseal(f, id) =~= f);
}

/// Sealing depends only on the content, the id and the outcome: two request
/// buffers, or two reply buffers, holding the same bytes and sealed with the
/// same id (and the same outcome) give identical frames.
pub proof fn lemma_seal_deterministic(
    a: FrameBuf,
    b: FrameBuf,
    c: RspBuf,
    d: RspBuf,
    id: u64,
    ret: Result<(), WireError>,
)
    requires
        a@ == b@,
        c@ == d@,
    ensures
        frame_bytes(id, a@) == frame_bytes(id, b@),
        sealed_rsp(id, c@, ret) == sealed_rsp(id, d@, ret),
{
}

} // verus!
