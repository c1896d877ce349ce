//! The server side of one request: run the service into a reply buffer and
//! seal the reply with the request's id and the service's outcome.

use vstd::prelude::*;
use vstd::utf8::{is_ascii_chars, is_ascii_chars_encode_utf8, encode_utf8, encode_utf8_valid_utf8,
    encode_utf8_decode_utf8};
use crate::errors::WireError;
use crate::frame::{Frame, RspBuf, Reply, FRAME_MAX_LEN, RSP_INNER_HEADER_LEN, sealed_rsp, rsp_fits,
    failure_frame, parse_frame, reply_of, rsp_body, lemma_reply_round_trip, lemma_parse_sealed_frame,
    lemma_reply_of_rsp_body};

verus! {

broadcast use crate::wire::lemma_be_bytes_len;

/// A service: turns a request body into a reply payload or a wire error.
///
/// The framework may run many calls of one service at once.
///
/// `handles(req, written, ret)` says which replies the service may give to
/// the request body `req`: the payload it writes and the outcome it returns.
/// A service checked here states it exactly; one that is not keeps the
/// default, which allows any reply.
pub trait Server {
    /// Whether writing `written` and returning `ret` is a reply this
    /// service may give to the request body `req`.
    open spec fn handles(&self, req: Seq<u8>, written: Seq<u8>, ret: Result<(), WireError>) -> bool {
        true
    }

    /// Handles the request body `req`, writing the reply payload into the
    /// fresh buffer `rsp`.
    fn service(&self, req: &[u8], rsp: &mut RspBuf) -> (r: Result<(), WireError>)
        requires
            old(rsp).wf(),
            old(rsp)@ == Seq::<u8>::empty(),
        ensures
            final(rsp).wf(),
            self.handles(req@, final(rsp)@, r),
    ;
}

/// The service that answers each request with its own body.
pub struct Echo;

impl Server for Echo {
    /// The reply is the request body itself, with success.
    open spec fn handles(&self, req: Seq<u8>, written: Seq<u8>, ret: Result<(), WireError>) -> bool {
        written == req && ret is Ok
    }

    fn service(&self, req: &[u8], rsp: &mut RspBuf) -> (r: Result<(), WireError>) {
        rsp.write_all(req);
        Ok(())
    }
}

/// The message of the reply that replaces one too large for a frame.
pub open spec fn too_large_message() -> Seq<char> {
    "reply exceeds the frame limit"@
}

/// The message of the reply sent when a service panics.
pub open spec fn panic_message() -> Seq<char> {
    "rpc panicked in server"@
}

/// The reply frame for a service that wrote `written` and returned `ret`:
/// sealed as is when it fits in a frame, else replaced by a
/// `ServerSerialize` error.
pub open spec fn reply_image(id: u64, written: Seq<u8>, ret: Result<(), WireError>) -> Seq<u8> {
    if rsp_fits(written, ret) {
        sealed_rsp(id, written, ret)
    } else {
        failure_frame(id, 2, too_large_message())
    }
}

/// Whether `rsp`, sealed with `ret`, fits in one frame.
fn fits(rsp: &RspBuf, ret: &Result<(), WireError>) -> (r: bool)
    requires
        rsp.wf(),
    ensures
        r == rsp_fits(rsp@, *ret),
{
    let n = match ret {
        Ok(_) => rsp.payload_len(),
        Err(e) => e.text().as_str().as_bytes().len(),
    };
    n as u64 <= FRAME_MAX_LEN - RSP_INNER_HEADER_LEN as u64
}

/// Seals the reply to request `id` from what the service wrote and what it
/// returned; a reply too large for a frame becomes a `ServerSerialize` error.
pub fn seal_reply(id: u64, rsp: RspBuf, ret: Result<(), WireError>) -> (r: Vec<u8>)
    requires
        rsp.wf(),
    ensures
        r@ == reply_image(id, rsp@, ret),
{
    if fits(&rsp, &ret) {
        rsp.finish(id, ret)
    } else {
        let msg = "reply exceeds the frame limit".to_owned();
        proof {
            reveal_strlit("reply exceeds the frame limit");
            assert(is_ascii_chars(msg@));
            is_ascii_chars_encode_utf8(msg@);
        }
        RspBuf::new().finish(id, Err(WireError::ServerSerialize(msg)))
    }
}

/// Runs `server` once on the body of request `req`, with a fresh reply
/// buffer, and returns that run's reply sealed under the request's id.
pub fn serve_request<S: Server>(server: &S, req: &Frame) -> (r: Vec<u8>)
    ensures
        exists|written: Seq<u8>, ret: Result<(), WireError>|
            server.handles(req.data@, written, ret) && r@ == reply_image(req.id, written, ret),
{
    let mut rsp = RspBuf::new();
    let ret = server.service(req.data.as_slice(), &mut rsp);
    let ghost written = rsp@;
    let r = seal_reply(req.id, rsp, ret);
    assert(server.handles(req.data@, written, ret) && r@ == reply_image(req.id, written, ret));
    r
}

/// The reply sent for request `id` when the service panicked: a `Status`
/// error saying so.
pub fn panic_reply(id: u64) -> (r: Vec<u8>)
    ensures
        r@ == failure_frame(id, 3, panic_message()),
{
    let msg = "rpc panicked in server".to_owned();
    proof {
        reveal_strlit("rpc panicked in server");
        assert(is_ascii_chars(msg@));
        is_ascii_chars_encode_utf8(msg@);
    }
    RspBuf::new().finish(id, Err(WireError::Status(msg)))
}

/// Whatever the service wrote and returned, the client reads back a frame
/// with the request's id whose reply is the service's payload or error, or,
/// when that would not fit in a frame, a `ServerSerialize` error saying so.
pub proof fn lemma_reply_image_reads_back(id: u64, written: Seq<u8>, ret: Result<(), WireError>)
    ensures
        parse_frame(reply_image(id, written, ret)) matches Some((rid, body)) && rid == id
            && reply_of(body) == if rsp_fits(written, ret) {
            match ret {
                Ok(_) => Reply::Success(written),
                Err(e) => Reply::Failure(e.tag(), e.message()),
            }
        } else {
            Reply::Failure(2, too_large_message())
        },
{
    if rsp_fits(written, ret) {
        lemma_reply_round_trip(id, written, ret, Seq::empty());
        assert(reply_image(id, written, ret) + Seq::empty() =~= reply_image(id, written, ret));
    } else {
        reveal_strlit("reply exceeds the frame limit");
        let m = too_large_message();
        assert(is_ascii_chars(m));
        is_ascii_chars_encode_utf8(m);
        encode_utf8_valid_utf8(m);
        encode_utf8_decode_utf8(m);
        lemma_parse_sealed_frame(id, rsp_body(2, encode_utf8(m)), Seq::empty());
        assert(failure_frame(id, 2, m) + Seq::empty() =~= failure_frame(id, 2, m));
        lemma_reply_of_rsp_body(2, encode_utf8(m));
    }
}

} // verus!
