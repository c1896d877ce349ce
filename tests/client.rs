use conetty::datagram::{match_reply, on_recv_error};
use conetty::stream::{on_read, ReadError};
use conetty::frame::FRAME_MAX_LEN;
use conetty::server::{panic_reply, serve_request};
use conetty::{Echo, Error, Frame, FrameError, MemStream, ReqBuf, RspBuf, Server, StreamClient, WireError};
use std::time::Duration;

struct Picky;

impl Server for Picky {
    fn service(&self, req: &[u8], rsp: &mut RspBuf) -> Result<(), WireError> {
        if req == b"panic" {
            panic!("refusing the request");
        }
        rsp.write_all(req);
        Ok(())
    }
}

fn echo_reply(id: u64, body: &[u8]) -> Vec<u8> {
    serve_request(&Echo, &Frame { id, data: body.to_vec() })
}

#[test]
fn stream_echo() {
    let mut client = StreamClient::new(MemStream::new(echo_reply(1, &[5u8; 16])));
    let mut req = ReqBuf::new();
    req.write(&vec![5u8; 16]);
    let rsp_frame = client.call_service(req).unwrap();
    let rsp = rsp_frame.decode_rsp().unwrap();
    assert_eq!(rsp, &[5u8; 16]);
    let sent = Frame::decode(client.stream().sent_bytes()).unwrap();
    assert_eq!(sent.id, 1);
    assert_eq!(sent.data, vec![5u8; 16]);
}

#[test]
fn stream_timeout_then_larger_timeout_succeeds() {
    let mut client = StreamClient::new(MemStream::new(Vec::new()));
    client.set_timeout(Duration::from_millis(500)).unwrap();
    let mut req = ReqBuf::new();
    req.write_all(b"aaaaaa");
    assert!(matches!(client.call_service(req), Err(Error::Timeout)));

    client.set_timeout(Duration::from_millis(1500)).unwrap();
    client.stream_mut().feed(&echo_reply(1, b"aaaaaa"));
    client.stream_mut().feed(&echo_reply(2, b"bbbbbb"));
    let mut req = ReqBuf::new();
    req.write_all(b"bbbbbb");
    let frame = client.call_service(req).unwrap();
    assert_eq!(frame.id, 2);
    assert_eq!(frame.decode_rsp().unwrap(), b"bbbbbb");
}

#[test]
fn stream_closed_by_peer_is_client_deserialize() {
    let mut stream = MemStream::new(Vec::new());
    stream.close();
    let mut client = StreamClient::new(stream);
    let mut req = ReqBuf::new();
    req.write_all(b"x");
    assert!(matches!(client.call_service(req), Err(Error::ClientDeserialize(_))));
}

#[test]
fn read_outcomes_are_judged() {
    assert!(matches!(on_read(3, Ok(Frame { id: 3, data: vec![1] })), Some(Ok(f)) if f.data == vec![1]));
    assert!(on_read(3, Ok(Frame { id: 4, data: Vec::new() })).is_none());
    assert!(matches!(on_read(3, Err(FrameError::TimedOut)), Some(Err(Error::Timeout))));
    assert!(matches!(on_read(3, Err(FrameError::UnexpectedEof)), Some(Err(Error::ClientDeserialize(_)))));
    assert!(matches!(on_read(3, Err(FrameError::TooLong(5))), Some(Err(Error::ClientDeserialize(_)))));
}

#[test]
fn receive_errors_are_judged() {
    assert!(matches!(on_recv_error(ReadError::TimedOut), Error::Timeout));
    assert!(matches!(on_recv_error(ReadError::UnexpectedEof), Error::ClientDeserialize(_)));
    let e = std::io::Error::new(std::io::ErrorKind::Other, "down");
    assert!(matches!(on_recv_error(ReadError::Io(e)), Error::Io(_)));
}

#[test]
fn stream_many_clients() {
    let mut count = 0;
    for i in 0..8 {
        let mut replies = Vec::new();
        for j in 0..10u64 {
            let body = format!("Hello World! id={}, j={}", i, j);
            replies.extend(echo_reply(j + 1, body.as_bytes()));
        }
        let mut client = StreamClient::new(MemStream::new(replies));
        for j in 0..10 {
            let mut req = ReqBuf::new();
            req.write_all(format!("Hello World! id={}, j={}", i, j).as_bytes());
            match client.call_service(req) {
                Ok(_) => count += 1,
                Err(err) => panic!("recv err = {:?}", err),
            }
        }
    }
    assert_eq!(count, 80);
}

#[test]
fn replies_to_other_ids_are_discarded() {
    let mut input = echo_reply(9, b"stale");
    input.extend(echo_reply(1, b"fresh"));
    let mut client = StreamClient::new(MemStream::new(input));
    let mut req = ReqBuf::new();
    req.write_all(b"fresh");
    let frame = client.call_service(req).unwrap();
    assert_eq!(frame.id, 1);
    assert_eq!(frame.decode_rsp().unwrap(), b"fresh");
}

#[test]
fn oversized_request_is_refused_before_sending() {
    let mut client = StreamClient::new(MemStream::new(Vec::new()));
    let mut req = ReqBuf::new();
    req.write_all(&vec![0u8; FRAME_MAX_LEN as usize - 15]);
    assert!(matches!(client.call_service(req), Err(Error::ClientSerialize(_))));
    assert!(client.stream().sent_bytes().is_empty());
}

#[test]
fn server_panic_then_normal_call() {
    let mut input = panic_reply(1);
    input.extend(serve_request(&Picky, &Frame { id: 2, data: b"ok".to_vec() }));
    let mut client = StreamClient::new(MemStream::new(input));
    let mut req = ReqBuf::new();
    req.write_all(b"panic");
    let frame = client.call_service(req).unwrap();
    match frame.decode_rsp() {
        Err(Error::Status(m)) => assert_eq!(m, "rpc panicked in server"),
        other => panic!("unexpected outcome {:?}", other),
    }
    let mut req = ReqBuf::new();
    req.write_all(b"ok");
    let frame = client.call_service(req).unwrap();
    assert_eq!(frame.decode_rsp().unwrap(), b"ok");
}

#[test]
fn datagram_echo() {
    let mut req = ReqBuf::new();
    req.write_all(&[5u8; 80]);
    let datagram = req.finish(1);
    let request = Frame::decode(&datagram).unwrap();
    let reply = serve_request(&Echo, &request);
    let frame = match_reply(1, &reply).unwrap().unwrap();
    assert_eq!(frame.decode_rsp().unwrap(), &[5u8; 80]);
}

#[test]
fn udp_client_skips_other_ids_and_rejects_garbage() {
    let reply = echo_reply(3, b"x");
    assert!(matches!(match_reply(4, &reply), Ok(None)));
    assert!(matches!(match_reply(3, &reply), Ok(Some(f)) if f.id == 3));
    assert!(matches!(match_reply(3, &reply[..10]), Err(Error::ClientDeserialize(_))));
}

struct Refuser;

impl Server for Refuser {
    fn service(&self, _req: &[u8], rsp: &mut RspBuf) -> Result<(), WireError> {
        rsp.write_all(b"dropped");
        Err(WireError::Status("no".to_string()))
    }
}

#[test]
fn service_error_is_sealed_under_the_request_id() {
    let reply = serve_request(&Refuser, &Frame { id: 12, data: b"q".to_vec() });
    let frame = Frame::decode(&reply).unwrap();
    assert_eq!(frame.id, 12);
    match frame.decode_rsp() {
        Err(Error::Status(m)) => assert_eq!(m, "no"),
        other => panic!("unexpected outcome {:?}", other),
    }
}
