//! A compact RPC transport: length-prefixed, id-tagged frames, the buffers
//! that seal them, the simple stream client, and the bookkeeping that
//! matches replies to callers and orders concurrent writes.

pub mod datagram;
pub mod errors;
pub mod frame;
pub mod queue;
pub mod server;
pub mod stream;
pub mod waiter;
pub mod wire;

pub use errors::{Error, WireError};
pub use frame::{Frame, FrameBuf, FrameError, ReqBuf, RspBuf};
pub use server::{Echo, Server};
pub use stream::{Client, MemStream, ReadError, StreamClient, StreamExt, TryClone};
pub use waiter::{wait_rsp, Parked, WaitReqMap, WaiterTable};
pub use queue::WriteQueue;
