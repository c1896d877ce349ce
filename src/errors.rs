//! The errors a caller can observe, and those a service reports over the wire.

use vstd::prelude::*;

verus! {

#[verifier::external_type_specification]
#[verifier::external_body]
pub struct ExIoError(std::io::Error);

/// Everything that can go wrong with one call.
#[derive(Debug)]
pub enum Error {
    /// The transport failed.
    Io(std::io::Error),
    /// The reply could not be parsed: a malformed frame, an unknown status
    /// tag, or a message that is not UTF-8.
    ClientDeserialize(String),
    /// The request could not be built, for instance because it exceeds the
    /// frame limit.
    ClientSerialize(String),
    /// The server could not parse the request.
    ServerDeserialize(String),
    /// The server could not emit its reply.
    ServerSerialize(String),
    /// No reply arrived before the deadline.
    Timeout,
    /// The service answered with an application-level error.
    Status(String),
}

/// The error a service returns; each variant travels as its own status tag.
#[derive(Debug, PartialEq, Eq)]
pub enum WireError {
    /// The request could not be parsed by the service.
    ServerDeserialize(String),
    /// The reply could not be produced by the service.
    ServerSerialize(String),
    /// An application-level error.
    Status(String),
}

impl WireError {
    /// The status tag that carries this error on the wire.
    pub open spec fn tag(&self) -> u8 {
        match self {
            WireError::ServerDeserialize(_) => 1,
            WireError::ServerSerialize(_) => 2,
            WireError::Status(_) => 3,
        }
    }

    /// The message carried by this error.
    pub open spec fn message(&self) -> Seq<char> {
        match self {
            WireError::ServerDeserialize(m) => m@,
            WireError::ServerSerialize(m) => m@,
            WireError::Status(m) => m@,
        }
    }

    /// The message carried by this error.
    pub fn text(&self) -> (r: &String)
        ensures
            r@ == self.message(),
    {
        match self {
            WireError::ServerDeserialize(m) => m,
            WireError::ServerSerialize(m) => m,
            WireError::Status(m) => m,
        }
    }
}

/// The caller-side error that a wire error becomes.
pub open spec fn error_of_wire(e: WireError) -> Error {
    match e {
        WireError::ServerDeserialize(m) => Error::ServerDeserialize(m),
        WireError::ServerSerialize(m) => Error::ServerSerialize(m),
        WireError::Status(m) => Error::Status(m),
    }
}

impl From<WireError> for Error {
    fn from(e: WireError) -> (r: Error)
        ensures
            r == error_of_wire(e),
    {
        match e {
            WireError::ServerDeserialize(m) => Error::ServerDeserialize(m),
            WireError::ServerSerialize(m) => Error::ServerSerialize(m),
            WireError::Status(m) => Error::Status(m),
        }
    }
}

impl vstd::std_specs::convert::FromSpecImpl<WireError> for Error {
    open spec fn obeys_from_spec() -> bool {
        true
    }

    open spec fn from_spec(e: WireError) -> Error {
        error_of_wire(e)
    }
}

impl From<std::io::Error> for Error {
    fn from(e: std::io::Error) -> (r: Error)
        ensures
            r == Error::Io(e),
    {
        Error::Io(e)
    }
}

impl vstd::std_specs::convert::FromSpecImpl<std::io::Error> for Error {
    open spec fn obeys_from_spec() -> bool {
        true
    }

    open spec fn from_spec(e: std::io::Error) -> Error {
        Error::Io(e)
    }
}

} // verus!
