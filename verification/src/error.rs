//! The error type of the generated clients and servers.
use vstd::prelude::*;

verus! {

/// Declares `std::io::Error`, which an I/O failure of a stream carries.
#[verifier::external_type_specification]
#[verifier::external_body]
pub struct ExIoError(std::io::Error);

/// Declares `postcard::Error`, which a failed encoding or decoding carries.
#[verifier::external_type_specification]
#[verifier::external_body]
pub struct ExPostcardError(postcard::Error);

/// Declares `tokio::sync::mpsc::error::SendError`, which a send on a closed channel returns.
#[verifier::external_type_specification]
#[verifier::external_body]
#[verifier::reject_recursive_types(T)]
pub struct ExSendError<T>(tokio::sync::mpsc::error::SendError<T>);

/// The ways in which a remote call or the serving of one fails.
#[derive(Debug)]
pub enum RpcError {
    /// A response is due to a client of which the server holds no channel.
    MissingClient,
    /// Reading from or writing to the connection failed.
    IOError(std::io::Error),
    /// A request or a response could not be encoded or decoded.
    SerializeError(postcard::Error),
    /// The channel to a client's writer was closed.
    MPSCSendError(tokio::sync::mpsc::error::SendError<Vec<u8>>),
}

impl From<std::io::Error> for RpcError {
    fn from(e: std::io::Error) -> (r: RpcError) {
        RpcError::IOError(e)
    }
}

impl vstd::std_specs::convert::FromSpecImpl<std::io::Error> for RpcError {
    open spec fn obeys_from_spec() -> bool {
        true
    }

    open spec fn from_spec(e: std::io::Error) -> RpcError {
        RpcError::IOError(e)
    }
}

impl From<postcard::Error> for RpcError {
    fn from(e: postcard::Error) -> (r: RpcError) {
        RpcError::SerializeError(e)
    }
}

impl vstd::std_specs::convert::FromSpecImpl<postcard::Error> for RpcError {
    open spec fn obeys_from_spec() -> bool {
        true
    }

    open spec fn from_spec(e: postcard::Error) -> RpcError {
        RpcError::SerializeError(e)
    }
}

impl From<tokio::sync::mpsc::error::SendError<Vec<u8>>> for RpcError {
    fn from(e: tokio::sync::mpsc::error::SendError<Vec<u8>>) -> (r: RpcError) {
        RpcError::MPSCSendError(e)
    }
}

impl vstd::std_specs::convert::FromSpecImpl<tokio::sync::mpsc::error::SendError<Vec<u8>>> for RpcError {
    open spec fn obeys_from_spec() -> bool {
        true
    }

    open spec fn from_spec(e: tokio::sync::mpsc::error::SendError<Vec<u8>>) -> RpcError {
        RpcError::MPSCSendError(e)
    }
}

impl RpcError {
    /// The text that reports this error.
    pub fn message(&self) -> (r: String)
        ensures
            r@ == match self {
                RpcError::MissingClient => "missing client"@,
                RpcError::IOError(_) => "io error"@,
                RpcError::SerializeError(_) => "serialize error"@,
                RpcError::MPSCSendError(_) => "mpsc send error"@,
            },
    {
        match self {
            RpcError::MissingClient => String::from_str("missing client"),
            RpcError::IOError(_) => String::from_str("io error"),
            RpcError::SerializeError(_) => String::from_str("serialize error"),
            RpcError::MPSCSendError(_) => String::from_str("mpsc send error"),
        }
    }
}

} // verus!
