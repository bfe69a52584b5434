//! Client side of the service protocol: judging the handshake reply and the
//! reply to a lifecycle request. The socket exchange itself is done by the
//! caller, one fresh connection per operation.

use vstd::prelude::*;

use crate::ipc::{CoreState, PROTOCOL_VERSION, Response};

verus! {

/// Why a service exchange failed.
#[derive(Debug)]
pub enum ClientError {
    /// The service speaks another protocol version.
    VersionMismatch { daemon: u32 },
    /// The service refused the handshake with this message.
    HandshakeRejected { message: String },
    /// The service answered a request with this error message.
    Daemon { message: String },
    /// The service sent a reply that does not fit the request.
    Unexpected(Response),
}

/// Accepts the service's reply to our `Hello` only if it is a `Hello` with
/// our protocol version.
pub fn check_hello_reply(resp: Response) -> (r: Result<(), ClientError>)
    ensures
        match resp {
            Response::Hello { version } => if version == PROTOCOL_VERSION {
                r is Ok
            } else {
                r matches Err(ClientError::VersionMismatch { daemon }) && daemon == version
            },
            Response::Error { message } => r matches Err(
                ClientError::HandshakeRejected { message: m },
            ) && m == message,
            other => r matches Err(ClientError::Unexpected(o)) && o == other,
        },
{
    match resp {
        Response::Hello { version } => {
            if version == PROTOCOL_VERSION {
                Ok(())
            } else {
                Err(ClientError::VersionMismatch { daemon: version })
            }
        },
        Response::Error { message } => Err(ClientError::HandshakeRejected { message }),
        other => Err(ClientError::Unexpected(other)),
    }
}

/// Reads the core state out of the reply to a lifecycle request: a
/// `Status` carries it, a bare OK means stopped, an error is passed on.
pub fn parse_status(resp: Response) -> (r: Result<CoreState, ClientError>)
    ensures
        match resp {
            Response::Status(state) => r == Ok::<CoreState, ClientError>(state),
            Response::Ack => r matches Ok(CoreState::Stopped),
            Response::Error { message } => r matches Err(ClientError::Daemon { message: m }) && m
                == message,
            other => r matches Err(ClientError::Unexpected(o)) && o == other,
        },
{
    match resp {
        Response::Status(state) => Ok(state),
        Response::Ack => Ok(CoreState::Stopped),
        Response::Error { message } => Err(ClientError::Daemon { message }),
        other => Err(ClientError::Unexpected(other)),
    }
}

} // verus!
