//! Request handling of the helper service: the mandatory `Hello`
//! handshake, the routing of requests to core-lifecycle commands, and the
//! replies built from their outcomes. The service loop (socket, process
//! spawning) performs the commands and hands the outcomes back.

use vstd::prelude::*;

use crate::ipc::{CoreState, PROTOCOL_VERSION, Request, Response};
use crate::text::{chars_of, dec, push_decimal, push_str, string_of};

verus! {

/// A lifecycle operation on the mihomo process that the service performs.
#[derive(Debug)]
pub enum CoreCommand {
    Start { binary: String, config: String },
    Restart { binary: String, config: String },
    Stop,
    Status,
    Shutdown,
}

/// What the connection handler does with one incoming request.
#[derive(Debug)]
pub enum Step {
    /// Send this response and keep serving the connection.
    Reply(Response),
    /// Send this response (best effort) and drop the connection.
    ReplyAndClose(Response),
    /// Perform this command; its outcome becomes the response.
    Perform(CoreCommand),
}

/// Message refusing a peer with another protocol version.
pub open spec fn version_mismatch_message(peer: u32) -> Seq<char> {
    "protocol version mismatch: peer="@ + dec(peer as nat) + ", daemon="@ + dec(
        PROTOCOL_VERSION as nat,
    )
}

/// Is `r` the error response carrying exactly `msg`?
pub open spec fn is_error_with(r: Response, msg: Seq<char>) -> bool {
    r matches Response::Error { message } && message@ == msg
}

/// The reply to the first request of a connection: `Ok` carries the
/// `Hello` reply and the connection continues, `Err` carries the error
/// reply after which the connection is closed.
pub fn handshake(first: &Request) -> (r: Result<Response, Response>)
    ensures
        match *first {
            Request::Hello { version } => if version == PROTOCOL_VERSION {
                r matches Ok(Response::Hello { version: v }) && v == PROTOCOL_VERSION
            } else {
                r matches Err(e) && is_error_with(e, version_mismatch_message(version))
            },
            _ => r matches Err(e) && is_error_with(e, "first request must be Hello"@),
        },
{
    match first {
        Request::Hello { version } => {
            if *version == PROTOCOL_VERSION {
                Ok(Response::Hello { version: PROTOCOL_VERSION })
            } else {
                let mut m = chars_of("protocol version mismatch: peer=");
                push_decimal(&mut m, *version as u64);
                push_str(&mut m, ", daemon=");
                push_decimal(&mut m, PROTOCOL_VERSION as u64);
                Err(Response::Error { message: string_of(m.as_slice()) })
            }
        },
        _ => Err(Response::Error { message: crate::text::owned("first request must be Hello") }),
    }
}

/// Routes a request received after the handshake: a second `Hello` is
/// answered with an error, everything else becomes a command.
pub fn dispatch(req: Request) -> (r: Result<CoreCommand, Response>)
    ensures
        match req {
            Request::Hello { .. } => r matches Err(e) && is_error_with(
                e,
                "Hello already exchanged on this connection"@,
            ),
            Request::StartCore { binary, config } => r matches Ok(
                CoreCommand::Start { binary: b, config: c },
            ) && b == binary && c == config,
            Request::RestartCore { binary, config } => r matches Ok(
                CoreCommand::Restart { binary: b, config: c },
            ) && b == binary && c == config,
            Request::StopCore => r matches Ok(CoreCommand::Stop),
            Request::Status => r matches Ok(CoreCommand::Status),
            Request::Shutdown => r matches Ok(CoreCommand::Shutdown),
        },
{
    match req {
        Request::Hello { .. } => Err(
            Response::Error {
                message: crate::text::owned("Hello already exchanged on this connection"),
            },
        ),
        Request::StartCore { binary, config } => Ok(CoreCommand::Start { binary, config }),
        Request::RestartCore { binary, config } => Ok(CoreCommand::Restart { binary, config }),
        Request::StopCore => Ok(CoreCommand::Stop),
        Request::Status => Ok(CoreCommand::Status),
        Request::Shutdown => Ok(CoreCommand::Shutdown),
    }
}

/// Per-connection state of the service: whether the handshake is done.
pub struct Session {
    greeted: bool,
}

impl Session {
    /// Has this connection completed the handshake?
    pub closed spec fn is_greeted(&self) -> bool {
        self.greeted
    }

    /// A fresh connection, not yet greeted.
    pub fn new() -> (s: Self)
        ensures
            !s.is_greeted(),
    {
        Session { greeted: false }
    }

    /// Handles one request: the first must be a compatible `Hello`; after
    /// that, requests are dispatched.
    pub fn on_request(&mut self, req: Request) -> (step: Step)
        ensures
            !old(self).is_greeted() ==> match req {
                Request::Hello { version } => if version == PROTOCOL_VERSION {
                    final(self).is_greeted() && (step matches Step::Reply(
                        Response::Hello { version: v },
                    ) && v == PROTOCOL_VERSION)
                } else {
                    !final(self).is_greeted() && (step matches Step::ReplyAndClose(e)
                        && is_error_with(e, version_mismatch_message(version)))
                },
                _ => !final(self).is_greeted() && (step matches Step::ReplyAndClose(e)
                    && is_error_with(e, "first request must be Hello"@)),
            },
            old(self).is_greeted() ==> final(self).is_greeted() && match req {
                Request::Hello { .. } => step matches Step::Reply(e) && is_error_with(
                    e,
                    "Hello already exchanged on this connection"@,
                ),
                Request::StartCore { binary, config } => step matches Step::Perform(
                    CoreCommand::Start { binary: b, config: c },
                ) && b == binary && c == config,
                Request::RestartCore { binary, config } => step matches Step::Perform(
                    CoreCommand::Restart { binary: b, config: c },
                ) && b == binary && c == config,
                Request::StopCore => step matches Step::Perform(CoreCommand::Stop),
                Request::Status => step matches Step::Perform(CoreCommand::Status),
                Request::Shutdown => step matches Step::Perform(CoreCommand::Shutdown),
            },
    {
        if !self.greeted {
            match handshake(&req) {
                Ok(reply) => {
                    self.greeted = true;
                    Step::Reply(reply)
                },
                Err(reply) => Step::ReplyAndClose(reply),
            }
        } else {
            match dispatch(req) {
                Ok(cmd) => Step::Perform(cmd),
                Err(reply) => Step::Reply(reply),
            }
        }
    }
}

/// Reply to `StartCore` (`restart == false`) or `RestartCore`
/// (`restart == true`) once the spawn finished: the new pid, or the error
/// text prefixed with what failed.
pub fn start_reply(outcome: Result<u32, String>, restart: bool) -> (r: Response)
    ensures
        match outcome {
            Ok(pid) => r matches Response::Status(CoreState::Running { pid: p }) && p == pid,
            Err(e) => is_error_with(
                r,
                (if restart {
                    "restart failed: "@
                } else {
                    "start failed: "@
                }) + e@,
            ),
        },
{
    match outcome {
        Ok(pid) => Response::Status(CoreState::Running { pid }),
        Err(e) => {
            let mut m = if restart {
                chars_of("restart failed: ")
            } else {
                chars_of("start failed: ")
            };
            push_str(&mut m, e.as_str());
            Response::Error { message: string_of(m.as_slice()) }
        },
    }
}

/// Reply to `StopCore` once the stop finished.
pub fn stop_reply(outcome: Result<(), String>) -> (r: Response)
    ensures
        match outcome {
            Ok(()) => r matches Response::Status(CoreState::Stopped),
            Err(e) => is_error_with(r, "stop failed: "@ + e@),
        },
{
    match outcome {
        Ok(()) => Response::Status(CoreState::Stopped),
        Err(e) => {
            let mut m = chars_of("stop failed: ");
            push_str(&mut m, e.as_str());
            Response::Error { message: string_of(m.as_slice()) }
        },
    }
}

/// Reply to `Status` from what the service tracks: whether a child is held
/// (and its pid, which may be unknown once it exited), and the last
/// recorded failure.
pub fn status_reply(has_child: bool, pid: Option<u32>, last_failure: Option<String>) -> (r: Response)
    ensures
        has_child ==> (r matches Response::Status(CoreState::Running { pid: p }) && p == (
        match pid {
            Some(x) => x,
            None => 0,
        })),
        !has_child ==> match last_failure {
            Some(reason) => r matches Response::Status(CoreState::Failed { reason: rr }) && rr
                == reason,
            None => r matches Response::Status(CoreState::Stopped),
        },
{
    if has_child {
        Response::Status(CoreState::Running { pid: match pid { Some(x) => x, None => 0 } })
    } else {
        match last_failure {
            Some(reason) => Response::Status(CoreState::Failed { reason }),
            None => Response::Status(CoreState::Stopped),
        }
    }
}

/// Reply to `Shutdown` (sent before the service exits).
pub fn shutdown_reply() -> (r: Response)
    ensures
        r matches Response::Ack,
{
    Response::Ack
}

} // verus!
