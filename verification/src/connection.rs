//! The per-connection state machine.
//!
//! A connection reads exactly one handshake, then either forwards bytes to
//! the backend (when the dial succeeded) or serves the status or login
//! phase itself. The I/O — sockets, timeouts, the backend dial — lives in
//! the surrounding runtime; what to answer and when to stop is decided
//! here and is exact.
use vstd::prelude::*;
use vstd::string::StringExecFns;

use crate::handshake::NextState;
use crate::login;
use crate::status;

verus! {

/// The status JSON document served when the backend is down.
pub open spec fn status_json_spec() -> Seq<char> {
    "{\"version\":{\"name\":\"1.21.7\",\"protocol\":772},\"players\":{\"max\":0,\"online\":0},\"description\":\"Not a Minecraft server\",\"enforceSecureProfile\":false}"@
}

pub fn status_json() -> (r: &'static str)
    ensures
        r@ == status_json_spec(),
{
    "{\"version\":{\"name\":\"1.21.7\",\"protocol\":772},\"players\":{\"max\":0,\"online\":0},\"description\":\"Not a Minecraft server\",\"enforceSecureProfile\":false}"
}

/// The JSON-quoted reason sent with the login disconnect while the backend
/// is starting.
pub open spec fn starting_reason_spec() -> Seq<char> {
    "\"Server is starting, please try again later\""@
}

pub fn starting_reason() -> (r: &'static str)
    ensures
        r@ == starting_reason_spec(),
{
    "\"Server is starting, please try again later\""
}

/// Where a connection stands: transitions are one-way, with no protocol
/// phase rollback.
#[derive(Debug, Clone, Copy, PartialEq, Eq, Structural)]
pub enum ConnectionPhase {
    AwaitingHandshake,
    Forwarding,
    LocalStatus,
    LocalLogin,
    Closed,
}

/// The phase a handshake sends the connection to: forwarding when the
/// backend answered the dial; otherwise local status service for a status
/// handshake and local login service for a login or transfer handshake.
pub open spec fn route_spec(ns: NextState, dial_ok: bool) -> ConnectionPhase {
    if dial_ok {
        ConnectionPhase::Forwarding
    } else {
        match ns {
            NextState::Status => ConnectionPhase::LocalStatus,
            NextState::Login => ConnectionPhase::LocalLogin,
            NextState::Transfer => ConnectionPhase::LocalLogin,
        }
    }
}

/// One connection's lifecycle.
#[derive(Debug, Clone, Copy, PartialEq, Eq, Structural)]
pub struct Connection {
    pub phase: ConnectionPhase,
}

impl Connection {
    pub fn new() -> (r: Connection)
        ensures
            r.phase is AwaitingHandshake,
    {
        Connection { phase: ConnectionPhase::AwaitingHandshake }
    }

    /// Applies the one decoded handshake and the backend dial's outcome.
    pub fn on_handshake(&mut self, next_state: NextState, dial_ok: bool)
        requires
            old(self).phase is AwaitingHandshake,
        ensures
            final(self).phase == route_spec(next_state, dial_ok),
    {
        self.phase = if dial_ok {
            ConnectionPhase::Forwarding
        } else {
            match next_state {
                NextState::Status => ConnectionPhase::LocalStatus,
                NextState::Login => ConnectionPhase::LocalLogin,
                NextState::Transfer => ConnectionPhase::LocalLogin,
            }
        };
    }

    /// Any error, timeout, or finished service loop closes the connection.
    pub fn close(&mut self)
        ensures
            final(self).phase is Closed,
    {
        self.phase = ConnectionPhase::Closed;
    }
}

/// The status service loop: at most one status request is answered with
/// the configured JSON; a ping is echoed and ends the loop; a repeated
/// status request ends the loop with no reply.
pub struct StatusSession {
    pub status_sent: bool,
    pub done: bool,
}

impl StatusSession {
    pub fn new() -> (r: StatusSession)
        ensures
            !r.status_sent,
            !r.done,
    {
        StatusSession { status_sent: false, done: false }
    }

    /// One step of the status loop: the reply owed to `req`, if any, and
    /// (through `done`) whether the loop ends after it.
    pub fn handle(&mut self, req: &status::ServerBound) -> (resp: Option<status::ClientBound>)
        requires
            !old(self).done,
        ensures
            match *req {
                status::ServerBound::StatusRequest => if !old(self).status_sent {
                    &&& resp matches Some(p) && p@ == (status::ClientBoundView::StatusResponse {
                        json_response: status_json_spec(),
                    })
                    &&& final(self).status_sent
                    &&& !final(self).done
                } else {
                    &&& resp is None
                    &&& final(self).status_sent
                    &&& final(self).done
                },
                status::ServerBound::PingRequest(ts) => {
                    &&& resp matches Some(p) && p@ == status::ClientBoundView::PingResponse(ts)
                    &&& final(self).status_sent == old(self).status_sent
                    &&& final(self).done
                },
            },
    {
        match req {
            status::ServerBound::StatusRequest => {
                if self.status_sent {
                    self.done = true;
                    None
                } else {
                    self.status_sent = true;
                    Some(
                        status::ClientBound::StatusResponse {
                            json_response: String::from_str(status_json()),
                        },
                    )
                }
            },
            status::ServerBound::PingRequest(ts) => {
                self.done = true;
                Some(status::ClientBound::PingResponse(*ts))
            },
        }
    }
}

/// The login service loop: the first login start is answered with a
/// disconnect notice carrying the starting reason, and the loop ends.
pub struct LoginSession {
    pub done: bool,
}

impl LoginSession {
    pub fn new() -> (r: LoginSession)
        ensures
            !r.done,
    {
        LoginSession { done: false }
    }

    /// One step of the login loop: the disconnect owed to the login start.
    pub fn handle(&mut self, req: &login::ServerBound) -> (resp: login::ClientBound)
        requires
            !old(self).done,
        ensures
            resp@ == login::ClientBoundView::Disconnect(starting_reason_spec()),
            final(self).done,
    {
        match req {
            login::ServerBound::LoginStart(_) => {
                self.done = true;
                login::ClientBound::Disconnect(String::from_str(starting_reason()))
            },
        }
    }
}

} // verus!
