//! The client side: answering server-initiated requests, routing what the
//! connection delivers, and reading the reply to a call.
use vstd::prelude::*;
use crate::mcp::error::{code_number, Error, ErrorCode, ErrorObject};
use crate::mcp::elicit::PendingRequests;
use std::collections::HashMap;
use crate::mcp::jsonrpc::Id;
use crate::mcp::protocol::{ElicitationAction, ElicitationParams, ElicitationResult};
use crate::text::{concat3, str_eq};

verus! {

/// Handles server-initiated `elicitation/create` requests; implemented by users.
pub trait ElicitationDelegate {
    /// This delegate may answer `params` with `r`.
    spec fn answers(&self, params: ElicitationParams, r: ElicitationResult) -> bool;

    fn on_elicit(&self, params: &ElicitationParams) -> (r: ElicitationResult)
        ensures
            self.answers(*params, r);
}

/// The default delegate: declines every request.
pub struct DeclineAll;

impl ElicitationDelegate for DeclineAll {
    /// Every request is declined, with no content.
    open spec fn answers(&self, params: ElicitationParams, r: ElicitationResult) -> bool {
        r == (ElicitationResult { action: ElicitationAction::Decline, content: None })
    }

    fn on_elicit(&self, params: &ElicitationParams) -> (r: ElicitationResult) {
        ElicitationResult { action: ElicitationAction::Decline, content: None }
    }
}

/// The answer to a server-initiated request.
pub enum ServerRequestAnswer {
    /// The delegate's outcome.
    Reply(ElicitationResult),
    /// An error response.
    Refuse(ErrorObject),
}

/// Answers a server-initiated request: an elicitation goes to the delegate (its
/// parameters must parse), any other method is not supported.
pub fn answer_server_request<D: ElicitationDelegate>(
    delegate: &D,
    method: &str,
    params: Option<ElicitationParams>,
) -> (r: ServerRequestAnswer)
    ensures
        method@ == "elicitation/create"@ && params is Some ==> (r matches ServerRequestAnswer::Reply(x)
            && delegate.answers(params->0, x)),
        method@ == "elicitation/create"@ && params is None ==> (r matches ServerRequestAnswer::Refuse(o)
            && o.code == code_number(ErrorCode::InvalidParams) && o.message@ == "invalid elicitation params"@),
        method@ != "elicitation/create"@ ==> (r matches ServerRequestAnswer::Refuse(o) && o.code
            == code_number(ErrorCode::MethodNotFound) && o.message@ == "method '"@ + method@
            + "' not supported by client"@),
{
    if str_eq(method, "elicitation/create") {
        match params {
            Some(p) => ServerRequestAnswer::Reply(delegate.on_elicit(&p)),
            None => ServerRequestAnswer::Refuse(
                ErrorObject::new(ErrorCode::InvalidParams.as_i32(), String::from_str("invalid elicitation params")),
            ),
        }
    } else {
        ServerRequestAnswer::Refuse(
            ErrorObject::new(
                ErrorCode::MethodNotFound.as_i32(),
                concat3("method '", method, "' not supported by client"),
            ),
        )
    }
}

/// What the client's connection loop sees.
pub enum IoEvent {
    /// A queued outgoing message.
    Outgoing,
    /// The queue of outgoing messages is closed.
    OutboxClosed,
    /// Writing failed.
    SendFailed,
    /// A response with this id arrived.
    Response(Id),
    /// A notification arrived.
    Notification,
    /// A server-initiated request arrived.
    Request,
    /// The connection ended.
    Eof,
    /// Reading failed.
    RecvFailed,
}

/// What the loop does next.
#[derive(Debug, Clone, Copy, PartialEq, Eq)]
pub enum IoStep {
    /// Write the message.
    Send,
    /// Hand the response to the waiter of this call.
    Deliver(i64),
    /// Drop a response that cannot belong to any call.
    Ignore,
    /// Log a notification.
    Log,
    /// Answer the server's request (on its own task).
    Serve,
    /// End the loop and drop every waiter.
    Stop,
}

/// The loop's step for each event.
pub open spec fn step_for(ev: IoEvent) -> IoStep {
    match ev {
        IoEvent::Outgoing => IoStep::Send,
        IoEvent::Response(Id::Number(n)) => IoStep::Deliver(n),
        IoEvent::Response(_) => IoStep::Ignore,
        IoEvent::Notification => IoStep::Log,
        IoEvent::Request => IoStep::Serve,
        _ => IoStep::Stop,
    }
}

/// Decides the loop's next step.
pub fn next_step(ev: &IoEvent) -> (s: IoStep)
    ensures
        s == step_for(*ev),
{
    match ev {
        IoEvent::Outgoing => IoStep::Send,
        IoEvent::Response(id) => match id {
            Id::Number(n) => IoStep::Deliver(*n),
            _ => IoStep::Ignore,
        },
        IoEvent::Notification => IoStep::Log,
        IoEvent::Request => IoStep::Serve,
        IoEvent::OutboxClosed => IoStep::Stop,
        IoEvent::SendFailed => IoStep::Stop,
        IoEvent::Eof => IoStep::Stop,
        IoEvent::RecvFailed => IoStep::Stop,
    }
}

/// Reads the reply to a call: an error member becomes a protocol error with its code
/// and message, a reply without a result is an invalid request, otherwise the
/// result is to be parsed.
pub fn call_outcome(error: Option<ErrorObject>, has_result: bool) -> (r: Result<(), Error>)
    ensures
        match error {
            Some(o) => r == Err::<(), Error>(Error::Protocol { code: o.code, message: o.message }),
            None => if has_result {
                r is Ok
            } else {
                r matches Err(Error::Protocol { code, message }) && code == code_number(
                    ErrorCode::InvalidRequest,
                ) && message@ == "response missing result"@
            },
        },
{
    match error {
        Some(o) => Err(Error::Protocol { code: o.code, message: o.message }),
        None => if has_result {
            Ok(())
        } else {
            Err(Error::protocol(ErrorCode::InvalidRequest, String::from_str("response missing result")))
        },
    }
}

/// How starting a call with `waiter` takes the book from `before` to `after`
/// with answer `r`: a stopped connection refuses it with `TransportClosed`, used-up
/// ids refuse it too, otherwise it waits under the next id.
pub open spec fn begun<V>(before: CallBook<V>, after: CallBook<V>, waiter: V, r: Result<i64, Error>) -> bool {
    if !before.is_open() {
        &&& r == Err::<i64, Error>(Error::TransportClosed)
        &&& after.waiting() == before.waiting()
        &&& !after.is_open()
    } else if before.next() == i64::MAX {
        &&& r matches Err(Error::Other(s)) && s@ == "request ids exhausted"@
        &&& after.waiting() == before.waiting()
        &&& after.is_open()
    } else {
        &&& r == Ok::<i64, Error>(before.next())
        &&& after.waiting() == before.waiting().insert(before.next(), waiter)
        &&& after.is_open()
    }
}

/// The calls a client has in flight, and whether its connection still runs.
pub struct CallBook<V> {
    pending: PendingRequests<V>,
    open: bool,
}

impl<V> CallBook<V> {
    /// The calls waiting for a reply, by id.
    pub closed spec fn waiting(&self) -> Map<i64, V> {
        self.pending.waiter_map()
    }

    /// Whether the connection still runs.
    pub closed spec fn is_open(&self) -> bool {
        self.open
    }

    /// The id the next call gets.
    pub closed spec fn next(&self) -> i64 {
        self.pending.next()
    }

    /// No id waits twice, and every waiting id was handed out.
    pub closed spec fn wf(&self) -> bool {
        self.pending.wf()
    }

    /// An open connection with no calls; ids start at 1.
    pub fn new() -> (b: CallBook<V>)
        ensures
            b.wf(),
            b.is_open(),
            b.waiting() == Map::<i64, V>::empty(),
            b.next() == 1,
    {
        CallBook { pending: PendingRequests::new(1), open: true }
    }

    /// Starts a call whose reply `waiter` awaits (see `begun`).
    pub fn begin(&mut self, waiter: V) -> (r: Result<i64, Error>)
        requires
            old(self).wf(),
        ensures
            final(self).wf(),
            begun(*old(self), *final(self), waiter, r),
    {
        if !self.open {
            return Err(Error::TransportClosed);
        }
        if self.pending.next_id() == i64::MAX {
            return Err(Error::Other(String::from_str("request ids exhausted")));
        }
        Ok(self.pending.register(waiter))
    }

    /// Hands the reply with id `id` to its call, which stops waiting; a reply no
    /// call waits for is `None`.
    pub fn answer(&mut self, id: i64) -> (r: Option<V>)
        requires
            old(self).wf(),
        ensures
            final(self).wf(),
            final(self).is_open() == old(self).is_open(),
            final(self).next() == old(self).next(),
            final(self).waiting() == old(self).waiting().remove(id),
            r == if old(self).waiting().contains_key(id) {
                Some(old(self).waiting()[id])
            } else {
                None::<V>
            },
    {
        self.pending.take(id)
    }

    /// The connection stopped: no call starts any more, and every call still
    /// waiting is handed back, so that each ends with `TransportClosed`.
    pub fn stop(&mut self) -> (r: HashMap<i64, V>)
        requires
            old(self).wf(),
        ensures
            final(self).wf(),
            !final(self).is_open(),
            final(self).waiting() == Map::<i64, V>::empty(),
            r@ == old(self).waiting(),
    {
        self.open = false;
        self.pending.take_all()
    }
}

/// After the connection stops, a call never waits: every call that was waiting is
/// handed back, and every call started later is refused with `TransportClosed`.
pub proof fn law_stopped_connection_refuses<V>(
    stopped: CallBook<V>,
    after: CallBook<V>,
    waiter: V,
    r: Result<i64, Error>,
)
    requires
        !stopped.is_open(),
        stopped.waiting() == Map::<i64, V>::empty(),
        begun(stopped, after, waiter, r),
    ensures
        r == Err::<i64, Error>(Error::TransportClosed),
        after.waiting() == Map::<i64, V>::empty(),
        !after.is_open(),
{
}

} // verus!
