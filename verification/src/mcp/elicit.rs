//! Bookkeeping for requests awaiting a reply (a server's elicitations, a client's
//! calls) and how an elicitation ends.
use vstd::prelude::*;
use std::collections::HashMap;
use crate::mcp::jsonrpc::Id;
use crate::mcp::protocol::{ElicitationAction, ElicitationResult};

verus! {

/// Waiters keyed by request id, and the id the next request gets.
pub struct PendingRequests<V> {
    waiters: HashMap<i64, V>,
    next_id: i64,
}

impl<V> PendingRequests<V> {
    /// The waiters, by request id.
    pub closed spec fn waiter_map(&self) -> Map<i64, V> {
        self.waiters@
    }

    /// The id the next request gets.
    pub closed spec fn next(&self) -> i64 {
        self.next_id
    }

    /// Every waiting id was handed out before.
    pub open spec fn wf(&self) -> bool {
        forall|k: i64| #[trigger] self.waiter_map().contains_key(k) ==> k < self.next()
    }

    /// No waiters; ids start at `first_id`.
    pub fn new(first_id: i64) -> (p: PendingRequests<V>)
        ensures
            p.wf(),
            p.waiter_map() == Map::<i64, V>::empty(),
            p.next() == first_id,
    {
        PendingRequests { waiters: HashMap::new(), next_id: first_id }
    }

    /// The id the next request gets.
    pub fn next_id(&self) -> (r: i64)
        ensures
            r == self.next(),
    {
        self.next_id
    }

    /// Registers `waiter` under a fresh id, which is returned.
    pub fn register(&mut self, waiter: V) -> (id: i64)
        requires
            old(self).wf(),
            old(self).next() < i64::MAX,
        ensures
            final(self).wf(),
            id == old(self).next(),
            !old(self).waiter_map().contains_key(id),
            final(self).next() == old(self).next() + 1,
            final(self).waiter_map() == old(self).waiter_map().insert(id, waiter),
    {
        broadcast use vstd::std_specs::hash::group_hash_axioms;
        let id = self.next_id;
        self.next_id = id + 1;
        self.waiters.insert(id, waiter);
        assert forall|k: i64| #[trigger] self.waiters@.contains_key(k) implies k < self.next_id by {
            if k != id {
                assert(old(self).waiter_map().contains_key(k));
            }
        }
        id
    }

    /// Removes and returns the waiter for `id`, if any.
    pub fn take(&mut self, id: i64) -> (r: Option<V>)
        requires
            old(self).wf(),
        ensures
            final(self).wf(),
            final(self).next() == old(self).next(),
            final(self).waiter_map() == old(self).waiter_map().remove(id),
            r == if old(self).waiter_map().contains_key(id) {
                Some(old(self).waiter_map()[id])
            } else {
                None::<V>
            },
    {
        broadcast use vstd::std_specs::hash::group_hash_axioms;
        let r = self.waiters.remove(&id);
        assert forall|k: i64| #[trigger] self.waiters@.contains_key(k) implies k < self.next_id by {
            assert(old(self).waiter_map().contains_key(k));
        }
        r
    }

    /// Drops every waiter (the connection is gone).
    pub fn clear(&mut self)
        ensures
            final(self).wf(),
            final(self).waiter_map() == Map::<i64, V>::empty(),
            final(self).next() == old(self).next(),
    {
        self.waiters.clear();
    }

    /// Removes and returns every waiter.
    pub fn take_all(&mut self) -> (r: HashMap<i64, V>)
        ensures
            final(self).wf(),
            final(self).waiter_map() == Map::<i64, V>::empty(),
            final(self).next() == old(self).next(),
            r@ == old(self).waiter_map(),
    {
        let mut r: HashMap<i64, V> = HashMap::new();
        std::mem::swap(&mut r, &mut self.waiters);
        r
    }

    /// Number of waiters.
    pub fn len(&self) -> (n: usize)
        ensures
            n == self.waiter_map().len(),
    {
        broadcast use vstd::std_specs::hash::group_hash_axioms;
        self.waiters.len()
    }
}

/// The id a server-initiated request starts from, far above client ids.
pub const FIRST_SERVER_REQUEST_ID: i64 = 1_000_000;

/// Routes a reply to its waiter: only a numeric id can have one.
pub fn deliver<V>(pending: &mut PendingRequests<V>, id: &Id) -> (r: Option<V>)
    requires
        old(pending).wf(),
    ensures
        final(pending).wf(),
        final(pending).next() == old(pending).next(),
        match *id {
            Id::Number(n) => {
                &&& final(pending).waiter_map() == old(pending).waiter_map().remove(n)
                &&& r == if old(pending).waiter_map().contains_key(n) {
                    Some(old(pending).waiter_map()[n])
                } else {
                    None::<V>
                }
            },
            _ => r is None && final(pending).waiter_map() == old(pending).waiter_map(),
        },
{
    match id {
        Id::Number(n) => pending.take(*n),
        _ => None,
    }
}

/// What came back for an elicitation request.
pub enum ElicitationReply {
    /// The client answered with an error.
    Error,
    /// The answer had no result.
    NoResult,
    /// The result was not an elicitation result.
    Unreadable,
    /// The client's answer.
    Answer(ElicitationResult),
}

/// How an elicitation ends: declined when the client cannot be asked, cancelled
/// when the request could not be sent, the waiter went away or the answer was
/// unusable, otherwise the client's answer.
pub open spec fn elicitation_end(
    enabled: bool,
    sent: bool,
    reply: Option<ElicitationReply>,
) -> Option<ElicitationResult> {
    if !enabled {
        None
    } else if !sent {
        Some(ElicitationResult { action: ElicitationAction::Cancel, content: None })
    } else {
        match reply {
            Some(ElicitationReply::Answer(r)) => Some(r),
            _ => Some(ElicitationResult { action: ElicitationAction::Cancel, content: None }),
        }
    }
}

/// Whether a tool may ask the client for input: only where the transport carries
/// server-initiated requests and the client advertised the `elicitation`
/// capability. Elsewhere every request is declined at once.
pub fn elicitation_enabled(transport_carries_requests: bool, client_advertised: bool) -> (r: bool)
    ensures
        r == (transport_carries_requests && client_advertised),
{
    transport_carries_requests && client_advertised
}

/// A client that did not advertise the `elicitation` capability is never asked:
/// whatever the transport, the request is declined with no content.
pub proof fn law_unadvertised_client_declined(
    transport_carries_requests: bool,
    sent: bool,
    reply: Option<ElicitationReply>,
)
    ensures
        elicitation_end(transport_carries_requests && false, sent, reply) is None,
{
}

/// The outcome of an elicitation (see `elicitation_end`; a disabled handle declines).
pub fn elicitation_outcome(enabled: bool, sent: bool, reply: Option<ElicitationReply>) -> (r:
    ElicitationResult)
    ensures
        match elicitation_end(enabled, sent, reply) {
            Some(x) => r == x,
            None => r == (ElicitationResult { action: ElicitationAction::Decline, content: None }),
        },
{
    if !enabled {
        return ElicitationResult { action: ElicitationAction::Decline, content: None };
    }
    if !sent {
        return ElicitationResult { action: ElicitationAction::Cancel, content: None };
    }
    match reply {
        Some(ElicitationReply::Answer(r)) => r,
        _ => ElicitationResult { action: ElicitationAction::Cancel, content: None },
    }
}

} // verus!
