//! The reactor's I/O mailbox: a clock, an inbound queue and an outbound
//! sink.
//!
//! All fan-out happens through this buffer; a runtime pumps real transports
//! into and out of it, and tests replay it deterministically. Requeued
//! messages rejoin the inbound queue at the back, as the rebound channel of
//! a live deployment feeds the same inbound queue.

use vstd::prelude::*;

use crate::message::Message;

verus! {

/// Reactor I/O handler.
#[derive(Debug)]
pub struct Moderator {
    /// Current timestamp, in milliseconds since the epoch.
    pub now_ms: u64,
    /// Messages awaiting the reactor, front first; requeued messages return
    /// to the back.
    pub inbound: Vec<Message>,
    /// Messages dispatched from the reactor, oldest first.
    pub outbound: Vec<Message>,
}

impl Moderator {
    /// A mailbox with empty queues at the given instant.
    pub fn new(now_ms: u64) -> (r: Self)
        ensures
            r.now_ms == now_ms,
            r.inbound@.len() == 0,
            r.outbound@.len() == 0,
    {
        Self { now_ms, inbound: Vec::new(), outbound: Vec::new() }
    }

    /// Current timestamp.
    pub fn now(&self) -> (r: u64)
        ensures
            r == self.now_ms,
    {
        self.now_ms
    }

    /// Take the next message consumed by the reactor, if any.
    pub fn inbound(&mut self) -> (r: Option<Message>)
        ensures
            final(self).now_ms == old(self).now_ms,
            final(self).outbound == old(self).outbound,
            old(self).inbound@.len() == 0 ==> r is None && final(self).inbound == old(
                self,
            ).inbound,
            old(self).inbound@.len() > 0 ==> r is Some && r->Some_0 == old(self).inbound@[0]
                && final(self).inbound@ == old(self).inbound@.drop_first(),
    {
        if self.inbound.len() == 0 {
            None
        } else {
            let m = self.inbound.remove(0);
            proof {
                assert(final(self).inbound@ =~= old(self).inbound@.drop_first());
            }
            Some(m)
        }
    }

    /// Dispatch a message from the reactor.
    pub fn send(&mut self, message: Message)
        ensures
            final(self).now_ms == old(self).now_ms,
            final(self).inbound == old(self).inbound,
            final(self).outbound@ == old(self).outbound@.push(message),
    {
        self.outbound.push(message);
    }

    /// Requeue a message that cannot be consumed by the reactor yet; it
    /// rejoins the inbound queue at the back.
    pub fn requeue(&mut self, message: Message)
        ensures
            final(self).now_ms == old(self).now_ms,
            final(self).outbound == old(self).outbound,
            final(self).inbound@ == old(self).inbound@.push(message),
    {
        self.inbound.push(message);
    }
}

} // verus!
