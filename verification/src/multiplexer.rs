//! The outbound multiplexer.
//!
//! One ordered, unbounded queue gathers everything bound for the client —
//! framed process output and pong control replies — so that the single
//! outbound pump sends messages in exactly the order they were enqueued,
//! with no interleaving corruption and no priority between sources.

use vstd::prelude::*;
use std::collections::VecDeque;

verus! {

/// One message waiting on the outbound path.
pub enum OutboundMsg {
    /// A binary protocol frame (tag byte and payload).
    Binary(Vec<u8>),
    /// A pong control reply carrying the payload of the ping it answers.
    Pong(Vec<u8>),
}

/// Mathematical model of an [`OutboundMsg`].
pub enum OutboundMsgModel {
    Binary(Seq<u8>),
    Pong(Seq<u8>),
}

impl View for OutboundMsg {
    type V = OutboundMsgModel;

    open spec fn view(&self) -> OutboundMsgModel {
        match self {
            OutboundMsg::Binary(b) => OutboundMsgModel::Binary(b@),
            OutboundMsg::Pong(b) => OutboundMsgModel::Pong(b@),
        }
    }
}

/// The ordered outbound queue. Its model is the sequence of queued
/// messages, oldest first; enqueuing appends, dequeuing takes the head,
/// so delivery order equals enqueue order.
pub struct OutboundQueue {
    items: VecDeque<OutboundMsg>,
}

impl View for OutboundQueue {
    type V = Seq<OutboundMsgModel>;

    closed spec fn view(&self) -> Seq<OutboundMsgModel> {
        self.items@.map_values(|m: OutboundMsg| m@)
    }
}

impl OutboundQueue {
    /// An empty queue.
    pub fn new() -> (q: Self)
        ensures
            q@ == Seq::<OutboundMsgModel>::empty(),
    {
        let q = OutboundQueue { items: VecDeque::new() };
        proof {
            assert(q@ =~= Seq::<OutboundMsgModel>::empty());
        }
        q
    }

    /// Append one message at the tail.
    pub fn enqueue(&mut self, m: OutboundMsg)
        ensures
            final(self)@ == old(self)@.push(m@),
    {
        let ghost mv = m@;
        self.items.push_back(m);
        proof {
            assert(self@ =~= old(self)@.push(mv));
        }
    }

    /// Take the oldest message, if any: first enqueued, first sent.
    pub fn dequeue(&mut self) -> (r: Option<OutboundMsg>)
        ensures
            match r {
                Some(m) => {
                    &&& old(self)@.len() > 0
                    &&& m@ == old(self)@[0]
                    &&& final(self)@ == old(self)@.drop_first()
                },
                None => {
                    &&& old(self)@.len() == 0
                    &&& final(self)@ == old(self)@
                },
            },
    {
        let r = self.items.pop_front();
        proof {
            if old(self)@.len() > 0 {
                assert(self@ =~= old(self)@.drop_first());
            } else {
                assert(self@ =~= old(self)@);
            }
        }
        r
    }

    /// How many messages wait in the queue.
    pub fn len(&self) -> (n: usize)
        ensures
            n == self@.len(),
    {
        self.items.len()
    }

    /// Whether nothing waits in the queue.
    pub fn is_empty(&self) -> (b: bool)
        ensures
            b == (self@.len() == 0),
    {
        self.items.len() == 0
    }
}

} // verus!
