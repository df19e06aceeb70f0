//! The scheduler's shared state and its per-message decisions.
//!
//! The scheduler owns the pair of a pending-request queue and a busy flag;
//! the pair is meant to live behind one mutual-exclusion guard, shared by
//! every connection handler.  The functions here are the decisions a handler
//! takes for each decoded message; the surrounding application supplies the
//! listening socket, spawns one handler per connection, and performs the
//! waiting that `try_acquire` renders as a single non-blocking attempt.

use vstd::prelude::*;

use crate::messages::Message;
use crate::messages::MessageType;

verus! {

/// What a connection handler must do after one message was processed.
#[derive(Clone, Copy, PartialEq, Eq, Structural, Debug)]
pub enum HandlerAction {
    /// A request was queued: wait until the resource is acquired, then send
    /// a grant frame back on the same connection.
    GrantWhenFree,
    /// A release was processed: keep reading from the connection.
    Continue,
    /// A protocol violation: terminate this connection's handling loop.
    Close,
}

/// The state every connection handler shares: the ordered queue of processes
/// waiting for (or holding) the resource, and whether the resource is held.
pub struct SchedulerState {
    pub queue: Vec<u8>,
    pub held: bool,
}

impl SchedulerState {
    /// A fresh scheduler: empty queue, resource free.
    pub fn new() -> (s: SchedulerState)
        ensures
            s.queue@ == Seq::<u8>::empty(),
            !s.held,
    {
        SchedulerState { queue: Vec::new(), held: false }
    }

    /// Appends a requesting sender to the pending queue.
    pub fn enqueue_request(&mut self, sender: u8)
        ensures
            final(self).queue@ == old(self).queue@.push(sender),
            final(self).held == old(self).held,
    {
        self.queue.push(sender);
    }

    /// One non-blocking attempt to take the resource: succeeds exactly when
    /// the resource is free, and leaves it held either way (the failed
    /// attempt changes nothing, since it was held already).  A handler that
    /// must wait simply repeats the attempt until it succeeds.
    pub fn try_acquire(&mut self) -> (granted: bool)
        ensures
            granted == !old(self).held,
            final(self).held,
            final(self).queue@ == old(self).queue@,
    {
        let was_held = self.held;
        self.held = true;
        !was_held
    }

    /// Processes a release: frees the resource and removes the head of the
    /// queue.  The head is removed regardless of which sender released — a
    /// documented simplification that assumes releases arrive in grant
    /// order.
    pub fn release(&mut self)
        requires
            old(self).queue@.len() > 0,
        ensures
            !final(self).held,
            final(self).queue@ == old(self).queue@.drop_first(),
    {
        self.held = false;
        self.queue.remove(0);
        proof {
            assert(self.queue@ =~= old(self).queue@.drop_first());
        }
    }

    /// The reply the scheduler sends when it grants the resource: a grant
    /// frame carrying the scheduler's own sender id 0.
    pub fn grant_message() -> (m: Message)
        ensures
            m == (Message { message_type: MessageType::Grant, sender: 0u8 }),
    {
        Message::new(0, 2)
    }

    /// The decision a handler takes for one decoded message.
    ///
    /// A request enqueues its sender and tells the handler to wait for the
    /// resource and reply with a grant; a release frees the resource and
    /// pops the queue head; a grant or unknown message is a protocol
    /// violation that closes the connection and leaves the state untouched.
    pub fn process_message(&mut self, message: &Message) -> (action: HandlerAction)
        requires
            message.message_type is Release ==> old(self).queue@.len() > 0,
        ensures
            (match message.message_type {
                MessageType::Request => {
                    &&& final(self).queue@ == old(self).queue@.push(message.sender)
                    &&& final(self).held == old(self).held
                    &&& action == HandlerAction::GrantWhenFree
                },
                MessageType::Release => {
                    &&& final(self).queue@ == old(self).queue@.drop_first()
                    &&& !final(self).held
                    &&& action == HandlerAction::Continue
                },
                _ => {
                    &&& final(self).queue@ == old(self).queue@
                    &&& final(self).held == old(self).held
                    &&& action == HandlerAction::Close
                },
            }),
    {
        match message.message_type {
            MessageType::Request => {
                self.enqueue_request(message.sender);
                HandlerAction::GrantWhenFree
            },
            MessageType::Release => {
                self.release();
                HandlerAction::Continue
            },
            MessageType::Grant => HandlerAction::Close,
            MessageType::Unknown => HandlerAction::Close,
        }
    }
}

} // verus!
