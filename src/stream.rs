//! Reconnection of the chain's event stream: bounded backoff, and resumption
//! after the last observed block without registering again.

use vstd::prelude::*;
use crate::backoff::{backoff_delay, backoff_secs};

verus! {

/// What happened on the event stream.
#[derive(Debug, Clone, Copy, PartialEq, Eq, Structural)]
pub enum StreamEvent {
    /// The stream (re)connected.
    Connected,
    /// The stream dropped.
    Disconnected,
    /// An event of block `block` arrived.
    Observed { block: u64 },
}

/// What the stream's driver does next.
#[derive(Debug, Clone, Copy, PartialEq, Eq, Structural)]
pub enum StreamAction {
    /// Nothing to do.
    Continue,
    /// Connect again after `seconds`.
    ReconnectAfter { seconds: u64 },
    /// Subscribe to events from block `block` on.
    SubscribeFrom { block: u64 },
}

/// The stream's state: whether it is up, the reconnects tried since it was last
/// up, the block to start from, and the newest block observed.
#[derive(Debug, Clone, Copy, PartialEq, Eq, Structural)]
pub struct StreamCursor {
    pub connected: bool,
    pub attempts: u32,
    pub start_block: u64,
    pub last_observed: Option<u64>,
}

/// The block a new subscription starts from: the one after the newest observed,
/// else the configured start.
pub open spec fn resume_block(c: StreamCursor) -> u64 {
    match c.last_observed {
        Some(b) => if b < u64::MAX {
            (b + 1) as u64
        } else {
            b
        },
        None => c.start_block,
    }
}

/// One transition of the stream cursor.
pub open spec fn stream_step(c: StreamCursor, e: StreamEvent) -> (StreamCursor, StreamAction) {
    match e {
        StreamEvent::Connected => (
            StreamCursor { connected: true, attempts: 0, ..c },
            StreamAction::SubscribeFrom { block: resume_block(c) },
        ),
        StreamEvent::Disconnected => (
            StreamCursor {
                connected: false,
                attempts: if c.attempts < u32::MAX {
                    (c.attempts + 1) as u32
                } else {
                    c.attempts
                },
                ..c
            },
            StreamAction::ReconnectAfter { seconds: backoff_secs(c.attempts as nat) as u64 },
        ),
        StreamEvent::Observed { block } => (
            StreamCursor {
                last_observed: match c.last_observed {
                    Some(b) => Some(if b >= block { b } else { block }),
                    None => Some(block),
                },
                ..c
            },
            StreamAction::Continue,
        ),
    }
}

impl StreamCursor {
    /// A cursor for a stream not yet connected, starting at `start_block`.
    pub fn new(start_block: u64) -> (r: StreamCursor)
        ensures
            !r.connected,
            r.attempts == 0,
            r.start_block == start_block,
            r.last_observed is None,
    {
        StreamCursor { connected: false, attempts: 0, start_block, last_observed: None }
    }

    /// Takes one stream event and returns what to do next.
    pub fn handle(&mut self, e: StreamEvent) -> (r: StreamAction)
        ensures
            (*final(self), r) == stream_step(*old(self), e),
    {
        match e {
            StreamEvent::Connected => {
                let block = match self.last_observed {
                    Some(b) => if b < u64::MAX {
                        b + 1
                    } else {
                        b
                    },
                    None => self.start_block,
                };
                self.connected = true;
                self.attempts = 0;
                StreamAction::SubscribeFrom { block }
            },
            StreamEvent::Disconnected => {
                let seconds = backoff_delay(self.attempts);
                self.connected = false;
                if self.attempts < u32::MAX {
                    self.attempts = self.attempts + 1;
                }
                StreamAction::ReconnectAfter { seconds }
            },
            StreamEvent::Observed { block } => {
                self.last_observed = match self.last_observed {
                    Some(b) => Some(
                        if b >= block {
                            b
                        } else {
                            block
                        },
                    ),
                    None => Some(block),
                };
                StreamAction::Continue
            },
        }
    }
}

/// The newest observed block never goes back, so a resubscription never starts
/// before a block already seen; and every reconnect waits a bounded delay.
pub proof fn lemma_stream_step(c: StreamCursor, e: StreamEvent)
    ensures
        c.last_observed matches Some(b) ==> stream_step(c, e).0.last_observed matches Some(b2)
            && b <= b2,
        e matches StreamEvent::Observed { block } ==> stream_step(c, e).0.last_observed matches Some(
            b2,
        ) && block <= b2,
        stream_step(c, e).1 matches StreamAction::ReconnectAfter { seconds } ==> 1 <= seconds
            <= 60,
        stream_step(c, e).1 matches StreamAction::SubscribeFrom { block } ==> (
        c.last_observed matches Some(b) ==> block > b || b == u64::MAX),
{
    crate::backoff::lemma_backoff_bounded(c.attempts as nat);
}

} // verus!
