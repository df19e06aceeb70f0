//! A centralized mutual-exclusion coordinator and its wire protocol.
//!
//! A single scheduler arbitrates access to one shared critical resource among
//! any number of remote client processes.  Clients talk to the scheduler over
//! fixed ten-byte frames; the scheduler keeps a pending-request queue and a
//! busy flag, grants the resource to one requester at a time, and frees it
//! again when the holder releases it.
//!
//! The crate holds the protocol codec, the scheduler's shared state, the
//! client's session state machine, and a simulation that drives any number of
//! clients against one scheduler to exercise the mutual-exclusion argument.
//! Networking, logging and clocks live in the surrounding application, which
//! feeds plain values into these verified cores.

pub mod messages;
pub mod primality;
pub mod process;
pub mod scheduler;
pub mod semaphore;
pub mod sim;
pub mod spinlock;
