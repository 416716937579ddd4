//! A single-threaded event-driven I/O reactor core.
//!
//! The crate models the heart of an event loop: a resource registry handing
//! out stable integer tokens, a deadline-ordered timer store, a
//! multi-producer queue feeding cross-thread work into the loop, a
//! sender/receiver channel built on it, and the dispatch step that turns raw
//! readiness reports into wakeups for exactly the interested waiters.
//! The OS-level multiplexer stays a black box: the loop computes which
//! registrations to forward and how long to block, and a thin driver outside
//! this crate performs the actual poll call.

mod channel;
mod loop_core;
mod loop_data;
mod queue;
mod registry;
mod slot;
mod timer;

pub use channel::Channel;
pub use channel::ChannelError;
pub use channel::RecvPoll;
pub use loop_core::Action;
pub use loop_core::CoreModel;
pub use loop_core::ApplyOutcome;
pub use loop_core::EventLoop;
pub use loop_core::LoopState;
pub use loop_core::MuxOp;
pub use loop_core::PollOutcome;
pub use loop_core::ReadyEvent;
pub use loop_core::Wake;
pub use loop_data::AccessError;
pub use loop_data::LoopData;
pub use queue::CrossQueue;
pub use queue::QueueError;
pub use queue::QueueItem;
pub use registry::Registry;
pub use registry::RegistryError;
pub use slot::SlotState;
pub use slot::Token;
pub use slot::pack;
pub use slot::unpack;
pub use slot::DESC_LIMIT;
pub use timer::TimeoutToken;
pub use timer::TimerEntry;
pub use timer::TimerWheel;

