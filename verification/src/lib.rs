//! Keeps desktop launcher entries in step with the games a sandboxed Steam
//! client has installed.
//!
//! The library decides; it never touches the disk, a socket or a thread. A
//! host feeds it what it has read and performs the commands it hands back.

pub mod codec;
pub mod engine;
pub mod icon;
pub mod layout;
pub mod listener;
pub mod planner;
pub mod record;
pub mod scheduler;
pub mod startup;
pub mod text;

pub use startup::{
    FileChangeListenerCreationError,
    FileChangeListenerCreationErrorKind,
    SocketListenerCreationError,
    SocketListenerCreationErrorKind,
    SynchronizerCreationError,
    SynchronizerCreationErrorKind,
};
