//! The producers of triggers: what the file watcher and the socket listener
//! decide on each thing they observe.
//!
//! Both poll: they look for something to arrive, and between arrivals they
//! read the run flag, so that a shutdown request is seen within one poll.

use vstd::prelude::*;
use vstd::string::*;
use crate::layout::{join_path, join_spec, source_entries_subpath, store_subpath};
use crate::text::same_text;

verus! {

/// What a producer does about what it observed.
#[derive(Clone, Copy, Debug, PartialEq, Eq, Hash, Structural)]
pub enum ProducerAction {
    /// Send one trigger to the scheduler.
    Forward,
    /// Pass over what arrived; observe again.
    Ignore,
    /// Nothing arrived; observe again.
    Wait,
    /// Shutdown was requested: release what the producer holds and end.
    Release,
    /// The source of events is lost: the process cannot go on.
    Fail,
}

/// What the file watcher observed.
#[derive(Clone, Copy, Debug, PartialEq, Eq, Hash, Structural)]
pub enum WatchEvent {
    /// Something changed below the watched directory.
    Changed,
    /// Nothing changed; `running` is the run flag as it reads now.
    Quiet { running: bool },
    /// The watcher's channel is lost.
    Disconnected,
}

/// What the file watcher does about an event.
pub open spec fn watch_action(event: WatchEvent) -> ProducerAction {
    match event {
        WatchEvent::Changed => ProducerAction::Forward,
        WatchEvent::Quiet { running } => if running {
            ProducerAction::Wait
        } else {
            ProducerAction::Release
        },
        WatchEvent::Disconnected => ProducerAction::Fail,
    }
}

/// Decides what the file watcher does: every change asks for a pass, and
/// the watch ends when the run flag is cleared.
pub fn watch_step(event: WatchEvent) -> (action: ProducerAction)
    ensures
        action == watch_action(event),
{
    match event {
        WatchEvent::Changed => ProducerAction::Forward,
        WatchEvent::Quiet { running: true } => ProducerAction::Wait,
        WatchEvent::Quiet { running: false } => ProducerAction::Release,
        WatchEvent::Disconnected => ProducerAction::Fail,
    }
}

/// The directory that the file watcher watches, with all below it: the
/// entries the store manages.
pub open spec fn watched_directory_spec(home: Seq<char>) -> Seq<char> {
    join_spec(join_spec(home, store_subpath()), source_entries_subpath())
}

/// The directory to watch for the user whose home directory is `home`.
pub fn watched_directory(home: &str) -> (directory: String)
    ensures
        directory@ == watched_directory_spec(home@),
{
    let store = join_path(home, ".var/app/com.valvesoftware.Steam");
    join_path(store.as_str(), "data/applications")
}

/// The one request that the socket listener answers.
pub open spec fn sync_request() -> Seq<char> {
    "RUN_SYNC"@
}

/// The name of the socket, in the user's runtime directory.
pub open spec fn socket_name() -> Seq<char> {
    "steam-shortcut-sync.sock"@
}

/// The request that asks for a pass, as a client sends it.
pub fn sync_request_text() -> (text: String)
    ensures
        text@ == sync_request(),
{
    String::from_str("RUN_SYNC")
}

/// Whether a payload read from the socket asks for a pass: whether it is
/// the request, whole and with nothing around it.
pub fn is_sync_request(payload: &str) -> (asks: bool)
    ensures
        asks == (payload@ == sync_request()),
{
    same_text(payload, "RUN_SYNC")
}

/// The path of the socket for the runtime directory `runtime_dir`.
pub fn socket_path(runtime_dir: &str) -> (path: String)
    ensures
        path@ == join_spec(runtime_dir@, socket_name()),
{
    join_path(runtime_dir, "steam-shortcut-sync.sock")
}

/// What the socket listener observed.
#[derive(Debug, PartialEq, Eq)]
pub enum SocketEvent {
    /// A connection came and went; this is all that could be read from it.
    Payload(String),
    /// No connection is waiting; `running` is the run flag as it reads now.
    Quiet { running: bool },
    /// A connection could not be accepted.
    Refused,
}

/// What the socket listener does about an event.
pub open spec fn socket_action(event: SocketEvent) -> ProducerAction {
    match event {
        SocketEvent::Payload(payload) => if payload@ == sync_request() {
            ProducerAction::Forward
        } else {
            ProducerAction::Ignore
        },
        SocketEvent::Quiet { running } => if running {
            ProducerAction::Wait
        } else {
            ProducerAction::Release
        },
        SocketEvent::Refused => ProducerAction::Ignore,
    }
}

/// Decides what the socket listener does: the request asks for a pass, any
/// other payload and any connection that fails is passed over, and the
/// listener ends when the run flag is cleared.
pub fn socket_step(event: &SocketEvent) -> (action: ProducerAction)
    ensures
        action == socket_action(*event),
{
    match event {
        SocketEvent::Payload(payload) => {
            if is_sync_request(payload.as_str()) {
                ProducerAction::Forward
            } else {
                ProducerAction::Ignore
            }
        },
        SocketEvent::Quiet { running } => {
            if *running {
                ProducerAction::Wait
            } else {
                ProducerAction::Release
            }
        },
        SocketEvent::Refused => ProducerAction::Ignore,
    }
}

} // verus!
