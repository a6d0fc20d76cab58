//! Starting up: why one of the three parts of the daemon cannot be created,
//! and what each of them needs to find.
//!
//! Each part looks for what it needs in a fixed order and gives up at the
//! first thing that is missing, with a reason of its own.

use vstd::prelude::*;
use vstd::string::*;
use crate::layout::{join_spec, Layout};
use crate::listener::{socket_name, socket_path, watched_directory, watched_directory_spec};

verus! {

/// Why the synchronizer could not be created.
#[derive(Clone, Copy, Debug, PartialEq, Eq, Hash, Structural)]
pub enum SynchronizerCreationErrorKind {
    /// The home directory is not known.
    NoHomeDir,
    /// The launcher's entries directory is not there and cannot be made.
    NoApplicationsDir,
}

/// The synchronizer could not be created.
#[derive(Clone, Copy, Debug, PartialEq, Eq, Hash, Structural)]
pub struct SynchronizerCreationError {
    pub kind: SynchronizerCreationErrorKind,
}

/// Why the file watcher could not be created.
#[derive(Clone, Copy, Debug, PartialEq, Eq, Hash, Structural)]
pub enum FileChangeListenerCreationErrorKind {
    /// The home directory is not known.
    NoHomeDir,
    /// The store's entries directory is not there.
    NoSteamDir,
    /// The launcher's entries directory is not there.
    NoApplicationsDir,
    /// The directory cannot be watched.
    UnableToWatch,
}

/// The file watcher could not be created.
#[derive(Clone, Copy, Debug, PartialEq, Eq, Hash, Structural)]
pub struct FileChangeListenerCreationError {
    pub kind: FileChangeListenerCreationErrorKind,
}

/// Why the socket listener could not be created.
#[derive(Clone, Copy, Debug, PartialEq, Eq, Hash, Structural)]
pub enum SocketListenerCreationErrorKind {
    /// The runtime directory is not known.
    NoRuntimeDir,
    /// The socket cannot be bound.
    NoSocket,
}

/// The socket listener could not be created.
#[derive(Clone, Copy, Debug, PartialEq, Eq, Hash, Structural)]
pub struct SocketListenerCreationError {
    pub kind: SocketListenerCreationErrorKind,
}

/// The directories of the synchronizer, given the home directory as the
/// environment has it, if it has it.
pub fn synchronizer_layout(home: Option<String>) -> (layout: Result<
    Layout,
    SynchronizerCreationError,
>)
    ensures
        match home {
            Some(home) => layout matches Ok(found) && found.is_for_home(home@),
            None => layout == Err::<Layout, SynchronizerCreationError>(
                SynchronizerCreationError { kind: SynchronizerCreationErrorKind::NoHomeDir },
            ),
        },
{
    match home {
        Some(home) => Ok(Layout::for_home(home.as_str())),
        None => Err(SynchronizerCreationError { kind: SynchronizerCreationErrorKind::NoHomeDir }),
    }
}

/// The synchronizer needs the launcher's entries directory: `ready` says
/// whether it is there, found or made.
pub fn entries_directory_ready(ready: bool) -> (checked: Result<(), SynchronizerCreationError>)
    ensures
        checked == if ready {
            Ok::<(), SynchronizerCreationError>(())
        } else {
            Err(SynchronizerCreationError { kind: SynchronizerCreationErrorKind::NoApplicationsDir })
        },
{
    if ready {
        Ok(())
    } else {
        Err(SynchronizerCreationError { kind: SynchronizerCreationErrorKind::NoApplicationsDir })
    }
}

/// The directory that the file watcher is to watch, given the home
/// directory as the environment has it, if it has it.
pub fn watch_root(home: Option<String>) -> (root: Result<String, FileChangeListenerCreationError>)
    ensures
        match home {
            Some(home) => root matches Ok(directory) && directory@ == watched_directory_spec(
                home@,
            ),
            None => root == Err::<String, FileChangeListenerCreationError>(
                FileChangeListenerCreationError {
                    kind: FileChangeListenerCreationErrorKind::NoHomeDir,
                },
            ),
        },
{
    match home {
        Some(home) => Ok(watched_directory(home.as_str())),
        None => Err(
            FileChangeListenerCreationError {
                kind: FileChangeListenerCreationErrorKind::NoHomeDir,
            },
        ),
    }
}

/// The file watcher needs the store's entries directory to be there, and
/// then a watch on it: `is_directory` says whether it is there, and
/// `watching`, which counts only if it is, whether the watch was set up.
pub fn watch_ready(is_directory: bool, watching: bool) -> (checked: Result<
    (),
    FileChangeListenerCreationError,
>)
    ensures
        checked == if !is_directory {
            Err::<(), FileChangeListenerCreationError>(
                FileChangeListenerCreationError {
                    kind: FileChangeListenerCreationErrorKind::NoSteamDir,
                },
            )
        } else if !watching {
            Err(
                FileChangeListenerCreationError {
                    kind: FileChangeListenerCreationErrorKind::UnableToWatch,
                },
            )
        } else {
            Ok(())
        },
{
    if !is_directory {
        Err(
            FileChangeListenerCreationError {
                kind: FileChangeListenerCreationErrorKind::NoSteamDir,
            },
        )
    } else if !watching {
        Err(
            FileChangeListenerCreationError {
                kind: FileChangeListenerCreationErrorKind::UnableToWatch,
            },
        )
    } else {
        Ok(())
    }
}

/// The path of the socket, given the runtime directory as the environment
/// has it, if it has it.
pub fn socket_location(runtime_dir: Option<String>) -> (location: Result<
    String,
    SocketListenerCreationError,
>)
    ensures
        match runtime_dir {
            Some(dir) => location matches Ok(path) && path@ == join_spec(dir@, socket_name()),
            None => location == Err::<String, SocketListenerCreationError>(
                SocketListenerCreationError { kind: SocketListenerCreationErrorKind::NoRuntimeDir },
            ),
        },
{
    match runtime_dir {
        Some(dir) => Ok(socket_path(dir.as_str())),
        None => Err(
            SocketListenerCreationError { kind: SocketListenerCreationErrorKind::NoRuntimeDir },
        ),
    }
}

/// The socket listener needs its socket: `bound` says whether it could be
/// bound.
pub fn socket_ready(bound: bool) -> (checked: Result<(), SocketListenerCreationError>)
    ensures
        checked == if bound {
            Ok::<(), SocketListenerCreationError>(())
        } else {
            Err(SocketListenerCreationError { kind: SocketListenerCreationErrorKind::NoSocket })
        },
{
    if bound {
        Ok(())
    } else {
        Err(SocketListenerCreationError { kind: SocketListenerCreationErrorKind::NoSocket })
    }
}

} // verus!
