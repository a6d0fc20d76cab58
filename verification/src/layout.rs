//! Where the files live: the directories of the store and of the launcher,
//! all found from the user's home directory.

use vstd::prelude::*;
use vstd::string::*;
use crate::text::to_chars;

verus! {

/// `rel` below `base`, as paths are joined on Unix: an absolute `rel` stands
/// alone, and a `/` goes between the two unless `base` is empty or brings
/// its own.
pub open spec fn join_spec(base: Seq<char>, rel: Seq<char>) -> Seq<char> {
    if rel.len() > 0 && rel[0] == '/' {
        rel
    } else if base.len() == 0 || base.last() == '/' {
        base + rel
    } else {
        base + seq!['/'] + rel
    }
}

/// The path of `rel` below `base`.
pub fn join_path(base: &str, rel: &str) -> (path: String)
    ensures
        path@ == join_spec(base@, rel@),
{
    let rel_chars = to_chars(rel);
    if rel_chars.len() > 0 && rel_chars[0] == '/' {
        return String::from_str(rel);
    }
    let base_chars = to_chars(base);
    let mut path = String::from_str(base);
    if base_chars.len() > 0 && base_chars[base_chars.len() - 1] != '/' {
        proof {
            reveal_strlit("/");
        }
        path.append("/");
        assert("/"@ =~= seq!['/']);
    }
    path.append(rel);
    path
}

/// The store's own directory, from the home directory.
pub open spec fn store_subpath() -> Seq<char> {
    ".var/app/com.valvesoftware.Steam"@
}

/// The entries the store manages, from its own directory.
pub open spec fn source_entries_subpath() -> Seq<char> {
    "data/applications"@
}

/// The icons the store keeps, by resolution, from its own directory.
pub open spec fn source_icons_subpath() -> Seq<char> {
    "data/icons/hicolor"@
}

/// The launcher's entries, from the home directory.
pub open spec fn target_entries_subpath() -> Seq<char> {
    ".local/share/applications"@
}

/// The user's icons, from the home directory.
pub open spec fn target_icons_subpath() -> Seq<char> {
    ".icons"@
}

/// The system's icons, looked into only when a shortcut is removed.
pub open spec fn fallback_icons_path() -> Seq<char> {
    "/usr/share/pixmaps"@
}

/// The directories that a pass reads and writes.
#[derive(Debug, PartialEq, Eq)]
pub struct Layout {
    /// The descriptors the store manages: the source of truth.
    pub source_entries: String,
    /// The icons the store keeps, in directories by resolution.
    pub source_icons: String,
    /// The launcher's descriptors, one file per shortcut.
    pub target_entries: String,
    /// The user's icons.
    pub target_icons: String,
    /// The system's icons.
    pub fallback_icons: String,
}

impl Layout {
    /// Whether these are the directories of the user whose home is `home`.
    pub open spec fn is_for_home(&self, home: Seq<char>) -> bool {
        let store = join_spec(home, store_subpath());
        &&& self.source_entries@ == join_spec(store, source_entries_subpath())
        &&& self.source_icons@ == join_spec(store, source_icons_subpath())
        &&& self.target_entries@ == join_spec(home, target_entries_subpath())
        &&& self.target_icons@ == join_spec(home, target_icons_subpath())
        &&& self.fallback_icons@ == fallback_icons_path()
    }

    /// The directories of the user whose home directory is `home`.
    pub fn for_home(home: &str) -> (layout: Layout)
        ensures
            layout.is_for_home(home@),
    {
        let store = join_path(home, ".var/app/com.valvesoftware.Steam");
        Layout {
            source_entries: join_path(store.as_str(), "data/applications"),
            source_icons: join_path(store.as_str(), "data/icons/hicolor"),
            target_entries: join_path(home, ".local/share/applications"),
            target_icons: join_path(home, ".icons"),
            fallback_icons: String::from_str("/usr/share/pixmaps"),
        }
    }
}

impl Clone for Layout {
    fn clone(&self) -> (copy: Self)
        ensures
            copy == *self,
    {
        Layout {
            source_entries: self.source_entries.clone(),
            source_icons: self.source_icons.clone(),
            target_entries: self.target_entries.clone(),
            target_icons: self.target_icons.clone(),
            fallback_icons: self.fallback_icons.clone(),
        }
    }
}

} // verus!
