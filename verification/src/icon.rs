//! The icon resolver: picks the icon of a game among the files of an icon
//! tree.
//!
//! The store keeps one icon per resolution, each in a directory named after
//! its size. Where a tree holds several icons of one game the resolver takes
//! the one whose path comes last in the dictionary order, which stands for
//! the highest resolution as long as the larger sizes sort later. That is a
//! rule of thumb, not a measurement of the image.

use vstd::prelude::*;
use vstd::string::*;
use crate::text::{chars_precede, precedes, to_chars};

verus! {

/// One entry of a directory tree: the name of the file or directory, and the
/// path that leads to it.
#[derive(Debug, PartialEq, Eq, Hash)]
pub struct TreeEntry {
    pub file_name: String,
    pub path: String,
}

/// What a [`TreeEntry`] stands for in contracts.
pub struct TreeEntryView {
    pub file_name: Seq<char>,
    pub path: Seq<char>,
}

impl View for TreeEntry {
    type V = TreeEntryView;

    open spec fn view(&self) -> TreeEntryView {
        TreeEntryView { file_name: self.file_name@, path: self.path@ }
    }
}

/// The name of the icon file of the game with launch id `id`.
pub open spec fn icon_file_name_spec(id: Seq<char>) -> Seq<char> {
    "steam_icon_"@ + id + ".png"@
}

/// The name of the icon file of the game with launch id `id`.
pub fn icon_file_name(id: &str) -> (file_name: String)
    ensures
        file_name@ == icon_file_name_spec(id@),
{
    let mut file_name = String::from_str("steam_icon_");
    file_name.append(id);
    file_name.append(".png");
    file_name
}

/// Entry `i` of `entries` is an icon of the game `id`.
pub open spec fn is_icon(entries: Seq<TreeEntry>, i: int, id: Seq<char>) -> bool {
    0 <= i < entries.len() && entries[i]@.file_name == icon_file_name_spec(id)
}

/// `path` is the path of an icon of the game `id` among `entries`, and no
/// icon of that game has a path that comes later.
pub open spec fn is_last_icon(entries: Seq<TreeEntry>, id: Seq<char>, path: Seq<char>) -> bool {
    &&& exists|i: int| is_icon(entries, i, id) && entries[i]@.path == path
    &&& forall|j: int| is_icon(entries, j, id) ==> precedes(entries[j]@.path, path)
}

/// Finds the icon of the game `id` among the entries of an icon tree.
///
/// Without an icon of that game the answer is `None`. Otherwise it is the
/// path of the one icon, or among several the path that comes last in the
/// dictionary order.
pub fn resolve(id: &str, entries: &Vec<TreeEntry>) -> (found: Option<String>)
    ensures
        match found {
            Some(path) => is_last_icon(entries@, id@, path@),
            None => forall|j: int| !is_icon(entries@, j, id@),
        },
{
    let wanted = icon_file_name(id);
    let mut best: Option<usize> = None;
    let mut best_chars: Vec<char> = Vec::new();
    let mut i: usize = 0;
    while i < entries.len()
        invariant
            i <= entries.len(),
            wanted@ == icon_file_name_spec(id@),
            match best {
                Some(b) => {
                    &&& b < i
                    &&& is_icon(entries@, b as int, id@)
                    &&& best_chars@ == entries@[b as int]@.path
                    &&& forall|j: int|
                        0 <= j < i && is_icon(entries@, j, id@) ==> precedes(
                            entries@[j]@.path,
                            best_chars@,
                        )
                },
                None => forall|j: int| 0 <= j < i ==> !is_icon(entries@, j, id@),
            },
        decreases entries.len() - i,
    {
        if entries[i].file_name == wanted {
            let candidate = to_chars(entries[i].path.as_str());
            let later = match best {
                Some(_) => chars_precede(&best_chars, &candidate),
                None => true,
            };
            if later {
                proof {
                    crate::text::lemma_precedes_reflexive(candidate@);
                    assert forall|j: int| 0 <= j < i && is_icon(entries@, j, id@) implies precedes(
                        entries@[j]@.path,
                        candidate@,
                    ) by {
                        crate::text::lemma_precedes_transitive(
                            entries@[j]@.path,
                            best_chars@,
                            candidate@,
                        );
                    }
                }
                best = Some(i);
                best_chars = candidate;
            } else {
                proof {
                    crate::text::lemma_precedes_total(best_chars@, candidate@);
                }
            }
        }
        i += 1;
    }
    match best {
        Some(b) => Some(entries[b].path.clone()),
        None => None,
    }
}

/// The answer of the resolver is the only one there is: two paths that both
/// come last among the icons of a game are one path.
pub proof fn lemma_last_icon_unique(
    entries: Seq<TreeEntry>,
    id: Seq<char>,
    first: Seq<char>,
    second: Seq<char>,
)
    requires
        is_last_icon(entries, id, first),
        is_last_icon(entries, id, second),
    ensures
        first == second,
{
    let i = choose|i: int| is_icon(entries, i, id) && entries[i]@.path == first;
    let j = choose|j: int| is_icon(entries, j, id) && entries[j]@.path == second;
    assert(precedes(entries[i]@.path, second));
    assert(precedes(entries[j]@.path, first));
    crate::text::lemma_precedes_antisymmetric(first, second);
}

} // verus!
