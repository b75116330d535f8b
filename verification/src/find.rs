//! Finding directory entries by type and by name.

use crate::pattern::{any_matches, matches_any, Pattern};
use vstd::prelude::*;

verus! {

/// A kind of directory entry to look for.
#[derive(Debug, Clone, Copy, PartialEq, Eq, Structural)]
pub enum EntryType {
    Dir,
    File,
    Link,
}

/// What is known of one entry of a directory.
#[derive(Debug)]
pub struct Entry {
    /// The last component of the entry's path.
    pub file_name: String,
    /// Whether the entry is a directory.
    pub is_dir: bool,
    /// Whether the entry is a regular file.
    pub is_file: bool,
    /// Whether the entry is a symbolic link.
    pub is_symlink: bool,
}

/// The type that a letter on the command line asks for.
pub open spec fn entry_type_of(val: Seq<char>) -> Option<EntryType> {
    if val == seq!['d'] {
        Some(EntryType::Dir)
    } else if val == seq!['f'] {
        Some(EntryType::File)
    } else if val == seq!['l'] {
        Some(EntryType::Link)
    } else {
        None
    }
}

/// Reads a type given as `d`, `f` or `l`.
pub fn parse_entry_type(val: &str) -> (r: Option<EntryType>)
    ensures
        r == entry_type_of(val@),
{
    if val.unicode_len() != 1 {
        return None;
    }
    let c = val.get_char(0);
    assert(val@ =~= seq![c]);
    if c == 'd' {
        Some(EntryType::Dir)
    } else if c == 'f' {
        Some(EntryType::File)
    } else if c == 'l' {
        Some(EntryType::Link)
    } else {
        None
    }
}

/// Whether `entry` is of type `wanted`.
pub open spec fn is_of_type(entry: Entry, wanted: EntryType) -> bool {
    match wanted {
        EntryType::Dir => entry.is_dir,
        EntryType::File => entry.is_file,
        EntryType::Link => entry.is_symlink,
    }
}

/// Whether `entry` is of one of the types in `list`.
pub open spec fn is_of_any_type(entry: Entry, list: Seq<EntryType>) -> bool {
    exists|i: int| 0 <= i < list.len() && is_of_type(entry, #[trigger] list[i])
}

/// Whether `entry` is of one of the types asked for; every entry is where
/// no type is asked for.
pub open spec fn type_matches(types: Option<Vec<EntryType>>, entry: Entry) -> bool {
    match types {
        None => true,
        Some(list) => is_of_any_type(entry, list@),
    }
}

/// Whether `entry` is of one of the types asked for.
pub fn matches_type(config_entry_types: &Option<Vec<EntryType>>, entry: &Entry) -> (r: bool)
    ensures
        r == type_matches(*config_entry_types, *entry),
{
    match config_entry_types {
        None => true,
        Some(entry_types) => {
            let mut i: usize = 0;
            while i < entry_types.len()
                invariant
                    i <= entry_types.len(),
                    *config_entry_types == Some(*entry_types),
                    forall|j: int| 0 <= j < i ==> !is_of_type(*entry, #[trigger] entry_types@[j]),
                decreases entry_types.len() - i,
            {
                let hit = match entry_types[i] {
                    EntryType::Dir => entry.is_dir,
                    EntryType::File => entry.is_file,
                    EntryType::Link => entry.is_symlink,
                };
                if hit {
                    return true;
                }
                i += 1;
            }
            false
        },
    }
}

/// Whether the name of `entry` matches one of the expressions asked for;
/// every entry does where none is asked for.
pub open spec fn name_matches(names: Option<Vec<Pattern>>, entry: Entry) -> bool {
    match names {
        None => true,
        Some(regexes) => any_matches(regexes@, entry.file_name@),
    }
}

/// Whether the name of `entry` matches one of the expressions asked for.
pub fn matches_name(config_names: &Option<Vec<Pattern>>, entry: &Entry) -> (r: bool)
    ensures
        r == name_matches(*config_names, *entry),
{
    match config_names {
        None => true,
        Some(regexes) => matches_any(regexes, entry.file_name.as_str()),
    }
}

/// Whether `entry` is to be listed: its type and its name both match.
pub fn selects(
    config_entry_types: &Option<Vec<EntryType>>,
    config_names: &Option<Vec<Pattern>>,
    entry: &Entry,
) -> (r: bool)
    ensures
        r == (type_matches(*config_entry_types, *entry) && name_matches(*config_names, *entry)),
{
    matches_type(config_entry_types, entry) && matches_name(config_names, entry)
}

} // verus!
