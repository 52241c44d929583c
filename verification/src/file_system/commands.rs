//! Which directory entries the file views show, and how they name a file's type.
use vstd::prelude::*;

verus! {

/// What a file view does with one directory entry.
#[derive(Clone, Copy, Debug, PartialEq, Eq, Structural)]
pub enum EntryAction {
    /// A hidden entry (its name starts with `'.'`): left out.
    Skip,
    /// A directory: shown, with the entries below it.
    Descend,
    /// A file: shown.
    Keep,
}

/// The action for an entry: hidden entries are left out, directories are entered, files are
/// kept.
pub open spec fn entry_action_of(name: Seq<char>, is_dir: bool) -> EntryAction {
    if name.len() > 0 && name[0] == '.' {
        EntryAction::Skip
    } else if is_dir {
        EntryAction::Descend
    } else {
        EntryAction::Keep
    }
}

/// Decides what the file views do with an entry named `name`.
pub fn entry_action(name: &str, is_dir: bool) -> (a: EntryAction)
    ensures
        a == entry_action_of(name@, is_dir),
{
    let v = crate::text::chars_of(name);
    if v.len() > 0 && v[0] == '.' {
        EntryAction::Skip
    } else if is_dir {
        EntryAction::Descend
    } else {
        EntryAction::Keep
    }
}

/// The type shown for an entry: `"dir"` for a directory, otherwise its extension, or
/// `"file"` when it has none.
pub fn file_type_label(is_dir: bool, extension: Option<&str>) -> (t: String)
    ensures
        t@ == if is_dir {
            "dir"@
        } else {
            match extension {
                Some(e) => e@,
                None => "file"@,
            }
        },
{
    if is_dir {
        String::from_str("dir")
    } else {
        match extension {
            Some(e) => String::from_str(e),
            None => String::from_str("file"),
        }
    }
}

} // verus!
