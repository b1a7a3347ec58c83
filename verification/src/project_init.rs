//! Scanning the files of a project.

use crate::models::FileNode;
use crate::text::{same_text, to_chars};
use vstd::prelude::*;

verus! {

/// Whether an entry is left out of the tree: hidden entries, and the
/// directories that hold what was installed or built.
pub open spec fn is_ignored(name: Seq<char>) -> bool {
    (name.len() > 0 && name[0] == '.') || name == "node_modules"@ || name == "target"@ || name
        == "dist"@
}

/// `is_ignored`, computed.
pub fn ignores_entry(name: &str) -> (yes: bool)
    ensures
        yes == is_ignored(name@),
{
    let chars = to_chars(name);
    (chars.len() > 0 && chars[0] == '.') || same_text(name, "node_modules") || same_text(
        name,
        "target",
    ) || same_text(name, "dist")
}

/// The node of a file or directory: a directory lists what it holds and has
/// no size, a file has a size and holds nothing; an entry without a
/// readable name is called `project`.
pub fn file_node(
    name: Option<&str>,
    path: &str,
    is_dir: bool,
    children: Vec<FileNode>,
    size: u64,
) -> (node: FileNode)
    ensures
        node.name@ == match name {
            Some(n) => n@,
            None => "project"@,
        },
        node.path@ == path@,
        node.is_dir == is_dir,
        node.children == if is_dir {
            Some(children)
        } else {
            None::<Vec<FileNode>>
        },
        node.size == if is_dir {
            0
        } else {
            size
        },
{
    FileNode {
        name: match name {
            Some(n) => String::from_str(n),
            None => String::from_str("project"),
        },
        path: String::from_str(path),
        is_dir,
        children: if is_dir {
            Some(children)
        } else {
            None
        },
        size: if is_dir {
            0
        } else {
            size
        },
    }
}

} // verus!
