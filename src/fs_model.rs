//! Filesystem steps, and a model of what each does to the disk.
//!
//! The installer hands its callers lists of steps; a caller performs them in
//! order with the filesystem calls of the same name and stops at the first
//! that fails. The model below gives each step's effect, so that what the
//! installer promises can be proved. The model does not ask that a new
//! path's enclosing directory exist: a step that succeeds on disk succeeds
//! in the model, while the disk may still refuse a step that the model
//! allows.
use vstd::prelude::*;
use crate::paths::is_under;

verus! {

/// One filesystem step.
#[derive(Clone, Debug)]
pub enum FsOp {
    /// Move the file `from` to `to`.
    Rename { from: String, to: String },
    /// Create the directory `path`, which must not exist yet.
    CreateDir { path: String },
    /// Make sure that the directory `path` exists.
    CreateDirAll { path: String },
    /// Remove the directory `path` and all that is inside it.
    RemoveDirAll { path: String },
    /// Write `contents` to the file `path`, replacing what it held.
    WriteFile { path: String, contents: String },
}

pub ghost enum FsOpView {
    Rename { from: Seq<char>, to: Seq<char> },
    CreateDir { path: Seq<char> },
    CreateDirAll { path: Seq<char> },
    RemoveDirAll { path: Seq<char> },
    WriteFile { path: Seq<char>, contents: Seq<char> },
}

impl FsOp {
    pub open spec fn view_op(&self) -> FsOpView {
        match self {
            FsOp::Rename { from, to } => FsOpView::Rename { from: from@, to: to@ },
            FsOp::CreateDir { path } => FsOpView::CreateDir { path: path@ },
            FsOp::CreateDirAll { path } => FsOpView::CreateDirAll { path: path@ },
            FsOp::RemoveDirAll { path } => FsOpView::RemoveDirAll { path: path@ },
            FsOp::WriteFile { path, contents } => FsOpView::WriteFile { path: path@, contents: contents@ },
        }
    }
}

pub open spec fn ops_view(v: Seq<FsOp>) -> Seq<FsOpView> {
    v.map_values(|o: FsOp| o.view_op())
}

/// What stands at a path: a file with its text, or a directory.
pub ghost enum Node {
    File(Seq<char>),
    Dir,
}

pub open spec fn is_file(fs: Map<Seq<char>, Node>, p: Seq<char>) -> bool {
    fs.contains_key(p) && fs[p] is File
}

pub open spec fn is_dir(fs: Map<Seq<char>, Node>, p: Seq<char>) -> bool {
    fs.contains_key(p) && fs[p] is Dir
}

/// A disk where every path's enclosing directories exist, as directories.
pub open spec fn is_tree(fs: Map<Seq<char>, Node>) -> bool {
    forall|k: Seq<char>, d: Seq<char>| #[trigger] fs.contains_key(k) && #[trigger] is_under(k, d) ==> is_dir(fs, d)
}

/// The disk without the directory `p` and everything inside it.
pub open spec fn remove_tree(fs: Map<Seq<char>, Node>, p: Seq<char>) -> Map<Seq<char>, Node> {
    Map::new(|k: Seq<char>| fs.contains_key(k) && k != p && !is_under(k, p), |k: Seq<char>| fs[k])
}

/// The disk after one step, or `None` where the step fails.
pub open spec fn apply_op(fs: Map<Seq<char>, Node>, op: FsOpView) -> Option<Map<Seq<char>, Node>> {
    match op {
        FsOpView::Rename { from, to } => if is_file(fs, from) && !is_dir(fs, to) {
            Some(fs.remove(from).insert(to, fs[from]))
        } else {
            None
        },
        FsOpView::CreateDir { path } => if fs.contains_key(path) {
            None
        } else {
            Some(fs.insert(path, Node::Dir))
        },
        FsOpView::CreateDirAll { path } => if is_file(fs, path) {
            None
        } else {
            Some(fs.insert(path, Node::Dir))
        },
        FsOpView::RemoveDirAll { path } => if is_dir(fs, path) {
            Some(remove_tree(fs, path))
        } else {
            None
        },
        FsOpView::WriteFile { path, contents } => if is_dir(fs, path) {
            None
        } else {
            Some(fs.insert(path, Node::File(contents)))
        },
    }
}

/// The disk after the steps, in order, or `None` where one of them fails.
pub open spec fn apply_ops(fs: Map<Seq<char>, Node>, ops: Seq<FsOpView>) -> Option<Map<Seq<char>, Node>>
    decreases ops.len(),
{
    if ops.len() == 0 {
        Some(fs)
    } else {
        match apply_ops(fs, ops.drop_last()) {
            None => None,
            Some(f) => apply_op(f, ops.last()),
        }
    }
}

} // verus!
