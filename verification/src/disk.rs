//! The file-system vocabulary of the protocols.
//!
//! The library never touches the file system. An operation names the next
//! `FsAction`; the caller performs it and reports an `FsEvent`. A small
//! mathematical model of a disk says what the actions mean; the round-trip
//! and rollback properties of the protocols are stated against it.

use vstd::prelude::*;

verus! {

/// One request to the file system.
#[derive(Debug)]
pub enum FsAction {
    /// Report whether anything exists at `path`, and whether it is a
    /// directory.
    Probe { path: String },
    /// Copy `from` to `to`: the whole directory tree if `tree`, a single
    /// file otherwise.
    Copy { from: String, to: String, tree: bool },
    /// Remove what lies at `path`: recursively if `tree`, a single file
    /// otherwise.
    Remove { path: String, tree: bool },
}

/// The mathematical content of an `FsAction`.
pub enum ActionView {
    Probe { path: Seq<char> },
    Copy { from: Seq<char>, to: Seq<char>, tree: bool },
    Remove { path: Seq<char>, tree: bool },
}

impl View for FsAction {
    type V = ActionView;

    open spec fn view(&self) -> ActionView {
        match self {
            FsAction::Probe { path } => ActionView::Probe { path: path@ },
            FsAction::Copy { from, to, tree } => ActionView::Copy {
                from: from@,
                to: to@,
                tree: *tree,
            },
            FsAction::Remove { path, tree } => ActionView::Remove { path: path@, tree: *tree },
        }
    }
}

/// The view of an action that may be absent.
pub open spec fn action_view(action: Option<FsAction>) -> Option<ActionView> {
    match action {
        Some(a) => Some(a@),
        None => None,
    }
}

/// What the caller reports after performing an action.
#[derive(Debug, Clone, Copy, PartialEq, Eq, Structural)]
pub enum FsEvent {
    /// A copy or removal succeeded.
    Done,
    /// A copy or removal failed.
    Failed,
    /// A probe found something; `is_dir` tells whether it is a directory.
    Found { is_dir: bool },
    /// A probe found nothing.
    Missing,
}

/// What a disk holds at one path: its kind and its content. For a directory
/// the content stands for the whole tree below it.
pub struct Item {
    pub is_dir: bool,
    pub content: int,
}

/// A model of a disk: the items it holds, by path. Paths are independent of
/// each other in this model.
pub type Disk = Map<Seq<char>, Item>;

/// Whether `action` succeeds on `disk`. A copy needs its source and a
/// removal its target, each of the kind the action names.
pub open spec fn succeeds(disk: Disk, action: ActionView) -> bool {
    match action {
        ActionView::Probe { path } => true,
        ActionView::Copy { from, to, tree } => disk.contains_key(from) && disk[from].is_dir
            == tree,
        ActionView::Remove { path, tree } => disk.contains_key(path) && disk[path].is_dir == tree,
    }
}

/// The event that a working disk reports for `action`.
pub open spec fn respond(disk: Disk, action: ActionView) -> FsEvent {
    match action {
        ActionView::Probe { path } => if disk.contains_key(path) {
            FsEvent::Found { is_dir: disk[path].is_dir }
        } else {
            FsEvent::Missing
        },
        _ => if succeeds(disk, action) {
            FsEvent::Done
        } else {
            FsEvent::Failed
        },
    }
}

/// The disk after `action` has succeeded. A copy puts the source's item at
/// the destination; a removal leaves nothing at the path.
pub open spec fn effect(disk: Disk, action: ActionView) -> Disk {
    match action {
        ActionView::Probe { path } => disk,
        ActionView::Copy { from, to, tree } => disk.insert(to, disk[from]),
        ActionView::Remove { path, tree } => disk.remove(path),
    }
}

/// The disk after `action` was attempted and `event` reported. An action
/// that did not succeed leaves the disk as it was.
pub open spec fn after(disk: Disk, action: ActionView, event: FsEvent) -> Disk {
    if event == FsEvent::Done {
        effect(disk, action)
    } else {
        disk
    }
}

} // verus!
