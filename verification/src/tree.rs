//! Copying a directory tree, one file-system call at a time.
//!
//! A tree is copied depth first: the destination directory is created, the
//! source directory is listed, and its items are handled in listing order, a
//! subdirectory completely before the item that follows it. The first
//! failure ends the walk; what has been copied by then stays where it is.
//!
//! The walk keeps the work that is still to do on a stack. The caller performs
//! each action and reports the result.

use vstd::prelude::*;
use crate::paths::{join_path, joined};

verus! {

/// One item of a directory listing: its name within the directory, and
/// whether it is itself a directory.
#[derive(Debug)]
pub struct DirItem {
    pub name: String,
    pub is_dir: bool,
}

/// The mathematical content of a `DirItem`.
pub struct ItemView {
    pub name: Seq<char>,
    pub is_dir: bool,
}

impl View for DirItem {
    type V = ItemView;

    open spec fn view(&self) -> ItemView {
        ItemView { name: self.name@, is_dir: self.is_dir }
    }
}

/// The views of a listing.
pub open spec fn items_view(items: Seq<DirItem>) -> Seq<ItemView> {
    Seq::new(items.len(), |i: int| items[i]@)
}

/// A piece of work that is still to do: copy `from` to `to`, as a directory
/// or as a single file.
#[derive(Debug)]
pub struct Task {
    pub from: String,
    pub to: String,
    pub is_dir: bool,
}

/// The mathematical content of a `Task`.
pub struct TaskView {
    pub from: Seq<char>,
    pub to: Seq<char>,
    pub is_dir: bool,
}

impl View for Task {
    type V = TaskView;

    open spec fn view(&self) -> TaskView {
        TaskView { from: self.from@, to: self.to@, is_dir: self.is_dir }
    }
}

/// The views of a stack of tasks.
pub open spec fn tasks_view(tasks: Seq<Task>) -> Seq<TaskView> {
    Seq::new(tasks.len(), |i: int| tasks[i]@)
}

/// One request of the walk to the file system.
#[derive(Debug)]
pub enum TreeAction {
    /// Create the directory `path`, with any missing parents; it may exist
    /// already.
    MakeDir { path: String },
    /// List the items of the directory `path`.
    ListDir { path: String },
    /// Copy the single file `from` to `to`.
    CopyFile { from: String, to: String },
}

/// The mathematical content of a `TreeAction`.
pub enum TreeActionView {
    MakeDir { path: Seq<char> },
    ListDir { path: Seq<char> },
    CopyFile { from: Seq<char>, to: Seq<char> },
}

impl View for TreeAction {
    type V = TreeActionView;

    open spec fn view(&self) -> TreeActionView {
        match self {
            TreeAction::MakeDir { path } => TreeActionView::MakeDir { path: path@ },
            TreeAction::ListDir { path } => TreeActionView::ListDir { path: path@ },
            TreeAction::CopyFile { from, to } => TreeActionView::CopyFile { from: from@, to: to@ },
        }
    }
}

/// The view of an action that may be absent.
pub open spec fn tree_action_view(action: Option<TreeAction>) -> Option<TreeActionView> {
    match action {
        Some(a) => Some(a@),
        None => None,
    }
}

/// What the caller reports after performing an action of the walk.
#[derive(Debug)]
pub enum TreeEvent {
    /// A directory was created or a file copied.
    Done,
    /// The action failed.
    Failed,
    /// The items of the listed directory, in listing order.
    Listing(Vec<DirItem>),
}

/// The mathematical content of a `TreeEvent`.
pub enum TreeEventView {
    Done,
    Failed,
    Listing(Seq<ItemView>),
}

impl View for TreeEvent {
    type V = TreeEventView;

    open spec fn view(&self) -> TreeEventView {
        match self {
            TreeEvent::Done => TreeEventView::Done,
            TreeEvent::Failed => TreeEventView::Failed,
            TreeEvent::Listing(items) => TreeEventView::Listing(items_view(items@)),
        }
    }
}

/// Where the walk stands.
#[derive(Debug, Clone, Copy, PartialEq, Eq, Structural)]
pub enum TreeStage {
    /// The destination directory of the current task is to be created.
    MakeDir,
    /// The source directory of the current task is to be listed.
    ListDir,
    /// The file of the current task is to be copied.
    CopyFile,
    /// Everything has been copied.
    Succeeded,
    /// An action failed; the walk is over.
    Failed,
}

/// A walk in progress: the current task, and the stack of tasks that are
/// still to do. The last task of the stack is the next one.
#[derive(Debug)]
pub struct TreeCopy {
    pub stage: TreeStage,
    pub from: String,
    pub to: String,
    pub pending: Vec<Task>,
}

/// The mathematical content of a `TreeCopy`.
pub struct TreeView {
    pub stage: TreeStage,
    pub from: Seq<char>,
    pub to: Seq<char>,
    pub pending: Seq<TaskView>,
}

impl View for TreeCopy {
    type V = TreeView;

    open spec fn view(&self) -> TreeView {
        TreeView {
            stage: self.stage,
            from: self.from@,
            to: self.to@,
            pending: tasks_view(self.pending@),
        }
    }
}

/// The task for one item of the directory `from`, which is copied to `to`.
pub open spec fn child_task(from: Seq<char>, to: Seq<char>, item: ItemView) -> TaskView {
    TaskView { from: joined(from, item.name), to: joined(to, item.name), is_dir: item.is_dir }
}

/// The tasks for the items of a listing, stacked so that the first item of
/// the listing is the next task.
pub open spec fn stacked(from: Seq<char>, to: Seq<char>, items: Seq<ItemView>) -> Seq<TaskView> {
    Seq::new(items.len(), |j: int| child_task(from, to, items[items.len() - 1 - j]))
}

/// The walk at its start: the directory `from` is to be copied to `to`.
pub open spec fn tree_start(from: Seq<char>, to: Seq<char>) -> TreeView {
    TreeView { stage: TreeStage::MakeDir, from: from, to: to, pending: Seq::empty() }
}

impl TreeView {
    /// The action that the walk waits for, if any.
    pub open spec fn action(self) -> Option<TreeActionView> {
        match self.stage {
            TreeStage::MakeDir => Some(TreeActionView::MakeDir { path: self.to }),
            TreeStage::ListDir => Some(TreeActionView::ListDir { path: self.from }),
            TreeStage::CopyFile => Some(TreeActionView::CopyFile { from: self.from, to: self.to }),
            TreeStage::Succeeded => None,
            TreeStage::Failed => None,
        }
    }

    /// The walk once its current task is finished: it turns to the next
    /// task of the stack, or has succeeded when there is none.
    pub open spec fn resumed(self) -> TreeView {
        if self.pending.len() == 0 {
            TreeView { stage: TreeStage::Succeeded, ..self }
        } else {
            let next = self.pending.last();
            TreeView {
                stage: if next.is_dir {
                    TreeStage::MakeDir
                } else {
                    TreeStage::CopyFile
                },
                from: next.from,
                to: next.to,
                pending: self.pending.drop_last(),
            }
        }
    }

    /// The walk with `stage` as its only change.
    pub open spec fn at_stage(self, stage: TreeStage) -> TreeView {
        TreeView { stage: stage, ..self }
    }

    /// The walk after `event` has been reported for the pending action.
    pub open spec fn advanced(self, event: TreeEventView) -> TreeView {
        match self.stage {
            TreeStage::MakeDir => match event {
                TreeEventView::Done => self.at_stage(TreeStage::ListDir),
                _ => self.at_stage(TreeStage::Failed),
            },
            TreeStage::ListDir => match event {
                TreeEventView::Listing(items) => TreeView {
                    pending: self.pending + stacked(self.from, self.to, items),
                    ..self
                }.resumed(),
                _ => self.at_stage(TreeStage::Failed),
            },
            TreeStage::CopyFile => match event {
                TreeEventView::Done => self.resumed(),
                _ => self.at_stage(TreeStage::Failed),
            },
            TreeStage::Succeeded => self,
            TreeStage::Failed => self,
        }
    }

    /// How the walk ended, once it is over: `true` for success.
    pub open spec fn outcome(self) -> Option<bool> {
        match self.stage {
            TreeStage::Succeeded => Some(true),
            TreeStage::Failed => Some(false),
            _ => None,
        }
    }
}

impl TreeCopy {
    /// Starts the copy of the directory `from` to `to`.
    pub fn start(from: &str, to: &str) -> (walk: TreeCopy)
        ensures
            walk@ == tree_start(from@, to@),
    {
        let walk = TreeCopy {
            stage: TreeStage::MakeDir,
            from: String::from_str(from),
            to: String::from_str(to),
            pending: Vec::new(),
        };
        assert(walk@.pending =~= Seq::<TaskView>::empty());
        walk
    }

    /// The action to perform next, or `None` when the walk is over.
    pub fn action(&self) -> (a: Option<TreeAction>)
        ensures
            tree_action_view(a) == self@.action(),
    {
        match self.stage {
            TreeStage::MakeDir => Some(TreeAction::MakeDir { path: self.to.clone() }),
            TreeStage::ListDir => Some(TreeAction::ListDir { path: self.from.clone() }),
            TreeStage::CopyFile => Some(
                TreeAction::CopyFile { from: self.from.clone(), to: self.to.clone() },
            ),
            TreeStage::Succeeded => None,
            TreeStage::Failed => None,
        }
    }

    /// Turns to the next task of the stack.
    fn resume(&mut self)
        ensures
            final(self)@ == old(self)@.resumed(),
    {
        match self.pending.pop() {
            None => {
                self.stage = TreeStage::Succeeded;
            },
            Some(next) => {
                self.stage = if next.is_dir {
                    TreeStage::MakeDir
                } else {
                    TreeStage::CopyFile
                };
                self.from = next.from;
                self.to = next.to;
                assert(tasks_view(self.pending@) =~= tasks_view(old(self).pending@).drop_last());
            },
        }
    }

    /// Puts the tasks for the items of the current directory on the stack.
    fn stack_items(&mut self, items: Vec<DirItem>)
        ensures
            final(self)@ == (TreeView {
                pending: old(self)@.pending + stacked(
                    old(self)@.from,
                    old(self)@.to,
                    items_view(items@),
                ),
                ..old(self)@
            }),
    {
        let mut rest = items;
        let ghost all = items_view(items@);
        let ghost n = all.len() as int;
        proof {
            assert(tasks_view(self.pending@) =~= old(self)@.pending + Seq::new(
                0,
                |j: int| child_task(self.from@, self.to@, all[n - 1 - j]),
            ));
        }
        while rest.len() > 0
            invariant
                rest@.len() <= n,
                n == all.len(),
                items_view(rest@) == all.take(rest@.len() as int),
                self.stage == old(self).stage,
                self.from@ == old(self).from@,
                self.to@ == old(self).to@,
                tasks_view(self.pending@) == old(self)@.pending + Seq::new(
                    (n - rest@.len()) as nat,
                    |j: int| child_task(self.from@, self.to@, all[n - 1 - j]),
                ),
            decreases rest.len(),
        {
            let ghost before = self.pending@;
            let ghost left = rest@.len() as int;
            let ghost full = rest@;
            let item = rest.pop().unwrap();
            proof {
                assert(items_view(rest@) =~= all.take(left - 1));
                assert(item@ == items_view(full)[left - 1]);
                assert(item@ == all[left - 1]);
            }
            let from = join_path(self.from.as_str(), item.name.as_str());
            let to = join_path(self.to.as_str(), item.name.as_str());
            self.pending.push(Task { from, to, is_dir: item.is_dir });
            proof {
                assert(tasks_view(self.pending@) =~= tasks_view(before).push(
                    child_task(self.from@, self.to@, all[left - 1]),
                ));
                assert(tasks_view(self.pending@) =~= old(self)@.pending + Seq::new(
                    (n - rest@.len()) as nat,
                    |j: int| child_task(self.from@, self.to@, all[n - 1 - j]),
                ));
            }
        }
        proof {
            assert(self@.pending =~= old(self)@.pending + stacked(
                old(self)@.from,
                old(self)@.to,
                all,
            ));
        }
    }

    /// Takes the report on the pending action and moves on.
    pub fn advance(&mut self, event: TreeEvent)
        ensures
            final(self)@ == old(self)@.advanced(event@),
    {
        match self.stage {
            TreeStage::MakeDir => match event {
                TreeEvent::Done => {
                    self.stage = TreeStage::ListDir;
                },
                _ => {
                    self.stage = TreeStage::Failed;
                },
            },
            TreeStage::ListDir => match event {
                TreeEvent::Listing(items) => {
                    self.stack_items(items);
                    self.resume();
                },
                _ => {
                    self.stage = TreeStage::Failed;
                },
            },
            TreeStage::CopyFile => match event {
                TreeEvent::Done => {
                    self.resume();
                },
                _ => {
                    self.stage = TreeStage::Failed;
                },
            },
            TreeStage::Succeeded => {},
            TreeStage::Failed => {},
        }
    }

    /// How the walk ended, or `None` while it is still in progress.
    pub fn outcome(&self) -> (r: Option<bool>)
        ensures
            r == self@.outcome(),
    {
        match self.stage {
            TreeStage::Succeeded => Some(true),
            TreeStage::Failed => Some(false),
            _ => None,
        }
    }
}

/// Starts the copy of a directory tree into the trash.
pub fn copy_dir_all(src: &str, dst: &str) -> (walk: TreeCopy)
    ensures
        walk@ == tree_start(src@, dst@),
{
    TreeCopy::start(src, dst)
}

/// Starts the copy of a directory tree from the trash back to its place.
pub fn restore_dir_all(src: &str, dst: &str) -> (walk: TreeCopy)
    ensures
        walk@ == tree_start(src@, dst@),
{
    TreeCopy::start(src, dst)
}

} // verus!
