//! Moving an item into the trash.
//!
//! The move is a copy followed by a removal, so that it also works across
//! storage volumes. If either step fails, what the copy has left in the
//! trash is removed again and the deletion fails: a failed deletion is meant
//! to leave the file system as it found it. The store gains its entry only
//! when both steps succeeded.

use vstd::prelude::*;
use crate::clock::Moment;
use crate::disk::{action_view, ActionView, FsAction, FsEvent};
use crate::error::TrashError;
use crate::meta::{FileMeta, MetaView};
use crate::paths::{
    guard,
    guard_verdict,
    has_base_name,
    join_path,
    joined,
    trash_id,
    trash_id_of,
    Resolved,
};
use crate::store::Store;

verus! {

/// How far a deletion has come.
#[derive(Debug, Clone, Copy, PartialEq, Eq, Structural)]
pub enum DeleteStage {
    /// The item is to be copied into the trash.
    Copying,
    /// The copy exists; the original is to be removed.
    Removing,
    /// The copy or the removal of the original failed; what lies in the
    /// trash is to be removed again.
    RollingBack,
    /// The item is in the trash and the store holds its entry.
    Succeeded,
    /// The deletion broke off for the given reason.
    Failed(TrashError),
}

/// A deletion in progress: the entry it will create and the stage it is at.
#[derive(Debug)]
pub struct DeleteRun {
    pub id: String,
    pub meta: FileMeta,
    pub stage: DeleteStage,
}

/// The mathematical content of a `DeleteRun`.
pub struct DeleteView {
    pub id: Seq<char>,
    pub meta: MetaView,
    pub stage: DeleteStage,
}

impl View for DeleteRun {
    type V = DeleteView;

    open spec fn view(&self) -> DeleteView {
        DeleteView { id: self.id@, meta: self.meta@, stage: self.stage }
    }
}

/// The run that a deletion request starts, or the reason it is refused.
/// `found` tells whether the path resolved to something that exists; `path`
/// and `is_dir` describe it. The entry is named after the item and the
/// instant `unix`, its copy lives under that name in `trash_dir`, and `text`
/// is recorded as its deletion time.
pub open spec fn delete_begin(
    found: bool,
    path: Seq<char>,
    is_dir: bool,
    expire_days: i64,
    force: bool,
    trash_dir: Seq<char>,
    unix: i64,
    text: Seq<char>,
) -> Result<DeleteView, TrashError> {
    match guard_verdict(found, path, force) {
        Err(e) => Err(e),
        Ok(_) => Ok(
            DeleteView {
                id: trash_id_of(path, unix as int),
                meta: MetaView {
                    original_path: path,
                    trash_path: joined(trash_dir, trash_id_of(path, unix as int)),
                    delete_time: text,
                    deleted_at: Some(unix),
                    expire_days: expire_days,
                    is_dir: is_dir,
                },
                stage: DeleteStage::Copying,
            },
        ),
    }
}

/// The view of a run that may have been refused.
pub open spec fn begun(r: Result<DeleteRun, TrashError>) -> Result<DeleteView, TrashError> {
    match r {
        Ok(run) => Ok(run@),
        Err(e) => Err(e),
    }
}

impl DeleteView {
    /// The action that the run waits for, if any.
    pub open spec fn action(self) -> Option<ActionView> {
        match self.stage {
            DeleteStage::Copying => Some(
                ActionView::Copy {
                    from: self.meta.original_path,
                    to: self.meta.trash_path,
                    tree: self.meta.is_dir,
                },
            ),
            DeleteStage::Removing => Some(
                ActionView::Remove { path: self.meta.original_path, tree: self.meta.is_dir },
            ),
            DeleteStage::RollingBack => Some(
                ActionView::Remove { path: self.meta.trash_path, tree: self.meta.is_dir },
            ),
            DeleteStage::Succeeded => None,
            DeleteStage::Failed(_) => None,
        }
    }

    /// The stage that follows when `event` is reported for the pending
    /// action. Only `Done` counts as success. What the rollback reports is
    /// not looked at: the deletion has failed either way.
    pub open spec fn next_stage(self, event: FsEvent) -> DeleteStage {
        match self.stage {
            DeleteStage::Copying => if event == FsEvent::Done {
                DeleteStage::Removing
            } else {
                DeleteStage::RollingBack
            },
            DeleteStage::Removing => if event == FsEvent::Done {
                DeleteStage::Succeeded
            } else {
                DeleteStage::RollingBack
            },
            DeleteStage::RollingBack => DeleteStage::Failed(TrashError::IoFailure),
            DeleteStage::Succeeded => DeleteStage::Succeeded,
            DeleteStage::Failed(e) => DeleteStage::Failed(e),
        }
    }

    /// The run after `event`.
    pub open spec fn advanced(self, event: FsEvent) -> DeleteView {
        DeleteView { stage: self.next_stage(event), ..self }
    }

    /// The store after `event`: it gains the entry exactly when the removal
    /// of the original succeeds.
    pub open spec fn store_after(
        self,
        event: FsEvent,
        store: Map<Seq<char>, MetaView>,
    ) -> Map<Seq<char>, MetaView> {
        if self.stage == DeleteStage::Removing && event == FsEvent::Done {
            store.insert(self.id, self.meta)
        } else {
            store
        }
    }

    /// How the run ended, once it is finished.
    pub open spec fn outcome(self) -> Option<Result<(), TrashError>> {
        match self.stage {
            DeleteStage::Succeeded => Some(Ok(())),
            DeleteStage::Failed(e) => Some(Err(e)),
            _ => None,
        }
    }
}

impl DeleteRun {
    /// Starts the deletion of a resolved path at `moment`. `resolved` is
    /// `None` when the path does not exist or could not be resolved. The
    /// path must name something (the root directory does not).
    pub fn begin(
        resolved: Option<Resolved>,
        expire_days: i64,
        force: bool,
        trash_dir: &str,
        moment: Moment,
    ) -> (r: Result<DeleteRun, TrashError>)
        requires
            resolved matches Some(found) ==> has_base_name(found.path@),
        ensures
            begun(r) == match resolved {
                Some(found) => delete_begin(
                    true,
                    found.path@,
                    found.is_dir,
                    expire_days,
                    force,
                    trash_dir@,
                    moment.unix,
                    moment.text@,
                ),
                None => Err(TrashError::NotFound),
            },
    {
        match guard(&resolved, force) {
            Err(e) => Err(e),
            Ok(_) => {
                let found = resolved.unwrap();
                let id = trash_id(found.path.as_str(), moment.unix);
                let trash_path = join_path(trash_dir, id.as_str());
                Ok(
                    DeleteRun {
                        id,
                        meta: FileMeta {
                            original_path: found.path,
                            trash_path,
                            delete_time: moment.text,
                            deleted_at: Some(moment.unix),
                            expire_days,
                            is_dir: found.is_dir,
                        },
                        stage: DeleteStage::Copying,
                    },
                )
            },
        }
    }

    /// The action to perform next, or `None` when the run is finished.
    pub fn action(&self) -> (a: Option<FsAction>)
        ensures
            action_view(a) == self@.action(),
    {
        match self.stage {
            DeleteStage::Copying => Some(
                FsAction::Copy {
                    from: self.meta.original_path.clone(),
                    to: self.meta.trash_path.clone(),
                    tree: self.meta.is_dir,
                },
            ),
            DeleteStage::Removing => Some(
                FsAction::Remove { path: self.meta.original_path.clone(), tree: self.meta.is_dir },
            ),
            DeleteStage::RollingBack => Some(
                FsAction::Remove { path: self.meta.trash_path.clone(), tree: self.meta.is_dir },
            ),
            DeleteStage::Succeeded => None,
            DeleteStage::Failed(_) => None,
        }
    }

    /// Takes the report on the pending action and moves on. The entry is
    /// inserted into `store` when the original has been removed.
    pub fn advance(&mut self, event: FsEvent, store: &mut Store)
        ensures
            final(self)@ == old(self)@.advanced(event),
            final(store)@ == old(self)@.store_after(event, old(store)@),
    {
        let done = match event {
            FsEvent::Done => true,
            _ => false,
        };
        match self.stage {
            DeleteStage::Copying => {
                if done {
                    self.stage = DeleteStage::Removing;
                } else {
                    self.stage = DeleteStage::RollingBack;
                }
            },
            DeleteStage::Removing => {
                if done {
                    store.insert(self.id.clone(), self.meta.clone());
                    self.stage = DeleteStage::Succeeded;
                } else {
                    self.stage = DeleteStage::RollingBack;
                }
            },
            DeleteStage::RollingBack => {
                self.stage = DeleteStage::Failed(TrashError::IoFailure);
            },
            DeleteStage::Succeeded => {},
            DeleteStage::Failed(_) => {},
        }
    }

    /// How the run ended, or `None` while it is still in progress.
    pub fn outcome(&self) -> (r: Option<Result<(), TrashError>>)
        ensures
            r == self@.outcome(),
    {
        match self.stage {
            DeleteStage::Succeeded => Some(Ok(())),
            DeleteStage::Failed(e) => Some(Err(e)),
            _ => None,
        }
    }
}

/// Starts the deletion of a resolved path now: reads the clock and begins
/// the run at that moment.
pub fn handle_delete(
    resolved: Option<Resolved>,
    expire_days: i64,
    force: bool,
    trash_dir: &str,
) -> (r: Result<DeleteRun, TrashError>)
    requires
        resolved matches Some(found) ==> has_base_name(found.path@),
    ensures
        match resolved {
            Some(found) => exists|unix: i64, text: Seq<char>|
                begun(r) == #[trigger] delete_begin(
                    true,
                    found.path@,
                    found.is_dir,
                    expire_days,
                    force,
                    trash_dir@,
                    unix,
                    text,
                ),
            None => begun(r) == Err::<DeleteView, TrashError>(TrashError::NotFound),
        },
{
    DeleteRun::begin(resolved, expire_days, force, trash_dir, Moment::now())
}

} // verus!
