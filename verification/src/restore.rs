//! Bringing an item back from the trash.
//!
//! A restore looks the entry up, makes sure that its trash copy still exists
//! and that the original place is free (or may be cleared), copies the
//! content back and removes the trash copy. The entry leaves the store once
//! the content has been copied back, whether or not the trash copy could be
//! removed; before that point every failure leaves the entry in place.

use vstd::prelude::*;
use crate::disk::{action_view, ActionView, FsAction, FsEvent};
use crate::error::TrashError;
use crate::meta::{FileMeta, MetaView};
use crate::store::Store;

verus! {

/// How far a restore has come.
#[derive(Debug, Clone, Copy, PartialEq, Eq, Structural)]
pub enum RestoreStage {
    /// The trash copy is to be probed.
    ProbeTrash,
    /// The original place is to be probed.
    ProbeTarget,
    /// Something occupies the original place and is to be removed;
    /// `tree` tells whether it is a directory.
    ClearTarget { tree: bool },
    /// The content is to be copied back.
    CopyBack,
    /// The content is back; the trash copy is to be removed.
    RemoveTrash,
    /// The item is restored and its entry dropped.
    Succeeded,
    /// The restore broke off for the given reason.
    Failed(TrashError),
}

/// A restore in progress.
#[derive(Debug)]
pub struct RestoreRun {
    pub id: String,
    pub meta: FileMeta,
    pub force: bool,
    pub stage: RestoreStage,
}

/// The mathematical content of a `RestoreRun`.
pub struct RestoreView {
    pub id: Seq<char>,
    pub meta: MetaView,
    pub force: bool,
    pub stage: RestoreStage,
}

impl View for RestoreRun {
    type V = RestoreView;

    open spec fn view(&self) -> RestoreView {
        RestoreView { id: self.id@, meta: self.meta@, force: self.force, stage: self.stage }
    }
}

/// The run that a restore request starts: the entry must be in the store.
pub open spec fn restore_begin(
    id: Seq<char>,
    force: bool,
    store: Map<Seq<char>, MetaView>,
) -> Result<RestoreView, TrashError> {
    if store.contains_key(id) {
        Ok(RestoreView { id: id, meta: store[id], force: force, stage: RestoreStage::ProbeTrash })
    } else {
        Err(TrashError::NotFound)
    }
}

/// The view of a run that may have been refused.
pub open spec fn begun(r: Result<RestoreRun, TrashError>) -> Result<RestoreView, TrashError> {
    match r {
        Ok(run) => Ok(run@),
        Err(e) => Err(e),
    }
}

impl RestoreView {
    /// The action that the run waits for, if any.
    pub open spec fn action(self) -> Option<ActionView> {
        match self.stage {
            RestoreStage::ProbeTrash => Some(ActionView::Probe { path: self.meta.trash_path }),
            RestoreStage::ProbeTarget => Some(ActionView::Probe { path: self.meta.original_path }),
            RestoreStage::ClearTarget { tree } => Some(
                ActionView::Remove { path: self.meta.original_path, tree: tree },
            ),
            RestoreStage::CopyBack => Some(
                ActionView::Copy {
                    from: self.meta.trash_path,
                    to: self.meta.original_path,
                    tree: self.meta.is_dir,
                },
            ),
            RestoreStage::RemoveTrash => Some(
                ActionView::Remove { path: self.meta.trash_path, tree: self.meta.is_dir },
            ),
            RestoreStage::Succeeded => None,
            RestoreStage::Failed(_) => None,
        }
    }

    /// The stage that follows when `event` is reported for the pending
    /// action. A probe counts as a hit only on `Found`; a copy or removal
    /// counts as a success only on `Done`. What clearing the original place
    /// reports is not looked at: the copy that follows decides.
    pub open spec fn next_stage(self, event: FsEvent) -> RestoreStage {
        match self.stage {
            RestoreStage::ProbeTrash => match event {
                FsEvent::Found { is_dir } => RestoreStage::ProbeTarget,
                _ => RestoreStage::Failed(TrashError::MissingContent),
            },
            RestoreStage::ProbeTarget => match event {
                FsEvent::Found { is_dir } => if self.force {
                    RestoreStage::ClearTarget { tree: is_dir }
                } else {
                    RestoreStage::Failed(TrashError::Conflict)
                },
                _ => RestoreStage::CopyBack,
            },
            RestoreStage::ClearTarget { tree } => RestoreStage::CopyBack,
            RestoreStage::CopyBack => if event == FsEvent::Done {
                RestoreStage::RemoveTrash
            } else {
                RestoreStage::Failed(TrashError::IoFailure)
            },
            RestoreStage::RemoveTrash => if event == FsEvent::Done {
                RestoreStage::Succeeded
            } else {
                RestoreStage::Failed(TrashError::IoFailure)
            },
            RestoreStage::Succeeded => RestoreStage::Succeeded,
            RestoreStage::Failed(e) => RestoreStage::Failed(e),
        }
    }

    /// The run after `event`.
    pub open spec fn advanced(self, event: FsEvent) -> RestoreView {
        RestoreView { stage: self.next_stage(event), ..self }
    }

    /// The store after `event`: the entry is dropped when the removal of the
    /// trash copy has been attempted, whatever came of it.
    pub open spec fn store_after(
        self,
        event: FsEvent,
        store: Map<Seq<char>, MetaView>,
    ) -> Map<Seq<char>, MetaView> {
        if self.stage == RestoreStage::RemoveTrash {
            store.remove(self.id)
        } else {
            store
        }
    }

    /// How the run ended, once it is finished.
    pub open spec fn outcome(self) -> Option<Result<(), TrashError>> {
        match self.stage {
            RestoreStage::Succeeded => Some(Ok(())),
            RestoreStage::Failed(e) => Some(Err(e)),
            _ => None,
        }
    }
}

impl RestoreRun {
    /// The action to perform next, or `None` when the run is finished.
    pub fn action(&self) -> (a: Option<FsAction>)
        ensures
            action_view(a) == self@.action(),
    {
        match self.stage {
            RestoreStage::ProbeTrash => Some(FsAction::Probe { path: self.meta.trash_path.clone() }),
            RestoreStage::ProbeTarget => Some(
                FsAction::Probe { path: self.meta.original_path.clone() },
            ),
            RestoreStage::ClearTarget { tree } => Some(
                FsAction::Remove { path: self.meta.original_path.clone(), tree },
            ),
            RestoreStage::CopyBack => Some(
                FsAction::Copy {
                    from: self.meta.trash_path.clone(),
                    to: self.meta.original_path.clone(),
                    tree: self.meta.is_dir,
                },
            ),
            RestoreStage::RemoveTrash => Some(
                FsAction::Remove { path: self.meta.trash_path.clone(), tree: self.meta.is_dir },
            ),
            RestoreStage::Succeeded => None,
            RestoreStage::Failed(_) => None,
        }
    }

    /// Takes the report on the pending action and moves on. The entry is
    /// dropped from `store` when the removal of the trash copy is reported.
    pub fn advance(&mut self, event: FsEvent, store: &mut Store)
        ensures
            final(self)@ == old(self)@.advanced(event),
            final(store)@ == old(self)@.store_after(event, old(store)@),
    {
        let done = match event {
            FsEvent::Done => true,
            _ => false,
        };
        match self.stage {
            RestoreStage::ProbeTrash => {
                match event {
                    FsEvent::Found { is_dir } => {
                        self.stage = RestoreStage::ProbeTarget;
                    },
                    _ => {
                        self.stage = RestoreStage::Failed(TrashError::MissingContent);
                    },
                }
            },
            RestoreStage::ProbeTarget => {
                match event {
                    FsEvent::Found { is_dir } => {
                        if self.force {
                            self.stage = RestoreStage::ClearTarget { tree: is_dir };
                        } else {
                            self.stage = RestoreStage::Failed(TrashError::Conflict);
                        }
                    },
                    _ => {
                        self.stage = RestoreStage::CopyBack;
                    },
                }
            },
            RestoreStage::ClearTarget { tree } => {
                self.stage = RestoreStage::CopyBack;
            },
            RestoreStage::CopyBack => {
                if done {
                    self.stage = RestoreStage::RemoveTrash;
                } else {
                    self.stage = RestoreStage::Failed(TrashError::IoFailure);
                }
            },
            RestoreStage::RemoveTrash => {
                store.remove(self.id.as_str());
                if done {
                    self.stage = RestoreStage::Succeeded;
                } else {
                    self.stage = RestoreStage::Failed(TrashError::IoFailure);
                }
            },
            RestoreStage::Succeeded => {},
            RestoreStage::Failed(_) => {},
        }
    }

    /// How the run ended, or `None` while it is still in progress.
    pub fn outcome(&self) -> (r: Option<Result<(), TrashError>>)
        ensures
            r == self@.outcome(),
    {
        match self.stage {
            RestoreStage::Succeeded => Some(Ok(())),
            RestoreStage::Failed(e) => Some(Err(e)),
            _ => None,
        }
    }
}

/// Starts the restore of the entry `name`. Fails with `NotFound` when the
/// store has no such entry; the store itself is not changed here.
pub fn handle_restore(name: &str, force: bool, store: &Store) -> (r: Result<
    RestoreRun,
    TrashError,
>)
    ensures
        begun(r) == restore_begin(name@, force, store@),
{
    match store.get(name) {
        None => Err(TrashError::NotFound),
        Some(meta) => Ok(
            RestoreRun {
                id: String::from_str(name),
                meta: meta.clone(),
                force,
                stage: RestoreStage::ProbeTrash,
            },
        ),
    }
}

} // verus!
